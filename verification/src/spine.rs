//! The skeleton-format data model, as far as it is exact: slots, draw
//! order, constraint modes and the inheritance setting a bone declares.
//! These are the values a skeleton file supplies to the propagation core;
//! reading the file itself is left to the host application.

use vstd::prelude::*;

verus! {

use crate::constraint::TransformPropagationConstraint;

/// How a slot's attachment is blended when drawn.
#[derive(Clone, Copy, Debug, PartialEq, Eq, Structural)]
pub enum SlotBlend {
    Normal,
    Additive,
    Multiply,
    Screen,
}

/// A draw slot: a named attachment point on a bone.
#[derive(Clone, Debug, PartialEq, Eq)]
pub struct Slot {
    pub name: String,
    pub bone: String,
    pub color: String,
    pub dark: Option<String>,
    pub attachment: Option<String>,
    pub blend: Option<SlotBlend>,
}

/// How a path constraint measures its position.
#[derive(Clone, Copy, Debug, PartialEq, Eq, Structural)]
pub enum PositionMode {
    Fixed,
    Percent,
}

impl Default for PositionMode {
    fn default() -> (r: Self)
        ensures
            r == PositionMode::Percent,
    {
        PositionMode::Percent
    }
}

/// How a path constraint spaces the constrained bones.
#[derive(Clone, Copy, Debug, PartialEq, Eq, Structural)]
pub enum SpacingMode {
    Length,
    Fixed,
    Percent,
}

impl Default for SpacingMode {
    fn default() -> (r: Self)
        ensures
            r == SpacingMode::Length,
    {
        SpacingMode::Length
    }
}

/// How a path constraint rotates the constrained bones.
#[derive(Clone, Copy, Debug, PartialEq, Eq, Structural)]
pub enum RotateMode {
    Tangent,
    Chain,
    ChainScale,
}

impl Default for RotateMode {
    fn default() -> (r: Self)
        ensures
            r == RotateMode::Tangent,
    {
        RotateMode::Tangent
    }
}

/// One slot displacement inside a draw-order keyframe.
#[derive(Clone, Debug, PartialEq, Eq)]
pub struct DrawOrderOffset {
    pub slot: String,
    pub offset: i32,
}

/// What a bone inherits from its parent, as the skeleton format spells
/// it; each variant names one propagation constraint.
#[derive(Clone, Copy, Debug, PartialEq, Eq, Structural)]
pub enum InheritTransform {
    Normal,
    OnlyTranslation,
    NoRotationOrReflection,
    NoScale,
    NoScaleOrReflection,
}

impl Default for InheritTransform {
    fn default() -> (r: Self)
        ensures
            r == InheritTransform::Normal,
    {
        InheritTransform::Normal
    }
}

/// The constraint a bone's inheritance setting stands for.
pub open spec fn spec_constraint_of(t: InheritTransform) -> TransformPropagationConstraint {
    match t {
        InheritTransform::Normal => TransformPropagationConstraint::Normal,
        InheritTransform::OnlyTranslation => TransformPropagationConstraint::OnlyTranslation,
        InheritTransform::NoRotationOrReflection => TransformPropagationConstraint::NoRotationOrReflection,
        InheritTransform::NoScale => TransformPropagationConstraint::NoScale,
        InheritTransform::NoScaleOrReflection => TransformPropagationConstraint::NoScaleOrReflection,
    }
}

impl InheritTransform {
    /// The propagation constraint this inheritance setting asks for.
    pub fn to_constraint(&self) -> (r: TransformPropagationConstraint)
        ensures
            r == spec_constraint_of(*self),
    {
        match self {
            InheritTransform::Normal => TransformPropagationConstraint::Normal,
            InheritTransform::OnlyTranslation => TransformPropagationConstraint::OnlyTranslation,
            InheritTransform::NoRotationOrReflection => TransformPropagationConstraint::NoRotationOrReflection,
            InheritTransform::NoScale => TransformPropagationConstraint::NoScale,
            InheritTransform::NoScaleOrReflection => TransformPropagationConstraint::NoScaleOrReflection,
        }
    }
}

/// Frame rate a skeleton assumes when its file names none.
pub fn default_fps() -> (r: u32)
    ensures
        r == 30,
{
    30
}

/// The flag value the format assumes for an omitted inherit flag.
pub fn yes() -> (r: bool)
    ensures
        r,
{
    true
}

/// The colour a bone shows when its file names none.
pub fn bone_default_color() -> (r: String)
    ensures
        r@ == "989898FF"@,
{
    "989898FF".to_owned()
}

/// The colour a slot shows when its file names none.
pub fn white_color() -> (r: String)
    ensures
        r@ == "FFFFFFFF"@,
{
    "FFFFFFFF".to_owned()
}

} // verus!
