//! The texture-atlas text format: a page header (name, size, format,
//! filter, repeat) followed by named regions, each a block of
//! `key: value` lines.
//!
//! The grammar here is line-oriented: lines are split on newlines and
//! trimmed; blank lines are ignored.  After the five header lines, a
//! line of the shape `key: value` with one of the region keys extends
//! the current region, and any other non-blank line opens a new region
//! named by that whole line.  Numbers are plain decimals with an
//! optional leading minus; a malformed value is a parse error.  Only
//! ASCII input is accepted.

use vstd::prelude::*;

verus! {

/// Pixel format of the atlas page.
#[derive(Clone, Copy, Debug, PartialEq, Eq, Structural)]
pub enum Format {
    Alpha,
    Intensity,
    LuminanceAlpha,
    RGB565,
    RGBA4444,
    RGB888,
    RGBA8888,
}

/// One of the texture filter settings.
#[derive(Clone, Copy, Debug, PartialEq, Eq, Structural)]
pub enum FilterSetting {
    Nearest,
    Linear,
    MipMap,
    MipMapNearestNearest,
    MipMapLinearNearest,
    MipMapNearestLinear,
    MipMapLinearLinear,
}

/// Minification and magnification filters of the page.
#[derive(Clone, Copy, Debug, PartialEq, Eq, Structural)]
pub struct Filter {
    pub minification: FilterSetting,
    pub magnification: FilterSetting,
}

/// Texture wrapping of the page.
#[derive(Clone, Copy, Debug, PartialEq, Eq, Structural)]
pub enum Repeat {
    X,
    Y,
    XY,
    No,
}

/// A width/height pair.
#[derive(Clone, Copy, Debug, PartialEq, Eq, Structural)]
pub struct Size {
    pub width: u64,
    pub height: u64,
}

/// A coordinate pair.
#[derive(Clone, Copy, Debug, PartialEq, Eq, Structural)]
pub struct Point {
    pub x: i64,
    pub y: i64,
}

/// Nine-patch split margins.
#[derive(Clone, Copy, Debug, PartialEq, Eq, Structural)]
pub struct Split {
    pub left: u64,
    pub right: u64,
    pub top: u64,
    pub bottom: u64,
}

/// Nine-patch padding.
#[derive(Clone, Copy, Debug, PartialEq, Eq, Structural)]
pub struct Pad {
    pub left: i64,
    pub right: i64,
    pub top: i64,
    pub bottom: i64,
}

/// One packed region of the page.
#[derive(Clone, Debug, PartialEq, Eq)]
pub struct Region {
    pub name: String,
    pub rotate: bool,
    pub xy: Point,
    pub size: Size,
    pub orig: Point,
    pub offset: Point,
    pub index: i64,
    pub split: Option<Split>,
    pub pad: Option<Pad>,
}

/// A parsed atlas page.
#[derive(Clone, Debug, PartialEq, Eq)]
pub struct Atlas {
    pub name: String,
    pub size: Size,
    pub format: Format,
    pub filter: Filter,
    pub repeat: Repeat,
    pub regions: Vec<Region>,
}

/// Why a parse was rejected.
#[derive(Clone, Copy, Debug, PartialEq, Eq, Structural)]
pub enum AtlasError {
    /// The input held a byte outside the ASCII range.
    NotAscii,
    /// The input does not follow the atlas grammar.
    Malformed,
}

/// One region value as its line states it.
#[derive(Clone, Copy, Debug, PartialEq, Eq, Structural)]
pub enum RValue {
    RRotate(bool),
    RXy(Point),
    RSize(Size),
    ROrig(Point),
    ROffset(Point),
    RIndex(i64),
    RSplit(Split),
    RPad(Pad),
}

/// A region with its name as a character sequence: the shape the
/// grammar's specification speaks about.
pub ghost struct RegionSpec {
    pub name: Seq<char>,
    pub rotate: bool,
    pub xy: Point,
    pub size: Size,
    pub orig: Point,
    pub offset: Point,
    pub index: i64,
    pub split: Option<Split>,
    pub pad: Option<Pad>,
}

/// An atlas with its names as character sequences.
pub ghost struct AtlasSpec {
    pub name: Seq<char>,
    pub size: Size,
    pub format: Format,
    pub filter: Filter,
    pub repeat: Repeat,
    pub regions: Seq<RegionSpec>,
}

/// The character-level content of a parsed region.
pub open spec fn region_view(r: Region) -> RegionSpec {
    RegionSpec {
        name: r.name@,
        rotate: r.rotate,
        xy: r.xy,
        size: r.size,
        orig: r.orig,
        offset: r.offset,
        index: r.index,
        split: r.split,
        pad: r.pad,
    }
}

/// The character-level content of a parsed atlas.
pub open spec fn atlas_view(a: Atlas) -> AtlasSpec {
    AtlasSpec {
        name: a.name@,
        size: a.size,
        format: a.format,
        filter: a.filter,
        repeat: a.repeat,
        regions: a.regions@.map(|i: int, r: Region| region_view(r)),
    }
}

pub open spec fn is_ws(c: char) -> bool {
    c == ' ' || c == '\t' || c == '\r'
}

pub open spec fn trim_front(s: Seq<char>) -> Seq<char>
    decreases s.len(),
{
    if s.len() > 0 && is_ws(s[0]) {
        trim_front(s.subrange(1, s.len() as int))
    } else {
        s
    }
}

pub open spec fn trim_back(s: Seq<char>) -> Seq<char>
    decreases s.len(),
{
    if s.len() > 0 && is_ws(s[s.len() - 1]) {
        trim_back(s.subrange(0, s.len() - 1))
    } else {
        s
    }
}

pub open spec fn trim(s: Seq<char>) -> Seq<char> {
    trim_back(trim_front(s))
}

/// Split on a separator, keeping every (possibly empty) piece.
pub open spec fn split_at(s: Seq<char>, sep: char, cur: Seq<char>) -> Seq<Seq<char>>
    decreases s.len(),
{
    if s.len() == 0 {
        seq![cur]
    } else if s[0] == sep {
        seq![cur] + split_at(s.subrange(1, s.len() as int), sep, Seq::<char>::empty())
    } else {
        split_at(s.subrange(1, s.len() as int), sep, cur.push(s[0]))
    }
}

/// Trim a list of pieces and drop the blank ones: the non-empty lines
/// of the input.
pub open spec fn clean_lines(pieces: Seq<Seq<char>>) -> Seq<Seq<char>>
    decreases pieces.len(),
{
    if pieces.len() == 0 {
        Seq::<Seq<char>>::empty()
    } else {
        let t = trim(pieces[0]);
        let rest = clean_lines(pieces.subrange(1, pieces.len() as int));
        if t.len() == 0 {
            rest
        } else {
            seq![t] + rest
        }
    }
}

pub open spec fn is_digit(c: char) -> bool {
    48 <= c as int <= 57
}

/// Decimal accumulation, most significant digit first; fails on a
/// non-digit or when the value leaves the `u64` range.
pub open spec fn parse_u64_from(s: Seq<char>, i: int, acc: int) -> Option<int>
    decreases s.len() - i,
{
    if i < 0 || i > s.len() {
        None
    } else if i == s.len() {
        Some(acc)
    } else if is_digit(s[i]) {
        let v = acc * 10 + (s[i] as int - 48);
        if v > u64::MAX as int {
            None
        } else {
            parse_u64_from(s, i + 1, v)
        }
    } else {
        None
    }
}

/// A non-empty all-digit sequence as an unsigned value.
pub open spec fn parse_u64(s: Seq<char>) -> Option<int> {
    if s.len() == 0 {
        None
    } else {
        parse_u64_from(s, 0, 0)
    }
}

/// An optionally negated decimal within the `i64` range.
pub open spec fn parse_i64(s: Seq<char>) -> Option<int> {
    if s.len() > 0 && s[0] == '-' {
        match parse_u64(s.subrange(1, s.len() as int)) {
            Some(v) => if -v >= i64::MIN as int {
                Some(-v)
            } else {
                None
            },
            None => None,
        }
    } else {
        match parse_u64(s) {
            Some(v) => if v <= i64::MAX as int {
                Some(v)
            } else {
                None
            },
            None => None,
        }
    }
}

/// The comma-separated pieces of a value, each trimmed.
pub open spec fn comma_pieces(s: Seq<char>) -> Seq<Seq<char>> {
    split_at(s, ',', Seq::<char>::empty()).map(|i: int, p: Seq<char>| trim(p))
}

pub open spec fn parse_point(s: Seq<char>) -> Option<Point> {
    let ps = comma_pieces(s);
    if ps.len() != 2 {
        None
    } else {
        match (parse_i64(ps[0]), parse_i64(ps[1])) {
            (Some(x), Some(y)) => Some(Point { x: x as i64, y: y as i64 }),
            _ => None,
        }
    }
}

pub open spec fn parse_size(s: Seq<char>) -> Option<Size> {
    let ps = comma_pieces(s);
    if ps.len() != 2 {
        None
    } else {
        match (parse_u64(ps[0]), parse_u64(ps[1])) {
            (Some(w), Some(h)) => Some(Size { width: w as u64, height: h as u64 }),
            _ => None,
        }
    }
}

pub open spec fn parse_split(s: Seq<char>) -> Option<Split> {
    let ps = comma_pieces(s);
    if ps.len() != 4 {
        None
    } else {
        match (parse_u64(ps[0]), parse_u64(ps[1]), parse_u64(ps[2]), parse_u64(ps[3])) {
            (Some(a), Some(b), Some(c), Some(d)) => Some(
                Split { left: a as u64, right: b as u64, top: c as u64, bottom: d as u64 },
            ),
            _ => None,
        }
    }
}

pub open spec fn parse_pad(s: Seq<char>) -> Option<Pad> {
    let ps = comma_pieces(s);
    if ps.len() != 4 {
        None
    } else {
        match (parse_i64(ps[0]), parse_i64(ps[1]), parse_i64(ps[2]), parse_i64(ps[3])) {
            (Some(a), Some(b), Some(c), Some(d)) => Some(
                Pad { left: a as i64, right: b as i64, top: c as i64, bottom: d as i64 },
            ),
            _ => None,
        }
    }
}

pub open spec fn parse_bool(s: Seq<char>) -> Option<bool> {
    if s == "true"@ {
        Some(true)
    } else if s == "false"@ {
        Some(false)
    } else {
        None
    }
}

pub open spec fn format_of(s: Seq<char>) -> Option<Format> {
    if s == "Alpha"@ {
        Some(Format::Alpha)
    } else if s == "Intensity"@ {
        Some(Format::Intensity)
    } else if s == "LuminanceAlpha"@ {
        Some(Format::LuminanceAlpha)
    } else if s == "RGB565"@ {
        Some(Format::RGB565)
    } else if s == "RGBA4444"@ {
        Some(Format::RGBA4444)
    } else if s == "RGB888"@ {
        Some(Format::RGB888)
    } else if s == "RGBA8888"@ {
        Some(Format::RGBA8888)
    } else {
        None
    }
}

pub open spec fn filter_setting_of(s: Seq<char>) -> Option<FilterSetting> {
    if s == "Nearest"@ {
        Some(FilterSetting::Nearest)
    } else if s == "Linear"@ {
        Some(FilterSetting::Linear)
    } else if s == "MipMap"@ {
        Some(FilterSetting::MipMap)
    } else if s == "MipMapNearestNearest"@ {
        Some(FilterSetting::MipMapNearestNearest)
    } else if s == "MipMapLinearNearest"@ {
        Some(FilterSetting::MipMapLinearNearest)
    } else if s == "MipMapNearestLinear"@ {
        Some(FilterSetting::MipMapNearestLinear)
    } else if s == "MipMapLinearLinear"@ {
        Some(FilterSetting::MipMapLinearLinear)
    } else {
        None
    }
}

pub open spec fn parse_filter(s: Seq<char>) -> Option<Filter> {
    let ps = comma_pieces(s);
    if ps.len() != 2 {
        None
    } else {
        match (filter_setting_of(ps[0]), filter_setting_of(ps[1])) {
            (Some(a), Some(b)) => Some(Filter { minification: a, magnification: b }),
            _ => None,
        }
    }
}

pub open spec fn repeat_of(s: Seq<char>) -> Option<Repeat> {
    if s == "x"@ {
        Some(Repeat::X)
    } else if s == "y"@ {
        Some(Repeat::Y)
    } else if s == "xy"@ {
        Some(Repeat::XY)
    } else if s == "none"@ {
        Some(Repeat::No)
    } else {
        None
    }
}

/// Split a line at its first colon.
pub open spec fn split_colon(s: Seq<char>) -> Option<(Seq<char>, Seq<char>)>
    decreases s.len(),
{
    if s.len() == 0 {
        None
    } else if s[0] == ':' {
        Some((Seq::<char>::empty(), s.subrange(1, s.len() as int)))
    } else {
        match split_colon(s.subrange(1, s.len() as int)) {
            Some(p) => Some((seq![s[0]] + p.0, p.1)),
            None => None,
        }
    }
}

/// The trimmed key and value of a `key: value` line, if it has a colon.
pub open spec fn key_value(s: Seq<char>) -> Option<(Seq<char>, Seq<char>)> {
    match split_colon(s) {
        Some(p) => Some((trim(p.0), trim(p.1))),
        None => None,
    }
}

/// How one line reads inside the region section.
pub ghost enum LineClass {
    /// A well-formed `key: value` with a region key.
    Value(RValue),
    /// A region key whose value does not parse: the whole parse fails.
    BadValue,
    /// Anything else: the name of a new region.
    NewRegion,
}

pub open spec fn wrap_value<A>(v: Option<A>, f: spec_fn(A) -> RValue) -> LineClass {
    match v {
        Some(x) => LineClass::Value(f(x)),
        None => LineClass::BadValue,
    }
}

/// Classify one region-section line.
pub open spec fn classify(s: Seq<char>) -> LineClass {
    match key_value(s) {
        Some(kv) => {
            let k = kv.0;
            let v = kv.1;
            if k == "rotate"@ {
                wrap_value(parse_bool(v), |b: bool| RValue::RRotate(b))
            } else if k == "xy"@ {
                wrap_value(parse_point(v), |p: Point| RValue::RXy(p))
            } else if k == "size"@ {
                wrap_value(parse_size(v), |z: Size| RValue::RSize(z))
            } else if k == "orig"@ {
                wrap_value(parse_point(v), |p: Point| RValue::ROrig(p))
            } else if k == "offset"@ {
                wrap_value(parse_point(v), |p: Point| RValue::ROffset(p))
            } else if k == "index"@ {
                wrap_value(parse_i64(v), |n: int| RValue::RIndex(n as i64))
            } else if k == "split"@ {
                wrap_value(parse_split(v), |z: Split| RValue::RSplit(z))
            } else if k == "pad"@ {
                wrap_value(parse_pad(v), |z: Pad| RValue::RPad(z))
            } else {
                LineClass::NewRegion
            }
        },
        None => LineClass::NewRegion,
    }
}

/// A fresh region: every value at its default until a line sets it.
pub open spec fn named_region(name: Seq<char>) -> RegionSpec {
    RegionSpec {
        name,
        rotate: false,
        xy: Point { x: 0, y: 0 },
        size: Size { width: 0, height: 0 },
        orig: Point { x: 0, y: 0 },
        offset: Point { x: 0, y: 0 },
        index: 0,
        split: None,
        pad: None,
    }
}

pub open spec fn apply_value(r: RegionSpec, v: RValue) -> RegionSpec {
    match v {
        RValue::RRotate(b) => RegionSpec { rotate: b, ..r },
        RValue::RXy(p) => RegionSpec { xy: p, ..r },
        RValue::RSize(z) => RegionSpec { size: z, ..r },
        RValue::ROrig(p) => RegionSpec { orig: p, ..r },
        RValue::ROffset(p) => RegionSpec { offset: p, ..r },
        RValue::RIndex(n) => RegionSpec { index: n, ..r },
        RValue::RSplit(z) => RegionSpec { split: Some(z), ..r },
        RValue::RPad(z) => RegionSpec { pad: Some(z), ..r },
    }
}

pub open spec fn flush(cur: Option<RegionSpec>) -> Seq<RegionSpec> {
    match cur {
        Some(r) => seq![r],
        None => Seq::<RegionSpec>::empty(),
    }
}

/// The region section from line `i` on, with `cur` the region currently
/// being filled.
pub open spec fn parse_regions(ls: Seq<Seq<char>>, i: int, cur: Option<RegionSpec>) -> Option<
    Seq<RegionSpec>,
>
    decreases ls.len() - i,
{
    if i < 0 || i >= ls.len() {
        Some(flush(cur))
    } else {
        match classify(ls[i]) {
            LineClass::Value(v) => match cur {
                Some(r) => parse_regions(ls, i + 1, Some(apply_value(r, v))),
                None => None,
            },
            LineClass::BadValue => None,
            LineClass::NewRegion => match parse_regions(ls, i + 1, Some(named_region(ls[i]))) {
                Some(rest) => Some(flush(cur) + rest),
                None => None,
            },
        }
    }
}

/// The whole grammar: what [`Atlas::parse`] accepts and what it yields.
pub open spec fn spec_parse_atlas(s: Seq<char>) -> Option<AtlasSpec> {
    let ls = clean_lines(split_at(s, '\n', Seq::<char>::empty()));
    if ls.len() < 5 {
        None
    } else {
        match (key_value(ls[1]), key_value(ls[2]), key_value(ls[3]), key_value(ls[4])) {
            (Some(sz), Some(fm), Some(fl), Some(rp)) => {
                if sz.0 == "size"@ && fm.0 == "format"@ && fl.0 == "filter"@ && rp.0
                    == "repeat"@ {
                    match (parse_size(sz.1), format_of(fm.1), parse_filter(fl.1), repeat_of(rp.1)) {
                        (Some(size), Some(format), Some(filter), Some(repeat)) => {
                            match parse_regions(ls, 5, None) {
                                Some(regions) => Some(
                                    AtlasSpec {
                                        name: ls[0],
                                        size,
                                        format,
                                        filter,
                                        repeat,
                                        regions,
                                    },
                                ),
                                None => None,
                            }
                        },
                        _ => None,
                    }
                } else {
                    None
                }
            },
            _ => None,
        }
    }
}


fn ws_char(c: char) -> (r: bool)
    ensures
        r == is_ws(c),
{
    c == ' ' || c == '\t' || c == '\r'
}

/// `trim_front` of a subrange is the subrange past its leading blanks.
proof fn lemma_trim_front_range(s: Seq<char>, lo: int, a: int, hi: int)
    requires
        0 <= lo <= a <= hi <= s.len(),
        forall|k: int| lo <= k < a ==> is_ws(#[trigger] s[k]),
        a < hi ==> !is_ws(s[a]),
    ensures
        trim_front(s.subrange(lo, hi)) == s.subrange(a, hi),
    decreases a - lo,
{
    if a == lo {
        assert(trim_front(s.subrange(lo, hi)) == s.subrange(lo, hi)) by {
            if s.subrange(lo, hi).len() > 0 {
                assert(s.subrange(lo, hi)[0] == s[lo]);
            }
        }
    } else {
        assert(s.subrange(lo, hi).len() > 0 && is_ws(s.subrange(lo, hi)[0])) by {
            assert(s.subrange(lo, hi)[0] == s[lo]);
        }
        assert(s.subrange(lo, hi).subrange(1, s.subrange(lo, hi).len() as int) =~= s.subrange(
            lo + 1,
            hi,
        ));
        lemma_trim_front_range(s, lo + 1, a, hi);
    }
}

/// `trim_back` of a subrange is the subrange short of its trailing
/// blanks.
proof fn lemma_trim_back_range(s: Seq<char>, lo: int, b: int, hi: int)
    requires
        0 <= lo <= b <= hi <= s.len(),
        forall|k: int| b <= k < hi ==> is_ws(#[trigger] s[k]),
        b > lo ==> !is_ws(s[b - 1]),
    ensures
        trim_back(s.subrange(lo, hi)) == s.subrange(lo, b),
    decreases hi - b,
{
    if b == hi {
        assert(trim_back(s.subrange(lo, hi)) == s.subrange(lo, hi)) by {
            let t = s.subrange(lo, hi);
            if t.len() > 0 {
                assert(t[t.len() - 1] == s[hi - 1]);
            }
        }
    } else {
        let t = s.subrange(lo, hi);
        assert(t.len() > 0 && is_ws(t[t.len() - 1])) by {
            assert(t[t.len() - 1] == s[hi - 1]);
        }
        assert(t.subrange(0, t.len() - 1) =~= s.subrange(lo, hi - 1));
        lemma_trim_back_range(s, lo, b, hi - 1);
    }
}

/// The trimmed bounds of a piece of the input.
fn trim_range(s: &str, lo: usize, hi: usize) -> (r: (usize, usize))
    requires
        lo <= hi <= s@.len(),
    ensures
        lo <= r.0 <= r.1 <= hi,
        s@.subrange(r.0 as int, r.1 as int) == trim(s@.subrange(lo as int, hi as int)),
{
    let mut a: usize = lo;
    while a < hi && ws_char(s.get_char(a))
        invariant
            lo <= a <= hi <= s@.len(),
            forall|k: int| lo <= k < a ==> is_ws(#[trigger] s@[k]),
        decreases hi - a,
    {
        a = a + 1;
    }
    let mut b: usize = hi;
    while b > a && ws_char(s.get_char(b - 1))
        invariant
            lo <= a <= b <= hi <= s@.len(),
            forall|k: int| b <= k < hi ==> is_ws(#[trigger] s@[k]),
        decreases b,
    {
        b = b - 1;
    }
    proof {
        lemma_trim_front_range(s@, lo as int, a as int, hi as int);
        lemma_trim_back_range(s@, a as int, b as int, hi as int);
    }
    (a, b)
}

/// The separator-delimited pieces of a range of the input, as bounds.
fn split_ranges(s: &str, lo: usize, hi: usize, sep: char) -> (r: Vec<(usize, usize)>)
    requires
        lo <= hi <= s@.len(),
    ensures
        ({
            let pieces = split_at(s@.subrange(lo as int, hi as int), sep, Seq::<char>::empty());
            &&& r@.len() == pieces.len()
            &&& forall|k: int|
                0 <= k < r@.len() ==> {
                    &&& lo <= (#[trigger] r@[k]).0 <= r@[k].1 <= hi
                    &&& s@.subrange(r@[k].0 as int, r@[k].1 as int) == pieces[k]
                }
        }),
{
    let ghost t = s@.subrange(lo as int, hi as int);
    let ghost pieces = split_at(t, sep, Seq::<char>::empty());
    let mut out: Vec<(usize, usize)> = Vec::new();
    let mut start: usize = lo;
    let mut i: usize = lo;
    proof {
        assert(s@.subrange(lo as int, lo as int) =~= Seq::<char>::empty());
    }
    while i < hi
        invariant
            lo <= start <= i <= hi <= s@.len(),
            t == s@.subrange(lo as int, hi as int),
            pieces == split_at(t, sep, Seq::<char>::empty()),
            pieces =~= out@.map(
                |k: int, p: (usize, usize)| s@.subrange(p.0 as int, p.1 as int),
            ) + split_at(
                s@.subrange(i as int, hi as int),
                sep,
                s@.subrange(start as int, i as int),
            ),
            forall|k: int|
                0 <= k < out@.len() ==> lo <= (#[trigger] out@[k]).0 <= out@[k].1 <= hi,
        decreases hi - i,
    {
        let ghost rem = s@.subrange(i as int, hi as int);
        let ghost cur = s@.subrange(start as int, i as int);
        proof {
            assert(rem[0] == s@[i as int]);
            assert(rem.subrange(1, rem.len() as int) =~= s@.subrange(i + 1, hi as int));
        }
        let c = s.get_char(i);
        if c == sep {
            proof {
                assert(split_at(rem, sep, cur) == seq![cur] + split_at(
                    s@.subrange(i + 1, hi as int),
                    sep,
                    Seq::<char>::empty(),
                ));
            }
            out.push((start, i));
            proof {
                assert(out@.map(|k: int, p: (usize, usize)| s@.subrange(p.0 as int, p.1 as int))
                    =~= out@.subrange(0, out@.len() - 1).map(
                    |k: int, p: (usize, usize)| s@.subrange(p.0 as int, p.1 as int),
                ).push(cur));
                assert(s@.subrange(i + 1, i + 1) =~= Seq::<char>::empty());
            }
            start = i + 1;
        } else {
            proof {
                assert(split_at(rem, sep, cur) == split_at(
                    s@.subrange(i + 1, hi as int),
                    sep,
                    cur.push(s@[i as int]),
                ));
                assert(cur.push(s@[i as int]) =~= s@.subrange(start as int, i + 1));
            }
        }
        i = i + 1;
    }
    let ghost cur = s@.subrange(start as int, hi as int);
    proof {
        assert(s@.subrange(i as int, hi as int).len() == 0);
        assert(split_at(s@.subrange(i as int, hi as int), sep, cur) == seq![cur]);
    }
    out.push((start, hi));
    proof {
        assert(out@.map(|k: int, p: (usize, usize)| s@.subrange(p.0 as int, p.1 as int))
            =~= out@.subrange(0, out@.len() - 1).map(
            |k: int, p: (usize, usize)| s@.subrange(p.0 as int, p.1 as int),
        ).push(cur));
        assert(pieces =~= out@.map(
            |k: int, p: (usize, usize)| s@.subrange(p.0 as int, p.1 as int),
        ));
    }
    out
}

/// Equality of a range of the input with a keyword.
fn str_range_eq(s: &str, lo: usize, hi: usize, kw: &str) -> (r: bool)
    requires
        lo <= hi <= s@.len(),
    ensures
        r == (s@.subrange(lo as int, hi as int) == kw@),
{
    let ghost t = s@.subrange(lo as int, hi as int);
    let n = kw.unicode_len();
    if hi - lo != n {
        proof {
            assert(t.len() != kw@.len());
        }
        return false;
    }
    let mut k: usize = 0;
    while k < n
        invariant
            lo <= hi <= s@.len(),
            n == kw@.len(),
            hi - lo == n,
            k <= n,
            t == s@.subrange(lo as int, hi as int),
            forall|j: int| 0 <= j < k ==> #[trigger] t[j] == kw@[j],
        decreases n - k,
    {
        let a = s.get_char(lo + k);
        let b = kw.get_char(k);
        proof {
            assert(t[k as int] == s@[lo + k]);
        }
        if a != b {
            proof {
                assert(t[k as int] != kw@[k as int]);
            }
            return false;
        }
        k = k + 1;
    }
    proof {
        assert(t =~= kw@);
    }
    true
}

/// With the first colon at `j`, the split is exactly around `j`.
proof fn lemma_split_colon_at(t: Seq<char>, j: int)
    requires
        0 <= j < t.len(),
        t[j] == ':',
        forall|k: int| 0 <= k < j ==> #[trigger] t[k] != ':',
    ensures
        split_colon(t) == Some((t.subrange(0, j), t.subrange(j + 1, t.len() as int))),
    decreases j,
{
    if j == 0 {
        assert(t.subrange(0, 0) =~= Seq::<char>::empty());
    } else {
        let rest = t.subrange(1, t.len() as int);
        assert(rest[j - 1] == t[j]);
        assert forall|k: int| 0 <= k < j - 1 implies #[trigger] rest[k] != ':' by {
            assert(rest[k] == t[k + 1]);
        }
        lemma_split_colon_at(rest, j - 1);
        assert(rest.subrange(0, j - 1) =~= t.subrange(1, j));
        assert(rest.subrange(j, rest.len() as int) =~= t.subrange(j + 1, t.len() as int));
        assert(seq![t[0]] + t.subrange(1, j) =~= t.subrange(0, j));
    }
}

/// Without a colon, there is no split.
proof fn lemma_split_colon_none(t: Seq<char>)
    requires
        forall|k: int| 0 <= k < t.len() ==> #[trigger] t[k] != ':',
    ensures
        split_colon(t) is None,
    decreases t.len(),
{
    if t.len() > 0 {
        let rest = t.subrange(1, t.len() as int);
        assert forall|k: int| 0 <= k < rest.len() implies #[trigger] rest[k] != ':' by {
            assert(rest[k] == t[k + 1]);
        }
        lemma_split_colon_none(rest);
    }
}

/// The first colon inside a range of the input, if any.
fn find_colon(s: &str, lo: usize, hi: usize) -> (r: Option<usize>)
    requires
        lo <= hi <= s@.len(),
    ensures
        ({
            let t = s@.subrange(lo as int, hi as int);
            match r {
                Some(j) => {
                    &&& lo <= j < hi
                    &&& split_colon(t) == Some(
                        (
                            s@.subrange(lo as int, j as int),
                            s@.subrange(j + 1, hi as int),
                        ),
                    )
                },
                None => split_colon(t) is None,
            }
        }),
{
    let ghost t = s@.subrange(lo as int, hi as int);
    let mut j: usize = lo;
    while j < hi
        invariant
            lo <= j <= hi <= s@.len(),
            t == s@.subrange(lo as int, hi as int),
            forall|k: int| lo <= k < j ==> #[trigger] s@[k] != ':',
        decreases hi - j,
    {
        if s.get_char(j) == ':' {
            proof {
                assert(t[j - lo] == s@[j as int]);
                assert forall|k: int| 0 <= k < j - lo implies #[trigger] t[k] != ':' by {
                    assert(t[k] == s@[k + lo]);
                }
                lemma_split_colon_at(t, j - lo);
                assert(t.subrange(0, j - lo) =~= s@.subrange(lo as int, j as int));
                assert(t.subrange(j - lo + 1, t.len() as int) =~= s@.subrange(j + 1, hi as int));
            }
            return Some(j);
        }
        j = j + 1;
    }
    proof {
        assert forall|k: int| 0 <= k < t.len() implies #[trigger] t[k] != ':' by {
            assert(t[k] == s@[k + lo]);
        }
        lemma_split_colon_none(t);
    }
    None
}

/// A decimal in a range of the input, accumulated exactly.
fn parse_u64_range(s: &str, lo: usize, hi: usize) -> (r: Option<u64>)
    requires
        lo <= hi <= s@.len(),
    ensures
        ({
            let v = parse_u64(s@.subrange(lo as int, hi as int));
            match r {
                Some(x) => v == Some(x as int),
                None => v is None,
            }
        }),
{
    let ghost t = s@.subrange(lo as int, hi as int);
    if lo == hi {
        return None;
    }
    let mut acc: u64 = 0;
    let mut i: usize = lo;
    while i < hi
        invariant
            lo <= i <= hi <= s@.len(),
            t == s@.subrange(lo as int, hi as int),
            t.len() > 0,
            parse_u64_from(t, 0, 0) == parse_u64_from(t, i - lo, acc as int),
        decreases hi - i,
    {
        let c = s.get_char(i);
        proof {
            assert(t[i - lo] == s@[i as int]);
        }
        let u = c as u32;
        if u < 48 || u > 57 {
            return None;
        }
        let wide: u128 = (acc as u128) * 10 + ((u - 48) as u128);
        if wide > u64::MAX as u128 {
            return None;
        }
        acc = wide as u64;
        i = i + 1;
    }
    Some(acc)
}

/// An optionally negated decimal in a range of the input.
fn parse_i64_range(s: &str, lo: usize, hi: usize) -> (r: Option<i64>)
    requires
        lo <= hi <= s@.len(),
    ensures
        ({
            let v = parse_i64(s@.subrange(lo as int, hi as int));
            match r {
                Some(x) => v == Some(x as int),
                None => v is None,
            }
        }),
{
    let ghost t = s@.subrange(lo as int, hi as int);
    if lo < hi && s.get_char(lo) == '-' {
        proof {
            assert(t[0] == s@[lo as int]);
            assert(t.subrange(1, t.len() as int) =~= s@.subrange(lo + 1, hi as int));
        }
        match parse_u64_range(s, lo + 1, hi) {
            Some(v) => {
                if v <= 0x8000_0000_0000_0000u64 {
                    let x: i64 = (-(v as i128)) as i64;
                    proof {
                        assert(x as int == -(v as int));
                    }
                    Some(x)
                } else {
                    None
                }
            },
            None => None,
        }
    } else {
        match parse_u64_range(s, lo, hi) {
            Some(v) => {
                if v <= i64::MAX as u64 {
                    Some(v as i64)
                } else {
                    None
                }
            },
            None => None,
        }
    }
}


/// A trimmed comma piece of a value range, as bounds.
fn comma_piece_ranges(s: &str, lo: usize, hi: usize) -> (r: Vec<(usize, usize)>)
    requires
        lo <= hi <= s@.len(),
    ensures
        ({
            let ps = comma_pieces(s@.subrange(lo as int, hi as int));
            &&& r@.len() == ps.len()
            &&& forall|k: int|
                0 <= k < r@.len() ==> {
                    &&& lo <= (#[trigger] r@[k]).0 <= r@[k].1 <= hi
                    &&& s@.subrange(r@[k].0 as int, r@[k].1 as int) == ps[k]
                }
        }),
{
    let ghost t = s@.subrange(lo as int, hi as int);
    let raw = split_ranges(s, lo, hi, ',');
    let ghost pieces = split_at(t, ',', Seq::<char>::empty());
    let mut out: Vec<(usize, usize)> = Vec::new();
    let mut j: usize = 0;
    while j < raw.len()
        invariant
            lo <= hi <= s@.len(),
            t == s@.subrange(lo as int, hi as int),
            pieces == split_at(t, ',', Seq::<char>::empty()),
            raw@.len() == pieces.len(),
            forall|k: int|
                0 <= k < raw@.len() ==> {
                    &&& lo <= (#[trigger] raw@[k]).0 <= raw@[k].1 <= hi
                    &&& s@.subrange(raw@[k].0 as int, raw@[k].1 as int) == pieces[k]
                },
            j <= raw@.len(),
            out@.len() == j,
            forall|k: int|
                0 <= k < j ==> {
                    &&& lo <= (#[trigger] out@[k]).0 <= out@[k].1 <= hi
                    &&& s@.subrange(out@[k].0 as int, out@[k].1 as int) == comma_pieces(t)[k]
                },
        decreases raw.len() - j,
    {
        let piece = raw[j];
        let tr = trim_range(s, piece.0, piece.1);
        proof {
            assert(comma_pieces(t)[j as int] == trim(pieces[j as int]));
        }
        out.push(tr);
        j = j + 1;
    }
    out
}

fn parse_point_range(s: &str, lo: usize, hi: usize) -> (r: Option<Point>)
    requires
        lo <= hi <= s@.len(),
    ensures
        r == parse_point(s@.subrange(lo as int, hi as int)),
{
    let ps = comma_piece_ranges(s, lo, hi);
    if ps.len() != 2 {
        return None;
    }
    let x = parse_i64_range(s, ps[0].0, ps[0].1);
    let y = parse_i64_range(s, ps[1].0, ps[1].1);
    match (x, y) {
        (Some(x), Some(y)) => Some(Point { x, y }),
        _ => None,
    }
}

fn parse_size_range(s: &str, lo: usize, hi: usize) -> (r: Option<Size>)
    requires
        lo <= hi <= s@.len(),
    ensures
        r == parse_size(s@.subrange(lo as int, hi as int)),
{
    let ps = comma_piece_ranges(s, lo, hi);
    if ps.len() != 2 {
        return None;
    }
    let w = parse_u64_range(s, ps[0].0, ps[0].1);
    let h = parse_u64_range(s, ps[1].0, ps[1].1);
    match (w, h) {
        (Some(w), Some(h)) => Some(Size { width: w, height: h }),
        _ => None,
    }
}

fn parse_split_range(s: &str, lo: usize, hi: usize) -> (r: Option<Split>)
    requires
        lo <= hi <= s@.len(),
    ensures
        r == parse_split(s@.subrange(lo as int, hi as int)),
{
    let ps = comma_piece_ranges(s, lo, hi);
    if ps.len() != 4 {
        return None;
    }
    let a = parse_u64_range(s, ps[0].0, ps[0].1);
    let b = parse_u64_range(s, ps[1].0, ps[1].1);
    let c = parse_u64_range(s, ps[2].0, ps[2].1);
    let d = parse_u64_range(s, ps[3].0, ps[3].1);
    match (a, b, c, d) {
        (Some(a), Some(b), Some(c), Some(d)) => Some(
            Split { left: a, right: b, top: c, bottom: d },
        ),
        _ => None,
    }
}

fn parse_pad_range(s: &str, lo: usize, hi: usize) -> (r: Option<Pad>)
    requires
        lo <= hi <= s@.len(),
    ensures
        r == parse_pad(s@.subrange(lo as int, hi as int)),
{
    let ps = comma_piece_ranges(s, lo, hi);
    if ps.len() != 4 {
        return None;
    }
    let a = parse_i64_range(s, ps[0].0, ps[0].1);
    let b = parse_i64_range(s, ps[1].0, ps[1].1);
    let c = parse_i64_range(s, ps[2].0, ps[2].1);
    let d = parse_i64_range(s, ps[3].0, ps[3].1);
    match (a, b, c, d) {
        (Some(a), Some(b), Some(c), Some(d)) => Some(Pad { left: a, right: b, top: c, bottom: d }),
        _ => None,
    }
}

fn parse_bool_range(s: &str, lo: usize, hi: usize) -> (r: Option<bool>)
    requires
        lo <= hi <= s@.len(),
    ensures
        r == parse_bool(s@.subrange(lo as int, hi as int)),
{
    if str_range_eq(s, lo, hi, "true") {
        Some(true)
    } else if str_range_eq(s, lo, hi, "false") {
        Some(false)
    } else {
        None
    }
}

fn format_range(s: &str, lo: usize, hi: usize) -> (r: Option<Format>)
    requires
        lo <= hi <= s@.len(),
    ensures
        r == format_of(s@.subrange(lo as int, hi as int)),
{
    if str_range_eq(s, lo, hi, "Alpha") {
        Some(Format::Alpha)
    } else if str_range_eq(s, lo, hi, "Intensity") {
        Some(Format::Intensity)
    } else if str_range_eq(s, lo, hi, "LuminanceAlpha") {
        Some(Format::LuminanceAlpha)
    } else if str_range_eq(s, lo, hi, "RGB565") {
        Some(Format::RGB565)
    } else if str_range_eq(s, lo, hi, "RGBA4444") {
        Some(Format::RGBA4444)
    } else if str_range_eq(s, lo, hi, "RGB888") {
        Some(Format::RGB888)
    } else if str_range_eq(s, lo, hi, "RGBA8888") {
        Some(Format::RGBA8888)
    } else {
        None
    }
}

fn filter_setting_range(s: &str, lo: usize, hi: usize) -> (r: Option<FilterSetting>)
    requires
        lo <= hi <= s@.len(),
    ensures
        r == filter_setting_of(s@.subrange(lo as int, hi as int)),
{
    if str_range_eq(s, lo, hi, "Nearest") {
        Some(FilterSetting::Nearest)
    } else if str_range_eq(s, lo, hi, "Linear") {
        Some(FilterSetting::Linear)
    } else if str_range_eq(s, lo, hi, "MipMap") {
        Some(FilterSetting::MipMap)
    } else if str_range_eq(s, lo, hi, "MipMapNearestNearest") {
        Some(FilterSetting::MipMapNearestNearest)
    } else if str_range_eq(s, lo, hi, "MipMapLinearNearest") {
        Some(FilterSetting::MipMapLinearNearest)
    } else if str_range_eq(s, lo, hi, "MipMapNearestLinear") {
        Some(FilterSetting::MipMapNearestLinear)
    } else if str_range_eq(s, lo, hi, "MipMapLinearLinear") {
        Some(FilterSetting::MipMapLinearLinear)
    } else {
        None
    }
}

fn parse_filter_range(s: &str, lo: usize, hi: usize) -> (r: Option<Filter>)
    requires
        lo <= hi <= s@.len(),
    ensures
        r == parse_filter(s@.subrange(lo as int, hi as int)),
{
    let ps = comma_piece_ranges(s, lo, hi);
    if ps.len() != 2 {
        return None;
    }
    let a = filter_setting_range(s, ps[0].0, ps[0].1);
    let b = filter_setting_range(s, ps[1].0, ps[1].1);
    match (a, b) {
        (Some(a), Some(b)) => Some(Filter { minification: a, magnification: b }),
        _ => None,
    }
}

fn repeat_range(s: &str, lo: usize, hi: usize) -> (r: Option<Repeat>)
    requires
        lo <= hi <= s@.len(),
    ensures
        r == repeat_of(s@.subrange(lo as int, hi as int)),
{
    if str_range_eq(s, lo, hi, "x") {
        Some(Repeat::X)
    } else if str_range_eq(s, lo, hi, "y") {
        Some(Repeat::Y)
    } else if str_range_eq(s, lo, hi, "xy") {
        Some(Repeat::XY)
    } else if str_range_eq(s, lo, hi, "none") {
        Some(Repeat::No)
    } else {
        None
    }
}

/// How one region-section line reads, executably.
enum LineKind {
    Value(RValue),
    BadValue,
    NewRegion,
}

fn classify_range(s: &str, lo: usize, hi: usize) -> (r: LineKind)
    requires
        lo <= hi <= s@.len(),
    ensures
        ({
            let c = classify(s@.subrange(lo as int, hi as int));
            match r {
                LineKind::Value(v) => c == LineClass::Value(v),
                LineKind::BadValue => c == LineClass::BadValue,
                LineKind::NewRegion => c == LineClass::NewRegion,
            }
        }),
{
    match find_colon(s, lo, hi) {
        None => LineKind::NewRegion,
        Some(j) => {
            let k = trim_range(s, lo, j);
            let v = trim_range(s, j + 1, hi);
            if str_range_eq(s, k.0, k.1, "rotate") {
                match parse_bool_range(s, v.0, v.1) {
                    Some(b) => LineKind::Value(RValue::RRotate(b)),
                    None => LineKind::BadValue,
                }
            } else if str_range_eq(s, k.0, k.1, "xy") {
                match parse_point_range(s, v.0, v.1) {
                    Some(p) => LineKind::Value(RValue::RXy(p)),
                    None => LineKind::BadValue,
                }
            } else if str_range_eq(s, k.0, k.1, "size") {
                match parse_size_range(s, v.0, v.1) {
                    Some(z) => LineKind::Value(RValue::RSize(z)),
                    None => LineKind::BadValue,
                }
            } else if str_range_eq(s, k.0, k.1, "orig") {
                match parse_point_range(s, v.0, v.1) {
                    Some(p) => LineKind::Value(RValue::ROrig(p)),
                    None => LineKind::BadValue,
                }
            } else if str_range_eq(s, k.0, k.1, "offset") {
                match parse_point_range(s, v.0, v.1) {
                    Some(p) => LineKind::Value(RValue::ROffset(p)),
                    None => LineKind::BadValue,
                }
            } else if str_range_eq(s, k.0, k.1, "index") {
                match parse_i64_range(s, v.0, v.1) {
                    Some(n) => LineKind::Value(RValue::RIndex(n)),
                    None => LineKind::BadValue,
                }
            } else if str_range_eq(s, k.0, k.1, "split") {
                match parse_split_range(s, v.0, v.1) {
                    Some(z) => LineKind::Value(RValue::RSplit(z)),
                    None => LineKind::BadValue,
                }
            } else if str_range_eq(s, k.0, k.1, "pad") {
                match parse_pad_range(s, v.0, v.1) {
                    Some(z) => LineKind::Value(RValue::RPad(z)),
                    None => LineKind::BadValue,
                }
            } else {
                LineKind::NewRegion
            }
        },
    }
}

/// The trimmed, non-blank lines of the whole input, as bounds.
fn clean_line_ranges(s: &str) -> (r: Vec<(usize, usize)>)
    ensures
        ({
            let ls = clean_lines(split_at(s@, '\n', Seq::<char>::empty()));
            &&& r@.len() == ls.len()
            &&& forall|k: int|
                0 <= k < r@.len() ==> {
                    &&& (#[trigger] r@[k]).0 <= r@[k].1 <= s@.len()
                    &&& s@.subrange(r@[k].0 as int, r@[k].1 as int) == ls[k]
                }
        }),
{
    let n = s.unicode_len();
    proof {
        assert(s@.subrange(0, s@.len() as int) =~= s@);
    }
    let raw = split_ranges(s, 0, n, '\n');
    let ghost gp = split_at(s@, '\n', Seq::<char>::empty());
    let mut out: Vec<(usize, usize)> = Vec::new();
    let mut j: usize = 0;
    proof {
        assert(gp.subrange(0, gp.len() as int) =~= gp);
    }
    while j < raw.len()
        invariant
            n == s@.len(),
            gp == split_at(s@, '\n', Seq::<char>::empty()),
            raw@.len() == gp.len(),
            forall|k: int|
                0 <= k < raw@.len() ==> {
                    &&& 0 <= (#[trigger] raw@[k]).0 <= raw@[k].1 <= n
                    &&& s@.subrange(raw@[k].0 as int, raw@[k].1 as int) == gp[k]
                },
            j <= raw@.len(),
            clean_lines(gp) =~= out@.map(
                |k: int, p: (usize, usize)| s@.subrange(p.0 as int, p.1 as int),
            ) + clean_lines(gp.subrange(j as int, gp.len() as int)),
            forall|k: int|
                0 <= k < out@.len() ==> (#[trigger] out@[k]).0 <= out@[k].1 <= n,
        decreases raw.len() - j,
    {
        let piece = raw[j];
        let tr = trim_range(s, piece.0, piece.1);
        let ghost rem = gp.subrange(j as int, gp.len() as int);
        proof {
            assert(rem[0] == gp[j as int]);
            assert(rem.subrange(1, rem.len() as int) =~= gp.subrange(j + 1, gp.len() as int));
        }
        if tr.0 < tr.1 {
            out.push(tr);
            proof {
                assert(out@.map(|k: int, p: (usize, usize)| s@.subrange(p.0 as int, p.1 as int))
                    =~= out@.subrange(0, out@.len() - 1).map(
                    |k: int, p: (usize, usize)| s@.subrange(p.0 as int, p.1 as int),
                ).push(trim(gp[j as int])));
            }
        } else {
            proof {
                assert(s@.subrange(tr.0 as int, tr.1 as int).len() == 0);
            }
        }
        j = j + 1;
    }
    proof {
        assert(gp.subrange(gp.len() as int, gp.len() as int) =~= Seq::<Seq<char>>::empty());
    }
    out
}

/// A fresh region named by a line.
fn new_region(name: String) -> (r: Region)
    ensures
        region_view(r) == named_region(name@),
{
    Region {
        name,
        rotate: false,
        xy: Point { x: 0, y: 0 },
        size: Size { width: 0, height: 0 },
        orig: Point { x: 0, y: 0 },
        offset: Point { x: 0, y: 0 },
        index: 0,
        split: None,
        pad: None,
    }
}

/// One value line applied to the region being filled.
fn apply_rvalue(r: Region, v: RValue) -> (out: Region)
    ensures
        region_view(out) == apply_value(region_view(r), v),
{
    match v {
        RValue::RRotate(b) => Region { rotate: b, ..r },
        RValue::RXy(p) => Region { xy: p, ..r },
        RValue::RSize(z) => Region { size: z, ..r },
        RValue::ROrig(p) => Region { orig: p, ..r },
        RValue::ROffset(p) => Region { offset: p, ..r },
        RValue::RIndex(n) => Region { index: n, ..r },
        RValue::RSplit(z) => Region { split: Some(z), ..r },
        RValue::RPad(z) => Region { pad: Some(z), ..r },
    }
}

/// The region section of the line list, from `start` on.
fn region_section(s: &str, lr: &Vec<(usize, usize)>, Ghost(ls): Ghost<Seq<Seq<char>>>, start: usize) -> (r: Result<
    Vec<Region>,
    AtlasError,
>)
    requires
        lr@.len() == ls.len(),
        forall|k: int|
            0 <= k < lr@.len() ==> {
                &&& (#[trigger] lr@[k]).0 <= lr@[k].1 <= s@.len()
                &&& s@.subrange(lr@[k].0 as int, lr@[k].1 as int) == ls[k]
            },
        vstd::string::is_ascii(s),
    ensures
        match r {
            Ok(v) => parse_regions(ls, start as int, None) == Some(
                v@.map(|k: int, r2: Region| region_view(r2)),
            ),
            Err(e) => parse_regions(ls, start as int, None) is None && e
                == AtlasError::Malformed,
        },
{
    let mut regions: Vec<Region> = Vec::new();
    let mut cur: Option<Region> = None;
    let mut i: usize = if start > lr.len() {
        lr.len()
    } else {
        start
    };
    proof {
        if start > lr@.len() {
            assert(parse_regions(ls, start as int, None) == Some(flush(None::<RegionSpec>)));
            assert(parse_regions(ls, i as int, None) == Some(flush(None::<RegionSpec>)));
        }
    }
    while i < lr.len()
        invariant
            vstd::string::is_ascii(s),
            lr@.len() == ls.len(),
            forall|k: int|
                0 <= k < lr@.len() ==> {
                    &&& (#[trigger] lr@[k]).0 <= lr@[k].1 <= s@.len()
                    &&& s@.subrange(lr@[k].0 as int, lr@[k].1 as int) == ls[k]
                },
            i <= lr@.len(),
            ({
                let curs: Option<RegionSpec> = if cur is Some {
                    Some(region_view(cur->0))
                } else {
                    None
                };
                match parse_regions(ls, i as int, curs) {
                    Some(suf) => parse_regions(ls, start as int, None) == Some(
                        regions@.map(|k: int, r2: Region| region_view(r2)) + suf,
                    ),
                    None => parse_regions(ls, start as int, None) is None,
                }
            }),
        decreases lr.len() - i,
    {
        let ghost curs: Option<RegionSpec> = if cur is Some {
            Some(region_view(cur->0))
        } else {
            None
        };
        match classify_range(s, lr[i].0, lr[i].1) {
            LineKind::Value(v) => {
                let prev = cur;
                match prev {
                    Some(r) => {
                        cur = Some(apply_rvalue(r, v));
                    },
                    None => {
                        proof {
                            assert(parse_regions(ls, i as int, curs) is None);
                        }
                        return Err(AtlasError::Malformed);
                    },
                }
            },
            LineKind::BadValue => {
                proof {
                    assert(parse_regions(ls, i as int, curs) is None);
                }
                return Err(AtlasError::Malformed);
            },
            LineKind::NewRegion => {
                let rname: String = s.substring_ascii(lr[i].0, lr[i].1).to_owned();
                let prev = cur;
                match prev {
                    Some(r) => {
                        regions.push(r);
                        proof {
                            assert(regions@.map(|k: int, r2: Region| region_view(r2))
                                =~= regions@.subrange(0, regions@.len() - 1).map(
                                |k: int, r2: Region| region_view(r2),
                            ).push(region_view(regions@[regions@.len() - 1])));
                        }
                    },
                    None => {},
                }
                cur = Some(new_region(rname));
            },
        }
        i = i + 1;
    }
    let ghost curs: Option<RegionSpec> = if cur is Some {
        Some(region_view(cur->0))
    } else {
        None
    };
    let last = cur;
    match last {
        Some(r) => {
            regions.push(r);
            proof {
                assert(regions@.map(|k: int, r2: Region| region_view(r2)) =~= regions@.subrange(
                    0,
                    regions@.len() - 1,
                ).map(|k: int, r2: Region| region_view(r2)).push(
                    region_view(regions@[regions@.len() - 1]),
                ));
            }
        },
        None => {},
    }
    proof {
        assert(regions@.map(|k: int, r2: Region| region_view(r2)) =~= regions@.subrange(
            0,
            regions@.len() as int,
        ).map(|k: int, r2: Region| region_view(r2)));
    }
    Ok(regions)
}

/// Parse a bare region section: one or more regions without a page
/// header, as a region block of an atlas file reads.
pub fn parse_region_lines(s: &str) -> (r: Result<Vec<Region>, AtlasError>)
    ensures
        !vstd::string::is_ascii(s) ==> r == Err::<Vec<Region>, AtlasError>(AtlasError::NotAscii),
        vstd::string::is_ascii(s) ==> match parse_regions(
            clean_lines(split_at(s@, '\n', Seq::<char>::empty())),
            0,
            None,
        ) {
            Some(v) => r matches Ok(x) && x@.map(|k: int, r2: Region| region_view(r2)) == v,
            None => r == Err::<Vec<Region>, AtlasError>(AtlasError::Malformed),
        },
{
    if !s.is_ascii() {
        return Err(AtlasError::NotAscii);
    }
    let lr = clean_line_ranges(s);
    let ghost ls = clean_lines(split_at(s@, '\n', Seq::<char>::empty()));
    region_section(s, &lr, Ghost(ls), 0)
}

impl Atlas {
    /// Parse an atlas page.  Exactly the ASCII inputs that
    /// [`spec_parse_atlas`] accepts yield `Ok`, with exactly the content
    /// the specification names; everything else is rejected with the
    /// reason.
    pub fn parse(s: &str) -> (r: Result<Atlas, AtlasError>)
        ensures
            !vstd::string::is_ascii(s) ==> r == Err::<Atlas, AtlasError>(AtlasError::NotAscii),
            vstd::string::is_ascii(s) ==> match spec_parse_atlas(s@) {
                Some(a) => r matches Ok(x) && atlas_view(x) == a,
                None => r == Err::<Atlas, AtlasError>(AtlasError::Malformed),
            },
    {
        if !s.is_ascii() {
            return Err(AtlasError::NotAscii);
        }
        let lr = clean_line_ranges(s);
        let ghost ls = clean_lines(split_at(s@, '\n', Seq::<char>::empty()));
        if lr.len() < 5 {
            return Err(AtlasError::Malformed);
        }
        let name: String = s.substring_ascii(lr[0].0, lr[0].1).to_owned();

        let size: Size = match find_colon(s, lr[1].0, lr[1].1) {
            Some(j) => {
                let k = trim_range(s, lr[1].0, j);
                let v = trim_range(s, j + 1, lr[1].1);
                if !str_range_eq(s, k.0, k.1, "size") {
                    return Err(AtlasError::Malformed);
                }
                match parse_size_range(s, v.0, v.1) {
                    Some(z) => z,
                    None => {
                        return Err(AtlasError::Malformed);
                    },
                }
            },
            None => {
                return Err(AtlasError::Malformed);
            },
        };
        let format: Format = match find_colon(s, lr[2].0, lr[2].1) {
            Some(j) => {
                let k = trim_range(s, lr[2].0, j);
                let v = trim_range(s, j + 1, lr[2].1);
                if !str_range_eq(s, k.0, k.1, "format") {
                    return Err(AtlasError::Malformed);
                }
                match format_range(s, v.0, v.1) {
                    Some(z) => z,
                    None => {
                        return Err(AtlasError::Malformed);
                    },
                }
            },
            None => {
                return Err(AtlasError::Malformed);
            },
        };
        let filter: Filter = match find_colon(s, lr[3].0, lr[3].1) {
            Some(j) => {
                let k = trim_range(s, lr[3].0, j);
                let v = trim_range(s, j + 1, lr[3].1);
                if !str_range_eq(s, k.0, k.1, "filter") {
                    return Err(AtlasError::Malformed);
                }
                match parse_filter_range(s, v.0, v.1) {
                    Some(z) => z,
                    None => {
                        return Err(AtlasError::Malformed);
                    },
                }
            },
            None => {
                return Err(AtlasError::Malformed);
            },
        };
        let repeat: Repeat = match find_colon(s, lr[4].0, lr[4].1) {
            Some(j) => {
                let k = trim_range(s, lr[4].0, j);
                let v = trim_range(s, j + 1, lr[4].1);
                if !str_range_eq(s, k.0, k.1, "repeat") {
                    return Err(AtlasError::Malformed);
                }
                match repeat_range(s, v.0, v.1) {
                    Some(z) => z,
                    None => {
                        return Err(AtlasError::Malformed);
                    },
                }
            },
            None => {
                return Err(AtlasError::Malformed);
            },
        };

        let regions: Vec<Region> = match region_section(s, &lr, Ghost(ls), 5) {
            Ok(v) => v,
            Err(e) => {
                return Err(e);
            },
        };
        let out = Atlas { name, size, format, filter, repeat, regions };
        proof {
            assert(atlas_view(out) == spec_parse_atlas(s@)->0);
        }
        Ok(out)
    }
}

} // verus!
