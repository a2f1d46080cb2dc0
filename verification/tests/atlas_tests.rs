use spine2d5::atlas::{
    parse_region_lines, Atlas, AtlasError, Filter, FilterSetting, Format, Pad, Point, Region,
    Repeat, Size, Split,
};

#[test]
fn parse_full_atlas() {
    let answer = Atlas {
        name: "BugSpine_tex.png".to_string(),
        size: Size { width: 0, height: 0 },
        format: Format::RGBA8888,
        filter: Filter {
            minification: FilterSetting::Linear,
            magnification: FilterSetting::Linear,
        },
        repeat: Repeat::No,
        regions: vec![
            Region {
                name: "bug_leg".to_string(),
                rotate: false,
                xy: Point { x: 1, y: 47 },
                size: Size { width: 31, height: 70 },
                orig: Point { x: 35, y: 71 },
                offset: Point { x: -2, y: 0 },
                index: -1,
                split: None,
                pad: None,
            },
            Region {
                name: "bug_body".to_string(),
                rotate: false,
                xy: Point { x: 1, y: 1 },
                size: Size { width: 62, height: 44 },
                orig: Point { x: 64, y: 45 },
                offset: Point { x: -1, y: 0 },
                index: -1,
                split: None,
                pad: None,
            },
            Region {
                name: "bug_eye".to_string(),
                rotate: false,
                xy: Point { x: 34, y: 47 },
                size: Size { width: 19, height: 24 },
                orig: Point { x: 19, y: 24 },
                offset: Point { x: 0, y: 0 },
                index: -1,
                split: None,
                pad: None,
            },
        ],
    };

    let result = Atlas::parse(
        "BugSpine_tex.png
size: 0,0
format: RGBA8888
filter: Linear,Linear
repeat: none
bug_leg
  rotate: false
  xy: 1 ,47
  size: 31 ,70
  orig: 35 ,71
  offset: -2 ,0
  index: -1
bug_body
  rotate: false
  xy: 1 ,1
  size: 62 ,44
  orig: 64 ,45
  offset: -1 ,0
  index: -1
bug_eye
  rotate: false
  xy: 34 ,47
  size: 19 ,24
  orig: 19 ,24
  offset: 0,0
  index: -1",
    );

    assert_eq!(result, Ok(answer));
}

#[test]
fn parse_atlas() {
    let answer = Atlas {
        name: "BugSpine_tex.png".to_string(),
        size: Size { width: 0, height: 0 },
        format: Format::RGBA8888,
        filter: Filter {
            minification: FilterSetting::Linear,
            magnification: FilterSetting::Linear,
        },
        repeat: Repeat::No,
        regions: Vec::new(),
    };
    let result = Atlas::parse(
        "BugSpine_tex.png
  size: 0,0
  format: RGBA8888
  filter: Linear,Linear
  repeat: none",
    );

    assert_eq!(result, Ok(answer));
}

#[test]
fn parse_partial_region() {
    let answer = Region {
        name: "bug_body".to_string(),
        rotate: true,
        xy: Point { x: 12, y: 11 },
        size: Size { width: 62, height: 44 },
        orig: Point { x: 64, y: 45 },
        offset: Point { x: -1, y: 0 },
        index: -1,
        split: None,
        pad: None,
    };
    let input = "bug_body
  rotate: true
  xy: 12 ,11
  size: 62 ,44
  orig: 64 ,45
  offset: -1 ,0
  index: -1";

    let result = parse_region_lines(input);

    assert_eq!(result, Ok(vec![answer]));
}

#[test]
fn parse_full_region() {
    let answer = Region {
        name: "bug_body".to_string(),
        rotate: true,
        xy: Point { x: 12, y: 11 },
        size: Size { width: 62, height: 44 },
        orig: Point { x: 64, y: 45 },
        offset: Point { x: -1, y: 0 },
        index: -1,
        split: Some(Split { left: 1, right: 3, top: 5, bottom: 6 }),
        pad: Some(Pad { left: 9, right: 7, top: 5, bottom: 3 }),
    };
    let input = "bug_body
  rotate: true
  xy: 12 ,11
  size: 62 ,44
  orig: 64 ,45
  offset: -1 ,0
  index: -1
  split: 1,3,5,6
  pad: 9,7,5,3";

    let result = parse_region_lines(input);

    assert_eq!(result, Ok(vec![answer]));
}

#[test]
fn parse_rejects_non_ascii() {
    let result = Atlas::parse("pagé\nsize: 0,0\nformat: RGBA8888\nfilter: Linear,Linear\nrepeat: none");
    assert_eq!(result, Err(AtlasError::NotAscii));
}

#[test]
fn parse_rejects_missing_header() {
    assert_eq!(Atlas::parse("just_a_name"), Err(AtlasError::Malformed));
    assert_eq!(
        Atlas::parse("page\nsize: 0,0\nformat: NotAFormat\nfilter: Linear,Linear\nrepeat: none"),
        Err(AtlasError::Malformed)
    );
    assert_eq!(
        Atlas::parse("page\nsize: 0,0\nformat: RGBA8888\nfilter: Linear,Linear\nrepeat: never"),
        Err(AtlasError::Malformed)
    );
}

#[test]
fn parse_rejects_bad_region_value() {
    let result = Atlas::parse(
        "page
size: 0,0
format: RGBA8888
filter: Linear,Linear
repeat: none
part
  xy: 1,notanumber",
    );
    assert_eq!(result, Err(AtlasError::Malformed));
}

#[test]
fn region_value_lines_need_a_region() {
    assert_eq!(parse_region_lines("  xy: 1,2"), Err(AtlasError::Malformed));
}
