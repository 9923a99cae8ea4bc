use hotline::{
    build_options, Frac, HotlineMax, HotlineMin, HotlineOptions, HotlineOutlineColor,
    HotlinePalette, HotlinePaletteStruct, HotlinePositions, HotlinePositionVec,
};

fn pairs(input: &[(&str, Frac)]) -> Vec<(String, Frac)> {
    input.iter().map(|(c, b)| (c.to_string(), *b)).collect()
}

#[test]
fn test_outline_color() {
    let outline_color = HotlineOutlineColor("red".to_string());
    assert_eq!(outline_color.outline_color(), "red");
}

#[test]
fn test_default_outline_color() {
    // the empty token resolves to the default outline color
    let outline_color = HotlineOutlineColor("".to_string());
    assert_eq!(outline_color.outline_color(), "black");
}

#[test]
fn test_hotline_max_with_value() {
    let hotline_max = HotlineMax(Frac::new(3, 4));
    assert_eq!(hotline_max.hotline_max(), Frac { num: 3, den: 4 });
}

#[test]
fn test_hotline_min_with_value() {
    let hotline_min = HotlineMin(Frac::new(1, 4));
    assert_eq!(hotline_min.hotline_min(), Frac { num: 1, den: 4 });
}

#[test]
fn test_build_options_defaults() {
    // max and min omitted resolve to 1.0 and 0.0; outline omitted to black
    let opts = build_options(HotlinePalette::default(), None, None, None);
    assert_eq!(opts.max, Frac { num: 1, den: 1 });
    assert_eq!(opts.min, Frac { num: 0, den: 1 });
    assert_eq!(opts.outline_color, "black");
}

#[test]
fn test_build_options_scenario() {
    // palette green at 0 and red at 1, outline white, max 1, min 0
    let palette = HotlinePalette::new(&pairs(&[
        ("green", Frac::new(0, 1)),
        ("red", Frac::new(1, 1)),
    ]));
    let opts = build_options(
        palette,
        Some("white".to_string()),
        Some(Frac::new(1, 1)),
        Some(Frac::new(0, 1)),
    );
    assert_eq!(opts.palette.len(), 2);
    assert_eq!(opts.palette[0].color, "green");
    assert_eq!(opts.palette[0].breakpoint, Frac { num: 0, den: 1 });
    assert_eq!(opts.palette[1].color, "red");
    assert_eq!(opts.palette[1].breakpoint, Frac { num: 1, den: 1 });
    assert_eq!(opts.outline_color, "white");
    assert_eq!(opts.max, Frac { num: 1, den: 1 });
    assert_eq!(opts.min, Frac { num: 0, den: 1 });
}

#[test]
fn test_build_options_empty_outline_token() {
    let opts = build_options(HotlinePalette::default(), Some(String::new()), None, None);
    assert_eq!(opts.outline_color, "black");
}

#[test]
fn test_options_new_combines_resolved_props() {
    let palette = HotlinePaletteStruct(HotlinePalette::new(&pairs(&[
        ("red", Frac::new(1, 1)),
        ("green", Frac::new(0, 1)),
    ])));
    let outline = HotlineOutlineColor("white".to_string());
    let max = HotlineMax(Frac::new(1, 1));
    let min = HotlineMin(Frac::new(0, 1));
    let opts = HotlineOptions::new(&palette, &outline, &max, &min);
    assert_eq!(opts.palette[0].color, "green");
    assert_eq!(opts.palette[1].color, "red");
    assert_eq!(opts.outline_color, "white");
    assert_eq!(opts.max, Frac { num: 1, den: 1 });
    assert_eq!(opts.min, Frac { num: 0, den: 1 });
}

#[test]
fn test_hotline_lat_lngs_wrapper() {
    let arr = vec![(Frac::from_int(1), Frac::from_int(2), Frac::from_int(3))];
    let wrapper = HotlinePositions(HotlinePositionVec::new_raw(&arr));
    let lat_lngs = wrapper.hotline_lat_lngs();
    assert_eq!(lat_lngs.len(), 1);
    assert_eq!(lat_lngs[0].lat, Frac { num: 1, den: 1 });
    assert_eq!(lat_lngs[0].lng, Frac { num: 2, den: 1 });
    assert_eq!(lat_lngs[0].alt, Frac { num: 3, den: 1 });
}
