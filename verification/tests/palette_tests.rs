use hotline::{Frac, HotlinePalette, HotlinePaletteStruct};

fn pairs(input: &[(&str, Frac)]) -> Vec<(String, Frac)> {
    input.iter().map(|(c, b)| (c.to_string(), *b)).collect()
}

#[test]
fn test_default_palette() {
    let palette = HotlinePalette::default();
    let stops = &palette.palette;
    assert_eq!(stops.len(), 4);
    assert_eq!(stops[0].color, "green");
    assert_eq!(stops[0].breakpoint, Frac { num: 0, den: 1 });
    assert_eq!(stops[1].color, "blue");
    assert_eq!(stops[1].breakpoint, Frac { num: 33, den: 100 });
    assert_eq!(stops[2].color, "#ffff00");
    assert_eq!(stops[2].breakpoint, Frac { num: 67, den: 100 });
    assert_eq!(stops[3].color, "red");
    assert_eq!(stops[3].breakpoint, Frac { num: 1, den: 1 });
}

#[test]
fn test_palette_from_pairs_keeps_first_occurrence_order() {
    let palette = HotlinePalette::new(&pairs(&[
        ("red", Frac::new(1, 1)),
        ("green", Frac::new(0, 1)),
    ]));
    assert_eq!(palette.palette.len(), 2);
    assert_eq!(palette.palette[0].color, "red");
    assert_eq!(palette.palette[1].color, "green");
}

#[test]
fn test_palette_repeated_color_last_write_wins() {
    let palette = HotlinePalette::new(&pairs(&[
        ("green", Frac::new(0, 1)),
        ("red", Frac::new(1, 1)),
        ("green", Frac::new(1, 2)),
    ]));
    assert_eq!(palette.palette.len(), 2);
    assert_eq!(palette.palette[0].color, "green");
    assert_eq!(palette.palette[0].breakpoint, Frac { num: 1, den: 2 });
    assert_eq!(palette.palette[1].color, "red");
}

#[test]
fn test_empty_palette_builds_empty() {
    let palette = HotlinePalette::new(&Vec::new());
    assert_eq!(palette.palette.len(), 0);
}

#[test]
fn test_sorted_stops_orders_by_breakpoint() {
    let palette = HotlinePalette::new(&pairs(&[
        ("red", Frac::new(1, 1)),
        ("green", Frac::new(0, 1)),
        ("mid", Frac::new(1, 2)),
    ]));
    let sorted = palette.to_sorted_stops();
    assert_eq!(sorted.len(), 3);
    assert_eq!(sorted[0].color, "green");
    assert_eq!(sorted[1].color, "mid");
    assert_eq!(sorted[2].color, "red");
}

#[test]
fn test_sorted_stops_equal_breakpoint_last_write_wins() {
    // two colors on the same breakpoint value, written differently
    let palette = HotlinePalette::new(&pairs(&[
        ("first", Frac::new(1, 2)),
        ("second", Frac::new(2, 4)),
    ]));
    let sorted = palette.to_sorted_stops();
    assert_eq!(sorted.len(), 1);
    assert_eq!(sorted[0].color, "second");
    assert_eq!(sorted[0].breakpoint, Frac { num: 2, den: 4 });
}

#[test]
fn test_hotline_palette_empty_falls_back_to_default() {
    let wrapper = HotlinePaletteStruct(HotlinePalette::new(&Vec::new()));
    let stops = wrapper.hotline_palette();
    assert_eq!(stops.len(), 4);
    assert_eq!(stops[0].color, "green");
    assert_eq!(stops[1].color, "blue");
    assert_eq!(stops[2].color, "#ffff00");
    assert_eq!(stops[3].color, "red");
}

#[test]
fn test_hotline_palette_nonempty_serializes_own_stops() {
    let wrapper = HotlinePaletteStruct(HotlinePalette::new(&pairs(&[
        ("red", Frac::new(1, 1)),
        ("green", Frac::new(0, 1)),
    ])));
    let stops = wrapper.hotline_palette();
    assert_eq!(stops.len(), 2);
    assert_eq!(stops[0].color, "green");
    assert_eq!(stops[1].color, "red");
}
