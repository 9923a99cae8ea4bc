use hotline::{to_hotline_lat_lng_array, Frac, HotlinePosition, HotlinePositionVec};

#[test]
fn test_normalized_scenario_divides_by_max() {
    // values 10, 20, 5 normalize to 0.5, 1.0, 0.25
    let arr = vec![
        (Frac::from_int(40), Frac::from_int(-105), Frac::from_int(10)),
        (Frac::from_int(40), Frac::new(-10501, 100), Frac::from_int(20)),
        (Frac::from_int(40), Frac::new(-10502, 100), Frac::from_int(5)),
    ];
    let v = HotlinePositionVec::new(&arr);
    assert_eq!(v.positions.len(), 3);
    assert!(v.positions[0].alt.eqv(&Frac::new(1, 2)));
    assert!(v.positions[1].alt.eqv(&Frac::new(1, 1)));
    assert!(v.positions[2].alt.eqv(&Frac::new(1, 4)));
    // coordinates pass through in order
    assert_eq!(v.positions[0].latlng.lng, Frac { num: -105, den: 1 });
    assert_eq!(v.positions[1].latlng.lng, Frac { num: -10501, den: 100 });
    assert_eq!(v.positions[2].latlng.lng, Frac { num: -10502, den: 100 });
}

#[test]
fn test_normalized_max_is_one() {
    let arr = vec![
        (Frac::from_int(1), Frac::from_int(2), Frac::new(3, 2)),
        (Frac::from_int(3), Frac::from_int(4), Frac::new(-7, 3)),
        (Frac::from_int(5), Frac::from_int(6), Frac::new(1, 3)),
    ];
    let v = HotlinePositionVec::new(&arr);
    let one = Frac::new(1, 1);
    let mut saw_one = false;
    for p in &v.positions {
        assert!(p.alt.le(&one));
        if p.alt.eqv(&one) {
            saw_one = true;
        }
    }
    assert!(saw_one);
}

#[test]
fn test_normalized_empty_returns_empty() {
    let v = HotlinePositionVec::new(&Vec::new());
    assert_eq!(v.positions.len(), 0);
}

#[test]
fn test_raw_empty_returns_empty() {
    let v = HotlinePositionVec::new_raw(&Vec::new());
    assert_eq!(v.positions.len(), 0);
}

#[test]
fn test_raw_passes_values_through() {
    let arr = vec![
        (Frac::from_int(90), Frac::from_int(135), Frac::new(0, 1)),
        (Frac::new(9001, 100), Frac::new(13501, 100), Frac::from_int(100)),
    ];
    let v = HotlinePositionVec::new_raw(&arr);
    assert_eq!(v.positions.len(), 2);
    assert_eq!(v.positions[0].alt, Frac { num: 0, den: 1 });
    assert_eq!(v.positions[1].alt, Frac { num: 100, den: 1 });
    assert_eq!(v.positions[1].latlng.lat, Frac { num: 9001, den: 100 });
}

#[test]
fn test_normalized_no_positive_value_passes_through() {
    // greatest value is 0: nothing can scale to one, values stay as given
    let arr = vec![
        (Frac::from_int(1), Frac::from_int(2), Frac::from_int(0)),
        (Frac::from_int(3), Frac::from_int(4), Frac::from_int(-5)),
    ];
    let v = HotlinePositionVec::new(&arr);
    assert_eq!(v.positions[0].alt, Frac { num: 0, den: 1 });
    assert_eq!(v.positions[1].alt, Frac { num: -5, den: 1 });
}

#[test]
fn test_position_accessors() {
    let p = HotlinePosition::new(Frac::new(402928, 10000), Frac::new(-1056190, 10000), Frac::from_int(25));
    assert_eq!(p.get_lat(), Frac { num: 402928, den: 10000 });
    assert_eq!(p.get_lng(), Frac { num: -1056190, den: 10000 });
    assert_eq!(p.alt, Frac { num: 25, den: 1 });
}

#[test]
fn test_to_hotline_lat_lng_array_mirrors_positions() {
    let arr = vec![
        (Frac::from_int(40), Frac::from_int(-105), Frac::from_int(10)),
        (Frac::from_int(41), Frac::from_int(-106), Frac::from_int(20)),
    ];
    let v = HotlinePositionVec::new(&arr);
    let lat_lngs = to_hotline_lat_lng_array(&v);
    assert_eq!(lat_lngs.len(), 2);
    for (ll, p) in lat_lngs.iter().zip(v.positions.iter()) {
        assert_eq!(ll.lat, p.latlng.lat);
        assert_eq!(ll.lng, p.latlng.lng);
        assert_eq!(ll.alt, p.alt);
    }
}
