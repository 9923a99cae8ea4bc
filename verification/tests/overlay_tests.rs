use hotline::{
    Frac, HotlinePalette, HotlinePositionVec, OverlayAction, OverlayError, OverlayManager,
    OverlayState,
};

fn coords_of(action: &OverlayAction) -> usize {
    match action {
        OverlayAction::Attach { coords, .. } => coords.len(),
        OverlayAction::Detach { .. } => panic!("expected an attach action"),
    }
}

#[test]
fn test_update_without_map_is_skipped() {
    let mut mgr = OverlayManager::new();
    let r = mgr.update_from_props(
        &HotlinePositionVec::new_raw(&Vec::new()),
        HotlinePalette::default(),
        None,
        None,
        None,
        false,
    );
    assert_eq!(r.unwrap_err(), OverlayError::MissingMapContext);
    assert_eq!(mgr.state, OverlayState::Unattached);
    assert_eq!(mgr.next_handle, 0);
}

#[test]
fn test_first_update_attaches_once() {
    let mut mgr = OverlayManager::new();
    let arr = vec![(Frac::from_int(1), Frac::from_int(2), Frac::from_int(3))];
    let acts = mgr
        .update_from_props(
            &HotlinePositionVec::new_raw(&arr),
            HotlinePalette::default(),
            None,
            None,
            None,
            true,
        )
        .unwrap();
    assert_eq!(acts.len(), 1);
    match &acts[0] {
        OverlayAction::Attach { handle, coords, opts } => {
            assert_eq!(*handle, 0);
            assert_eq!(coords.len(), 1);
            assert_eq!(coords[0].lat, Frac { num: 1, den: 1 });
            assert_eq!(opts.outline_color, "black");
            assert_eq!(opts.max, Frac { num: 1, den: 1 });
            assert_eq!(opts.min, Frac { num: 0, den: 1 });
            assert_eq!(opts.palette.len(), 4);
        }
        OverlayAction::Detach { .. } => panic!("first update must not detach"),
    }
    assert_eq!(mgr.state, OverlayState::Attached { handle: 0 });
    assert_eq!(mgr.next_handle, 1);
}

#[test]
fn test_replacement_detaches_before_attaching() {
    let mut mgr = OverlayManager::new();
    let arr = vec![(Frac::from_int(1), Frac::from_int(2), Frac::from_int(3))];
    let positions = HotlinePositionVec::new_raw(&arr);
    mgr.update_from_props(&positions, HotlinePalette::default(), None, None, None, true)
        .unwrap();
    let acts = mgr
        .update_from_props(&positions, HotlinePalette::default(), None, None, None, true)
        .unwrap();
    assert_eq!(acts.len(), 2);
    match &acts[0] {
        OverlayAction::Detach { handle } => assert_eq!(*handle, 0),
        OverlayAction::Attach { .. } => panic!("replacement must detach first"),
    }
    match &acts[1] {
        OverlayAction::Attach { handle, .. } => assert_eq!(*handle, 1),
        OverlayAction::Detach { .. } => panic!("replacement must attach the new overlay"),
    }
    assert_eq!(coords_of(&acts[1]), 1);
    assert_eq!(mgr.state, OverlayState::Attached { handle: 1 });
}

#[test]
fn test_unmount_detaches_attached_overlay() {
    let mut mgr = OverlayManager::new();
    let arr = vec![(Frac::from_int(1), Frac::from_int(2), Frac::from_int(3))];
    mgr.update_from_props(
        &HotlinePositionVec::new_raw(&arr),
        HotlinePalette::default(),
        None,
        None,
        None,
        true,
    )
    .unwrap();
    let acts = mgr.on_unmount();
    assert_eq!(acts.len(), 1);
    match &acts[0] {
        OverlayAction::Detach { handle } => assert_eq!(*handle, 0),
        OverlayAction::Attach { .. } => panic!("teardown must only detach"),
    }
    assert_eq!(mgr.state, OverlayState::Unattached);
}

#[test]
fn test_unmount_of_unattached_does_nothing() {
    let mut mgr = OverlayManager::new();
    let acts = mgr.on_unmount();
    assert!(acts.is_empty());
    assert_eq!(mgr.state, OverlayState::Unattached);
}

#[test]
fn test_update_resolves_props_for_overlay_construction() {
    // outline "" resolves to black for overlay construction; explicit
    // thresholds pass through
    let mut mgr = OverlayManager::new();
    let arr = vec![
        (Frac::from_int(40), Frac::from_int(-105), Frac::from_int(10)),
        (Frac::from_int(41), Frac::from_int(-106), Frac::from_int(20)),
    ];
    let acts = mgr
        .update_from_props(
            &HotlinePositionVec::new(&arr),
            HotlinePalette::default(),
            Some(String::new()),
            Some(Frac::new(3, 4)),
            Some(Frac::new(1, 4)),
            true,
        )
        .unwrap();
    match &acts[0] {
        OverlayAction::Attach { coords, opts, .. } => {
            assert_eq!(coords.len(), 2);
            assert!(coords[0].alt.eqv(&Frac::new(1, 2)));
            assert!(coords[1].alt.eqv(&Frac::new(1, 1)));
            assert_eq!(opts.outline_color, "black");
            assert_eq!(opts.max, Frac { num: 3, den: 4 });
            assert_eq!(opts.min, Frac { num: 1, den: 4 });
        }
        OverlayAction::Detach { .. } => panic!("nothing to detach on the first update"),
    }
}
