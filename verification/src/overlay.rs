//! Overlay lifecycle: the state a hot polyline component keeps about its
//! one live overlay, and the decisions it makes when its reactive inputs
//! change or the component is torn down.
//!
//! The host-facing side of a component performs the actions decided here:
//! detaching an overlay from the map, or constructing an overlay from a
//! coordinate array and an option record and attaching it. The decisions
//! guarantee that at most one overlay is live at any point of the action
//! sequence, and that a replacement detaches the previous overlay before
//! attaching the new one. A missing map context skips the update and
//! changes nothing.

use vstd::prelude::*;

use crate::frac::Frac;
use crate::hotline::{build_options, HotlineOptions};
use crate::hotline_palette::{bk_sorted, is_default_stops, spec_serialize, stops_wf, HotlinePalette};
use crate::hotline_position::{to_hotline_lat_lng_array, HotlinePositionVec, LatLng};

verus! {

/// Why an overlay update was skipped.
#[derive(Clone, Copy, Debug, PartialEq, Eq, Structural)]
pub enum OverlayError {
    /// No map context is available; the update is skipped.
    MissingMapContext,
}

/// One host-facing overlay action.
#[derive(Clone, Debug)]
pub enum OverlayAction {
    /// Remove the overlay with this handle from the map.
    Detach {
        /// The handle of the overlay to remove.
        handle: u64,
    },
    /// Construct an overlay from the coordinates and options and add it to
    /// the map, tracked under this handle.
    Attach {
        /// The handle the new overlay is tracked under.
        handle: u64,
        /// The coordinate array for the overlay constructor.
        coords: Vec<LatLng>,
        /// The option record for the overlay constructor.
        opts: HotlineOptions,
    },
}

/// What a component tracks of its overlay.
#[derive(Clone, Copy, Debug, PartialEq, Eq, Structural)]
pub enum OverlayState {
    /// No overlay is attached.
    Unattached,
    /// The overlay with this handle is attached.
    Attached {
        /// The handle of the attached overlay.
        handle: u64,
    },
}

/// The handles of the overlays that `st` keeps live: none, or one.
pub open spec fn live_of(st: OverlayState) -> Set<u64> {
    match st {
        OverlayState::Unattached => Set::empty(),
        OverlayState::Attached { handle } => Set::empty().insert(handle),
    }
}

/// The live handles after one action.
pub open spec fn apply_action(live: Set<u64>, a: OverlayAction) -> Set<u64> {
    match a {
        OverlayAction::Detach { handle } => live.remove(handle),
        OverlayAction::Attach { handle, .. } => live.insert(handle),
    }
}

/// The live handles after a sequence of actions.
pub open spec fn apply_actions(live: Set<u64>, acts: Seq<OverlayAction>) -> Set<u64>
    decreases acts.len(),
{
    if acts.len() == 0 {
        live
    } else {
        apply_actions(apply_action(live, acts[0]), acts.skip(1))
    }
}

/// The overlay lifecycle manager of one component instance.
#[derive(Clone, Copy, Debug, PartialEq, Eq, Structural)]
pub struct OverlayManager {
    /// What is attached now.
    pub state: OverlayState,
    /// The next unused overlay handle.
    pub next_handle: u64,
}

impl OverlayManager {
    /// Well-formed: an attached handle was taken from the used range.
    pub open spec fn wf(self) -> bool {
        match self.state {
            OverlayState::Unattached => true,
            OverlayState::Attached { handle } => handle < self.next_handle,
        }
    }

    /// A manager for a freshly created component: nothing attached yet.
    pub fn new() -> (r: OverlayManager)
        ensures
            r.state == OverlayState::Unattached,
            r.next_handle == 0,
            r.wf(),
    {
        OverlayManager { state: OverlayState::Unattached, next_handle: 0 }
    }

    /// Decide the actions of one reactive update, given the coordinate
    /// array and options already built from the inputs.
    ///
    /// Without a map context nothing changes and the update reports
    /// `MissingMapContext`, to be logged and otherwise ignored. With one,
    /// the decided actions detach the previously attached overlay (if
    /// any) first, then construct and attach the new one under a fresh
    /// handle; afterwards exactly that new overlay is live, and no point
    /// of the action sequence sees more than one live overlay.
    pub fn on_update(&mut self, map_present: bool, coords: Vec<LatLng>, opts: HotlineOptions) -> (r:
        Result<Vec<OverlayAction>, OverlayError>)
        requires
            old(self).wf(),
            old(self).next_handle < u64::MAX,
        ensures
            final(self).wf(),
            !map_present ==> r == Err::<Vec<OverlayAction>, OverlayError>(
                OverlayError::MissingMapContext,
            ) && *final(self) == *old(self),
            map_present ==> (r matches Ok(acts) && {
                &&& final(self).state == (OverlayState::Attached {
                    handle: old(self).next_handle,
                })
                &&& final(self).next_handle == old(self).next_handle + 1
                &&& old(self).state is Unattached ==> acts@ == seq![
                    (OverlayAction::Attach { handle: old(self).next_handle, coords, opts }),
                ]
                &&& old(self).state matches OverlayState::Attached { handle } ==> acts@ == seq![
                    (OverlayAction::Detach { handle }),
                    (OverlayAction::Attach { handle: old(self).next_handle, coords, opts }),
                ]
                &&& apply_actions(live_of(old(self).state), acts@) == live_of(final(self).state)
                &&& forall|k: int|
                    0 <= k <= acts@.len() ==> (#[trigger] apply_actions(
                        live_of(old(self).state),
                        acts@.take(k),
                    )).len() <= 1
            }),
    {
        if !map_present {
            return Err(OverlayError::MissingMapContext);
        }
        let h = self.next_handle;
        let prior = self.state;
        let mut acts: Vec<OverlayAction> = Vec::new();
        match prior {
            OverlayState::Attached { handle } => {
                acts.push(OverlayAction::Detach { handle });
            },
            OverlayState::Unattached => {},
        }
        acts.push(OverlayAction::Attach { handle: h, coords, opts });
        self.state = OverlayState::Attached { handle: h };
        self.next_handle = h + 1;
        proof {
            reveal_with_fuel(apply_actions, 3);
            let live0 = live_of(prior);
            match prior {
                OverlayState::Unattached => {
                    assert(acts@.skip(1) =~= Seq::<OverlayAction>::empty());
                    assert(apply_actions(live0, acts@) =~= live_of(self.state));
                    assert forall|k: int| 0 <= k <= acts@.len() implies (#[trigger] apply_actions(
                        live0,
                        acts@.take(k),
                    )).len() <= 1 by {
                        if k == 0 {
                            assert(acts@.take(0) =~= Seq::<OverlayAction>::empty());
                        } else {
                            assert(acts@.take(1) =~= acts@);
                        }
                    }
                },
                OverlayState::Attached { handle } => {
                    assert(acts@.skip(1).skip(1) =~= Seq::<OverlayAction>::empty());
                    assert(acts@.skip(1)[0] == acts@[1]);
                    assert(live0.remove(handle) =~= Set::<u64>::empty());
                    assert(apply_actions(live0, acts@) =~= live_of(self.state));
                    assert forall|k: int| 0 <= k <= acts@.len() implies (#[trigger] apply_actions(
                        live0,
                        acts@.take(k),
                    )).len() <= 1 by {
                        if k == 0 {
                            assert(acts@.take(0) =~= Seq::<OverlayAction>::empty());
                        } else if k == 1 {
                            assert(acts@.take(1).skip(1) =~= Seq::<OverlayAction>::empty());
                            assert(acts@.take(1)[0] == acts@[0]);
                            assert(apply_actions(live0, acts@.take(1)) =~= Set::<u64>::empty());
                        } else {
                            assert(acts@.take(2) =~= acts@);
                        }
                    }
                },
            }
        }
        Ok(acts)
    }

    /// One reactive update of a hot polyline component, from its props:
    /// build the coordinate array from the positions, resolve the
    /// optional props into the effective options, and decide the overlay
    /// actions as [`OverlayManager::on_update`] does.
    pub fn update_from_props(
        &mut self,
        positions: &HotlinePositionVec,
        palette: HotlinePalette,
        outline_color: Option<String>,
        max: Option<Frac>,
        min: Option<Frac>,
        map_present: bool,
    ) -> (r: Result<Vec<OverlayAction>, OverlayError>)
        requires
            old(self).wf(),
            old(self).next_handle < u64::MAX,
            stops_wf(palette.palette@),
        ensures
            final(self).wf(),
            !map_present ==> r == Err::<Vec<OverlayAction>, OverlayError>(
                OverlayError::MissingMapContext,
            ) && *final(self) == *old(self),
            map_present ==> (r matches Ok(acts) && {
                &&& final(self).state == (OverlayState::Attached {
                    handle: old(self).next_handle,
                })
                &&& final(self).next_handle == old(self).next_handle + 1
                &&& old(self).state is Unattached ==> acts@.len() == 1
                &&& (old(self).state matches OverlayState::Attached { handle } ==> acts@.len() == 2
                    && acts@[0] == (OverlayAction::Detach { handle }))
                &&& apply_actions(live_of(old(self).state), acts@) == live_of(final(self).state)
                &&& forall|k: int|
                    0 <= k <= acts@.len() ==> (#[trigger] apply_actions(
                        live_of(old(self).state),
                        acts@.take(k),
                    )).len() <= 1
                &&& (acts@.last() matches OverlayAction::Attach { handle, coords, opts } && {
                    &&& handle == old(self).next_handle
                    &&& coords@.len() == positions.positions@.len()
                    &&& forall|i: int|
                        0 <= i < coords@.len() ==> #[trigger] coords@[i] == (LatLng {
                            lat: positions.positions@[i].latlng.lat,
                            lng: positions.positions@[i].latlng.lng,
                            alt: positions.positions@[i].alt,
                        })
                    &&& palette.palette@.len() > 0 ==> opts.palette@ == spec_serialize(
                        palette.palette@,
                    )
                    &&& palette.palette@.len() == 0 ==> is_default_stops(opts.palette@)
                    &&& bk_sorted(opts.palette@)
                    &&& outline_color is None ==> opts.outline_color@ == "black"@
                    &&& (outline_color matches Some(c) ==> (c@.len() == 0
                        ==> opts.outline_color@ == "black"@) && (c@.len() > 0
                        ==> opts.outline_color@ == c@))
                    &&& max is None ==> opts.max == (Frac { num: 1, den: 1 })
                    &&& (max matches Some(mx) ==> opts.max == mx)
                    &&& min is None ==> opts.min == (Frac { num: 0, den: 1 })
                    &&& (min matches Some(mn) ==> opts.min == mn)
                })
            }),
    {
        let coords = to_hotline_lat_lng_array(positions);
        let opts = build_options(palette, outline_color, max, min);
        self.on_update(map_present, coords, opts)
    }

    /// Decide the actions of a component teardown: detach whatever is
    /// attached. Afterwards nothing is attached and nothing is live.
    pub fn on_unmount(&mut self) -> (r: Vec<OverlayAction>)
        requires
            old(self).wf(),
        ensures
            final(self).wf(),
            final(self).state == OverlayState::Unattached,
            final(self).next_handle == old(self).next_handle,
            old(self).state is Unattached ==> r@ == Seq::<OverlayAction>::empty(),
            old(self).state matches OverlayState::Attached { handle } ==> r@ == seq![
                (OverlayAction::Detach { handle }),
            ],
            apply_actions(live_of(old(self).state), r@) == Set::<u64>::empty(),
    {
        let prior = self.state;
        let mut acts: Vec<OverlayAction> = Vec::new();
        match prior {
            OverlayState::Attached { handle } => {
                acts.push(OverlayAction::Detach { handle });
            },
            OverlayState::Unattached => {},
        }
        self.state = OverlayState::Unattached;
        proof {
            reveal_with_fuel(apply_actions, 3);
            let live0 = live_of(prior);
            match prior {
                OverlayState::Unattached => {
                    assert(acts@ =~= Seq::<OverlayAction>::empty());
                    assert(apply_actions(live0, acts@) =~= Set::<u64>::empty());
                },
                OverlayState::Attached { handle } => {
                    assert(acts@.skip(1) =~= Seq::<OverlayAction>::empty());
                    assert(apply_actions(live0, acts@) =~= Set::<u64>::empty());
                },
            }
        }
        acts
    }
}

} // verus!
