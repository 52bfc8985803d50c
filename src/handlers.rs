use crate::seat_data::SeatData;
use vstd::prelude::*;

verus! {

/// Handles a seat's own events.
pub struct WlSeatHandler;

impl WlSeatHandler {
    /// The compositor named the seat.
    pub fn name(&mut self, seat: &mut SeatData, name: String)
        ensures
            final(seat).name == Some(name),
            final(seat).device == old(seat).device,
            final(seat).offer == old(seat).offer,
    {
        seat.set_name(name);
    }
}

/// A transfer to start: read the selected `offer` as `text/plain` through a
/// fresh pipe, after destroying the superseded offer `release`, if any.
#[derive(Debug, PartialEq, Eq, Structural)]
pub struct Fetch {
    pub offer: u32,
    pub release: Option<u32>,
}

/// Reacts to the events of one seat's clipboard-control device.
pub struct DataDeviceHandler {
    /// Whether primary-selection changes are captured too.
    pub primary_selection: bool,
}

impl DataDeviceHandler {
    pub fn new(primary_selection: bool) -> (r: DataDeviceHandler)
        ensures
            r.primary_selection == primary_selection,
    {
        DataDeviceHandler { primary_selection }
    }

    /// The selection changed. A cleared selection changes nothing; a new
    /// offer becomes the seat's offer and is to be fetched, and the offer it
    /// supersedes is to be destroyed.
    pub fn selection(&mut self, seat: &mut SeatData, offer: Option<u32>) -> (r: Option<Fetch>)
        ensures
            *final(self) == *old(self),
            offer is None ==> r is None && *final(seat) == *old(seat),
            offer matches Some(o) ==> r == Some(Fetch { offer: o, release: old(seat).offer })
                && final(seat).offer == Some(o) && final(seat).name == old(seat).name
                && final(seat).device == old(seat).device,
    {
        match offer {
            None => None,
            Some(o) => {
                let release = seat.set_offer(Some(o));
                Some(Fetch { offer: o, release })
            },
        }
    }

    /// The primary selection changed: handled as `selection` when this
    /// handler captures the primary selection, ignored otherwise.
    pub fn primary_selection(&mut self, seat: &mut SeatData, offer: Option<u32>) -> (r: Option<
        Fetch,
    >)
        ensures
            *final(self) == *old(self),
            !old(self).primary_selection ==> r is None && *final(seat) == *old(seat),
            old(self).primary_selection && offer is None ==> r is None && *final(seat) == *old(seat),
            old(self).primary_selection ==> (offer matches Some(o) ==> r == Some(
                Fetch { offer: o, release: old(seat).offer },
            ) && final(seat).offer == Some(o) && final(seat).name == old(seat).name
                && final(seat).device == old(seat).device),
    {
        if self.primary_selection {
            self.selection(seat, offer)
        } else {
            None
        }
    }

    /// The compositor invalidated the device: the seat drops it, and the
    /// device it held is handed back to be destroyed.
    pub fn finished(&mut self, seat: &mut SeatData) -> (released: Option<u32>)
        ensures
            *final(self) == *old(self),
            released == old(seat).device,
            final(seat).device is None,
            final(seat).name == old(seat).name,
            final(seat).offer == old(seat).offer,
    {
        seat.set_device(None)
    }
}

/// Collects the mime types that an offer advertises.
pub struct DataControlOfferHandler;

impl DataControlOfferHandler {
    /// The offer advertised `mime_type`; the list holds each type once, in the
    /// order first advertised.
    pub fn offer(&mut self, mime_types: &mut Vec<String>, mime_type: String)
        ensures
            final(mime_types)@.map_values(|s: String| s@) == if old(mime_types)@.map_values(
                |s: String| s@,
            ).contains(mime_type@) {
                old(mime_types)@.map_values(|s: String| s@)
            } else {
                old(mime_types)@.map_values(|s: String| s@).push(mime_type@)
            },
    {
        let ghost old_view = mime_types@.map_values(|s: String| s@);
        let mut i: usize = 0;
        while i < mime_types.len()
            invariant
                i <= mime_types.len(),
                mime_types@.map_values(|s: String| s@) == old_view,
                forall|j: int| 0 <= j < i ==> #[trigger] old_view[j] != mime_type@,
            decreases mime_types.len() - i,
        {
            assert(old_view[i as int] == mime_types@[i as int]@);
            if mime_types[i] == mime_type {
                assert(old_view.contains(mime_type@)) by {
                    assert(old_view[i as int] == mime_type@);
                }
                return ;
            }
            i += 1;
        }
        assert(!old_view.contains(mime_type@));
        mime_types.push(mime_type);
        assert(mime_types@.map_values(|s: String| s@) =~= old_view.push(mime_type@));
    }
}

} // verus!
