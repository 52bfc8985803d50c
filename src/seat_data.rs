use vstd::prelude::*;

verus! {

/// What the daemon tracks of one seat. The compositor's clipboard-control
/// device and the selected offer are named by their protocol object ids;
/// whoever owns the objects releases the ids that the setters hand back.
pub struct SeatData {
    /// The name of this seat, if any.
    pub name: Option<String>,
    /// The clipboard-control device of this seat, if any.
    pub device: Option<u32>,
    /// The offer currently selected on this seat, if any.
    pub offer: Option<u32>,
}

impl SeatData {
    /// A seat with no name, device or offer yet.
    pub fn new() -> (r: SeatData)
        ensures
            r.name is None,
            r.device is None,
            r.offer is None,
    {
        SeatData { name: None, device: None, offer: None }
    }

    /// Sets this seat's name.
    pub fn set_name(&mut self, name: String)
        ensures
            final(self).name == Some(name),
            final(self).device == old(self).device,
            final(self).offer == old(self).offer,
    {
        self.name = Some(name);
    }

    /// Sets this seat's device and hands back the one it replaces, which the
    /// caller must destroy.
    pub fn set_device(&mut self, device: Option<u32>) -> (released: Option<u32>)
        ensures
            final(self).device == device,
            released == old(self).device,
            final(self).name == old(self).name,
            final(self).offer == old(self).offer,
    {
        let released = self.device.take();
        self.device = device;
        released
    }

    /// Sets this seat's offer and hands back the one it replaces, which the
    /// caller must destroy.
    pub fn set_offer(&mut self, offer: Option<u32>) -> (released: Option<u32>)
        ensures
            final(self).offer == offer,
            released == old(self).offer,
            final(self).name == old(self).name,
            final(self).device == old(self).device,
    {
        let released = self.offer.take();
        self.offer = offer;
        released
    }
}

} // verus!
