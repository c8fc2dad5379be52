//! The device registry: which device identifiers have already been
//! announced as connected during this session.
//!
//! Membership is simple set semantics — insertion is idempotent and nothing
//! is evicted while the session lives. The registry is owned by the bridge
//! core and passed explicitly; there is no hidden shared state.

use vstd::prelude::*;

verus! {

/// The devices announced so far, in first-sighting order.
pub struct DeviceRegistry {
    devices: Vec<String>,
}

impl View for DeviceRegistry {
    type V = Seq<Seq<char>>;

    closed spec fn view(&self) -> Seq<Seq<char>> {
        self.devices@.map_values(|d: String| d@)
    }
}

impl DeviceRegistry {
    /// A fresh session starts with no device announced.
    pub fn new() -> (r: Self)
        ensures
            r@ == Seq::<Seq<char>>::empty(),
    {
        let r = DeviceRegistry { devices: Vec::new() };
        proof {
            assert(r@ =~= Seq::<Seq<char>>::empty());
        }
        r
    }

    /// Whether `name` has already been announced.
    pub fn contains(&self, name: &String) -> (r: bool)
        ensures
            r == self@.contains(name@),
    {
        let mut i: usize = 0;
        while i < self.devices.len()
            invariant
                0 <= i <= self.devices@.len(),
                self@.len() == self.devices@.len(),
                forall|k: int| 0 <= k < self@.len() ==> self@[k] == self.devices@[k]@,
                forall|k: int| 0 <= k < i ==> self.devices@[k]@ != name@,
            decreases self.devices@.len() - i,
        {
            if self.devices[i].eq(name) {
                assert(self@[i as int] == name@);
                return true;
            }
            i += 1;
        }
        proof {
            assert(forall|k: int| 0 <= k < self@.len() ==> self@[k] != name@);
        }
        false
    }

    /// Record `name`, announcing it if this is its first sighting. Returns
    /// true exactly when the device was new: the caller must then publish
    /// the connect notification before any telemetry for it.
    pub fn announce_if_new(&mut self, name: &String) -> (newly: bool)
        ensures
            newly == !old(self)@.contains(name@),
            final(self)@ == if newly {
                old(self)@.push(name@)
            } else {
                old(self)@
            },
            final(self)@.contains(name@),
    {
        let ghost oldv = self@;
        if self.contains(name) {
            return false;
        }
        self.devices.push(name.clone());
        proof {
            assert(self@ =~= oldv.push(name@));
            assert(self@[self@.len() - 1] == name@);
        }
        true
    }
}

} // verus!
