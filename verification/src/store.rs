//! The telemetry store: the latest sample of every device seen this
//! session, keyed by device name, in first-sighting order.
//!
//! The downstream telemetry topic carries the whole mapping on every
//! forward, so the store accumulates across the session; a new sample for a
//! known device replaces that device's previous one.

use vstd::prelude::*;

use crate::telemetry::{Sensor, SensorModel};

verus! {

/// One device's latest sample, at spec level.
pub struct EntryModel {
    pub device: Seq<char>,
    pub sample: SensorModel,
}

/// The samples to forward, one per device, in first-sighting order.
pub struct TelemetryStore {
    names: Vec<String>,
    samples: Vec<Sensor>,
}

impl View for TelemetryStore {
    type V = Seq<EntryModel>;

    closed spec fn view(&self) -> Seq<EntryModel> {
        Seq::new(
            self.names@.len(),
            |i: int| EntryModel { device: self.names@[i]@, sample: self.samples@[i]@ },
        )
    }
}

/// Device names occur at most once in the store.
pub open spec fn unique_devices(es: Seq<EntryModel>) -> bool {
    forall|i: int, j: int|
        0 <= i < j < es.len() ==> (#[trigger] es[i].device) != (#[trigger] es[j].device)
}

/// What replacing (or first inserting) a device's sample does to the
/// store's contents.
pub open spec fn spec_upsert(es: Seq<EntryModel>, device: Seq<char>, sample: SensorModel) -> Seq<
    EntryModel,
> {
    let e = EntryModel { device, sample };
    if exists|i: int| 0 <= i < es.len() && (#[trigger] es[i].device) == device {
        es.update(choose|i: int| 0 <= i < es.len() && (#[trigger] es[i].device) == device, e)
    } else {
        es.push(e)
    }
}

impl TelemetryStore {
    pub closed spec fn wf(&self) -> bool {
        &&& self.names@.len() == self.samples@.len()
        &&& unique_devices(self@)
    }

    pub fn new() -> (r: Self)
        ensures
            r@ == Seq::<EntryModel>::empty(),
            r.wf(),
    {
        let r = TelemetryStore { names: Vec::new(), samples: Vec::new() };
        proof {
            assert(r@ =~= Seq::<EntryModel>::empty());
        }
        r
    }

    /// Store `sample` as the latest for `device`.
    pub fn upsert(&mut self, device: &String, sample: Sensor)
        requires
            old(self).wf(),
        ensures
            final(self).wf(),
            final(self)@ == spec_upsert(old(self)@, device@, sample@),
    {
        let ghost oldv = self@;
        let ghost e = EntryModel { device: device@, sample: sample@ };
        let mut i: usize = 0;
        while i < self.names.len()
            invariant
                0 <= i <= self.names@.len(),
                self.names@.len() == self.samples@.len(),
                self@ == oldv,
                old(self)@ == oldv,
                e == (EntryModel { device: device@, sample: sample@ }),
                unique_devices(self@),
                forall|k: int| 0 <= k < i ==> (#[trigger] self@[k].device) != device@,
            decreases self.names@.len() - i,
        {
            if self.names[i].eq(device) {
                assert(self@[i as int].device == device@);
                self.samples.set(i, sample);
                proof {
                    assert(self@ =~= oldv.update(i as int, e));
                    let w = choose|k: int|
                        0 <= k < oldv.len() && (#[trigger] oldv[k].device) == device@;
                    assert(oldv[i as int].device == device@);
                    assert(w == i as int);
                    assert(unique_devices(self@)) by {
                        assert(forall|k: int|
                            0 <= k < self@.len() && k != i ==> (#[trigger] self@[k]) == oldv[k]);
                    }
                }
                return ;
            }
            i += 1;
        }
        self.names.push(device.clone());
        self.samples.push(sample);
        proof {
            assert(self@ =~= oldv.push(e));
            assert(!(exists|k: int|
                0 <= k < oldv.len() && (#[trigger] oldv[k].device) == device@));
            assert(unique_devices(self@)) by {
                assert(forall|k: int|
                    0 <= k < oldv.len() ==> (#[trigger] self@[k]) == oldv[k]);
                assert(self@[oldv.len() as int].device == device@);
            }
        }
    }

    /// The number of devices with a stored sample.
    pub fn len(&self) -> (r: usize)
        requires
            self.wf(),
        ensures
            r == self@.len(),
    {
        self.names.len()
    }

    /// The device name of the entry at `i`.
    pub fn device_at(&self, i: usize) -> (r: &String)
        requires
            self.wf(),
            i < self@.len(),
        ensures
            r@ == self@[i as int].device,
    {
        &self.names[i]
    }

    /// The sample of the entry at `i`.
    pub fn sample_at(&self, i: usize) -> (r: &Sensor)
        requires
            self.wf(),
            i < self@.len(),
        ensures
            r@ == self@[i as int].sample,
    {
        &self.samples[i]
    }
}

} // verus!
