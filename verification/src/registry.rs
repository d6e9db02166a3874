//! The process-wide device registry.
//!
//! Drivers insert an entry on every successful handshake; every other
//! component reads it to resolve a device's capabilities and identity.
//! Entries are immutable once created and never deleted while connected;
//! a reconnect is a re-registration, suppressed as a duplicate when the
//! device id is already present.

use vstd::prelude::*;

use crate::prontokey::ProntoKeyDevice;

verus! {

/// One connected device: its process-wide id and its capabilities.
#[derive(Clone, PartialEq, Eq, Debug)]
pub struct DeviceInfo {
    /// The driver-tagged transport address, unique process-wide.
    pub id: String,
    /// The human name of the device model.
    pub name: String,
    pub rows: u8,
    pub columns: u8,
    pub dials: u8,
    /// The numeric device-kind tag.
    pub kind: u8,
}

impl DeviceInfo {
    /// The entry a ProntoKey device registers under.
    pub fn from_prontokey(dev: &ProntoKeyDevice) -> (r: DeviceInfo)
        ensures
            r.id@ == "pk-"@ + dev.spec_address(),
            r.name@ == "ProntoKey"@,
            r.rows == 3,
            r.columns == 3,
            r.dials == 2,
            r.kind == 7,
    {
        DeviceInfo {
            id: dev.id(),
            name: dev.name(),
            rows: dev.num_rows(),
            columns: dev.num_columns(),
            dials: dev.num_dials(),
            kind: dev.device_type(),
        }
    }

    /// An owned copy equal to this entry.
    pub fn duplicate(&self) -> (r: DeviceInfo)
        ensures
            r == *self,
    {
        DeviceInfo {
            id: self.id.clone(),
            name: self.name.clone(),
            rows: self.rows,
            columns: self.columns,
            dials: self.dials,
            kind: self.kind,
        }
    }
}

/// The index of the first entry with id `id`, or -1.
pub open spec fn find_device(ds: Seq<DeviceInfo>, id: Seq<char>) -> int
    decreases ds.len(),
{
    if ds.len() == 0 {
        -1
    } else if ds[0].id@ == id {
        0
    } else {
        let r = find_device(ds.skip(1), id);
        if r == -1 {
            -1
        } else {
            r + 1
        }
    }
}

proof fn lemma_find_device_at(ds: Seq<DeviceInfo>, id: Seq<char>, i: int)
    requires
        0 <= i < ds.len(),
        ds[i].id@ == id,
        forall|k: int| 0 <= k < i ==> (#[trigger] ds[k]).id@ != id,
    ensures
        find_device(ds, id) == i,
    decreases i,
{
    if i > 0 {
        let t = ds.skip(1);
        assert(t[i - 1] == ds[i]);
        assert forall|k: int| 0 <= k < i - 1 implies (#[trigger] t[k]).id@ != id by {
            assert(t[k] == ds[k + 1]);
        }
        lemma_find_device_at(t, id, i - 1);
    }
}

proof fn lemma_find_device_none(ds: Seq<DeviceInfo>, id: Seq<char>)
    requires
        forall|k: int| 0 <= k < ds.len() ==> (#[trigger] ds[k]).id@ != id,
    ensures
        find_device(ds, id) == -1,
    decreases ds.len(),
{
    if ds.len() > 0 {
        let t = ds.skip(1);
        assert forall|k: int| 0 <= k < t.len() implies (#[trigger] t[k]).id@ != id by {
            assert(t[k] == ds[k + 1]);
        }
        lemma_find_device_none(t, id);
    }
}

/// The table of connected devices.
pub struct DeviceRegistry {
    devices: Vec<DeviceInfo>,
}

impl DeviceRegistry {
    /// The registered entries, in registration order.
    pub closed spec fn entries(&self) -> Seq<DeviceInfo> {
        self.devices@
    }

    pub fn new() -> (r: DeviceRegistry)
        ensures
            r.entries() == Seq::<DeviceInfo>::empty(),
    {
        DeviceRegistry { devices: Vec::new() }
    }

    /// Registers a device on handshake. A re-registration under an id
    /// already present is suppressed as a duplicate; a new id is appended.
    /// Returns whether the entry was added.
    pub fn register(&mut self, info: DeviceInfo) -> (added: bool)
        ensures
            find_device(old(self).entries(), info.id@) >= 0 ==> {
                &&& !added
                &&& final(self).entries() == old(self).entries()
            },
            find_device(old(self).entries(), info.id@) == -1 ==> {
                &&& added
                &&& final(self).entries() == old(self).entries().push(info)
            },
    {
        let ghost ds0 = self.devices@;
        let mut i: usize = 0;
        while i < self.devices.len()
            invariant
                0 <= i <= self.devices@.len(),
                self.devices@ == ds0,
                forall|k: int| 0 <= k < i ==> (#[trigger] ds0[k]).id@ != info.id@,
            decreases self.devices@.len() - i,
        {
            if self.devices[i].id == info.id {
                proof {
                    lemma_find_device_at(ds0, info.id@, i as int);
                }
                return false;
            }
            i = i + 1;
        }
        proof {
            lemma_find_device_none(ds0, info.id@);
        }
        self.devices.push(info);
        true
    }

    /// Resolves a device id to a copy of its entry, if registered.
    pub fn lookup(&self, id: &String) -> (r: Option<DeviceInfo>)
        ensures
            find_device(self.entries(), id@) == -1 ==> r is None,
            find_device(self.entries(), id@) >= 0 ==> r == Some(
                self.entries()[find_device(self.entries(), id@)],
            ),
    {
        let mut i: usize = 0;
        while i < self.devices.len()
            invariant
                0 <= i <= self.devices@.len(),
                forall|k: int| 0 <= k < i ==> (#[trigger] self.devices@[k]).id@ != id@,
            decreases self.devices@.len() - i,
        {
            if self.devices[i].id == *id {
                proof {
                    lemma_find_device_at(self.devices@, id@, i as int);
                }
                return Some(self.devices[i].duplicate());
            }
            i = i + 1;
        }
        proof {
            lemma_find_device_none(self.devices@, id@);
        }
        None
    }

    /// How many devices are registered.
    pub fn len(&self) -> (r: usize)
        ensures
            r == self.entries().len(),
    {
        self.devices.len()
    }
}

} // verus!
