//! The device registry: the devices recorded in the registry file, with the
//! lookups and updates the runtime makes on them.
use vstd::prelude::*;

use crate::codec::{parse_registry, parse_registry_text, render_registry, render_registry_text};
use crate::device_id::{id_text, DeviceId};
use crate::model::{records, DeviceInfo, DeviceRecord};
use crate::result::{CjuResult, Error, ResultCode};
use crate::text::push_str;

verus! {

/// Some device in `devices` has id `id`.
pub open spec fn has_device(devices: Seq<DeviceRecord>, id: Seq<u8>) -> bool {
    exists|i: int| 0 <= i < devices.len() && (#[trigger] devices[i]).id == id
}

/// `i` is the first position of a device with id `id`.
pub open spec fn is_first_index(devices: Seq<DeviceRecord>, id: Seq<u8>, i: int) -> bool {
    &&& 0 <= i < devices.len()
    &&& devices[i].id == id
    &&& forall|j: int| 0 <= j < i ==> (#[trigger] devices[j]).id != id
}

/// The position of the first device with id `id`.
pub open spec fn first_index(devices: Seq<DeviceRecord>, id: Seq<u8>) -> int {
    choose|i: int| is_first_index(devices, id, i)
}

/// The first device with id `id`, if any.
pub open spec fn lookup(devices: Seq<DeviceRecord>, id: Seq<u8>) -> Option<DeviceRecord> {
    if has_device(devices, id) {
        Some(devices[first_index(devices, id)])
    } else {
        None
    }
}

/// The devices after recording `d`: it replaces the first device with its id,
/// or is appended when there is none.
pub open spec fn upserted(devices: Seq<DeviceRecord>, d: DeviceRecord) -> Seq<DeviceRecord> {
    if has_device(devices, d.id) {
        devices.update(first_index(devices, d.id), d)
    } else {
        devices.push(d)
    }
}

/// The devices without any device with id `id`, the others in order.
pub open spec fn removed(devices: Seq<DeviceRecord>, id: Seq<u8>) -> Seq<DeviceRecord>
    decreases devices.len(),
{
    if devices.len() == 0 {
        seq![]
    } else {
        let before = removed(devices.drop_last(), id);
        if devices.last().id == id {
            before
        } else {
            before.push(devices.last())
        }
    }
}

/// No two devices share an id.
pub open spec fn ids_unique(devices: Seq<DeviceRecord>) -> bool {
    forall|i: int, j: int|
        0 <= i < devices.len() && 0 <= j < devices.len() && i != j ==> (#[trigger] devices[i]).id
            != (#[trigger] devices[j]).id
}

/// There is exactly one first position of a device with a present id.
pub proof fn lemma_first_index(devices: Seq<DeviceRecord>, id: Seq<u8>)
    ensures
        has_device(devices, id) ==> is_first_index(devices, id, first_index(devices, id)),
        forall|i: int| is_first_index(devices, id, i) ==> i == first_index(devices, id),
        forall|i: int| #[trigger] is_first_index(devices, id, i) ==> has_device(devices, id),
    decreases devices.len(),
{
    if has_device(devices, id) {
        let w = choose|i: int| 0 <= i < devices.len() && (#[trigger] devices[i]).id == id;
        lemma_first_index_exists(devices, id, w);
    }
    assert forall|i: int| is_first_index(devices, id, i) implies i == first_index(devices, id) by {
        let k = first_index(devices, id);
        assert(devices[i].id == id);
        assert(is_first_index(devices, id, k));
        if k < i {
            assert(devices[k].id != id);
        } else if i < k {
            assert(devices[i].id != id);
        }
    }
    assert forall|i: int| #[trigger] is_first_index(devices, id, i) implies has_device(devices, id) by {
        assert(devices[i].id == id);
    }
}

proof fn lemma_first_index_exists(devices: Seq<DeviceRecord>, id: Seq<u8>, w: int)
    requires
        0 <= w < devices.len(),
        devices[w].id == id,
    ensures
        exists|i: int| is_first_index(devices, id, i),
    decreases w,
{
    if exists|j: int| 0 <= j < w && (#[trigger] devices[j]).id == id {
        let j = choose|j: int| 0 <= j < w && (#[trigger] devices[j]).id == id;
        lemma_first_index_exists(devices, id, j);
    } else {
        assert(is_first_index(devices, id, w));
    }
}

/// What `removed` keeps: exactly the devices without the id, in order.
pub proof fn lemma_removed(devices: Seq<DeviceRecord>, id: Seq<u8>)
    ensures
        !has_device(removed(devices, id), id),
        removed(devices, id).len() <= devices.len(),
        !has_device(devices, id) ==> removed(devices, id) == devices,
        has_device(devices, id) ==> removed(devices, id).len() < devices.len(),
        forall|other: Seq<u8>| other != id ==> lookup(removed(devices, id), other) == lookup(devices, other),
    decreases devices.len(),
{
    if devices.len() == 0 {
        assert forall|other: Seq<u8>| other != id implies lookup(removed(devices, id), other) == lookup(devices, other) by {
            assert(removed(devices, id) =~= devices);
        }
    } else {
        let front = devices.drop_last();
        let last = devices.last();
        lemma_removed(front, id);
        let rf = removed(front, id);
        let r = removed(devices, id);
        if last.id == id {
            assert(r == rf);
            assert(has_device(devices, id)) by {
                assert(devices[devices.len() - 1].id == id);
            }
        } else {
            assert(r == rf.push(last));
            assert(!has_device(r, id)) by {
                if has_device(r, id) {
                    let k = choose|k: int| 0 <= k < r.len() && (#[trigger] r[k]).id == id;
                    if k < rf.len() {
                        assert(rf[k].id == id);
                    }
                }
            }
            if !has_device(devices, id) {
                assert(!has_device(front, id)) by {
                    if has_device(front, id) {
                        let k = choose|k: int| 0 <= k < front.len() && (#[trigger] front[k]).id == id;
                        assert(devices[k].id == id);
                    }
                }
                assert(rf == front);
                assert(front.push(last) =~= devices);
            } else {
                assert(has_device(front, id)) by {
                    let k = choose|k: int| 0 <= k < devices.len() && (#[trigger] devices[k]).id == id;
                    assert(k < front.len());
                    assert(front[k].id == id);
                }
            }
        }
        assert(devices =~= front.push(last));
        assert forall|other: Seq<u8>| other != id implies lookup(r, other) == lookup(devices, other) by {
            lemma_lookup_push(front, last, other);
            lemma_lookup_push(rf, last, other);
        }
    }
}

/// Looking up an id in a list with one more device at the end.
pub proof fn lemma_lookup_push(devices: Seq<DeviceRecord>, d: DeviceRecord, id: Seq<u8>)
    ensures
        lookup(devices.push(d), id) == if has_device(devices, id) {
            lookup(devices, id)
        } else if d.id == id {
            Some(d)
        } else {
            None
        },
{
    let p = devices.push(d);
    lemma_first_index(devices, id);
    lemma_first_index(p, id);
    if has_device(devices, id) {
        let k = first_index(devices, id);
        assert(is_first_index(p, id, k)) by {
            assert forall|j: int| 0 <= j < k implies (#[trigger] p[j]).id != id by {
                assert(p[j] == devices[j]);
            }
        }
    } else if d.id == id {
        let k = devices.len() as int;
        assert(is_first_index(p, id, k)) by {
            assert forall|j: int| 0 <= j < k implies (#[trigger] p[j]).id != id by {
                assert(p[j] == devices[j]);
            }
        }
    } else {
        assert(!has_device(p, id)) by {
            if has_device(p, id) {
                let k = choose|k: int| 0 <= k < p.len() && (#[trigger] p[k]).id == id;
                if k < devices.len() {
                    assert(devices[k].id == id);
                }
            }
        }
    }
}

/// A recorded device is found under its id.
pub proof fn lemma_lookup_upserted(devices: Seq<DeviceRecord>, d: DeviceRecord)
    ensures
        lookup(upserted(devices, d), d.id) == Some(d),
        has_device(upserted(devices, d), d.id),
        upserted(devices, d).len() == if has_device(devices, d.id) {
            devices.len()
        } else {
            devices.len() + 1
        },
{
    lemma_first_index(devices, d.id);
    let u = upserted(devices, d);
    lemma_first_index(u, d.id);
    if has_device(devices, d.id) {
        let k = first_index(devices, d.id);
        assert(is_first_index(u, d.id, k)) by {
            assert forall|j: int| 0 <= j < k implies (#[trigger] u[j]).id != d.id by {
                assert(u[j] == devices[j]);
            }
        }
    } else {
        lemma_lookup_push(devices, d, d.id);
    }
}

/// Recording a device leaves every other id's lookup unchanged.
pub proof fn lemma_lookup_upserted_other(devices: Seq<DeviceRecord>, d: DeviceRecord, id: Seq<u8>)
    requires
        id != d.id,
    ensures
        lookup(upserted(devices, d), id) == lookup(devices, id),
{
    lemma_first_index(devices, d.id);
    lemma_first_index(devices, id);
    let u = upserted(devices, d);
    lemma_first_index(u, id);
    if has_device(devices, d.id) {
        let k = first_index(devices, d.id);
        if has_device(devices, id) {
            let m = first_index(devices, id);
            assert(m != k);
            assert(is_first_index(u, id, m)) by {
                assert forall|j: int| 0 <= j < m implies (#[trigger] u[j]).id != id by {
                    if j != k {
                        assert(u[j] == devices[j]);
                    }
                }
            }
        } else {
            assert(!has_device(u, id)) by {
                if has_device(u, id) {
                    let q = choose|q: int| 0 <= q < u.len() && (#[trigger] u[q]).id == id;
                    if q != k {
                        assert(devices[q].id == id);
                    }
                }
            }
        }
    } else {
        lemma_lookup_push(devices, d, id);
    }
}

/// Recording the same device twice is recording it once.
pub proof fn lemma_upserted_idempotent(devices: Seq<DeviceRecord>, d: DeviceRecord)
    ensures
        upserted(upserted(devices, d), d) == upserted(devices, d),
{
    let u = upserted(devices, d);
    lemma_first_index(devices, d.id);
    lemma_first_index(u, d.id);
    lemma_lookup_upserted(devices, d);
    if has_device(devices, d.id) {
        let k = first_index(devices, d.id);
        assert(is_first_index(u, d.id, k)) by {
            assert forall|j: int| 0 <= j < k implies (#[trigger] u[j]).id != d.id by {
                assert(u[j] == devices[j]);
            }
        }
        assert(u.update(k, d) =~= u);
    } else {
        let k = devices.len() as int;
        assert(is_first_index(u, d.id, k)) by {
            assert forall|j: int| 0 <= j < k implies (#[trigger] u[j]).id != d.id by {
                assert(u[j] == devices[j]);
            }
        }
        assert(u.update(k, d) =~= u);
    }
}

/// Removing the devices with an id forgets whatever was recorded under it.
pub proof fn lemma_removed_upserted(devices: Seq<DeviceRecord>, d: DeviceRecord)
    ensures
        removed(upserted(devices, d), d.id) == removed(devices, d.id),
{
    lemma_first_index(devices, d.id);
    if has_device(devices, d.id) {
        let k = first_index(devices, d.id);
        lemma_removed_update(devices, k, d);
    } else {
        let p = devices.push(d);
        assert(p.drop_last() =~= devices);
    }
}

proof fn lemma_removed_update(devices: Seq<DeviceRecord>, k: int, d: DeviceRecord)
    requires
        0 <= k < devices.len(),
        devices[k].id == d.id,
    ensures
        removed(devices.update(k, d), d.id) == removed(devices, d.id),
    decreases devices.len(),
{
    let u = devices.update(k, d);
    if k == devices.len() - 1 {
        assert(u.drop_last() =~= devices.drop_last());
    } else {
        lemma_removed_update(devices.drop_last(), k, d);
        assert(u.drop_last() =~= devices.drop_last().update(k, d));
        assert(u.last() == devices.last());
    }
}

/// Recording and removing keep ids unique.
pub proof fn lemma_unique_preserved(devices: Seq<DeviceRecord>, d: DeviceRecord, id: Seq<u8>)
    requires
        ids_unique(devices),
    ensures
        ids_unique(upserted(devices, d)),
        ids_unique(removed(devices, id)),
{
    lemma_first_index(devices, d.id);
    let u = upserted(devices, d);
    if has_device(devices, d.id) {
        let k = first_index(devices, d.id);
        assert forall|i: int, j: int| 0 <= i < u.len() && 0 <= j < u.len() && i != j implies (#[trigger] u[i]).id
            != (#[trigger] u[j]).id by {
            if i == k {
                assert(devices[j].id != devices[k].id);
            } else if j == k {
                assert(devices[i].id != devices[k].id);
            } else {
                assert(devices[i].id != devices[j].id);
            }
        }
    } else {
        assert forall|i: int, j: int| 0 <= i < u.len() && 0 <= j < u.len() && i != j implies (#[trigger] u[i]).id
            != (#[trigger] u[j]).id by {
            if i < devices.len() && j < devices.len() {
                assert(devices[i].id != devices[j].id);
            } else if i < devices.len() {
                assert(devices[i].id != d.id);
            } else {
                assert(devices[j].id != d.id);
            }
        }
    }
    lemma_removed_unique(devices, id);
}

proof fn lemma_removed_subset(devices: Seq<DeviceRecord>, id: Seq<u8>)
    ensures
        forall|k: int| 0 <= k < removed(devices, id).len() ==> exists|m: int|
            0 <= m < devices.len() && devices[m] == #[trigger] removed(devices, id)[k],
    decreases devices.len(),
{
    if devices.len() > 0 {
        lemma_removed_subset(devices.drop_last(), id);
        let front = devices.drop_last();
        let r = removed(devices, id);
        assert forall|k: int| 0 <= k < r.len() implies exists|m: int|
            0 <= m < devices.len() && devices[m] == #[trigger] r[k] by {
            if k < removed(front, id).len() {
                let m = choose|m: int| 0 <= m < front.len() && front[m] == #[trigger] removed(front, id)[k];
                assert(devices[m] == r[k]);
            } else {
                assert(devices[devices.len() - 1] == r[k]);
            }
        }
    }
}

proof fn lemma_removed_unique(devices: Seq<DeviceRecord>, id: Seq<u8>)
    requires
        ids_unique(devices),
    ensures
        ids_unique(removed(devices, id)),
    decreases devices.len(),
{
    if devices.len() > 0 {
        let front = devices.drop_last();
        assert(ids_unique(front)) by {
            assert forall|i: int, j: int| 0 <= i < front.len() && 0 <= j < front.len() && i != j implies (#[trigger] front[i]).id
                != (#[trigger] front[j]).id by {
                assert(devices[i].id != devices[j].id);
            }
        }
        lemma_removed_unique(front, id);
        lemma_removed_subset(front, id);
        let rf = removed(front, id);
        let last = devices.last();
        if last.id != id {
            let r = rf.push(last);
            assert forall|i: int, j: int| 0 <= i < r.len() && 0 <= j < r.len() && i != j implies (#[trigger] r[i]).id
                != (#[trigger] r[j]).id by {
                if i < rf.len() && j < rf.len() {
                    assert(rf[i].id != rf[j].id);
                } else if i < rf.len() {
                    let m = choose|m: int| 0 <= m < front.len() && front[m] == #[trigger] rf[i];
                    assert(devices[m].id != devices[devices.len() - 1].id);
                } else {
                    let m = choose|m: int| 0 <= m < front.len() && front[m] == #[trigger] rf[j];
                    assert(devices[m].id != devices[devices.len() - 1].id);
                }
            }
        }
    }
}

/// The registry: where it is stored, and the devices it records.
#[derive(Debug, Clone)]
pub struct Registry {
    path: String,
    devices: Vec<DeviceInfo>,
}

impl View for Registry {
    type V = (Seq<char>, Seq<DeviceRecord>);

    closed spec fn view(&self) -> (Seq<char>, Seq<DeviceRecord>) {
        (self.path@, records(self.devices@))
    }
}

fn not_found(id: &DeviceId) -> (e: Error)
    ensures
        e.code == ResultCode::NotFound,
        e.detail@ == id_text(id@),
{
    let mut detail = String::new();
    push_str(&mut detail, id.as_str());
    assert(detail@ =~= id_text(id@));
    Error { code: ResultCode::NotFound, detail }
}

impl Registry {
    /// A registry stored at `path` that records no device yet (as when its
    /// file does not exist).
    pub fn new(path: String) -> (r: Registry)
        ensures
            r@.0 == path@,
            r@.1 == Seq::<DeviceRecord>::empty(),
    {
        let r = Registry { path, devices: Vec::new() };
        assert(r@.1 =~= Seq::<DeviceRecord>::empty());
        r
    }

    /// A registry stored at `path` whose file holds `text`.
    pub fn from_text(path: String, text: &str) -> (r: Registry)
        ensures
            r@.0 == path@,
            r@.1 == parse_registry(text@),
    {
        Registry { path, devices: parse_registry_text(text) }
    }

    pub fn path(&self) -> (p: &str)
        ensures
            p@ == self@.0,
    {
        self.path.as_str()
    }

    /// The recorded devices.
    pub fn load(&self) -> (devices: Vec<DeviceInfo>)
        ensures
            records(devices@) == self@.1,
    {
        let mut out: Vec<DeviceInfo> = Vec::new();
        let mut i: usize = 0;
        while i < self.devices.len()
            invariant
                i <= self.devices.len(),
                records(out@) == records(self.devices@).take(i as int),
            decreases self.devices.len() - i,
        {
            let c = self.devices[i].clone();
            assert(c@ == records(self.devices@)[i as int]);
            let ghost before = out@;
            out.push(c);
            proof {
                assert(records(out@) =~= records(before).push(c@));
                assert(records(self.devices@).take(i + 1) =~= records(self.devices@).take(i as int).push(c@));
                assert(records(out@) =~= records(self.devices@).take(i + 1));
            }
            i = i + 1;
        }
        assert(records(self.devices@).take(self.devices.len() as int) =~= records(self.devices@));
        out
    }

    /// Replaces the recorded devices with `devices`.
    pub fn save(&mut self, devices: &[DeviceInfo])
        ensures
            final(self)@.0 == old(self)@.0,
            final(self)@.1 == records(devices@),
    {
        let mut out: Vec<DeviceInfo> = Vec::new();
        let mut i: usize = 0;
        while i < devices.len()
            invariant
                i <= devices.len(),
                records(out@) == records(devices@).take(i as int),
            decreases devices.len() - i,
        {
            let c = devices[i].clone();
            assert(c@ == records(devices@)[i as int]);
            let ghost before = out@;
            out.push(c);
            proof {
                assert(records(out@) =~= records(before).push(c@));
                assert(records(devices@).take(i + 1) =~= records(devices@).take(i as int).push(c@));
                assert(records(out@) =~= records(devices@).take(i + 1));
            }
            i = i + 1;
        }
        assert(records(devices@).take(devices.len() as int) =~= records(devices@));
        self.devices = out;
    }

    /// The text the registry file holds for the recorded devices.
    pub fn to_text(&self) -> (text: String)
        ensures
            text@ == render_registry(self@.1),
    {
        render_registry_text(self.devices.as_slice())
    }

    /// The position of the first device with id `id`, if any.
    fn position(&self, id: &DeviceId) -> (pos: Option<usize>)
        ensures
            match pos {
                Some(i) => is_first_index(self@.1, id@, i as int),
                None => !has_device(self@.1, id@),
            },
    {
        let ghost devs = self@.1;
        let mut i: usize = 0;
        while i < self.devices.len()
            invariant
                i <= self.devices.len(),
                devs == records(self.devices@),
                forall|j: int| 0 <= j < i ==> (#[trigger] devs[j]).id != id@,
            decreases self.devices.len() - i,
        {
            if self.devices[i].id == *id {
                assert(devs[i as int].id == id@);
                return Some(i);
            }
            assert(devs[i as int].id != id@);
            i = i + 1;
        }
        assert(!has_device(devs, id@)) by {
            if has_device(devs, id@) {
                let k = choose|k: int| 0 <= k < devs.len() && (#[trigger] devs[k]).id == id@;
                assert(devs[k].id != id@);
            }
        }
        None
    }

    /// The first recorded device with id `id`; `NotFound` with the id's text
    /// when there is none.
    pub fn get(&self, id: DeviceId) -> (r: CjuResult<DeviceInfo>)
        ensures
            match r {
                Ok(d) => lookup(self@.1, id@) == Some(d@),
                Err(e) => lookup(self@.1, id@) is None && e.code == ResultCode::NotFound
                    && e.detail@ == id_text(id@),
            },
    {
        proof {
            lemma_first_index(self@.1, id@);
        }
        match self.position(&id) {
            Some(i) => Ok(self.devices[i].clone()),
            None => Err(not_found(&id)),
        }
    }

    /// Records `device`, replacing the first device with its id or adding it.
    pub fn upsert(&mut self, device: &DeviceInfo)
        ensures
            final(self)@.0 == old(self)@.0,
            final(self)@.1 == upserted(old(self)@.1, device@),
    {
        proof {
            lemma_first_index(self@.1, device.id@);
        }
        let ghost before = self.devices@;
        match self.position(&device.id) {
            Some(i) => {
                self.devices.set(i, device.clone());
                assert(records(self.devices@) =~= records(before).update(i as int, device@));
            },
            None => {
                self.devices.push(device.clone());
                assert(records(self.devices@) =~= records(before).push(device@));
            },
        }
    }

    /// Removes every device with id `id`; `NotFound` with the id's text, and
    /// nothing changed, when there is none.
    pub fn delete(&mut self, id: DeviceId) -> (r: CjuResult<()>)
        ensures
            final(self)@.0 == old(self)@.0,
            final(self)@.1 == removed(old(self)@.1, id@),
            r is Ok <==> has_device(old(self)@.1, id@),
            r matches Err(e) ==> e.code == ResultCode::NotFound && e.detail@ == id_text(id@),
    {
        let ghost devs = self@.1;
        let mut kept: Vec<DeviceInfo> = Vec::new();
        let mut i: usize = 0;
        proof {
            assert(devs.take(0) =~= Seq::<DeviceRecord>::empty());
            assert(records(kept@) =~= Seq::<DeviceRecord>::empty());
        }
        while i < self.devices.len()
            invariant
                i <= self.devices.len(),
                devs == records(self.devices@),
                records(kept@) == removed(devs.take(i as int), id@),
            decreases self.devices.len() - i,
        {
            let ghost before = kept@;
            proof {
                assert(devs.take(i + 1).drop_last() =~= devs.take(i as int));
                assert(devs.take(i + 1).last() == self.devices@[i as int]@);
            }
            if self.devices[i].id != id {
                kept.push(self.devices[i].clone());
                assert(records(kept@) =~= records(before).push(self.devices@[i as int]@));
            }
            i = i + 1;
        }
        proof {
            assert(devs.take(self.devices.len() as int) =~= devs);
            lemma_removed(devs, id@);
        }
        if kept.len() == self.devices.len() {
            proof {
                assert(records(kept@).len() == devs.len());
            }
            return Err(not_found(&id));
        }
        self.devices = kept;
        Ok(())
    }
}

} // verus!
