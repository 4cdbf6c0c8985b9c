use crate::pipe::{Device, Resource, Transfer};
use std::collections::HashMap;
use vstd::prelude::*;
use vstd::std_specs::hash::spec_hash_map_iter;
use vstd::std_specs::iter::IteratorSpec;

verus! {

/// The mapping session of one device on one memory object.
#[derive(Clone, Copy, Debug, PartialEq, Eq, Structural)]
pub struct MappingTransfer {
    /// The open window that mapped pointers of this device point into.
    pub tx: Transfer,
    /// The staging resource, where the object could not be mapped directly.
    pub shadow: Option<Resource>,
    /// Number of map requests that have reserved the session and have not yet
    /// installed their pointer.
    pub pending: u32,
}

impl MappingTransfer {
    /// A fresh session, reserved by the map request that opened it.
    pub fn new(tx: Transfer, shadow: Option<Resource>) -> (m: MappingTransfer)
        ensures
            m == (MappingTransfer { tx, shadow, pending: 1 }),
    {
        MappingTransfer { tx, shadow, pending: 1 }
    }
}

/// The mapping state of one memory object: a session per device, and a
/// reference count per mapped pointer, shared by all sessions.
pub struct Mappings {
    tx: HashMap<u64, MappingTransfer>,
    maps: HashMap<usize, u32>,
}

/// What releasing one reference of `ptr` leaves of the reference counts.
pub open spec fn released(pointers: Map<usize, u32>, ptr: usize) -> Map<usize, u32> {
    if !pointers.contains_key(ptr) {
        pointers
    } else if pointers[ptr] <= 1 {
        pointers.remove(ptr)
    } else {
        pointers.insert(ptr, (pointers[ptr] - 1) as u32)
    }
}

/// What taking one more reference of `ptr` makes of the reference counts.
pub open spec fn installed(pointers: Map<usize, u32>, ptr: usize) -> Map<usize, u32> {
    if pointers.contains_key(ptr) {
        pointers.insert(ptr, (pointers[ptr] + 1) as u32)
    } else {
        pointers.insert(ptr, 1)
    }
}

/// The sessions after one pending map request of `dev` has been settled.
pub open spec fn settled(sessions: Map<u64, MappingTransfer>, dev: u64) -> Map<
    u64,
    MappingTransfer,
> {
    if sessions.contains_key(dev) {
        sessions.insert(
            dev,
            MappingTransfer { pending: (sessions[dev].pending - 1) as u32, ..sessions[dev] },
        )
    } else {
        sessions
    }
}

/// The sessions after one more map request has reserved the session of `dev`.
pub open spec fn reserved(sessions: Map<u64, MappingTransfer>, dev: u64) -> Map<
    u64,
    MappingTransfer,
> {
    sessions.insert(
        dev,
        MappingTransfer { pending: (sessions[dev].pending + 1) as u32, ..sessions[dev] },
    )
}

/// A session can be destroyed iff no pointer of the object is mapped and no
/// map request is under way on the device.
pub open spec fn idle(sessions: Map<u64, MappingTransfer>, pointers: Map<usize, u32>, dev: u64)
    -> bool {
    pointers.dom().is_empty() && sessions.contains_key(dev) && sessions[dev].pending == 0
}

/// Every mapped pointer has at least one reference.
pub open spec fn counts_positive(pointers: Map<usize, u32>) -> bool {
    forall|p: usize| #[trigger] pointers.contains_key(p) ==> pointers[p] >= 1
}

/// Taking a reference keeps every count positive, and adds one to the count
/// of the pointer and to no other.
pub proof fn lemma_installed(pointers: Map<usize, u32>, ptr: usize)
    requires
        counts_positive(pointers),
        !pointers.contains_key(ptr) || pointers[ptr] < u32::MAX,
    ensures
        counts_positive(installed(pointers, ptr)),
        installed(pointers, ptr).contains_key(ptr),
        installed(pointers, ptr)[ptr] == (if pointers.contains_key(ptr) {
            pointers[ptr] + 1
        } else {
            1
        }),
        forall|p: usize|
            p != ptr ==> (installed(pointers, ptr).contains_key(p) <==> pointers.contains_key(p)),
        forall|p: usize|
            p != ptr && pointers.contains_key(p) ==> installed(pointers, ptr)[p] == pointers[p],
{
}

/// Releasing a reference keeps every count positive, takes one from the
/// count of the pointer and from no other, and forgets the pointer with its
/// last reference.
pub proof fn lemma_released(pointers: Map<usize, u32>, ptr: usize)
    requires
        counts_positive(pointers),
    ensures
        counts_positive(released(pointers, ptr)),
        released(pointers, ptr).contains_key(ptr) <==> pointers.contains_key(ptr) && pointers[ptr]
            >= 2,
        released(pointers, ptr).contains_key(ptr) ==> released(pointers, ptr)[ptr] == pointers[ptr]
            - 1,
        forall|p: usize|
            p != ptr ==> (released(pointers, ptr).contains_key(p) <==> pointers.contains_key(p)),
        forall|p: usize|
            p != ptr && pointers.contains_key(p) ==> released(pointers, ptr)[p] == pointers[p],
{
}

impl Mappings {
    /// The session of each device that has one.
    pub closed spec fn sessions(&self) -> Map<u64, MappingTransfer> {
        self.tx@
    }

    /// The reference count of each mapped pointer.
    pub closed spec fn pointers(&self) -> Map<usize, u32> {
        self.maps@
    }

    /// How many references of `ptr` are live: zero where it is not mapped.
    pub open spec fn ref_count(&self, ptr: usize) -> nat {
        if self.pointers().contains_key(ptr) {
            self.pointers()[ptr] as nat
        } else {
            0
        }
    }

    /// The state of an object that nobody has mapped.
    pub fn new() -> (m: Mappings)
        ensures
            m.sessions() == Map::<u64, MappingTransfer>::empty(),
            m.pointers() == Map::<usize, u32>::empty(),
    {
        Mappings { tx: HashMap::new(), maps: HashMap::new() }
    }

    /// Whether `ptr` is a mapped pointer of the object.
    pub fn contains_ptr(&self, ptr: usize) -> (r: bool)
        ensures
            r == self.pointers().contains_key(ptr),
    {
        self.maps.contains_key(&ptr)
    }

    /// Whether no pointer of the object is mapped.
    pub fn is_unmapped(&self) -> (r: bool)
        ensures
            r == self.pointers().dom().is_empty(),
    {
        self.maps.is_empty()
    }

    /// Whether `ptr` is mapped and releasing one reference of it leaves the
    /// object without any mapped pointer.
    pub fn is_last_reference(&self, ptr: usize) -> (r: bool)
        ensures
            r == (self.pointers().contains_key(ptr) && released(
                self.pointers(),
                ptr,
            ).dom().is_empty()),
    {
        let r = self.maps.len() == 1 && self.maps.contains_key(&ptr) && self.count(ptr) <= 1;
        proof {
            let m = self.maps@;
            if m.contains_key(ptr) {
                if m[ptr] <= 1 {
                    assert(released(m, ptr).dom() =~= m.dom().remove(ptr));
                    if m.dom().len() == 1 {
                        m.dom().remove(ptr).lemma_len0_is_empty();
                    }
                    if m.dom().remove(ptr).is_empty() {
                        assert(m.dom() =~= Set::<usize>::empty().insert(ptr));
                    }
                } else {
                    assert(released(m, ptr).dom().contains(ptr));
                }
            }
        }
        r
    }

    /// The session of `dev`, if it has one.
    pub fn session(&self, dev: &Device) -> (r: Option<MappingTransfer>)
        ensures
            r == (if self.sessions().contains_key(dev.id) {
                Some(self.sessions()[dev.id])
            } else {
                None
            }),
    {
        match self.tx.get(&dev.id) {
            Some(s) => Some(*s),
            None => None,
        }
    }

    /// The number of references of `ptr`.
    pub fn count(&self, ptr: usize) -> (r: u32)
        ensures
            r == self.ref_count(ptr),
    {
        match self.maps.get(&ptr) {
            Some(c) => *c,
            None => 0,
        }
    }

    /// Opens the session of `dev` with a fresh transfer, reserved once.
    pub fn open_session(&mut self, dev: &Device, tx: Transfer, shadow: Option<Resource>)
        requires
            !old(self).sessions().contains_key(dev.id),
        ensures
            final(self).sessions() == old(self).sessions().insert(
                dev.id,
                MappingTransfer { tx, shadow, pending: 1 },
            ),
            final(self).pointers() == old(self).pointers(),
    {
        self.tx.insert(dev.id, MappingTransfer::new(tx, shadow));
    }

    /// Reserves the session of `dev` for one more map request.
    pub fn mark_pending(&mut self, dev: &Device)
        requires
            old(self).sessions().contains_key(dev.id),
            old(self).sessions()[dev.id].pending < u32::MAX,
        ensures
            final(self).sessions() == reserved(old(self).sessions(), dev.id),
            final(self).pointers() == old(self).pointers(),
    {
        let s = *self.tx.get(&dev.id).unwrap();
        self.tx.insert(dev.id, MappingTransfer { tx: s.tx, shadow: s.shadow, pending: s.pending + 1 });
    }

    /// Settles one pending map request of `dev`. Does nothing where `dev` has
    /// no session.
    pub fn unmark_pending(&mut self, dev: &Device)
        requires
            old(self).sessions().contains_key(dev.id) ==> old(self).sessions()[dev.id].pending
                > 0,
        ensures
            final(self).sessions() == settled(old(self).sessions(), dev.id),
            final(self).pointers() == old(self).pointers(),
    {
        let found = self.session(dev);
        if let Some(s) = found {
            self.tx.insert(
                dev.id,
                MappingTransfer { tx: s.tx, shadow: s.shadow, pending: s.pending - 1 },
            );
        }
    }

    /// Installs a mapped pointer: takes one more reference of `ptr` and
    /// settles one pending map request of `dev`. Returns whether no pointer
    /// of the object was mapped before, which is when the data behind the
    /// pointer has to be brought up to date.
    pub fn increase_ref(&mut self, dev: &Device, ptr: usize) -> (first: bool)
        requires
            old(self).ref_count(ptr) < u32::MAX,
            old(self).sessions().contains_key(dev.id) ==> old(self).sessions()[dev.id].pending
                > 0,
        ensures
            first == old(self).pointers().dom().is_empty(),
            final(self).pointers() == installed(old(self).pointers(), ptr),
            final(self).sessions() == settled(old(self).sessions(), dev.id),
    {
        let first = self.maps.is_empty();
        let c = self.count(ptr);
        self.maps.insert(ptr, c + 1);
        self.unmark_pending(dev);
        first
    }

    /// Releases one reference of `ptr`; a pointer without references is
    /// forgotten. Returns whether this release left the object without any
    /// mapped pointer, and with it the shadow of the session of `dev`, if
    /// there is one: the resource to write back from.
    pub fn decrease_ref(&mut self, ptr: usize, dev: &Device) -> (r: (bool, Option<Resource>))
        ensures
            final(self).pointers() == released(old(self).pointers(), ptr),
            final(self).sessions() == old(self).sessions(),
            r.0 == (old(self).pointers().contains_key(ptr) && final(self).pointers().dom().is_empty()),
            r.1 == (if r.0 && old(self).sessions().contains_key(dev.id) {
                old(self).sessions()[dev.id].shadow
            } else {
                None
            }),
    {
        if !self.maps.contains_key(&ptr) {
            return (false, None);
        }
        let c = self.count(ptr);
        if c <= 1 {
            self.maps.remove(&ptr);
        } else {
            self.maps.insert(ptr, c - 1);
        }
        if self.maps.is_empty() {
            let shadow = match self.session(dev) {
                Some(s) => s.shadow,
                None => None,
            };
            return (true, shadow);
        }
        (false, None)
    }

    /// Destroys the session of `dev` if it is idle, and returns its transfer,
    /// which has to be handed back to the device. No other session changes.
    pub fn clean_up_tx(&mut self, dev: &Device) -> (tx: Option<Transfer>)
        ensures
            final(self).pointers() == old(self).pointers(),
            idle(old(self).sessions(), old(self).pointers(), dev.id) ==> tx == Some(
                old(self).sessions()[dev.id].tx,
            ) && final(self).sessions() == old(self).sessions().remove(dev.id),
            !idle(old(self).sessions(), old(self).pointers(), dev.id) ==> tx.is_none()
                && final(self).sessions() == old(self).sessions(),
    {
        if self.maps.is_empty() {
            if let Some(s) = self.session(dev) {
                if s.pending == 0 {
                    self.tx.remove(&dev.id);
                    return Some(s.tx);
                }
            }
        }
        None
    }

    /// Destroys every session and returns, for each device that had one, its
    /// transfer, which has to be handed back to the device. The order of the
    /// devices is not determined.
    pub fn drain(&mut self) -> (r: Vec<(u64, Transfer)>)
        ensures
            final(self).sessions() == Map::<u64, MappingTransfer>::empty(),
            final(self).pointers() == old(self).pointers(),
            r@.len() == old(self).sessions().dom().len(),
            forall|i: int|
                0 <= i < r@.len() ==> old(self).sessions().contains_key((#[trigger] r@[i]).0)
                    && r@[i].1 == old(self).sessions()[r@[i].0].tx,
            forall|d: u64|
                old(self).sessions().contains_key(d) ==> r@.contains(
                    (d, #[trigger] old(self).sessions()[d].tx),
                ),
    {
        let mut out: Vec<(u64, Transfer)> = Vec::new();
        let ghost all = spec_hash_map_iter(&self.tx).remaining();
        for pair in iter: self.tx.iter()
            invariant
                iter.seq() == all,
                out@.len() == iter.index(),
                forall|j: int| 0 <= j < out@.len() ==> out@[j] == (*all[j].0, all[j].1.tx),
        {
            let (k, v) = pair;
            out.push((*k, v.tx));
        }
        proof {
            let m = self.tx@;
            assert forall|i: int| 0 <= i < out@.len() implies m.contains_key((#[trigger] out@[i]).0)
                && out@[i].1 == m[out@[i].0].tx by {
                assert(m.contains_key(*all[i].0));
                assert(m[*all[i].0] == *all[i].1);
            }
            assert forall|d: u64| m.contains_key(d) implies out@.contains((d, #[trigger] m[d].tx)) by {
                assert(all.contains((&d, &m[d])));
                let j = choose|j: int| 0 <= j < all.len() && all[j] == (&d, &m[d]);
                assert(out@[j] == (d, m[d].tx));
            }
        }
        self.tx.clear();
        out
    }
}

} // verus!
