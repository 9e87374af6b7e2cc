//! The table of managed processes, kept in a slot map.

use crate::process::{Process, ProcessView};
use crate::time::Duration;
use slotmap::{DefaultKey, Key, KeyData, SlotMap};
use vstd::prelude::*;

verus! {

/// Whether `id` is the number of some slot map key: its upper half, the version, is odd.
pub open spec fn is_key_id(id: u64) -> bool {
    (id / 0x1_0000_0000) % 2 == 1
}

/// The number of the null key, which no slot map holds anything under.
pub const NULL_KEY_ID: u64 = 0x1_ffff_ffff;

/// Identifies a managed process.
#[derive(Clone, Copy, PartialEq, Eq, PartialOrd, Ord, Hash, Debug, Structural)]
pub struct ProcessKey {
    id: u64,
}

/// A key is modelled by its number.
impl View for ProcessKey {
    type V = u64;

    closed spec fn view(&self) -> u64 {
        self.id
    }
}

impl ProcessKey {
    /// Only the numbers of slot map keys are used.
    #[verifier::type_invariant]
    spec fn well_formed(self) -> bool {
        is_key_id(self.id)
    }

    /// The number of the key.
    pub fn as_ffi(&self) -> (id: u64)
        ensures
            id == self@,
            is_key_id(id),
    {
        proof {
            use_type_invariant(self);
        }
        self.id
    }
}

/// Calls `slotmap::Key::null`. It is trusted to return the key of the last slot that 32 bits can
/// number, in its first version.
#[verifier::external_body]
fn null_id() -> (id: u64)
    ensures
        id == NULL_KEY_ID,
{
    DefaultKey::null().data().as_ffi()
}

/// The key of no process.
impl Default for ProcessKey {
    fn default() -> (key: Self)
        ensures
            key@ == NULL_KEY_ID,
    {
        ProcessKey { id: null_id() }
    }
}

/// What is known of a managed process.
#[derive(Debug)]
pub struct ProcessData {
    /// What to run.
    pub process: Process,
    /// The process id of the current child, if there is one.
    pub pid: Option<u32>,
    /// How often a restart has been attempted since the count was last forgiven.
    pub restarts: usize,
    /// When the current child was spawned, on the manager's clock.
    pub started_at: Duration,
    /// Whether the process has been stopped.
    pub cancelled: bool,
    /// How long the process may take to exit once it has been stopped.
    pub cancel_timeout: Option<Duration>,
}

/// The model of a [`ProcessData`].
pub struct ProcessDataView {
    pub process: ProcessView,
    pub pid: Option<u32>,
    pub restarts: usize,
    pub started_at: Duration,
    pub cancelled: bool,
    pub cancel_timeout: Option<Duration>,
}

impl View for ProcessData {
    type V = ProcessDataView;

    open spec fn view(&self) -> ProcessDataView {
        ProcessDataView {
            process: self.process@,
            pid: self.pid,
            restarts: self.restarts,
            started_at: self.started_at,
            cancelled: self.cancelled,
            cancel_timeout: self.cancel_timeout,
        }
    }
}

/// A `slotmap::SlotMap` from keys to processes. Nothing is ever removed from it.
#[verifier::external_body]
pub struct ProcessTable {
    slots: SlotMap<DefaultKey, ProcessData>,
}

/// What the slot map behind a table holds, by the numbers of its keys.
pub uninterp spec fn contents(table: ProcessTable) -> Map<u64, ProcessData>;

impl ProcessTable {
    /// Calls `slotmap::SlotMap::with_key`. It is trusted to return a slot map that holds
    /// nothing.
    #[verifier::external_body]
    pub(crate) fn new() -> (table: Self)
        ensures
            contents(table) == (Map::<u64, ProcessData>::empty()),
    {
        ProcessTable { slots: SlotMap::with_key() }
    }

    /// Calls `slotmap::SlotMap::len`. It is trusted to count what the slot map holds.
    #[verifier::external_body]
    pub(crate) fn len(&self) -> (count: usize)
        ensures
            count == contents(*self).len(),
    {
        self.slots.len()
    }

    /// Calls `slotmap::SlotMap::get`, on the key with the number `id`. It is trusted to find
    /// what the slot map holds under that key, and nothing if it holds nothing there, as under the
    /// null key.
    #[verifier::external_body]
    fn slot_get(&self, id: u64) -> (found: Option<&ProcessData>)
        requires
            is_key_id(id),
        ensures
            id == NULL_KEY_ID ==> found is None,
            match found {
                Some(data) => contents(*self).contains_key(id) && *data == contents(*self)[id],
                None => !contents(*self).contains_key(id),
            },
    {
        self.slots.get(DefaultKey::from(KeyData::from_ffi(id)))
    }

    /// Calls `slotmap::SlotMap::get_mut`, on the key with the number `id`. It is trusted to
    /// find what the slot map holds under that key, to leave there what the caller makes of it,
    /// and to change nothing else.
    #[verifier::external_body]
    fn slot_get_mut(&mut self, id: u64) -> (found: Option<&mut ProcessData>)
        requires
            is_key_id(id),
        ensures
            match found {
                Some(data) => contents(*old(self)).contains_key(id) && *data == contents(
                    *old(self),
                )[id] && contents(*final(self)) == contents(*old(self)).insert(id, *final(data)),
                None => !contents(*old(self)).contains_key(id) && contents(*final(self))
                    == contents(*old(self)),
            },
    {
        self.slots.get_mut(DefaultKey::from(KeyData::from_ffi(id)))
    }

    /// Calls `slotmap::SlotMap::insert`, which panics if it would have more slots than 32 bits
    /// can number. As nothing is ever removed, it has one slot more than it holds processes. It
    /// is trusted to hold `data` under a key that it held nothing under and that is not the null
    /// key, to return that key, and to change nothing else.
    #[verifier::external_body]
    fn slot_insert(&mut self, data: ProcessData) -> (id: u64)
        requires
            contents(*old(self)).len() + 1 < u32::MAX,
        ensures
            is_key_id(id),
            id != NULL_KEY_ID,
            !contents(*old(self)).contains_key(id),
            contents(*final(self)) == contents(*old(self)).insert(id, data),
    {
        self.slots.insert(data).data().as_ffi()
    }

    /// Finds the process under `key`.
    pub(crate) fn get(&self, key: ProcessKey) -> (found: Option<&ProcessData>)
        ensures
            key@ == NULL_KEY_ID ==> found is None,
            match found {
                Some(data) => contents(*self).contains_key(key@) && *data == contents(*self)[key@],
                None => !contents(*self).contains_key(key@),
            },
    {
        self.slot_get(key.as_ffi())
    }

    /// Finds the process under `key`, to change it.
    pub(crate) fn get_mut(&mut self, key: ProcessKey) -> (found: Option<&mut ProcessData>)
        ensures
            match found {
                Some(data) => contents(*old(self)).contains_key(key@) && *data == contents(
                    *old(self),
                )[key@] && contents(*final(self)) == contents(*old(self)).insert(
                    key@,
                    *final(data),
                ),
                None => !contents(*old(self)).contains_key(key@) && contents(*final(self))
                    == contents(*old(self)),
            },
    {
        self.slot_get_mut(key.as_ffi())
    }

    /// Adds a process under a new key.
    pub(crate) fn insert(&mut self, data: ProcessData) -> (key: ProcessKey)
        requires
            contents(*old(self)).len() + 1 < u32::MAX,
        ensures
            key@ != NULL_KEY_ID,
            !contents(*old(self)).contains_key(key@),
            contents(*final(self)) == contents(*old(self)).insert(key@, data),
    {
        ProcessKey { id: self.slot_insert(data) }
    }
}

} // verus!
