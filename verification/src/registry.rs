//! The client registry: which connection speaks for which identity.
//!
//! An identity has at most one entry. An entry holds the number of the
//! connection that registered it and the handle through which frames are
//! queued for that connection. The registry never looks inside a handle.

use crate::ipc::ProcessId;
use vstd::prelude::*;

verus! {

/// What the registry holds for an identity.
pub struct Entry<W> {
    /// The connection that registered the identity.
    pub conn: u64,
    /// The write handle of that connection.
    pub handle: W,
}

/// Mapping from identity to the entry of its live connection.
pub struct ClientRegistry<W> {
    app: Option<Entry<W>>,
    tray: Option<Entry<W>>,
    theater: Option<Entry<W>>,
    brain: Option<Entry<W>>,
    manager: Option<Entry<W>>,
    settings: Option<Entry<W>>,
}

/// The registry after `id` has registered with `entry`: a former entry of
/// `id` is replaced.
pub open spec fn after_register<W>(
    m: Map<ProcessId, Entry<W>>,
    id: ProcessId,
    entry: Entry<W>,
) -> Map<ProcessId, Entry<W>> {
    m.insert(id, entry)
}

/// Whether the entry of `id` belongs to connection `conn`.
pub open spec fn owned_by<W>(m: Map<ProcessId, Entry<W>>, id: ProcessId, conn: u64) -> bool {
    m.contains_key(id) && m[id].conn == conn
}

/// The registry after connection `conn`, which had registered `id`, has
/// ended: the entry of `id` leaves only if it still belongs to `conn`.
pub open spec fn after_unregister<W>(
    m: Map<ProcessId, Entry<W>>,
    id: ProcessId,
    conn: u64,
) -> Map<ProcessId, Entry<W>> {
    if owned_by(m, id, conn) {
        m.remove(id)
    } else {
        m
    }
}

/// At most one live registration: once an identity has registered on one
/// connection and then on another, it resolves to the second connection's
/// entry, and the end of the first connection does not remove it.
pub proof fn lemma_reregistration_survives<W>(
    m: Map<ProcessId, Entry<W>>,
    id: ProcessId,
    first: Entry<W>,
    second: Entry<W>,
)
    requires
        first.conn != second.conn,
    ensures
        after_register(after_register(m, id, first), id, second)[id] == second,
        after_unregister(
            after_register(after_register(m, id, first), id, second),
            id,
            first.conn,
        ) == after_register(after_register(m, id, first), id, second),
        after_unregister(
            after_register(after_register(m, id, first), id, second),
            id,
            first.conn,
        ).contains_key(id),
{
}

/// Unregistering is idempotent.
pub proof fn lemma_unregister_idempotent<W>(m: Map<ProcessId, Entry<W>>, id: ProcessId, conn: u64)
    ensures
        after_unregister(after_unregister(m, id, conn), id, conn) == after_unregister(
            m,
            id,
            conn,
        ),
{
}

impl<W> ClientRegistry<W> {
    spec fn slot(&self, id: ProcessId) -> Option<Entry<W>> {
        match id {
            ProcessId::App => self.app,
            ProcessId::Tray => self.tray,
            ProcessId::Theater => self.theater,
            ProcessId::Brain => self.brain,
            ProcessId::Manager => self.manager,
            ProcessId::Settings => self.settings,
        }
    }

    /// The entries, by identity.
    pub closed spec fn view(&self) -> Map<ProcessId, Entry<W>> {
        Map::new(|id: ProcessId| self.slot(id) is Some, |id: ProcessId| self.slot(id)->0)
    }

    /// A registry without entries.
    pub fn new() -> (r: Self)
        ensures
            r@ == Map::<ProcessId, Entry<W>>::empty(),
    {
        let r = ClientRegistry {
            app: None,
            tray: None,
            theater: None,
            brain: None,
            manager: None,
            settings: None,
        };
        assert(r@ =~= Map::<ProcessId, Entry<W>>::empty());
        r
    }

    fn slot_ref(&self, id: ProcessId) -> (r: &Option<Entry<W>>)
        ensures
            *r == self.slot(id),
    {
        match id {
            ProcessId::App => &self.app,
            ProcessId::Tray => &self.tray,
            ProcessId::Theater => &self.theater,
            ProcessId::Brain => &self.brain,
            ProcessId::Manager => &self.manager,
            ProcessId::Settings => &self.settings,
        }
    }

    fn set_slot(&mut self, id: ProcessId, value: Option<Entry<W>>)
        ensures
            final(self).slot(id) == value,
            forall|other: ProcessId| other != id ==> final(self).slot(other) == old(self).slot(other),
    {
        match id {
            ProcessId::App => {
                self.app = value;
            },
            ProcessId::Tray => {
                self.tray = value;
            },
            ProcessId::Theater => {
                self.theater = value;
            },
            ProcessId::Brain => {
                self.brain = value;
            },
            ProcessId::Manager => {
                self.manager = value;
            },
            ProcessId::Settings => {
                self.settings = value;
            },
        }
    }

    /// Registers `id` on connection `conn`, in place of any entry that `id`
    /// had.
    pub fn register(&mut self, id: ProcessId, conn: u64, handle: W)
        ensures
            final(self)@ == after_register(old(self)@, id, Entry { conn, handle }),
    {
        self.set_slot(id, Some(Entry { conn, handle }));
        assert(final(self)@ =~= after_register(old(self)@, id, Entry { conn, handle }));
    }

    /// The write handle registered for `id`.
    pub fn lookup(&self, id: ProcessId) -> (r: Option<&W>)
        ensures
            match r {
                Some(h) => self@.contains_key(id) && *h == self@[id].handle,
                None => !self@.contains_key(id),
            },
    {
        match self.slot_ref(id) {
            Some(entry) => Some(&entry.handle),
            None => None,
        }
    }

    /// The connection on which `id` is registered.
    pub fn owner(&self, id: ProcessId) -> (r: Option<u64>)
        ensures
            match r {
                Some(c) => self@.contains_key(id) && c == self@[id].conn,
                None => !self@.contains_key(id),
            },
    {
        match self.slot_ref(id) {
            Some(entry) => Some(entry.conn),
            None => None,
        }
    }

    /// Whether `id` has an entry.
    pub fn is_registered(&self, id: ProcessId) -> (r: bool)
        ensures
            r == self@.contains_key(id),
    {
        self.slot_ref(id).is_some()
    }

    /// Removes the entry of `id` if it belongs to connection `conn`, and says
    /// whether it did.
    pub fn unregister(&mut self, id: ProcessId, conn: u64) -> (removed: bool)
        ensures
            removed == owned_by(old(self)@, id, conn),
            final(self)@ == after_unregister(old(self)@, id, conn),
    {
        let owned: bool = match self.slot_ref(id) {
            Some(entry) => entry.conn == conn,
            None => false,
        };
        if owned {
            self.set_slot(id, None);
        }
        assert(final(self)@ =~= after_unregister(old(self)@, id, conn));
        owned
    }
}

} // verus!
