//! The map from document id to live session.
//!
//! Creating a session takes a load from storage, which happens outside any
//! lock. The registry therefore records a document as `Loading` the moment
//! the first request for it arrives: exactly that request is told to load,
//! every other one waits and looks again. An entry that holds a session
//! counts the connections that hold it, and leaves only when that count is
//! zero.
use crate::session::{evictable_spec, Session, SessionModel};
use vstd::prelude::*;

verus! {

/// What the registry holds for one document.
pub enum Slot<H> {
    /// One request is loading the document; the others wait.
    Loading,
    /// The session, and how many connections hold it.
    Live { handle: H, holders: u64 },
}

pub struct RoomEntry<H> {
    pub document_id: String,
    pub slot: Slot<H>,
}

/// The registry: every session that is live or being loaded, one per
/// document id.
pub struct DraftCollaborationManager<H> {
    pub rooms: Vec<RoomEntry<H>>,
}

/// What a lookup tells the requester to do.
pub enum Lookup<H> {
    /// The session is live; the handle is now held once more.
    Found(H),
    /// Nobody is loading the document: the requester loads it and then
    /// calls `complete_load` or `abandon_load`.
    MustLoad,
    /// Another request is loading the document: wait, then look again.
    Pending,
    /// The session is held by as many connections as can be counted.
    Saturated,
}

/// What an entry stands for.
pub struct EntryModel<H> {
    pub id: Seq<char>,
    pub loading: bool,
    pub holders: u64,
    /// The session, once loaded.
    pub handle: Option<H>,
}

/// What a lookup decided, without the handle.
#[derive(Clone, Copy, Debug, PartialEq, Eq, Structural)]
pub enum LookupKind {
    Found,
    MustLoad,
    Pending,
    Saturated,
}

impl<H> RoomEntry<H> {
    pub open spec fn model(&self) -> EntryModel<H> {
        match self.slot {
            Slot::Loading => EntryModel {
                id: self.document_id@,
                loading: true,
                holders: 0,
                handle: None,
            },
            Slot::Live { handle, holders } => EntryModel {
                id: self.document_id@,
                loading: false,
                holders,
                handle: Some(handle),
            },
        }
    }
}

impl<H> View for DraftCollaborationManager<H> {
    type V = Seq<EntryModel<H>>;

    open spec fn view(&self) -> Seq<EntryModel<H>> {
        self.rooms@.map_values(|e: RoomEntry<H>| e.model())
    }
}

impl<H> Lookup<H> {
    pub open spec fn kind(&self) -> LookupKind {
        match self {
            Lookup::Found(_) => LookupKind::Found,
            Lookup::MustLoad => LookupKind::MustLoad,
            Lookup::Pending => LookupKind::Pending,
            Lookup::Saturated => LookupKind::Saturated,
        }
    }
}

pub open spec fn has_entry<H>(es: Seq<EntryModel<H>>, id: Seq<char>) -> bool {
    exists|i: int| 0 <= i < es.len() && es[i].id == id
}

pub open spec fn entry_index<H>(es: Seq<EntryModel<H>>, id: Seq<char>) -> int {
    choose|i: int| 0 <= i < es.len() && es[i].id == id
}

/// One entry per document id.
pub open spec fn entries_wf<H>(es: Seq<EntryModel<H>>) -> bool {
    forall|i: int, j: int| 0 <= i < es.len() && 0 <= j < es.len() && i != j ==> es[i].id != es[j].id
}

pub open spec fn lookup_spec<H>(es: Seq<EntryModel<H>>, id: Seq<char>) -> (Seq<EntryModel<H>>, LookupKind) {
    if !has_entry(es, id) {
        (es.push(EntryModel { id, loading: true, holders: 0, handle: None }), LookupKind::MustLoad)
    } else {
        let i = entry_index(es, id);
        let e = es[i];
        if e.loading {
            (es, LookupKind::Pending)
        } else if e.holders == u64::MAX {
            (es, LookupKind::Saturated)
        } else {
            (es.update(i, EntryModel { holders: (e.holders + 1) as u64, ..e }), LookupKind::Found)
        }
    }
}

pub open spec fn complete_load_spec<H>(es: Seq<EntryModel<H>>, id: Seq<char>, handle: H) -> Seq<
    EntryModel<H>,
> {
    if has_entry(es, id) && es[entry_index(es, id)].loading {
        es.update(entry_index(es, id), EntryModel { id, loading: false, holders: 1, handle: Some(handle) })
    } else {
        es
    }
}

pub open spec fn abandon_load_spec<H>(es: Seq<EntryModel<H>>, id: Seq<char>) -> Seq<EntryModel<H>> {
    if has_entry(es, id) && es[entry_index(es, id)].loading {
        es.remove(entry_index(es, id))
    } else {
        es
    }
}

pub open spec fn release_spec<H>(es: Seq<EntryModel<H>>, id: Seq<char>) -> Seq<EntryModel<H>> {
    if has_entry(es, id) && !es[entry_index(es, id)].loading && es[entry_index(es, id)].holders > 0 {
        let e = es[entry_index(es, id)];
        es.update(entry_index(es, id), EntryModel { holders: (e.holders - 1) as u64, ..e })
    } else {
        es
    }
}

/// Whether the entry for `id` may leave, given the state of its session:
/// nobody holds it, and the session is that document's, has no peers and
/// has saved all it holds.
pub open spec fn may_evict<H>(es: Seq<EntryModel<H>>, id: Seq<char>, session: SessionModel) -> bool {
    &&& has_entry(es, id)
    &&& !es[entry_index(es, id)].loading
    &&& es[entry_index(es, id)].holders == 0
    &&& session.document_id == id
    &&& evictable_spec(session)
}

pub open spec fn evict_spec<H>(es: Seq<EntryModel<H>>, id: Seq<char>, session: SessionModel) -> Seq<
    EntryModel<H>,
> {
    if may_evict(es, id, session) {
        es.remove(entry_index(es, id))
    } else {
        es
    }
}

proof fn lemma_entry_index<H>(es: Seq<EntryModel<H>>, id: Seq<char>, i: int)
    requires
        entries_wf(es),
        0 <= i < es.len(),
        es[i].id == id,
    ensures
        has_entry(es, id),
        entry_index(es, id) == i,
{
    assert(es[i].id == id);
    let k = entry_index(es, id);
    assert(0 <= k < es.len() && es[k].id == id);
}

proof fn lemma_update_keeps_wf<H>(es: Seq<EntryModel<H>>, i: int, e: EntryModel<H>)
    requires
        entries_wf(es),
        0 <= i < es.len(),
        e.id == es[i].id,
    ensures
        entries_wf(es.update(i, e)),
{
    let u = es.update(i, e);
    assert forall|a: int, b: int| 0 <= a < u.len() && 0 <= b < u.len() && a != b implies u[a].id
        != u[b].id by {
        assert(u[a].id == es[a].id);
        assert(u[b].id == es[b].id);
    }
}

proof fn lemma_remove_keeps_wf<H>(es: Seq<EntryModel<H>>, i: int)
    requires
        entries_wf(es),
        0 <= i < es.len(),
    ensures
        entries_wf(es.remove(i)),
{
    let u = es.remove(i);
    assert forall|a: int, b: int| 0 <= a < u.len() && 0 <= b < u.len() && a != b implies u[a].id
        != u[b].id by {
        assert(u[a] == es[if a < i { a } else { a + 1 }]);
        assert(u[b] == es[if b < i { b } else { b + 1 }]);
    }
}

proof fn lemma_push_keeps_wf<H>(es: Seq<EntryModel<H>>, e: EntryModel<H>)
    requires
        entries_wf(es),
        !has_entry(es, e.id),
    ensures
        entries_wf(es.push(e)),
{
    let u = es.push(e);
    assert forall|a: int, b: int| 0 <= a < u.len() && 0 <= b < u.len() && a != b implies u[a].id
        != u[b].id by {
        if a < es.len() {
            assert(u[a] == es[a]);
        }
        if b < es.len() {
            assert(u[b] == es[b]);
        }
    }
}

/// The position of the entry for `id`, if there is one.
fn find_entry<H>(entries: &Vec<RoomEntry<H>>, id: &String) -> (r: Option<usize>)
    ensures
        match r {
            Some(i) => i < entries@.len() && entries@[i as int].document_id@ == id@,
            None => forall|j: int| 0 <= j < entries@.len() ==> entries@[j].document_id@ != id@,
        },
{
    let mut i: usize = 0;
    while i < entries.len()
        invariant
            i <= entries@.len(),
            forall|j: int| 0 <= j < i ==> entries@[j].document_id@ != id@,
        decreases entries@.len() - i,
    {
        if entries[i].document_id == *id {
            return Some(i);
        }
        i = i + 1;
    }
    None
}

impl<H: Clone> DraftCollaborationManager<H> {
    /// An empty registry.
    pub fn new() -> (r: DraftCollaborationManager<H>)
        ensures
            r@ == Seq::<EntryModel<H>>::empty(),
    {
        let r = DraftCollaborationManager { rooms: Vec::new() };
        assert(r@ =~= Seq::<EntryModel<H>>::empty());
        r
    }

    /// Resolves `document_id`: the live session, or the instruction to
    /// load it, or to wait for the request that is loading it.
    pub fn get_room(&mut self, document_id: &String) -> (r: Lookup<H>)
        requires
            entries_wf(old(self)@),
        ensures
            entries_wf(final(self)@),
            (final(self)@, r.kind()) == lookup_spec(old(self)@, document_id@),
            r matches Lookup::Found(h) ==> cloned(
                old(self)@[entry_index(old(self)@, document_id@)].handle->Some_0,
                h,
            ),
    {
        let ghost before = self@;
        match find_entry(&self.rooms, document_id) {
            None => {
                assert(!has_entry(before, document_id@)) by {
                    if has_entry(before, document_id@) {
                        let k = choose|k: int| 0 <= k < before.len() && before[k].id == document_id@;
                        assert(self.rooms@[k].document_id@ == document_id@);
                    }
                }
                let e = RoomEntry { document_id: document_id.clone(), slot: Slot::Loading };
                self.rooms.push(e);
                let ghost em = EntryModel { id: document_id@, loading: true, holders: 0, handle: None };
                assert(self@ =~= before.push(em));
                proof {
                    lemma_push_keeps_wf(before, em);
                }
                Lookup::MustLoad
            },
            Some(i) => {
                proof {
                    lemma_entry_index(before, document_id@, i as int);
                }
                let e = self.rooms.remove(i);
                let RoomEntry { document_id: id, slot } = e;
                match slot {
                    Slot::Loading => {
                        self.rooms.insert(i, RoomEntry { document_id: id, slot: Slot::Loading });
                        assert(self@ =~= before);
                        Lookup::Pending
                    },
                    Slot::Live { handle, holders } => {
                        if holders == u64::MAX {
                            self.rooms.insert(i, RoomEntry { document_id: id, slot: Slot::Live { handle, holders } });
                            assert(self@ =~= before);
                            Lookup::Saturated
                        } else {
                            let out = handle.clone();
                            let ghost em = EntryModel { id: id@, loading: false, holders: (holders + 1) as u64, handle: Some(handle) };
                            self.rooms.insert(
                                i,
                                RoomEntry { document_id: id, slot: Slot::Live { handle, holders: holders + 1 } },
                            );
                            assert(self@ =~= before.update(i as int, em));
                            proof {
                                lemma_update_keeps_wf(before, i as int, em);
                            }
                            Lookup::Found(out)
                        }
                    },
                }
            },
        }
    }

    /// Installs the session that the loading request built, held once (by
    /// that request). `false`, and no change, unless the document is loading.
    pub fn complete_load(&mut self, document_id: &String, handle: H) -> (r: bool)
        requires
            entries_wf(old(self)@),
        ensures
            entries_wf(final(self)@),
            final(self)@ == complete_load_spec(old(self)@, document_id@, handle),
            r == (has_entry(old(self)@, document_id@) && old(self)@[entry_index(
                old(self)@,
                document_id@,
            )].loading),
    {
        let ghost before = self@;
        match find_entry(&self.rooms, document_id) {
            None => {
                assert(!has_entry(before, document_id@)) by {
                    if has_entry(before, document_id@) {
                        let k = choose|k: int| 0 <= k < before.len() && before[k].id == document_id@;
                        assert(self.rooms@[k].document_id@ == document_id@);
                    }
                }
                false
            },
            Some(i) => {
                proof {
                    lemma_entry_index(before, document_id@, i as int);
                }
                let loading = match self.rooms[i].slot {
                    Slot::Loading => true,
                    Slot::Live { .. } => false,
                };
                if loading {
                    let e = self.rooms.remove(i);
                    let RoomEntry { document_id: id, slot: _ } = e;
                    let ghost em = EntryModel { id: document_id@, loading: false, holders: 1, handle: Some(handle) };
                    self.rooms.insert(i, RoomEntry { document_id: id, slot: Slot::Live { handle, holders: 1 } });
                    assert(self@ =~= before.update(i as int, em));
                    proof {
                        lemma_update_keeps_wf(before, i as int, em);
                    }
                    true
                } else {
                    false
                }
            },
        }
    }

    /// Withdraws a load that failed: the document leaves the registry, so
    /// that no partial session stays behind. `false`, and no change, unless
    /// the document is loading.
    pub fn abandon_load(&mut self, document_id: &String) -> (r: bool)
        requires
            entries_wf(old(self)@),
        ensures
            entries_wf(final(self)@),
            final(self)@ == abandon_load_spec(old(self)@, document_id@),
            r == (has_entry(old(self)@, document_id@) && old(self)@[entry_index(
                old(self)@,
                document_id@,
            )].loading),
    {
        let ghost before = self@;
        match find_entry(&self.rooms, document_id) {
            None => {
                assert(!has_entry(before, document_id@)) by {
                    if has_entry(before, document_id@) {
                        let k = choose|k: int| 0 <= k < before.len() && before[k].id == document_id@;
                        assert(self.rooms@[k].document_id@ == document_id@);
                    }
                }
                false
            },
            Some(i) => {
                proof {
                    lemma_entry_index(before, document_id@, i as int);
                }
                let loading = match self.rooms[i].slot {
                    Slot::Loading => true,
                    Slot::Live { .. } => false,
                };
                if loading {
                    self.rooms.remove(i);
                    assert(self@ =~= before.remove(i as int));
                    proof {
                        lemma_remove_keeps_wf(before, i as int);
                    }
                    true
                } else {
                    false
                }
            },
        }
    }

    /// Gives back one hold on the session of `document_id`: the number of
    /// holds left, or `None`, and no change, if it was not held.
    pub fn release(&mut self, document_id: &String) -> (r: Option<u64>)
        requires
            entries_wf(old(self)@),
        ensures
            entries_wf(final(self)@),
            final(self)@ == release_spec(old(self)@, document_id@),
            r is Some <==> (has_entry(old(self)@, document_id@) && !old(self)@[entry_index(
                old(self)@,
                document_id@,
            )].loading && old(self)@[entry_index(old(self)@, document_id@)].holders > 0),
            r matches Some(n) ==> n + 1 == old(self)@[entry_index(old(self)@, document_id@)].holders,
    {
        let ghost before = self@;
        match find_entry(&self.rooms, document_id) {
            None => {
                assert(!has_entry(before, document_id@)) by {
                    if has_entry(before, document_id@) {
                        let k = choose|k: int| 0 <= k < before.len() && before[k].id == document_id@;
                        assert(self.rooms@[k].document_id@ == document_id@);
                    }
                }
                None
            },
            Some(i) => {
                proof {
                    lemma_entry_index(before, document_id@, i as int);
                }
                let e = self.rooms.remove(i);
                let RoomEntry { document_id: id, slot } = e;
                match slot {
                    Slot::Live { handle, holders } => {
                        if holders > 0 {
                            let ghost em = EntryModel { id: id@, loading: false, holders: (holders - 1) as u64, handle: Some(handle) };
                            self.rooms.insert(
                                i,
                                RoomEntry { document_id: id, slot: Slot::Live { handle, holders: holders - 1 } },
                            );
                            assert(self@ =~= before.update(i as int, em));
                            proof {
                                lemma_update_keeps_wf(before, i as int, em);
                            }
                            Some(holders - 1)
                        } else {
                            self.rooms.insert(i, RoomEntry { document_id: id, slot: Slot::Live { handle, holders } });
                            assert(self@ =~= before);
                            None
                        }
                    },
                    Slot::Loading => {
                        self.rooms.insert(i, RoomEntry { document_id: id, slot: Slot::Loading });
                        assert(self@ =~= before);
                        None
                    },
                }
            },
        }
    }

    /// Removes the entry of `document_id` if nobody holds it and `session`,
    /// the session it holds, has no peers and has saved all it holds.
    pub fn evict(&mut self, document_id: &String, session: &Session) -> (r: bool)
        requires
            entries_wf(old(self)@),
        ensures
            entries_wf(final(self)@),
            final(self)@ == evict_spec(old(self)@, document_id@, session@),
            r == may_evict(old(self)@, document_id@, session@),
    {
        let ghost before = self@;
        match find_entry(&self.rooms, document_id) {
            None => {
                assert(!has_entry(before, document_id@)) by {
                    if has_entry(before, document_id@) {
                        let k = choose|k: int| 0 <= k < before.len() && before[k].id == document_id@;
                        assert(self.rooms@[k].document_id@ == document_id@);
                    }
                }
                false
            },
            Some(i) => {
                proof {
                    lemma_entry_index(before, document_id@, i as int);
                }
                let idle = match self.rooms[i].slot {
                    Slot::Loading => false,
                    Slot::Live { holders, .. } => holders == 0,
                };
                if idle && session.document_id == *document_id && session.is_evictable() {
                    self.rooms.remove(i);
                    assert(self@ =~= before.remove(i as int));
                    proof {
                        lemma_remove_keeps_wf(before, i as int);
                    }
                    true
                } else {
                    false
                }
            },
        }
    }
}

/// The registry after `n` lookups of `id` in a row, and how many of them
/// were told to load.
pub open spec fn lookups_spec<H>(es: Seq<EntryModel<H>>, id: Seq<char>, n: nat) -> (Seq<EntryModel<H>>, nat)
    decreases n,
{
    if n == 0 {
        (es, 0)
    } else {
        let (es1, c) = lookups_spec(es, id, (n - 1) as nat);
        let (es2, k) = lookup_spec(es1, id);
        (es2, if k == LookupKind::MustLoad {
            c + 1
        } else {
            c
        })
    }
}

proof fn lemma_lookup_keeps_entry<H>(es: Seq<EntryModel<H>>, id: Seq<char>)
    requires
        entries_wf(es),
    ensures
        entries_wf(lookup_spec(es, id).0),
        has_entry(lookup_spec(es, id).0, id),
        has_entry(es, id) ==> lookup_spec(es, id).1 != LookupKind::MustLoad,
        !has_entry(es, id) ==> lookup_spec(es, id).1 == LookupKind::MustLoad,
{
    let (es2, _) = lookup_spec(es, id);
    if !has_entry(es, id) {
        let em = EntryModel { id, loading: true, holders: 0, handle: None };
        lemma_push_keeps_wf(es, em);
        assert(es2[es.len() as int].id == id);
    } else {
        let i = entry_index(es, id);
        let e = es[i];
        if !e.loading && e.holders != u64::MAX {
            lemma_update_keeps_wf(es, i, EntryModel { holders: (e.holders + 1) as u64, ..e });
        }
        assert(es2[i].id == id);
    }
}

/// Single session per document: of any number of requests for one document
/// that arrive before its load completes, exactly one is told to load it
/// when the registry did not have it, and none when it did; afterwards the
/// registry has one entry for it.
pub proof fn lemma_single_loader<H>(es: Seq<EntryModel<H>>, id: Seq<char>, n: nat)
    requires
        entries_wf(es),
        n >= 1,
    ensures
        lookups_spec(es, id, n).1 == (if has_entry(es, id) {
            0nat
        } else {
            1nat
        }),
        has_entry(lookups_spec(es, id, n).0, id),
        entries_wf(lookups_spec(es, id, n).0),
    decreases n,
{
    lemma_lookup_keeps_entry(es, id);
    if n > 1 {
        lemma_single_loader(es, id, (n - 1) as nat);
        let (es1, _) = lookups_spec(es, id, (n - 1) as nat);
        lemma_lookup_keeps_entry(es1, id);
    } else {
        assert(lookups_spec(es, id, 0) == (es, 0nat));
    }
}

proof fn lemma_lookup_live<H>(es: Seq<EntryModel<H>>, id: Seq<char>)
    requires
        entries_wf(es),
        has_entry(es, id),
        !es[entry_index(es, id)].loading,
    ensures
        ({
            let (es2, k) = lookup_spec(es, id);
            &&& entries_wf(es2)
            &&& has_entry(es2, id)
            &&& entry_index(es2, id) == entry_index(es, id)
            &&& es2[entry_index(es2, id)].handle == es[entry_index(es, id)].handle
            &&& !es2[entry_index(es2, id)].loading
            &&& k != LookupKind::MustLoad
            &&& k != LookupKind::Pending
        }),
{
    let i = entry_index(es, id);
    let e = es[i];
    let (es2, k) = lookup_spec(es, id);
    if e.holders != u64::MAX {
        lemma_update_keeps_wf(es, i, EntryModel { holders: (e.holders + 1) as u64, ..e });
    }
    lemma_entry_index(es2, id, i);
}

/// The requests that lose the race get the winner's session: once the
/// loading request installs `handle`, no number of further lookups of `id`
/// tells anyone to load or to wait, and the entry keeps `handle`, of which
/// `get_room` hands out clones.
pub proof fn lemma_losers_get_winner<H>(es: Seq<EntryModel<H>>, id: Seq<char>, handle: H, n: nat)
    requires
        entries_wf(es),
        has_entry(es, id),
        es[entry_index(es, id)].loading,
    ensures
        ({
            let (es2, loads) = lookups_spec(complete_load_spec(es, id, handle), id, n);
            &&& loads == 0
            &&& entries_wf(es2)
            &&& has_entry(es2, id)
            &&& es2[entry_index(es2, id)].handle == Some(handle)
            &&& !es2[entry_index(es2, id)].loading
        }),
    decreases n,
{
    let i = entry_index(es, id);
    let es1 = complete_load_spec(es, id, handle);
    lemma_update_keeps_wf(es, i, EntryModel { id, loading: false, holders: 1, handle: Some(handle) });
    lemma_entry_index(es1, id, i);
    if n > 0 {
        lemma_losers_get_winner(es, id, handle, (n - 1) as nat);
        let (prev, _) = lookups_spec(es1, id, (n - 1) as nat);
        lemma_lookup_live(prev, id);
    } else {
        assert(lookups_spec(es1, id, 0) == (es1, 0nat));
    }
}

/// Single session per document: starting from a registry without `id`, of
/// `n` requests that arrive while it loads exactly one is told to load it;
/// once that request installs `handle`, `m` further requests tell nobody to
/// load or wait, and the registry still holds `handle` for `id`, of which
/// `get_room` hands out clones.
pub proof fn lemma_single_session<H>(es: Seq<EntryModel<H>>, id: Seq<char>, handle: H, n: nat, m: nat)
    requires
        entries_wf(es),
        !has_entry(es, id),
        n >= 1,
    ensures
        ({
            let (es1, loads) = lookups_spec(es, id, n);
            let (es2, later) = lookups_spec(complete_load_spec(es1, id, handle), id, m);
            &&& loads == 1
            &&& later == 0
            &&& has_entry(es2, id)
            &&& es2[entry_index(es2, id)].handle == Some(handle)
        }),
{
    lemma_single_loader(es, id, n);
    let (es1, _) = lookups_spec(es, id, n);
    lemma_lookups_keep_loading(es, id, n);
    lemma_losers_get_winner(es1, id, handle, m);
}

/// While nobody completes the load, lookups of a document that was not
/// there leave it loading.
proof fn lemma_lookups_keep_loading<H>(es: Seq<EntryModel<H>>, id: Seq<char>, n: nat)
    requires
        entries_wf(es),
        !has_entry(es, id),
        n >= 1,
    ensures
        has_entry(lookups_spec(es, id, n).0, id),
        lookups_spec(es, id, n).0[entry_index(lookups_spec(es, id, n).0, id)].loading,
    decreases n,
{
    lemma_single_loader(es, id, n);
    if n == 1 {
        assert(lookups_spec(es, id, 0) == (es, 0nat));
        let es1 = lookups_spec(es, id, 1).0;
        lemma_push_keeps_wf(es, EntryModel { id, loading: true, holders: 0, handle: None });
        lemma_entry_index(es1, id, es.len() as int);
    } else {
        lemma_lookups_keep_loading(es, id, (n - 1) as nat);
        lemma_single_loader(es, id, (n - 1) as nat);
    }
}

} // verus!
