//! The in-memory store of sessions, keyed by session identifier.
use crate::entities::session::{SessionEntity, SessionEntityView, SessionId};
use crate::errors::CoreError;
use std::collections::HashMap;
use vstd::prelude::*;

verus! {

broadcast use vstd::std_specs::hash::group_hash_axioms;

/// The sessions held in memory, keyed by the value of their identifier.
pub struct InMemoryState {
    pub sessions: HashMap<u128, SessionEntity>,
}

/// The stored sessions, by identifier.
pub open spec fn sessions_view(m: Map<u128, SessionEntity>) -> Map<u128, SessionEntityView> {
    m.map_values(|e: SessionEntity| e@)
}

impl View for InMemoryState {
    type V = Map<u128, SessionEntityView>;

    open spec fn view(&self) -> Map<u128, SessionEntityView> {
        sessions_view(self.sessions@)
    }
}

/// The store after creating `e`: `e` is stored under its identifier, replacing
/// any session stored there.
pub open spec fn created(m: Map<u128, SessionEntityView>, e: SessionEntityView) -> Map<
    u128,
    SessionEntityView,
> {
    m.insert(e.id, e)
}

/// What reading session `id` gives: the stored session, or `None` for
/// `NotFound`.
pub open spec fn lookup(m: Map<u128, SessionEntityView>, id: u128) -> Option<SessionEntityView> {
    if m.contains_key(id) {
        Some(m[id])
    } else {
        None
    }
}

/// The store after updating session `id` with `e`, or `None` for `NotFound`
/// when no session `id` is stored. The stored session takes the identifier
/// `id`, whatever identifier `e` holds.
pub open spec fn updated(m: Map<u128, SessionEntityView>, id: u128, e: SessionEntityView) -> Option<
    Map<u128, SessionEntityView>,
> {
    if m.contains_key(id) {
        Some(m.insert(id, SessionEntityView { id, ..e }))
    } else {
        None
    }
}

/// The store after deleting session `id`, or `None` for `NotFound` when no
/// session `id` is stored.
pub open spec fn deleted(m: Map<u128, SessionEntityView>, id: u128) -> Option<
    Map<u128, SessionEntityView>,
> {
    if m.contains_key(id) {
        Some(m.remove(id))
    } else {
        None
    }
}

/// An operation on the store, with the identifier and session it is given.
pub enum StoreOp {
    Create(SessionEntityView),
    Update(u128, SessionEntityView),
    Delete(u128),
}

/// The store after an operation; a refused operation leaves it unchanged.
pub open spec fn applied(m: Map<u128, SessionEntityView>, op: StoreOp) -> Map<
    u128,
    SessionEntityView,
> {
    match op {
        StoreOp::Create(e) => created(m, e),
        StoreOp::Update(id, e) => match updated(m, id, e) {
            Some(m2) => m2,
            None => m,
        },
        StoreOp::Delete(id) => match deleted(m, id) {
            Some(m2) => m2,
            None => m,
        },
    }
}

/// The store after the operations `ops`, applied in order.
pub open spec fn applied_all(m: Map<u128, SessionEntityView>, ops: Seq<StoreOp>) -> Map<
    u128,
    SessionEntityView,
>
    decreases ops.len(),
{
    if ops.len() == 0 {
        m
    } else {
        applied_all(applied(m, ops[0]), ops.drop_first())
    }
}

/// Whether an operation names the session identifier `id`.
pub open spec fn touches(op: StoreOp, id: u128) -> bool {
    match op {
        StoreOp::Create(e) => e.id == id,
        StoreOp::Update(i, _) => i == id,
        StoreOp::Delete(i) => i == id,
    }
}

impl InMemoryState {
    /// An empty store.
    pub fn new() -> (r: Self)
        ensures
            r@ == Map::<u128, SessionEntityView>::empty(),
    {
        let r = InMemoryState { sessions: HashMap::new() };
        assert(r@ =~= Map::<u128, SessionEntityView>::empty());
        r
    }

    /// Stores a session under its identifier and returns the identifier.
    pub fn create(&mut self, session_entity: SessionEntity) -> (r: SessionId)
        ensures
            final(self)@ == created(old(self)@, session_entity@),
            final(self)@ == applied(old(self)@, StoreOp::Create(session_entity@)),
            r == session_entity.id,
    {
        let id = session_entity.id;
        let ghost e = session_entity;
        self.sessions.insert(id.0, session_entity);
        assert(self@ =~= created(old(self)@, e@));
        id
    }

    /// A copy of the stored session `session_id`, or `NotFound`.
    pub fn get(&self, session_id: SessionId) -> (r: Result<SessionEntity, CoreError>)
        ensures
            match lookup(self@, session_id.0) {
                Some(e) => r matches Ok(s) && s@ == e,
                None => r matches Err(CoreError::NotFound),
            },
    {
        match self.sessions.get(&session_id.0) {
            Some(e) => Ok(e.clone()),
            None => Err(CoreError::NotFound),
        }
    }

    /// Replaces the stored session `session_id` by `session_entity`, which takes
    /// the identifier `session_id`; `NotFound` when no such session is stored,
    /// and the store is then unchanged.
    pub fn update(&mut self, session_id: SessionId, session_entity: SessionEntity) -> (r: Result<
        SessionId,
        CoreError,
    >)
        ensures
            match updated(old(self)@, session_id.0, session_entity@) {
                Some(m) => final(self)@ == m && r == Ok::<SessionId, CoreError>(session_id),
                None => final(self)@ == old(self)@ && r matches Err(CoreError::NotFound),
            },
            final(self)@ == applied(old(self)@, StoreOp::Update(session_id.0, session_entity@)),
    {
        if !self.sessions.contains_key(&session_id.0) {
            return Err(CoreError::NotFound);
        }
        let mut e = session_entity;
        e.id = session_id;
        let ghost stored = e;
        self.sessions.insert(session_id.0, e);
        assert(self@ =~= old(self)@.insert(session_id.0, SessionEntityView { id: session_id.0, ..session_entity@ }));
        Ok(session_id)
    }

    /// Removes the stored session `session_id`; `NotFound` when no such session
    /// is stored, and the store is then unchanged.
    pub fn delete(&mut self, session_id: SessionId) -> (r: Result<(), CoreError>)
        ensures
            match deleted(old(self)@, session_id.0) {
                Some(m) => final(self)@ == m && r is Ok,
                None => final(self)@ == old(self)@ && r matches Err(CoreError::NotFound),
            },
            final(self)@ == applied(old(self)@, StoreOp::Delete(session_id.0)),
    {
        match self.sessions.remove(&session_id.0) {
            Some(_) => {
                assert(self@ =~= old(self)@.remove(session_id.0));
                Ok(())
            },
            None => Err(CoreError::NotFound),
        }
    }
}

/// Reading a session just created gives it back.
pub proof fn lemma_read_after_create(m: Map<u128, SessionEntityView>, e: SessionEntityView)
    ensures
        lookup(created(m, e), e.id) == Some(e),
{
}

/// Creating a session leaves every other session as it was.
pub proof fn lemma_create_keeps_others(m: Map<u128, SessionEntityView>, e: SessionEntityView, id: u128)
    requires
        id != e.id,
    ensures
        lookup(created(m, e), id) == lookup(m, id),
{
}

/// Reading a session just updated gives the new session, under the updated
/// identifier.
pub proof fn lemma_read_after_update(m: Map<u128, SessionEntityView>, id: u128, e: SessionEntityView)
    requires
        m.contains_key(id),
    ensures
        updated(m, id, e) matches Some(m2) && lookup(m2, id) == Some(SessionEntityView { id, ..e }),
{
}

/// Updating a session that is not stored is refused, whatever the update.
pub proof fn lemma_update_missing(m: Map<u128, SessionEntityView>, id: u128, e: SessionEntityView)
    requires
        !m.contains_key(id),
    ensures
        updated(m, id, e) is None,
{
}

/// After deleting a session, reading it gives `NotFound`, and deleting it again
/// is refused.
pub proof fn lemma_read_after_delete(m: Map<u128, SessionEntityView>, id: u128)
    requires
        m.contains_key(id),
    ensures
        deleted(m, id) matches Some(m2) && lookup(m2, id) is None && deleted(m2, id) is None,
{
}

/// Deleting a session just created under a fresh identifier gives back the
/// store as it was before.
pub proof fn lemma_delete_undoes_create(m: Map<u128, SessionEntityView>, e: SessionEntityView)
    requires
        !m.contains_key(e.id),
    ensures
        deleted(created(m, e), e.id) == Some(m),
{
    assert(created(m, e).remove(e.id) =~= m);
}

/// Operations that do not name a session leave what reading it gives as it
/// was.
pub proof fn lemma_store_untouched(m: Map<u128, SessionEntityView>, ops: Seq<StoreOp>, id: u128)
    requires
        forall|i: int| 0 <= i < ops.len() ==> !touches(#[trigger] ops[i], id),
    ensures
        lookup(applied_all(m, ops), id) == lookup(m, id),
    decreases ops.len(),
{
    if ops.len() > 0 {
        assert(!touches(ops[0], id));
        assert(lookup(applied(m, ops[0]), id) == lookup(m, id));
        assert forall|i: int| 0 <= i < ops.drop_first().len() implies !touches(
            #[trigger] ops.drop_first()[i],
            id,
        ) by {
            assert(ops.drop_first()[i] == ops[i + 1]);
        }
        lemma_store_untouched(applied(m, ops[0]), ops.drop_first(), id);
    }
}

/// Reading a created session gives it back, whatever operations follow that do
/// not name it.
pub proof fn lemma_store_read_own_create(
    m: Map<u128, SessionEntityView>,
    e: SessionEntityView,
    ops: Seq<StoreOp>,
)
    requires
        forall|i: int| 0 <= i < ops.len() ==> !touches(#[trigger] ops[i], e.id),
    ensures
        lookup(applied_all(applied(m, StoreOp::Create(e)), ops), e.id) == Some(e),
{
    lemma_store_untouched(applied(m, StoreOp::Create(e)), ops, e.id);
}

/// Reading a deleted session gives `NotFound`, whatever operations follow that
/// do not name it.
pub proof fn lemma_store_read_after_delete(
    m: Map<u128, SessionEntityView>,
    id: u128,
    ops: Seq<StoreOp>,
)
    requires
        forall|i: int| 0 <= i < ops.len() ==> !touches(#[trigger] ops[i], id),
    ensures
        lookup(applied_all(applied(m, StoreOp::Delete(id)), ops), id) is None,
{
    lemma_store_untouched(applied(m, StoreOp::Delete(id)), ops, id);
}

/// In a store that starts empty, reading a session that no operation names
/// gives `NotFound`.
pub proof fn lemma_store_never_created(ops: Seq<StoreOp>, id: u128)
    requires
        forall|i: int| 0 <= i < ops.len() ==> !touches(#[trigger] ops[i], id),
    ensures
        lookup(applied_all(Map::empty(), ops), id) is None,
{
    lemma_store_untouched(Map::empty(), ops, id);
}

} // verus!
