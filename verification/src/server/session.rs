//! The decisions of the coordinating server on a session: clients joining,
//! bootstrapping key shares and encrypted inputs arriving.
//!
//! Loading and storing the session, the homomorphic-encryption work and
//! handing jobs to the workers happen around these functions; each function
//! takes the session as loaded and says what to store and what to do next.
use crate::decimal::{decimal_text, usize_to_decimal};
use crate::entities::client::{ClientEntity, ClientEntityView, ClientId};
use crate::entities::clients::{
    client_keys, clients_with, clients_with_bs_key, clients_with_data, count_with, field_of,
    fields_along, fields_in_walk, is_key_walk, set_field, with_field, ClientField,
};
use crate::entities::session::{
    clients_view, SessionEntity, SessionEntityView, SessionId, SessionStatus,
};
use crate::errors::{prefixed, CoreError};
use crate::server::errors::AppError;
use vstd::prelude::*;

verus! {

broadcast use {vstd::std_specs::hash::group_hash_axioms, vstd::string::group_string_axioms};

/// The text of the identifier of the session that the server (re)creates.
pub open spec fn default_session_text() -> Seq<char> {
    "f8e774bd-2f9d-4502-92ca-ac8b9c25868e"@
}

/// The identifier of the session that the server (re)creates at start-up.
pub fn default_session_id() -> (r: Result<SessionId, CoreError>)
    ensures
        match crate::entities::session::uuid_parse(default_session_text()) {
            Ok(v) => r matches Ok(s) && s == SessionId(v),
            Err(m) => r matches Err(CoreError::ParseIdError(e)) && e@ == m,
        },
{
    SessionId::try_from("f8e774bd-2f9d-4502-92ca-ac8b9c25868e")
}

/// The message refusing a client that would exceed the number of participants.
pub open spec fn limit_exceeded_text(participant_number: usize) -> Seq<char> {
    "Number of clients exceeded the limit: "@ + decimal_text(participant_number as nat)
}

/// The message refusing a request about a client that is not in the session.
pub open spec fn client_not_found_text(id: usize) -> Seq<char> {
    "Client not found: "@ + decimal_text(id as nat)
}

/// The message refusing work on a session without an encryption server.
pub open spec fn no_server_text() -> Seq<char> {
    "Phantom server not initialized"@
}

/// The session after client `c` has joined it: the client is stored under its
/// identifier, replacing any client stored there before.
pub open spec fn joined(s: SessionEntityView, c: ClientEntityView) -> SessionEntityView {
    SessionEntityView { client_info: s.client_info.insert(c.id, c), ..s }
}

/// Whether a session refuses one more client: it already holds as many
/// clients as there are participants.
pub open spec fn is_full(s: SessionEntityView, participant_number: usize) -> bool {
    s.client_info.len() >= participant_number
}

/// The session once the key shares of all its clients are aggregated: the
/// aggregated public key and the server state holding the aggregated keys are
/// stored, and the session waits for bootstrapping key shares.
pub open spec fn keys_aggregated(s: SessionEntityView, pk: Seq<u8>, server: Seq<u8>) -> SessionEntityView {
    SessionEntityView {
        pk,
        phantom_server: Some(server),
        status: SessionStatus::WaitingForBootstrap,
        ..s
    }
}

/// The session with field `f` of client `id` replaced by `v`.
pub open spec fn client_field_set(s: SessionEntityView, id: usize, f: ClientField, v: Seq<u8>) -> SessionEntityView {
    SessionEntityView {
        client_info: s.client_info.insert(id, with_field(s.client_info[id], f, v)),
        ..s
    }
}

/// What the server does after a client has joined.
pub enum JoinStep {
    /// Store the session as it is.
    Stored,
    /// Every participant has joined: aggregate these public key shares and ring
    /// packing key shares (the same client at each position of both lists), then
    /// record the result with `finish_join` and store the session.
    AggregateKeys { pk_shares: Vec<Vec<u8>>, rp_key_shares: Vec<Vec<u8>> },
}

/// A client joins the session.
///
/// A session that already holds `participant_number` clients refuses the
/// client with a `SessionError`, and one without an encryption server with an
/// `UnexpectedError`; the session is then unchanged. Otherwise the client is
/// stored under its identifier, and when the session then holds
/// `participant_number` clients the key shares of all clients are handed out
/// for aggregation, each client once.
pub fn join(session: &mut SessionEntity, participant_number: usize, client: ClientEntity) -> (r: Result<JoinStep, AppError>)
    ensures
        is_full(old(session)@, participant_number) ==> {
            &&& final(session)@ == old(session)@
            &&& r matches Err(AppError::SessionError(m)) && m@ == limit_exceeded_text(participant_number)
        },
        !is_full(old(session)@, participant_number) && old(session)@.phantom_server is None ==> {
            &&& final(session)@ == old(session)@
            &&& r matches Err(AppError::UnexpectedError(m)) && m@ == no_server_text()
        },
        !is_full(old(session)@, participant_number) && old(session)@.phantom_server is Some ==> {
            &&& final(session)@ == joined(old(session)@, client@)
            &&& (final(session)@.client_info.len() == participant_number) ==> (r matches Ok(
                JoinStep::AggregateKeys { pk_shares, rp_key_shares },
            ) && exists|ks: Seq<usize>|
                {
                    &&& is_key_walk(ks, final(session)@.client_info)
                    &&& crate::text::byte_lists_view(pk_shares@) == fields_along(
                        ks,
                        final(session)@.client_info,
                        ClientField::PkShare,
                    )
                    &&& crate::text::byte_lists_view(rp_key_shares@) == fields_along(
                        ks,
                        final(session)@.client_info,
                        ClientField::RpKeyShare,
                    )
                })
            &&& (final(session)@.client_info.len() != participant_number) ==> r matches Ok(JoinStep::Stored)
        },
{
    let ghost cm0 = clients_view(session.client_info@);
    assert(cm0.dom() =~= session.client_info@.dom());
    if session.client_info.len() >= participant_number {
        let m = prefixed("Number of clients exceeded the limit: ", usize_to_decimal(participant_number).as_str());
        return Err(AppError::SessionError(m));
    }
    if session.phantom_server.is_none() {
        return Err(AppError::UnexpectedError(String::from_str("Phantom server not initialized")));
    }
    let ghost c = client@;
    let key = client.id.0;
    session.client_info.insert(key, client);
    assert(clients_view(session.client_info@) =~= cm0.insert(c.id, c));
    let ghost cm = clients_view(session.client_info@);
    assert(cm.dom() =~= session.client_info@.dom());
    if session.client_info.len() == participant_number {
        let ks = client_keys(&session.client_info);
        assert(ks@.to_set().subset_of(session.client_info@.dom()));
        let pk_shares = fields_in_walk(&session.client_info, &ks, ClientField::PkShare);
        let rp_key_shares = fields_in_walk(&session.client_info, &ks, ClientField::RpKeyShare);
        assert(is_key_walk(ks@, cm));
        Ok(JoinStep::AggregateKeys { pk_shares, rp_key_shares })
    } else {
        Ok(JoinStep::Stored)
    }
}

/// Records the aggregated public key and the server state holding the
/// aggregated keys; the session then waits for bootstrapping key shares.
pub fn finish_join(session: &mut SessionEntity, pk: Vec<u8>, phantom_server: Vec<u8>)
    ensures
        final(session)@ == keys_aggregated(old(session)@, pk@, phantom_server@),
        final(session)@.status == SessionStatus::WaitingForBootstrap,
        final(session)@.pk == pk@,
        final(session)@.phantom_server == Some(phantom_server@),
        final(session)@.id == old(session)@.id,
        final(session)@.client_info == old(session)@.client_info,
        final(session)@.encrypted_result == old(session)@.encrypted_result,
{
    session.pk = pk;
    session.phantom_server = Some(phantom_server);
    session.status = SessionStatus::WaitingForBootstrap;
}

/// Stores field `f` of client `client_id`, refusing a client that is not in the
/// session, and says whether every participant now has that field set.
fn record_field(
    session: &mut SessionEntity,
    participant_number: usize,
    client_id: ClientId,
    f: ClientField,
    value: Vec<u8>,
) -> (r: Result<bool, AppError>)
    ensures
        !old(session)@.client_info.contains_key(client_id.0) ==> {
            &&& final(session)@ == old(session)@
            &&& r matches Err(AppError::SessionError(m)) && m@ == client_not_found_text(client_id.0)
        },
        old(session)@.client_info.contains_key(client_id.0) ==> {
            &&& final(session)@ == client_field_set(old(session)@, client_id.0, f, value@)
            &&& r == Ok::<bool, AppError>(
                clients_with(final(session)@.client_info, f).len() == participant_number,
            )
        },
        final(session)@.status == old(session)@.status,
        final(session)@.id == old(session)@.id,
        final(session)@.pk == old(session)@.pk,
        final(session)@.phantom_server == old(session)@.phantom_server,
        final(session)@.encrypted_result == old(session)@.encrypted_result,
{
    let ghost cm0 = clients_view(session.client_info@);
    assert(cm0.dom() =~= session.client_info@.dom());
    if !session.client_info.contains_key(&client_id.0) {
        let m = prefixed("Client not found: ", usize_to_decimal(client_id.0).as_str());
        return Err(AppError::SessionError(m));
    }
    set_field(&mut session.client_info, client_id.0, f, value);
    let ghost cm = clients_view(session.client_info@);
    assert(cm.dom() =~= session.client_info@.dom());
    let ks = client_keys(&session.client_info);
    let n = count_with(&session.client_info, &ks, f);
    Ok(n == participant_number)
}

/// A client sends its bootstrapping key share.
///
/// A client that is not in the session is refused with a `SessionError` and the
/// session is unchanged. Otherwise the share is stored, and the result says
/// whether as many clients as there are participants have now sent a non-empty
/// share, in which case the workers are asked to aggregate them.
pub fn record_bs_key_share(
    session: &mut SessionEntity,
    participant_number: usize,
    client_id: ClientId,
    bs_key: Vec<u8>,
) -> (r: Result<bool, AppError>)
    ensures
        !old(session)@.client_info.contains_key(client_id.0) ==> {
            &&& final(session)@ == old(session)@
            &&& r matches Err(AppError::SessionError(m)) && m@ == client_not_found_text(client_id.0)
        },
        old(session)@.client_info.contains_key(client_id.0) ==> {
            &&& final(session)@ == client_field_set(old(session)@, client_id.0, ClientField::BsKeyShare, bs_key@)
            &&& r == Ok::<bool, AppError>(
                clients_with_bs_key(final(session)@.client_info).len() == participant_number,
            )
        },
        final(session)@.status == old(session)@.status,
        final(session)@.id == old(session)@.id,
        final(session)@.pk == old(session)@.pk,
        final(session)@.phantom_server == old(session)@.phantom_server,
        final(session)@.encrypted_result == old(session)@.encrypted_result,
{
    record_field(session, participant_number, client_id, ClientField::BsKeyShare, bs_key)
}

/// A client sends its encrypted input.
///
/// A client that is not in the session is refused with a `SessionError` and the
/// session is unchanged. Otherwise the input is stored, and the result says
/// whether as many clients as there are participants have now sent a non-empty
/// input, in which case the workers are asked to compute the function.
pub fn record_data(
    session: &mut SessionEntity,
    participant_number: usize,
    client_id: ClientId,
    data: Vec<u8>,
) -> (r: Result<bool, AppError>)
    ensures
        !old(session)@.client_info.contains_key(client_id.0) ==> {
            &&& final(session)@ == old(session)@
            &&& r matches Err(AppError::SessionError(m)) && m@ == client_not_found_text(client_id.0)
        },
        old(session)@.client_info.contains_key(client_id.0) ==> {
            &&& final(session)@ == client_field_set(old(session)@, client_id.0, ClientField::EncryptedData, data@)
            &&& r == Ok::<bool, AppError>(
                clients_with_data(final(session)@.client_info).len() == participant_number,
            )
        },
        final(session)@.status == old(session)@.status,
        final(session)@.id == old(session)@.id,
        final(session)@.pk == old(session)@.pk,
        final(session)@.phantom_server == old(session)@.phantom_server,
        final(session)@.encrypted_result == old(session)@.encrypted_result,
{
    record_field(session, participant_number, client_id, ClientField::EncryptedData, data)
}

/// A session that has not refused a client keeps at most `participant_number`
/// clients once the client has joined.
pub proof fn lemma_join_respects_capacity(s: SessionEntityView, participant_number: usize, c: ClientEntityView)
    requires
        !is_full(s, participant_number),
        s.client_info.dom().finite(),
    ensures
        joined(s, c).client_info.len() <= participant_number,
        joined(s, c).status == s.status,
{
    broadcast use vstd::set::group_set_axioms;

    assert(joined(s, c).client_info.dom() =~= s.client_info.dom().insert(c.id));
}

/// In a session holding exactly `participant_number` clients, as many clients
/// as there are participants have field `f` set exactly when every client has
/// it set: the workers are asked to go on exactly when every participant has
/// sent its part.
pub proof fn lemma_trigger_iff_every_client(m: Map<usize, ClientEntityView>, participant_number: usize, f: ClientField)
    requires
        m.dom().finite(),
        m.len() == participant_number,
    ensures
        (clients_with(m, f).len() == participant_number) <==> (forall|k: usize|
            #[trigger] m.contains_key(k) ==> crate::entities::clients::has_field(m, f, k)),
{
    broadcast use vstd::set::group_set_axioms;

    let w = clients_with(m, f);
    assert(w.subset_of(m.dom()));
    if w.len() == participant_number {
        vstd::set_lib::lemma_len_subset(w, m.dom());
        if !(w =~= m.dom()) {
            let k = choose|k: usize| m.dom().contains(k) && !w.contains(k);
            vstd::set_lib::lemma_len_subset(w, m.dom().remove(k));
        }
        assert(w =~= m.dom());
    }
    if forall|k: usize| #[trigger] m.contains_key(k) ==> crate::entities::clients::has_field(m, f, k) {
        assert(w =~= m.dom());
    }
}

/// Storing the same field value twice gives the same session as storing it
/// once: a client may resend its bootstrapping key share or its input.
pub proof fn lemma_record_idempotent(s: SessionEntityView, id: usize, f: ClientField, v: Seq<u8>)
    requires
        s.client_info.contains_key(id),
    ensures
        client_field_set(client_field_set(s, id, f, v), id, f, v) == client_field_set(s, id, f, v),
{
    let once = client_field_set(s, id, f, v);
    assert(with_field(once.client_info[id], f, v) == once.client_info[id]);
    assert(once.client_info.insert(id, once.client_info[id]) =~= once.client_info);
}

/// The sessions that the coordinating server stores: at most
/// `participant_number` clients, and the session waits for clients exactly
/// while fewer than `participant_number` have joined.
pub open spec fn server_session_inv(s: SessionEntityView, participant_number: usize) -> bool {
    &&& s.client_info.dom().finite()
    &&& s.client_info.len() <= participant_number
    &&& (s.status == SessionStatus::WaitingForClients) <==> (s.client_info.len() < participant_number)
}

/// A new session with at least one participant to wait for satisfies the
/// invariant of stored sessions.
pub proof fn lemma_new_session_inv(s: SessionEntityView, participant_number: usize)
    requires
        s.client_info == Map::<usize, ClientEntityView>::empty(),
        s.status == SessionStatus::WaitingForClients,
        participant_number > 0,
    ensures
        server_session_inv(s, participant_number),
{
    assert(s.client_info.dom() =~= Set::<usize>::empty());
}

/// A join that the server accepts and stores keeps the invariant of stored
/// sessions: either the session still waits for clients, or it has just become
/// full and its keys are aggregated, so that it waits for bootstrapping key
/// shares.
pub proof fn lemma_join_keeps_inv(
    s: SessionEntityView,
    participant_number: usize,
    c: ClientEntityView,
    pk: Seq<u8>,
    server: Seq<u8>,
)
    requires
        server_session_inv(s, participant_number),
        !is_full(s, participant_number),
    ensures
        joined(s, c).client_info.len() < participant_number ==> server_session_inv(joined(s, c), participant_number),
        joined(s, c).client_info.len() == participant_number ==> server_session_inv(
            keys_aggregated(joined(s, c), pk, server),
            participant_number,
        ),
{
    broadcast use vstd::set::group_set_axioms;

    lemma_join_respects_capacity(s, participant_number, c);
    assert(joined(s, c).client_info.dom() =~= s.client_info.dom().insert(c.id));
}

/// Storing a client's bootstrapping key share or input keeps the invariant of
/// stored sessions.
pub proof fn lemma_record_keeps_inv(s: SessionEntityView, participant_number: usize, id: usize, f: ClientField, v: Seq<u8>)
    requires
        server_session_inv(s, participant_number),
        s.client_info.contains_key(id),
    ensures
        server_session_inv(client_field_set(s, id, f, v), participant_number),
{
    assert(client_field_set(s, id, f, v).client_info.dom() =~= s.client_info.dom());
}

/// Once every participant has joined and the keys are aggregated, the session
/// holds the aggregated public key and the new server state and waits for the
/// bootstrapping key shares, whatever the key; its clients, identifier and
/// result stay as they were.
pub proof fn lemma_key_aggregation_moves_to_bootstrap(s: SessionEntityView, pk: Seq<u8>, server: Seq<u8>)
    ensures
        keys_aggregated(s, pk, server).status == SessionStatus::WaitingForBootstrap,
        keys_aggregated(s, pk, server).pk == pk,
        keys_aggregated(s, pk, server).phantom_server == Some(server),
        keys_aggregated(s, pk, server).id == s.id,
        keys_aggregated(s, pk, server).client_info == s.client_info,
        keys_aggregated(s, pk, server).encrypted_result == s.encrypted_result,
{
}

/// Recording a field of a client of the session sets that field to the value
/// sent and changes nothing else: not the session's status, key, server state,
/// result or identifier, not the client's other fields, and not the other
/// clients.
pub proof fn lemma_record_changes_only_the_field(
    s: SessionEntityView,
    id: usize,
    f: ClientField,
    v: Seq<u8>,
)
    requires
        s.client_info.contains_key(id),
    ensures
        client_field_set(s, id, f, v).status == s.status,
        client_field_set(s, id, f, v).id == s.id,
        client_field_set(s, id, f, v).pk == s.pk,
        client_field_set(s, id, f, v).phantom_server == s.phantom_server,
        client_field_set(s, id, f, v).encrypted_result == s.encrypted_result,
        client_field_set(s, id, f, v).client_info.dom() == s.client_info.dom(),
        field_of(client_field_set(s, id, f, v).client_info[id], f) == v,
        forall|g: ClientField|
            g != f ==> #[trigger] field_of(client_field_set(s, id, f, v).client_info[id], g)
                == field_of(s.client_info[id], g),
        client_field_set(s, id, f, v).client_info[id].id == s.client_info[id].id,
        forall|k: usize|
            k != id ==> #[trigger] client_field_set(s, id, f, v).client_info.get(k)
                == s.client_info.get(k),
{
    assert(client_field_set(s, id, f, v).client_info.dom() =~= s.client_info.dom());
}

/// A client that joins is stored under its identifier and read back as sent;
/// the other clients and the session's status, key, server state, result and
/// identifier stay as they were.
pub proof fn lemma_join_stores_client(s: SessionEntityView, c: ClientEntityView)
    ensures
        joined(s, c).client_info.contains_key(c.id),
        joined(s, c).client_info[c.id] == c,
        joined(s, c).client_info.dom() == s.client_info.dom().insert(c.id),
        forall|k: usize| k != c.id ==> #[trigger] joined(s, c).client_info.get(k) == s.client_info.get(k),
        joined(s, c).status == s.status,
        joined(s, c).pk == s.pk,
        joined(s, c).phantom_server == s.phantom_server,
        joined(s, c).encrypted_result == s.encrypted_result,
        joined(s, c).id == s.id,
{
    assert(joined(s, c).client_info.dom() =~= s.client_info.dom().insert(c.id));
}

} // verus!
