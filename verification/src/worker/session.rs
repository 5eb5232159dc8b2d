//! The decisions of the workers on a session: aggregating the bootstrapping key
//! shares, and computing the function on the clients' encrypted inputs.
//!
//! Loading and storing the session and the homomorphic-encryption work happen
//! around these functions.
use crate::entities::client::ClientEntityView;
use crate::entities::clients::{
    client_keys, clients_with_bs_key, field_of, fields_along, fields_in_walk, is_key_walk,
    keys_with, lemma_walk_with_len, walk_with, ClientField,
};
use crate::entities::session::{clients_view, SessionEntity, SessionEntityView, SessionStatus};
use crate::text::{byte_lists_view, copy_bytes};
use crate::worker::errors::AppError;
use vstd::prelude::*;

verus! {

broadcast use {vstd::std_specs::hash::group_hash_axioms, vstd::string::group_string_axioms};

/// The message refusing work on a session without an encryption server.
pub open spec fn server_missing_text() -> Seq<char> {
    "Phantom server is missing"@
}

/// The non-empty fields `f` of the clients of `s`, listed along a walk `ks`
/// over all clients: each client with a non-empty field once.
pub open spec fn nonempty_fields(s: SessionEntityView, ks: Seq<usize>, f: ClientField) -> Seq<Seq<u8>> {
    fields_along(walk_with(ks, s.client_info, f), s.client_info, f)
}

/// The non-empty fields `f` of all clients, in the map's walk order; a session
/// without an encryption server is refused.
fn collect_nonempty(session: &SessionEntity, f: ClientField) -> (r: Result<Vec<Vec<u8>>, AppError>)
    ensures
        session@.phantom_server is None ==> (r matches Err(AppError::UnexpectedError(m)) && m@
            == server_missing_text()),
        session@.phantom_server is Some ==> (r matches Ok(v) && exists|ks: Seq<usize>|
            is_key_walk(ks, session@.client_info) && byte_lists_view(v@) == nonempty_fields(
                session@,
                ks,
                f,
            )),
{
    let ghost cm = clients_view(session.client_info@);
    assert(cm.dom() =~= session.client_info@.dom());
    let ks = client_keys(&session.client_info);
    assert(ks@.to_set().subset_of(session.client_info@.dom()));
    let with = keys_with(&session.client_info, &ks, f);
    assert(with@.to_set().subset_of(session.client_info@.dom())) by {
        broadcast use vstd::seq_lib::group_filter_ensures;

        assert forall|x: usize| with@.to_set().contains(x) implies session.client_info@.dom().contains(
            x,
        ) by {
            ks@.lemma_filter_contains_rev(|k: usize| crate::entities::clients::has_field(cm, f, k), x);
        }
    }
    let shares = fields_in_walk(&session.client_info, &with, f);
    if session.phantom_server.is_none() {
        return Err(AppError::UnexpectedError(String::from_str("Phantom server is missing")));
    }
    assert(is_key_walk(ks@, cm));
    assert(cm == session@.client_info);
    assert(byte_lists_view(shares@) == nonempty_fields(session@, ks@, f));
    Ok(shares)
}

/// The bootstrapping key shares to aggregate: the non-empty share of each
/// client once, in the map's walk order. A session without an encryption server
/// is refused with an `UnexpectedError`.
pub fn collect_bs_key_shares(session: &SessionEntity) -> (r: Result<Vec<Vec<u8>>, AppError>)
    ensures
        session@.phantom_server is None ==> (r matches Err(AppError::UnexpectedError(m)) && m@
            == server_missing_text()),
        session@.phantom_server is Some ==> (r matches Ok(v) && exists|ks: Seq<usize>|
            is_key_walk(ks, session@.client_info) && byte_lists_view(v@) == nonempty_fields(
                session@,
                ks,
                ClientField::BsKeyShare,
            )),
{
    collect_nonempty(session, ClientField::BsKeyShare)
}

/// The encrypted inputs to compute on: the non-empty input of each client once,
/// in the map's walk order. A session without an encryption server is refused
/// with an `UnexpectedError`.
pub fn collect_computation_inputs(session: &SessionEntity) -> (r: Result<Vec<Vec<u8>>, AppError>)
    ensures
        session@.phantom_server is None ==> (r matches Err(AppError::UnexpectedError(m)) && m@
            == server_missing_text()),
        session@.phantom_server is Some ==> (r matches Ok(v) && exists|ks: Seq<usize>|
            is_key_walk(ks, session@.client_info) && byte_lists_view(v@) == nonempty_fields(
                session@,
                ks,
                ClientField::EncryptedData,
            )),
{
    collect_nonempty(session, ClientField::EncryptedData)
}

/// Position `x` comes before position `y` when ordering by key, equal keys
/// keeping their order.
pub open spec fn comes_before(keys: Seq<usize>, x: usize, y: usize) -> bool {
    keys[x as int] < keys[y as int] || (keys[x as int] == keys[y as int] && x < y)
}

/// `p` lists the positions of `keys` ordered by key, positions with equal keys
/// in their original order: the order in which a stable sort by key puts the
/// items.
pub open spec fn is_stable_order(keys: Seq<usize>, p: Seq<usize>) -> bool {
    &&& p.len() == keys.len()
    &&& p.no_duplicates()
    &&& forall|i: int| 0 <= i < p.len() ==> #[trigger] p[i] < keys.len()
    &&& forall|i: int, j: int| 0 <= i < j < p.len() ==> comes_before(keys, #[trigger] p[i], #[trigger] p[j])
}

/// The order in which the shares are aggregated: the positions of the shares
/// sorted by share index, shares with equal indices in their original order.
pub fn share_order(keys: &Vec<usize>) -> (p: Vec<usize>)
    ensures
        is_stable_order(keys@, p@),
{
    let mut p: Vec<usize> = Vec::new();
    let mut j: usize = 0;
    while j < keys.len()
        invariant
            j <= keys@.len(),
            p@.len() == j,
            p@.no_duplicates(),
            forall|i: int| 0 <= i < p@.len() ==> #[trigger] p@[i] < j,
            forall|a: int, b: int| 0 <= a < b < p@.len() ==> comes_before(keys@, #[trigger] p@[a], #[trigger] p@[b]),
        decreases keys@.len() - j,
    {
        let kj = keys[j];
        let mut q: usize = 0;
        while q < p.len() && keys[p[q]] <= kj
            invariant
                q <= p@.len() == j <= keys@.len(),
                forall|i: int| 0 <= i < p@.len() ==> #[trigger] p@[i] < j,
                forall|t: int| 0 <= t < q ==> keys@[#[trigger] p@[t] as int] <= kj,
            decreases p@.len() - q,
        {
            q = q + 1;
        }
        let ghost old_p = p@;
        assert(forall|t: int| q <= t < old_p.len() ==> keys@[#[trigger] old_p[t] as int] > kj) by {
            assert forall|t: int| q <= t < old_p.len() implies keys@[#[trigger] old_p[t] as int] > kj by {
                if t > q {
                    assert(comes_before(keys@, old_p[q as int], old_p[t]));
                }
            }
        }
        p.insert(q, j);
        assert(p@ == old_p.insert(q as int, j));
        assert forall|a: int, b: int| 0 <= a < b < p@.len() implies comes_before(keys@, #[trigger] p@[a], #[trigger] p@[b]) by {
            if b < q {
                assert(p@[a] == old_p[a] && p@[b] == old_p[b]);
            } else if b == q {
                assert(p@[a] == old_p[a]);
            } else if a < q {
                assert(p@[a] == old_p[a] && p@[b] == old_p[b - 1]);
                assert(comes_before(keys@, old_p[a], old_p[b - 1]));
            } else if a == q {
                assert(p@[b] == old_p[b - 1]);
            } else {
                assert(p@[a] == old_p[a - 1] && p@[b] == old_p[b - 1]);
                assert(comes_before(keys@, old_p[a - 1], old_p[b - 1]));
            }
        }
        assert(p@.no_duplicates()) by {
            assert forall|a: int, b: int| 0 <= a < p@.len() && 0 <= b < p@.len() && a != b implies p@[a] != p@[b] by {
                if a != q && b != q {
                    let oa = if a < q { a } else { a - 1 };
                    let ob = if b < q { b } else { b - 1 };
                    assert(p@[a] == old_p[oa] && p@[b] == old_p[ob]);
                } else if a == q {
                    let ob = if b < q { b } else { b - 1 };
                    assert(p@[b] == old_p[ob]);
                } else {
                    let oa = if a < q { a } else { a - 1 };
                    assert(p@[a] == old_p[oa]);
                }
            }
        }
        assert forall|i: int| 0 <= i < p@.len() implies #[trigger] p@[i] < j + 1 by {
            if i < q {
                assert(p@[i] == old_p[i]);
            } else if i > q {
                assert(p@[i] == old_p[i - 1]);
            }
        }
        j = j + 1;
    }
    p
}

/// The shares listed at the positions `p`.
pub open spec fn ordered_shares(shares: Seq<Seq<u8>>, p: Seq<usize>) -> Seq<Seq<u8>> {
    p.map_values(|j: usize| shares[j as int])
}

/// The shares in the order in which they are aggregated: sorted by their share
/// indices `indices`, shares with equal indices in their original order.
pub fn order_shares(shares: &Vec<Vec<u8>>, indices: &Vec<usize>) -> (r: Vec<Vec<u8>>)
    requires
        shares@.len() == indices@.len(),
    ensures
        exists|p: Seq<usize>|
            is_stable_order(indices@, p) && byte_lists_view(r@) == ordered_shares(
                byte_lists_view(shares@),
                p,
            ),
{
    let p = share_order(indices);
    let mut r: Vec<Vec<u8>> = Vec::new();
    let mut i: usize = 0;
    while i < p.len()
        invariant
            is_stable_order(indices@, p@),
            shares@.len() == indices@.len(),
            i <= p@.len(),
            r@.len() == i,
            forall|t: int| 0 <= t < i ==> #[trigger] r@[t]@ == shares@[p@[t] as int]@,
        decreases p@.len() - i,
    {
        let j = p[i];
        r.push(copy_bytes(&shares[j]));
        i = i + 1;
    }
    assert(byte_lists_view(r@) =~= ordered_shares(byte_lists_view(shares@), p@));
    r
}

/// Clients that sent bootstrapping key shares with equal share indices sent
/// equal shares, `idx` giving the index of a share.
pub open spec fn equal_indices_equal_shares(
    m: Map<usize, ClientEntityView>,
    idx: spec_fn(Seq<u8>) -> usize,
) -> bool {
    forall|k1: usize, k2: usize|
        #![trigger clients_with_bs_key(m).contains(k1), clients_with_bs_key(m).contains(k2)]
        clients_with_bs_key(m).contains(k1) && clients_with_bs_key(m).contains(k2) && idx(
            m[k1].bs_key_share,
        ) == idx(m[k2].bs_key_share) ==> m[k1].bs_key_share == m[k2].bs_key_share
}

/// Each `j < n` occurs in a list of `n` distinct positions below `n`.
proof fn lemma_positions_cover(p: Seq<usize>, n: nat, j: int)
    requires
        p.len() == n,
        p.no_duplicates(),
        forall|i: int| 0 <= i < p.len() ==> #[trigger] p[i] < n,
        0 <= j < n,
    ensures
        exists|i: int| 0 <= i < p.len() && p[i] == j,
{
    broadcast use vstd::seq_lib::group_seq_properties;

    let ps = p.map_values(|x: usize| x as int);
    assert(ps.no_duplicates()) by {
        assert forall|a: int, b: int| 0 <= a < ps.len() && 0 <= b < ps.len() && a != b implies ps[a]
            != ps[b] by {
            assert(p[a] != p[b]);
        }
    }
    let range = vstd::set_lib::set_int_range(0, n as int);
    vstd::set_lib::lemma_int_range(0, n as int);
    ps.unique_seq_to_set();
    assert(ps.to_set().subset_of(range)) by {
        assert forall|x: int| ps.to_set().contains(x) implies range.contains(x) by {
            let i = choose|i: int| 0 <= i < ps.len() && ps[i] == x;
            assert(p[i] < n);
        }
    }
    vstd::set_lib::lemma_subset_equality(ps.to_set(), range);
    assert(range.contains(j));
    assert(ps.to_set().contains(j));
    let i = choose|i: int| 0 <= i < ps.len() && ps[i] == j;
    assert(p[i] == j);
}

/// The items of `w` at the positions `p`.
spec fn at_positions(w: Seq<usize>, p: Seq<usize>) -> Seq<usize> {
    p.map_values(|j: usize| w[j as int])
}

/// The clients of a walk `w` put in a stable order `p` of their keys `g`: each
/// client of the walk once, with keys in increasing order.
proof fn lemma_stable_order_sorts(w: Seq<usize>, g: spec_fn(usize) -> usize, p: Seq<usize>)
    requires
        w.no_duplicates(),
        is_stable_order(w.map_values(g), p),
    ensures
        at_positions(w, p).to_set() == w.to_set(),
        at_positions(w, p).len() == w.len(),
        at_positions(w, p).no_duplicates(),
        forall|a: int, b: int|
            0 <= a < b < w.len() ==> g(#[trigger] at_positions(w, p)[a]) <= g(
                #[trigger] at_positions(w, p)[b],
            ),
{
    let keys = w.map_values(g);
    let q = at_positions(w, p);
    assert forall|a: int, b: int| 0 <= a < b < w.len() implies g(#[trigger] q[a]) <= g(#[trigger] q[b]) by {
        assert(comes_before(keys, p[a], p[b]));
        assert(p[a] < keys.len() && p[b] < keys.len());
        assert(keys[p[a] as int] == g(q[a]));
        assert(keys[p[b] as int] == g(q[b]));
    }
    assert(q.no_duplicates()) by {
        assert forall|a: int, b: int| 0 <= a < q.len() && 0 <= b < q.len() && a != b implies q[a]
            != q[b] by {
            assert(p[a] != p[b]);
            assert(p[a] < keys.len() && p[b] < keys.len());
        }
    }
    assert forall|x: usize| q.to_set().contains(x) <==> #[trigger] w.to_set().contains(x) by {
        if q.to_set().contains(x) {
            let i = choose|i: int| 0 <= i < q.len() && q[i] == x;
            assert(p[i] < keys.len());
        }
        if w.to_set().contains(x) {
            let j = choose|j: int| 0 <= j < w.len() && w[j] == x;
            lemma_positions_cover(p, w.len(), j);
            let i = choose|i: int| 0 <= i < p.len() && p[i] == j;
            assert(q[i] == x);
            assert(q.contains(x));
        }
    }
    assert(q.to_set() =~= w.to_set());
}

/// Two lists that hold the same items, each once, have the same multiset of
/// keys `g`.
proof fn lemma_same_items_same_keys(a: Seq<usize>, b: Seq<usize>, g: spec_fn(usize) -> usize)
    requires
        a.no_duplicates(),
        b.no_duplicates(),
        a.to_set() == b.to_set(),
    ensures
        a.map_values(g).to_multiset() == b.map_values(g).to_multiset(),
    decreases a.len(),
{
    broadcast use vstd::seq_lib::group_to_multiset_ensures;
    broadcast use vstd::multiset::group_multiset_axioms;

    if a.len() == 0 {
        if b.len() > 0 {
            assert(b.to_set().contains(b[0]));
        }
        assert(a.map_values(g) =~= b.map_values(g));
    } else {
        let x = a.last();
        let ta = a.drop_last();
        assert(a.to_set().contains(x));
        let i = choose|i: int| 0 <= i < b.len() && b[i] == x;
        let tb = b.remove(i);
        assert(ta.no_duplicates()) by {
            assert forall|u: int, v: int| 0 <= u < ta.len() && 0 <= v < ta.len() && u != v implies ta[u]
                != ta[v] by {
                assert(ta[u] == a[u] && ta[v] == a[v]);
            }
        }
        assert(tb.no_duplicates()) by {
            assert forall|u: int, v: int| 0 <= u < tb.len() && 0 <= v < tb.len() && u != v implies tb[u]
                != tb[v] by {
                let bu = if u < i { u } else { u + 1 };
                let bv = if v < i { v } else { v + 1 };
                assert(tb[u] == b[bu] && tb[v] == b[bv]);
            }
        }
        assert forall|y: usize| ta.to_set().contains(y) <==> #[trigger] tb.to_set().contains(y) by {
            if ta.to_set().contains(y) {
                let u = choose|u: int| 0 <= u < ta.len() && ta[u] == y;
                assert(a[u] == y && u != a.len() - 1);
                assert(y != x);
                assert(a.to_set().contains(y));
                let v = choose|v: int| 0 <= v < b.len() && b[v] == y;
                assert(v != i);
                let tv = if v < i { v } else { v - 1 };
                assert(tb[tv] == y);
            }
            if tb.to_set().contains(y) {
                let u = choose|u: int| 0 <= u < tb.len() && tb[u] == y;
                let bu = if u < i { u } else { u + 1 };
                assert(b[bu] == y && bu != i);
                assert(y != x);
                assert(b.to_set().contains(y));
                let v = choose|v: int| 0 <= v < a.len() && a[v] == y;
                assert(v != a.len() - 1);
                assert(ta[v] == y);
            }
        }
        assert(ta.to_set() =~= tb.to_set());
        lemma_same_items_same_keys(ta, tb, g);
        let ka = a.map_values(g);
        let kb = b.map_values(g);
        assert(ka =~= ta.map_values(g).push(g(x)));
        assert(kb.remove(i) =~= tb.map_values(g));
        assert(kb.to_multiset().count(g(x)) > 0) by {
            assert(kb[i] == g(x));
            assert(kb.contains(g(x)));
        }
        assert(ka.to_multiset() =~= kb.to_multiset());
    }
}

/// Ordered by share index, the bootstrapping key shares of a session come out
/// the same however the map of its clients is walked, when clients whose
/// shares have equal indices sent equal shares; `idx` gives the index of a
/// share.
pub proof fn lemma_share_order_walk_independent(
    s: SessionEntityView,
    ks1: Seq<usize>,
    ks2: Seq<usize>,
    idx: spec_fn(Seq<u8>) -> usize,
    p1: Seq<usize>,
    p2: Seq<usize>,
)
    requires
        is_key_walk(ks1, s.client_info),
        is_key_walk(ks2, s.client_info),
        equal_indices_equal_shares(s.client_info, idx),
        is_stable_order(nonempty_fields(s, ks1, ClientField::BsKeyShare).map_values(idx), p1),
        is_stable_order(nonempty_fields(s, ks2, ClientField::BsKeyShare).map_values(idx), p2),
    ensures
        ordered_shares(nonempty_fields(s, ks1, ClientField::BsKeyShare), p1) == ordered_shares(
            nonempty_fields(s, ks2, ClientField::BsKeyShare),
            p2,
        ),
{
    let m = s.client_info;
    let f = ClientField::BsKeyShare;
    let g = |k: usize| idx(field_of(m[k], f));
    let w1 = walk_with(ks1, m, f);
    let w2 = walk_with(ks2, m, f);
    lemma_walk_with_len(ks1, m, f);
    lemma_walk_with_len(ks2, m, f);
    let sh1 = nonempty_fields(s, ks1, f);
    let sh2 = nonempty_fields(s, ks2, f);
    assert(sh1.map_values(idx) =~= w1.map_values(g));
    assert(sh2.map_values(idx) =~= w2.map_values(g));
    lemma_stable_order_sorts(w1, g, p1);
    lemma_stable_order_sorts(w2, g, p2);
    let q1 = at_positions(w1, p1);
    let q2 = at_positions(w2, p2);
    lemma_same_items_same_keys(q1, q2, g);
    let k1 = q1.map_values(g);
    let k2 = q2.map_values(g);
    let leq = |a: usize, b: usize| a <= b;
    assert(vstd::relations::total_ordering(leq));
    assert(vstd::relations::sorted_by(k1, leq)) by {
        assert forall|a: int, b: int| 0 <= a < b < k1.len() implies #[trigger] leq(k1[a], k1[b]) by {
            assert(g(q1[a]) <= g(q1[b]));
        }
    }
    assert(vstd::relations::sorted_by(k2, leq)) by {
        assert forall|a: int, b: int| 0 <= a < b < k2.len() implies #[trigger] leq(k2[a], k2[b]) by {
            assert(g(q2[a]) <= g(q2[b]));
        }
    }
    vstd::seq_lib::lemma_sorted_unique(k1, k2, leq);
    let o1 = ordered_shares(sh1, p1);
    let o2 = ordered_shares(sh2, p2);
    assert forall|t: int| 0 <= t < o1.len() implies o1[t] == o2[t] by {
        assert(p1[t] < w1.len());
        assert(p2[t] < w2.len());
        assert(k1[t] == k2[t]);
        assert(q1.to_set().contains(q1[t]) && q2.to_set().contains(q2[t]));
        assert(clients_with_bs_key(m).contains(q1[t]) && clients_with_bs_key(m).contains(q2[t]));
        assert(o1[t] == field_of(m[q1[t]], f));
        assert(o2[t] == field_of(m[q2[t]], f));
    }
    assert(o1 =~= o2);
}

/// The session once its bootstrapping key shares are aggregated: the server
/// state holding the bootstrapping key is stored, and the session waits for the
/// clients' inputs.
pub open spec fn bs_key_aggregated(s: SessionEntityView, server: Seq<u8>) -> SessionEntityView {
    SessionEntityView { phantom_server: Some(server), status: SessionStatus::WaitingForArgument, ..s }
}

/// Records the server state holding the aggregated bootstrapping key; the
/// session then waits for the clients' inputs.
pub fn finish_bs_key_aggregation(session: &mut SessionEntity, phantom_server: Vec<u8>)
    ensures
        final(session)@ == bs_key_aggregated(old(session)@, phantom_server@),
        final(session)@.status == SessionStatus::WaitingForArgument,
        final(session)@.phantom_server == Some(phantom_server@),
        final(session)@.id == old(session)@.id,
        final(session)@.client_info == old(session)@.client_info,
        final(session)@.pk == old(session)@.pk,
        final(session)@.encrypted_result == old(session)@.encrypted_result,
{
    session.phantom_server = Some(phantom_server);
    session.status = SessionStatus::WaitingForArgument;
}

/// The message refusing a computation without a first operand.
pub open spec fn missing_first_text() -> Seq<char> {
    "Missing first ciphertext"@
}

/// The message refusing a computation without a second operand.
pub open spec fn missing_second_text() -> Seq<char> {
    "Missing second ciphertext"@
}

/// The two operands of the function: the first two inputs. Fewer inputs are
/// refused with an `UnexpectedError` naming the missing operand.
pub fn operand_pair(inputs: &Vec<Vec<u8>>) -> (r: Result<(Vec<u8>, Vec<u8>), AppError>)
    ensures
        inputs@.len() == 0 ==> (r matches Err(AppError::UnexpectedError(m)) && m@ == missing_first_text()),
        inputs@.len() == 1 ==> (r matches Err(AppError::UnexpectedError(m)) && m@ == missing_second_text()),
        inputs@.len() >= 2 ==> (r matches Ok((a, b)) && a@ == inputs@[0]@ && b@ == inputs@[1]@),
{
    if inputs.len() == 0 {
        return Err(AppError::UnexpectedError(String::from_str("Missing first ciphertext")));
    }
    if inputs.len() == 1 {
        return Err(AppError::UnexpectedError(String::from_str("Missing second ciphertext")));
    }
    Ok((copy_bytes(&inputs[0]), copy_bytes(&inputs[1])))
}

/// The session once the function is computed: the encrypted result is stored
/// and the session is done.
pub open spec fn computed(s: SessionEntityView, result: Seq<Seq<u8>>) -> SessionEntityView {
    SessionEntityView { encrypted_result: result, status: SessionStatus::Done, ..s }
}

/// Records the encrypted result of the function; the session is then done.
pub fn finish_computation(session: &mut SessionEntity, encrypted_result: Vec<Vec<u8>>)
    ensures
        final(session)@ == computed(old(session)@, byte_lists_view(encrypted_result@)),
        final(session)@.encrypted_result == byte_lists_view(encrypted_result@),
        final(session)@.status == SessionStatus::Done,
        final(session)@.id == old(session)@.id,
        final(session)@.client_info == old(session)@.client_info,
        final(session)@.pk == old(session)@.pk,
        final(session)@.phantom_server == old(session)@.phantom_server,
{
    session.encrypted_result = encrypted_result;
    session.status = SessionStatus::Done;
}

/// Once the bootstrapping key shares are aggregated, whatever the session's
/// status was, it holds the new server state and waits for the clients' inputs;
/// nothing else of the session changes.
pub proof fn lemma_bs_key_aggregation_moves_to_inputs(s: SessionEntityView, server: Seq<u8>)
    ensures
        bs_key_aggregated(s, server).status == SessionStatus::WaitingForArgument,
        bs_key_aggregated(s, server).phantom_server == Some(server),
        bs_key_aggregated(s, server).id == s.id,
        bs_key_aggregated(s, server).client_info == s.client_info,
        bs_key_aggregated(s, server).pk == s.pk,
        bs_key_aggregated(s, server).encrypted_result == s.encrypted_result,
{
}

/// Once the function is computed, the session holds exactly the encrypted
/// result it was given, whatever its length, and is done; nothing else of the
/// session changes.
pub proof fn lemma_computation_stores_result(s: SessionEntityView, result: Seq<Seq<u8>>)
    ensures
        computed(s, result).encrypted_result == result,
        computed(s, result).status == SessionStatus::Done,
        computed(s, result).id == s.id,
        computed(s, result).client_info == s.client_info,
        computed(s, result).pk == s.pk,
        computed(s, result).phantom_server == s.phantom_server,
{
}

/// The shares collected along a walk over the clients are the non-empty
/// shares of the clients, each client's once: as many as there are clients
/// with a share, each non-empty, each the share of the client at its place in
/// the walk, and every client's share among them.
pub proof fn lemma_collected_shares_are_the_clients_shares(s: SessionEntityView, ks: Seq<usize>)
    requires
        is_key_walk(ks, s.client_info),
    ensures
        nonempty_fields(s, ks, ClientField::BsKeyShare).len() == clients_with_bs_key(s.client_info).len(),
        forall|i: int|
            0 <= i < nonempty_fields(s, ks, ClientField::BsKeyShare).len() ==> #[trigger] nonempty_fields(
                s,
                ks,
                ClientField::BsKeyShare,
            )[i].len() > 0,
        forall|i: int|
            #![trigger nonempty_fields(s, ks, ClientField::BsKeyShare)[i]]
            0 <= i < nonempty_fields(s, ks, ClientField::BsKeyShare).len() ==> {
                let k = walk_with(ks, s.client_info, ClientField::BsKeyShare)[i];
                &&& clients_with_bs_key(s.client_info).contains(k)
                &&& s.client_info[k].bs_key_share == nonempty_fields(s, ks, ClientField::BsKeyShare)[i]
            },
        forall|k: usize|
            #[trigger] clients_with_bs_key(s.client_info).contains(k) ==> nonempty_fields(
                s,
                ks,
                ClientField::BsKeyShare,
            ).contains(s.client_info[k].bs_key_share),
{
    broadcast use vstd::seq_lib::group_filter_ensures;

    let m = s.client_info;
    let f = ClientField::BsKeyShare;
    let w = walk_with(ks, m, f);
    let sh = nonempty_fields(s, ks, f);
    lemma_walk_with_len(ks, m, f);
    assert forall|i: int| #![trigger sh[i]] 0 <= i < sh.len() implies sh[i].len() > 0 by {
        assert(sh[i] == m[w[i]].bs_key_share);
        assert(w.to_set().contains(w[i]));
    }
    assert forall|i: int| #![trigger sh[i]] 0 <= i < sh.len() implies clients_with_bs_key(m).contains(
        w[i],
    ) && m[w[i]].bs_key_share == sh[i] by {
        assert(w.to_set().contains(w[i]));
    }
    assert forall|k: usize| #[trigger] clients_with_bs_key(m).contains(k) implies sh.contains(
        m[k].bs_key_share,
    ) by {
        assert(w.to_set().contains(k));
        let j = choose|j: int| 0 <= j < w.len() && w[j] == k;
        assert(sh[j] == m[k].bs_key_share);
    }
}

} // verus!
