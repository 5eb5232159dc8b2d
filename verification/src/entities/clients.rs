//! Walks over the clients of a session.
//!
//! The clients are held in a hash map, whose walk order is not specified. What
//! these functions promise therefore holds for every order: a walk visits each
//! client exactly once.
use crate::entities::client::{ClientEntity, ClientEntityView};
use crate::entities::session::clients_view;
use crate::text::{byte_lists_view, copy_bytes};
use std::collections::HashMap;
use vstd::std_specs::hash::spec_keys_iter;
use vstd::std_specs::iter::IteratorSpec;
use vstd::prelude::*;

verus! {

broadcast use vstd::std_specs::hash::group_hash_axioms;

/// `ks` lists each key of `m` exactly once, in some order.
pub open spec fn is_key_walk<V>(ks: Seq<usize>, m: Map<usize, V>) -> bool {
    &&& ks.no_duplicates()
    &&& ks.to_set() == m.dom()
}

/// Which byte field of a client a walk reads.
#[derive(Clone, Copy, PartialEq, Eq, Structural)]
pub enum ClientField {
    PkShare,
    RpKeyShare,
    BsKeyShare,
    EncryptedData,
}

pub open spec fn field_of(c: ClientEntityView, f: ClientField) -> Seq<u8> {
    match f {
        ClientField::PkShare => c.pk_share,
        ClientField::RpKeyShare => c.rp_key_share,
        ClientField::BsKeyShare => c.bs_key_share,
        ClientField::EncryptedData => c.encrypted_data,
    }
}

/// Whether client `k` of `m` holds a non-empty field `f`.
pub open spec fn has_field(m: Map<usize, ClientEntityView>, f: ClientField, k: usize) -> bool {
    field_of(m[k], f).len() > 0
}

/// The identifiers of the clients whose field `f` is not empty.
pub open spec fn clients_with(m: Map<usize, ClientEntityView>, f: ClientField) -> Set<usize> {
    m.dom().filter(|k: usize| has_field(m, f, k))
}

/// The identifiers of the clients that have sent a bootstrapping key share.
pub open spec fn clients_with_bs_key(m: Map<usize, ClientEntityView>) -> Set<usize> {
    clients_with(m, ClientField::BsKeyShare)
}

/// The identifiers of the clients that have sent their encrypted input.
pub open spec fn clients_with_data(m: Map<usize, ClientEntityView>) -> Set<usize> {
    clients_with(m, ClientField::EncryptedData)
}

/// The keys of a walk whose client holds a non-empty field `f`.
pub open spec fn walk_with(ks: Seq<usize>, m: Map<usize, ClientEntityView>, f: ClientField) -> Seq<
    usize,
> {
    ks.filter(|k: usize| has_field(m, f, k))
}

/// The fields `f` of the clients visited by a walk, in walk order.
pub open spec fn fields_along(ks: Seq<usize>, m: Map<usize, ClientEntityView>, f: ClientField) -> Seq<
    Seq<u8>,
> {
    ks.map_values(|k: usize| field_of(m[k], f))
}

/// Filtering a list without repeats keeps as many items as filtering its set.
proof fn lemma_filter_len_to_set(s: Seq<usize>, p: spec_fn(usize) -> bool)
    requires
        s.no_duplicates(),
    ensures
        s.filter(p).len() == s.to_set().filter(p).len(),
    decreases s.len(),
{
    broadcast use vstd::set::group_set_axioms;
    broadcast use vstd::seq_lib::group_seq_properties;

    if s.len() == 0 {
        assert(s.filter(p) =~= Seq::<usize>::empty()) by {
            reveal(Seq::filter);
        }
        assert(s.to_set().filter(p) =~= Set::<usize>::empty());
    } else {
        let t = s.drop_last();
        let x = s.last();
        assert(s =~= t.push(x));
        assert(t.no_duplicates());
        assert(!t.contains(x)) by {
            if t.contains(x) {
                let j = choose|j: int| 0 <= j < t.len() && t[j] == x;
                assert(s[j] == s[s.len() - 1]);
            }
        }
        lemma_filter_len_to_set(t, p);
        t.lemma_filter_push(x, p);
        t.lemma_push_to_set_commute(x);
        if p(x) {
            assert(s.to_set().filter(p) =~= t.to_set().filter(p).insert(x));
        } else {
            assert(s.to_set().filter(p) =~= t.to_set().filter(p));
        }
    }
}

/// Along a walk, the clients with a non-empty field `f` are exactly as many as
/// in the map.
pub proof fn lemma_walk_with_len(ks: Seq<usize>, m: Map<usize, ClientEntityView>, f: ClientField)
    requires
        is_key_walk(ks, m),
    ensures
        walk_with(ks, m, f).len() == clients_with(m, f).len(),
        walk_with(ks, m, f).no_duplicates(),
        walk_with(ks, m, f).to_set() == clients_with(m, f),
{
    broadcast use vstd::seq_lib::group_seq_properties;
    broadcast use vstd::seq_lib::group_filter_ensures;

    let p = |k: usize| has_field(m, f, k);
    lemma_filter_len_to_set(ks, p);
    let w = walk_with(ks, m, f);
    assert forall|x: usize| w.to_set().contains(x) <==> #[trigger] clients_with(m, f).contains(x) by {
        if w.contains(x) {
            ks.lemma_filter_contains_rev(p, x);
            let j = choose|j: int| 0 <= j < w.len() && w[j] == x;
            ks.lemma_filter_pred(p, j);
        }
        if clients_with(m, f).contains(x) {
            assert(ks.to_set().contains(x));
            let j = choose|j: int| 0 <= j < ks.len() && ks[j] == x;
            ks.lemma_filter_contains(p, j);
        }
    }
    assert(w.to_set() =~= clients_with(m, f));
    w.lemma_no_dup_set_cardinality();
}

fn read_field(c: &ClientEntity, f: ClientField) -> (r: Vec<u8>)
    ensures
        r@ == field_of(c@, f),
{
    match f {
        ClientField::PkShare => copy_bytes(&c.pk_share),
        ClientField::RpKeyShare => copy_bytes(&c.rp_key_share),
        ClientField::BsKeyShare => copy_bytes(&c.bs_key_share),
        ClientField::EncryptedData => copy_bytes(&c.encrypted_data),
    }
}

/// The keys of `m`, each once, in the order in which the map walks them.
pub fn client_keys(m: &HashMap<usize, ClientEntity>) -> (ks: Vec<usize>)
    ensures
        is_key_walk(ks@, m@),
{
    let ghost all = spec_keys_iter(m).remaining().unref();
    let mut ks: Vec<usize> = Vec::new();
    for k in it: m.keys()
        invariant
            it.seq().unref() == all,
            ks@ == all.take(it.index()),
    {
        ks.push(*k);
        assert(ks@ =~= all.take(it.index() + 1));
    }
    assert(ks@ =~= all);
    ks
}

/// Client `c` with its field `f` replaced by `v`.
pub open spec fn with_field(c: ClientEntityView, f: ClientField, v: Seq<u8>) -> ClientEntityView {
    match f {
        ClientField::PkShare => ClientEntityView { pk_share: v, ..c },
        ClientField::RpKeyShare => ClientEntityView { rp_key_share: v, ..c },
        ClientField::BsKeyShare => ClientEntityView { bs_key_share: v, ..c },
        ClientField::EncryptedData => ClientEntityView { encrypted_data: v, ..c },
    }
}

/// Replaces the field `f` of client `k`, which must be present, by `v`.
pub fn set_field(m: &mut HashMap<usize, ClientEntity>, k: usize, f: ClientField, v: Vec<u8>)
    requires
        old(m)@.contains_key(k),
    ensures
        clients_view(final(m)@) == clients_view(old(m)@).insert(
            k,
            with_field(clients_view(old(m)@)[k], f, v@),
        ),
{
    let ghost before = m@;
    let mut c = m.remove(&k).unwrap();
    match f {
        ClientField::PkShare => {
            c.pk_share = v;
        },
        ClientField::RpKeyShare => {
            c.rp_key_share = v;
        },
        ClientField::BsKeyShare => {
            c.bs_key_share = v;
        },
        ClientField::EncryptedData => {
            c.encrypted_data = v;
        },
    }
    m.insert(k, c);
    assert(m@ =~= before.insert(k, c));
    assert(clients_view(m@) =~= clients_view(before).insert(
        k,
        with_field(clients_view(before)[k], f, v@),
    ));
}

/// How many clients have a non-empty field `f`.
pub fn count_with(m: &HashMap<usize, ClientEntity>, ks: &Vec<usize>, f: ClientField) -> (r: usize)
    requires
        is_key_walk(ks@, m@),
    ensures
        r == clients_with(clients_view(m@), f).len(),
{
    let ghost cm = clients_view(m@);
    let mut count: usize = 0;
    let mut i: usize = 0;
    while i < ks.len()
        invariant
            cm == clients_view(m@),
            is_key_walk(ks@, m@),
            i <= ks@.len(),
            count == walk_with(ks@.take(i as int), cm, f).len(),
            count <= i,
        decreases ks@.len() - i,
    {
        let k = ks[i];
        assert(ks@.to_set().contains(k));
        let c = m.get(&k).unwrap();
        assert(ks@.take(i + 1) =~= ks@.take(i as int).push(k));
        proof {
            ks@.take(i as int).lemma_filter_push(k, |k: usize| has_field(cm, f, k));
        }
        if read_field(c, f).len() > 0 {
            count = count + 1;
        }
        i = i + 1;
    }
    assert(ks@.take(ks@.len() as int) =~= ks@);
    assert(cm.dom() =~= m@.dom());
    proof {
        lemma_walk_with_len(ks@, cm, f);
    }
    count
}

/// The fields `f` of the clients, in the order of the walk `ks`.
pub fn fields_in_walk(m: &HashMap<usize, ClientEntity>, ks: &Vec<usize>, f: ClientField) -> (r: Vec<
    Vec<u8>,
>)
    requires
        ks@.to_set().subset_of(m@.dom()),
    ensures
        byte_lists_view(r@) == fields_along(ks@, clients_view(m@), f),
{
    let ghost cm = clients_view(m@);
    let mut r: Vec<Vec<u8>> = Vec::new();
    let mut i: usize = 0;
    while i < ks.len()
        invariant
            cm == clients_view(m@),
            ks@.to_set().subset_of(m@.dom()),
            i <= ks@.len(),
            r@.len() == i,
            byte_lists_view(r@) == fields_along(ks@.take(i as int), cm, f),
        decreases ks@.len() - i,
    {
        let k = ks[i];
        assert(ks@.to_set().contains(k));
        let c = m.get(&k).unwrap();
        let b = read_field(c, f);
        let ghost before = r@;
        r.push(b);
        assert forall|j: int| 0 <= j < i + 1 implies #[trigger] byte_lists_view(r@)[j]
            == fields_along(ks@.take(i + 1), cm, f)[j] by {
            if j < i {
                assert(r@[j] == before[j]);
                assert(byte_lists_view(before)[j] == fields_along(ks@.take(i as int), cm, f)[j]);
            }
        }
        assert(byte_lists_view(r@) =~= fields_along(ks@.take(i + 1), cm, f));
        i = i + 1;
    }
    assert(ks@.take(ks@.len() as int) =~= ks@);
    r
}

/// The keys of the walk `ks` whose client holds a non-empty field `f`, in walk
/// order.
pub fn keys_with(m: &HashMap<usize, ClientEntity>, ks: &Vec<usize>, f: ClientField) -> (r: Vec<usize>)
    requires
        ks@.to_set().subset_of(m@.dom()),
    ensures
        r@ == walk_with(ks@, clients_view(m@), f),
{
    let ghost cm = clients_view(m@);
    let mut r: Vec<usize> = Vec::new();
    let mut i: usize = 0;
    while i < ks.len()
        invariant
            cm == clients_view(m@),
            ks@.to_set().subset_of(m@.dom()),
            i <= ks@.len(),
            r@ == walk_with(ks@.take(i as int), cm, f),
        decreases ks@.len() - i,
    {
        let k = ks[i];
        assert(ks@.to_set().contains(k));
        let c = m.get(&k).unwrap();
        assert(ks@.take(i + 1) =~= ks@.take(i as int).push(k));
        proof {
            ks@.take(i as int).lemma_filter_push(k, |k: usize| has_field(cm, f, k));
        }
        if read_field(c, f).len() > 0 {
            r.push(k);
        }
        i = i + 1;
    }
    assert(ks@.take(ks@.len() as int) =~= ks@);
    r
}

} // verus!
