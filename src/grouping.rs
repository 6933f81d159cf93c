//! Merging documents of one shape is associative: how the fold of fragments
//! is grouped does not change its result.

use vstd::prelude::*;
use crate::merge::{
    combined, entries_well_formed, key_index, keys_unique, lemma_key_index,
    lemma_lookup_merged_entries, lemma_merged_entries_well_formed, lookup, merged, merged_entries,
    merged_entry, sequence_items, well_formed,
};
use crate::value::Doc;

verus! {

/// Two values meet without a clash of shapes: both mappings whose shared keys
/// again hold values of one shape, both sequences (tagged or not), or neither
/// a mapping nor a sequence.
pub open spec fn same_shape(x: Doc, y: Doc) -> bool
    decreases x,
{
    match x {
        Doc::Mapping(ex) => match y {
            Doc::Mapping(ey) => forall|i: int, j: int|
                0 <= i < ex.len() && 0 <= j < ey.len() && ex[i].0 == ey[j].0 ==> same_shape(
                    #[trigger] ex[i].1,
                    #[trigger] ey[j].1,
                ),
            _ => false,
        },
        _ => !(y is Mapping) && (sequence_items(x) is Some) == (sequence_items(y) is Some),
    }
}

/// The keys of a list of entries, in order.
pub open spec fn key_seq(es: Seq<(Doc, Doc)>) -> Seq<Doc> {
    es.map_values(|e: (Doc, Doc)| e.0)
}

/// The keys of `ks` that `known` does not hold, in order.
pub open spec fn fresh(ks: Seq<Doc>, known: Seq<Doc>) -> Seq<Doc>
    decreases ks.len(),
{
    if ks.len() == 0 {
        ks
    } else if known.contains(ks.last()) {
        fresh(ks.drop_last(), known)
    } else {
        fresh(ks.drop_last(), known).push(ks.last())
    }
}

proof fn lemma_push_contains(s: Seq<Doc>, y: Doc, x: Doc)
    ensures
        s.push(y).contains(x) == (s.contains(x) || x == y),
{
    if s.contains(x) {
        let i = choose|i: int| 0 <= i < s.len() && s[i] == x;
        assert(s.push(y)[i] == x);
    }
    if x == y {
        assert(s.push(y)[s.len() as int] == x);
    }
    if s.push(y).contains(x) {
        let i = choose|i: int| 0 <= i < s.push(y).len() && s.push(y)[i] == x;
        if i < s.len() {
            assert(s[i] == x);
        }
    }
}

proof fn lemma_fresh_contains(ks: Seq<Doc>, known: Seq<Doc>, x: Doc)
    ensures
        fresh(ks, known).contains(x) == (ks.contains(x) && !known.contains(x)),
    decreases ks.len(),
{
    if ks.len() > 0 {
        let rest = ks.drop_last();
        let y = ks.last();
        lemma_fresh_contains(rest, known, x);
        assert(ks =~= rest.push(y));
        lemma_push_contains(rest, y, x);
        if !known.contains(y) {
            lemma_push_contains(fresh(rest, known), y, x);
        }
    }
}

proof fn lemma_fresh_add(xs: Seq<Doc>, ys: Seq<Doc>, known: Seq<Doc>)
    ensures
        fresh(xs + ys, known) == fresh(xs, known) + fresh(ys, known),
    decreases ys.len(),
{
    if ys.len() == 0 {
        assert(xs + ys =~= xs);
        assert(fresh(xs, known) + fresh(ys, known) =~= fresh(xs, known));
    } else {
        lemma_fresh_add(xs, ys.drop_last(), known);
        assert((xs + ys).drop_last() =~= xs + ys.drop_last());
        assert((xs + ys).last() == ys.last());
        if !known.contains(ys.last()) {
            assert((fresh(xs, known) + fresh(ys.drop_last(), known)).push(ys.last()) =~= fresh(xs, known)
                + fresh(ys.drop_last(), known).push(ys.last()));
        }
    }
}

proof fn lemma_fresh_same_known(ks: Seq<Doc>, k1: Seq<Doc>, k2: Seq<Doc>)
    requires
        forall|x: Doc| k1.contains(x) == k2.contains(x),
    ensures
        fresh(ks, k1) == fresh(ks, k2),
    decreases ks.len(),
{
    if ks.len() > 0 {
        lemma_fresh_same_known(ks.drop_last(), k1, k2);
    }
}

proof fn lemma_fresh_twice(ks: Seq<Doc>, k1: Seq<Doc>, k2: Seq<Doc>)
    ensures
        fresh(fresh(ks, k1), k2) == fresh(ks, k1 + k2),
    decreases ks.len(),
{
    if ks.len() > 0 {
        let rest = ks.drop_last();
        let x = ks.last();
        lemma_fresh_twice(rest, k1, k2);
        assert((k1 + k2).contains(x) == (k1.contains(x) || k2.contains(x))) by {
            if k2.contains(x) {
                let i = choose|i: int| 0 <= i < k2.len() && k2[i] == x;
                assert((k1 + k2)[k1.len() + i] == x);
            }
            if k1.contains(x) {
                let i = choose|i: int| 0 <= i < k1.len() && k1[i] == x;
                assert((k1 + k2)[i] == x);
            }
            if (k1 + k2).contains(x) {
                let i = choose|i: int| 0 <= i < (k1 + k2).len() && (k1 + k2)[i] == x;
                if i < k1.len() {
                    assert(k1[i] == x);
                } else {
                    assert(k2[i - k1.len()] == x);
                }
            }
        }
        if !k1.contains(x) {
            let f = fresh(rest, k1);
            assert(f.push(x).drop_last() =~= f);
        }
    }
}

/// The keys of merged entries: those of `ea`, then the new ones of `eb` in
/// their order.
proof fn lemma_key_seq_merged(ea: Seq<(Doc, Doc)>, eb: Seq<(Doc, Doc)>)
    requires
        keys_unique(eb),
    ensures
        key_seq(merged_entries(ea, eb)) == key_seq(ea) + fresh(key_seq(eb), key_seq(ea)),
    decreases eb.len(),
{
    if eb.len() == 0 {
        assert(key_seq(ea) + fresh(key_seq(eb), key_seq(ea)) =~= key_seq(ea));
    } else {
        let rest = eb.drop_last();
        let e = eb.last();
        assert(keys_unique(rest));
        lemma_key_seq_merged(ea, rest);
        let acc = merged_entries(ea, rest);
        assert(merged_entries(ea, eb) == merged_entry(acc, e));
        assert(key_seq(eb).drop_last() =~= key_seq(rest));
        assert(key_seq(eb).last() == e.0);
        lemma_key_index(acc, e.0);
        let i = key_index(acc, e.0);
        let ka = key_seq(ea);
        lemma_fresh_contains(key_seq(rest), ka, e.0);
        assert(!key_seq(rest).contains(e.0)) by {
            if key_seq(rest).contains(e.0) {
                let j = choose|j: int| 0 <= j < key_seq(rest).len() && key_seq(rest)[j] == e.0;
                assert(eb[j].0 == eb[eb.len() - 1].0);
            }
        }
        let ks = key_seq(acc);
        if i < 0 {
            assert(!ks.contains(e.0)) by {
                if ks.contains(e.0) {
                    let j = choose|j: int| 0 <= j < ks.len() && ks[j] == e.0;
                    assert(acc[j].0 == e.0);
                }
            }
            assert(!ka.contains(e.0)) by {
                if ka.contains(e.0) {
                    let j = choose|j: int| 0 <= j < ka.len() && ka[j] == e.0;
                    assert(ks[j] == e.0);
                }
            }
            assert(key_seq(acc.push(e)) =~= ks.push(e.0));
            assert(ka + fresh(key_seq(rest), ka).push(e.0) =~= (ka + fresh(key_seq(rest), ka)).push(e.0));
        } else {
            assert(ks[i] == e.0);
            assert(ka.contains(e.0)) by {
                if i >= ka.len() {
                    let f = fresh(key_seq(rest), ka);
                    assert(f[i - ka.len()] == e.0);
                    assert(f.contains(e.0));
                }
            }
            let upd = acc.update(i, (acc[i].0, combined(acc[i].1, e.1)));
            assert(key_seq(upd) =~= ks);
        }
    }
}

/// Entries with unique keys in the same order and the same lookups are equal.
proof fn lemma_entries_equal(e1: Seq<(Doc, Doc)>, e2: Seq<(Doc, Doc)>)
    requires
        keys_unique(e1),
        keys_unique(e2),
        key_seq(e1) == key_seq(e2),
        forall|k: Doc| lookup(e1, k) == lookup(e2, k),
    ensures
        e1 == e2,
{
    assert(e1.len() == key_seq(e1).len());
    assert forall|i: int| 0 <= i < e1.len() implies e1[i] == e2[i] by {
        let k = e1[i].0;
        assert(key_seq(e1)[i] == k && key_seq(e2)[i] == e2[i].0);
        lemma_key_index(e1, k);
        lemma_key_index(e2, k);
        assert(lookup(e1, k) == lookup(e2, k));
    }
    assert(e1 =~= e2);
}

/// Merging is associative on documents of one shape: where every key that
/// two of `a`, `b`, `c` share holds, at every depth, mappings on both sides,
/// sequences on both sides, or neither, merging `b` into `a` and then `c`
/// gives what merging the merge of `c` into `b` into `a` gives.
pub proof fn law_merge_associative(a: Doc, b: Doc, c: Doc)
    requires
        well_formed(a),
        well_formed(b),
        well_formed(c),
        same_shape(a, b),
        same_shape(b, c),
        same_shape(a, c),
    ensures
        merged(merged(a, b), c) == merged(a, merged(b, c)),
        combined(combined(a, b), c) == combined(a, combined(b, c)),
    decreases c,
{
    if let Doc::Mapping(ec) = c {
        if let Doc::Mapping(eb) = b {
            if let Doc::Mapping(ea) = a {
                lemma_entries_associative(ea, eb, ec);
            }
        }
    } else if sequence_items(a) is Some {
        let sa = sequence_items(a).unwrap();
        let sb = sequence_items(b).unwrap();
        let sc = sequence_items(c).unwrap();
        assert(sa + sb + sc =~= sa + (sb + sc));
    }
}

/// Both groupings of three well-formed entry lists, and their parts, are well formed.
proof fn lemma_groupings_well_formed(ea: Seq<(Doc, Doc)>, eb: Seq<(Doc, Doc)>, ec: Seq<(Doc, Doc)>)
    requires
        entries_well_formed(ea),
        entries_well_formed(eb),
        entries_well_formed(ec),
    ensures
        entries_well_formed(merged_entries(ea, eb)),
        entries_well_formed(merged_entries(eb, ec)),
        entries_well_formed(merged_entries(merged_entries(ea, eb), ec)),
        entries_well_formed(merged_entries(ea, merged_entries(eb, ec))),
{
    lemma_merged_entries_well_formed(ea, eb);
    lemma_merged_entries_well_formed(merged_entries(ea, eb), ec);
    lemma_merged_entries_well_formed(eb, ec);
    lemma_merged_entries_well_formed(ea, merged_entries(eb, ec));
}

proof fn lemma_entries_associative(ea: Seq<(Doc, Doc)>, eb: Seq<(Doc, Doc)>, ec: Seq<(Doc, Doc)>)
    requires
        well_formed(Doc::Mapping(ea)),
        well_formed(Doc::Mapping(eb)),
        well_formed(Doc::Mapping(ec)),
        same_shape(Doc::Mapping(ea), Doc::Mapping(eb)),
        same_shape(Doc::Mapping(eb), Doc::Mapping(ec)),
        same_shape(Doc::Mapping(ea), Doc::Mapping(ec)),
    ensures
        merged_entries(merged_entries(ea, eb), ec) == merged_entries(ea, merged_entries(eb, ec)),
    decreases ec,
{
    let ab = merged_entries(ea, eb);
    let bc = merged_entries(eb, ec);
    let left = merged_entries(ab, ec);
    let right = merged_entries(ea, bc);
    assert(entries_well_formed(ea) && entries_well_formed(eb) && entries_well_formed(ec));
    lemma_groupings_well_formed(ea, eb, ec);
    // the keys, in order
    lemma_key_seq_merged(ea, eb);
    lemma_key_seq_merged(eb, ec);
    lemma_key_seq_merged(ab, ec);
    lemma_key_seq_merged(ea, bc);
    let (ka, kb, kc) = (key_seq(ea), key_seq(eb), key_seq(ec));
    lemma_fresh_add(kb, fresh(kc, kb), ka);
    lemma_fresh_twice(kc, kb, ka);
    assert forall|x: Doc| (ka + fresh(kb, ka)).contains(x) == (kb + ka).contains(x) by {
        lemma_fresh_contains(kb, ka, x);
        if (ka + fresh(kb, ka)).contains(x) {
            let i = choose|i: int| 0 <= i < (ka + fresh(kb, ka)).len() && (ka + fresh(kb, ka))[i] == x;
            if i < ka.len() {
                assert((kb + ka)[kb.len() + i] == x);
            } else {
                assert(fresh(kb, ka)[i - ka.len()] == x);
                let j = choose|j: int| 0 <= j < kb.len() && kb[j] == x;
                assert((kb + ka)[j] == x);
            }
        }
        if (kb + ka).contains(x) {
            let i = choose|i: int| 0 <= i < (kb + ka).len() && (kb + ka)[i] == x;
            if i < kb.len() {
                assert(kb[i] == x);
                if ka.contains(x) {
                    let j = choose|j: int| 0 <= j < ka.len() && ka[j] == x;
                    assert((ka + fresh(kb, ka))[j] == x);
                } else {
                    let j = choose|j: int| 0 <= j < fresh(kb, ka).len() && fresh(kb, ka)[j] == x;
                    assert((ka + fresh(kb, ka))[ka.len() + j] == x);
                }
            } else {
                assert((ka + fresh(kb, ka))[i - kb.len()] == x);
            }
        }
    }
    lemma_fresh_same_known(kc, ka + fresh(kb, ka), kb + ka);
    assert(key_seq(left) =~= key_seq(right));
    // the values, key by key
    assert forall|k: Doc| lookup(left, k) == lookup(right, k) by {
        lemma_lookup_merged_entries(ea, eb, k);
        lemma_lookup_merged_entries(eb, ec, k);
        lemma_lookup_merged_entries(ab, ec, k);
        lemma_lookup_merged_entries(ea, bc, k);
        if lookup(ea, k) is Some && lookup(eb, k) is Some && lookup(ec, k) is Some {
            lemma_key_index(ea, k);
            lemma_key_index(eb, k);
            lemma_key_index(ec, k);
            let (i, j, l) = (key_index(ea, k), key_index(eb, k), key_index(ec, k));
            assert(same_shape(ea[i].1, eb[j].1));
            assert(same_shape(eb[j].1, ec[l].1));
            assert(same_shape(ea[i].1, ec[l].1));
            assert(decreases_to!(ec => ec[l]));
            assert(decreases_to!(ec[l] => ec[l].1));
            law_merge_associative(ea[i].1, eb[j].1, ec[l].1);
        }
    }
    lemma_entries_equal(left, right);
}

} // verus!
