//! Deep merge of two documents: mappings combine key by key, sequences under
//! a shared key concatenate, and in every other case the incoming value wins.

use vstd::prelude::*;
use crate::value::{Doc, Node, doc_of, entry_docs_of, docs_of, same_value};

verus! {

/// Index of the first entry of `entries` whose key is `k`, or -1 when there is none.
pub open spec fn key_index(entries: Seq<(Doc, Doc)>, k: Doc) -> int
    decreases entries.len(),
{
    if entries.len() == 0 {
        -1
    } else {
        let i = key_index(entries.drop_last(), k);
        if i >= 0 {
            i
        } else if entries.last().0 == k {
            entries.len() - 1
        } else {
            -1
        }
    }
}

/// The value bound to `k` in `entries`, if any.
pub open spec fn lookup(entries: Seq<(Doc, Doc)>, k: Doc) -> Option<Doc> {
    let i = key_index(entries, k);
    if i >= 0 {
        Some(entries[i].1)
    } else {
        None
    }
}

/// No key occurs twice among `entries`.
pub open spec fn keys_unique(entries: Seq<(Doc, Doc)>) -> bool {
    forall|i: int, j: int|
        0 <= i < entries.len() && 0 <= j < entries.len() && i != j ==> entries[i].0
            != entries[j].0
}

/// Every mapping in the document, at any depth, binds each key once, as a
/// YAML mapping does.
pub open spec fn well_formed(d: Doc) -> bool
    decreases d,
{
    match d {
        Doc::Sequence(items) => forall|i: int| 0 <= i < items.len() ==> well_formed(#[trigger] items[i]),
        Doc::Mapping(es) => keys_unique(es) && forall|i: int|
            0 <= i < es.len() ==> well_formed(#[trigger] es[i].0) && well_formed(es[i].1),
        Doc::Tagged(_, inner) => well_formed(*inner),
        _ => true,
    }
}

/// The entries of a well-formed mapping: keys unique, keys and values well formed.
pub open spec fn entries_well_formed(es: Seq<(Doc, Doc)>) -> bool {
    keys_unique(es) && forall|i: int| 0 <= i < es.len() ==> well_formed(#[trigger] es[i].0) && well_formed(es[i].1)
}

/// The elements of a document that is a sequence, seen through any tags
/// around it.
pub open spec fn sequence_items(d: Doc) -> Option<Seq<Doc>>
    decreases d,
{
    match d {
        Doc::Sequence(items) => Some(items),
        Doc::Tagged(_, inner) => sequence_items(*inner),
        _ => None,
    }
}

/// The value at a key that both sides bind: two sequences (tagged or not)
/// concatenate into an untagged sequence, anything else merges.
pub open spec fn combined(existing: Doc, incoming: Doc) -> Doc
    decreases incoming, 1nat,
{
    if sequence_items(existing) is Some && sequence_items(incoming) is Some {
        Doc::Sequence(sequence_items(existing).unwrap() + sequence_items(incoming).unwrap())
    } else {
        merged(existing, incoming)
    }
}

/// The deep merge of `incoming` into `existing`.
pub open spec fn merged(existing: Doc, incoming: Doc) -> Doc
    decreases incoming, 0nat,
{
    match incoming {
        Doc::Mapping(eb) => match existing {
            Doc::Mapping(ea) => Doc::Mapping(merged_entries(ea, eb)),
            _ => incoming,
        },
        _ => incoming,
    }
}

/// The entries of `acc` after the entries of `incoming` were merged into it,
/// one after the other in their order: a key already present keeps its place
/// and gets the combined value, a new key is appended.
pub open spec fn merged_entries(acc: Seq<(Doc, Doc)>, incoming: Seq<(Doc, Doc)>) -> Seq<(Doc, Doc)>
    decreases incoming, 2nat,
{
    if incoming.len() == 0 {
        acc
    } else {
        merged_entry(merged_entries(acc, incoming.drop_last()), incoming.last())
    }
}

/// One step of [`merged_entries`]: the entry `e` merged into `acc`.
pub open spec fn merged_entry(acc: Seq<(Doc, Doc)>, e: (Doc, Doc)) -> Seq<(Doc, Doc)>
    decreases e, 3nat,
{
    let i = key_index(acc, e.0);
    if i < 0 {
        acc.push(e)
    } else {
        acc.update(i, (acc[i].0, combined(acc[i].1, e.1)))
    }
}

/// `key_index` finds the first entry with the key, and only such an entry.
pub proof fn lemma_key_index(entries: Seq<(Doc, Doc)>, k: Doc)
    ensures
        -1 <= key_index(entries, k) < entries.len(),
        key_index(entries, k) >= 0 ==> entries[key_index(entries, k)].0 == k,
        forall|j: int| 0 <= j < entries.len() && entries[j].0 == k ==> key_index(entries, k) >= 0 && key_index(entries, k) <= j,
    decreases entries.len(),
{
    if entries.len() > 0 {
        lemma_key_index(entries.drop_last(), k);
        assert forall|j: int| 0 <= j < entries.len() - 1 implies entries.drop_last()[j] == entries[j] by {}
    }
}

/// The value bound to a key after an incoming value `v` arrived for it, given
/// what was bound to the key before.
pub open spec fn arrived(before: Option<Doc>, v: Doc) -> Doc {
    match before {
        Some(o) => combined(o, v),
        None => v,
    }
}

/// Two entry lists with the same keys at the same places find every key at the
/// same index.
pub proof fn lemma_key_index_same_keys(a: Seq<(Doc, Doc)>, b: Seq<(Doc, Doc)>, k: Doc)
    requires
        a.len() == b.len(),
        forall|i: int| 0 <= i < a.len() ==> a[i].0 == b[i].0,
    ensures
        key_index(a, k) == key_index(b, k),
{
    lemma_key_index(a, k);
    lemma_key_index(b, k);
}

/// What one merged entry does to the lookup of each key.
pub proof fn lemma_lookup_merged_entry(acc: Seq<(Doc, Doc)>, e: (Doc, Doc), k: Doc)
    ensures
        lookup(merged_entry(acc, e), k) == if k == e.0 {
            Some(arrived(lookup(acc, k), e.1))
        } else {
            lookup(acc, k)
        },
{
    lemma_key_index(acc, e.0);
    let i = key_index(acc, e.0);
    if i < 0 {
        let pushed = acc.push(e);
        assert(pushed.drop_last() =~= acc);
        assert(merged_entry(acc, e) == pushed);
        lemma_key_index(acc, k);
        if k == e.0 {
            assert(key_index(pushed, k) == acc.len());
        } else {
            assert(key_index(pushed, k) == key_index(acc, k));
        }
    } else {
        let upd = acc.update(i, (acc[i].0, combined(acc[i].1, e.1)));
        assert(merged_entry(acc, e) == upd);
        lemma_key_index_same_keys(acc, upd, k);
        lemma_key_index(acc, k);
    }
}

/// With the keys of `eb` unique, merging the entries of `eb` into `ea` binds
/// each key as if that key alone had arrived.
pub proof fn lemma_lookup_merged_entries(ea: Seq<(Doc, Doc)>, eb: Seq<(Doc, Doc)>, k: Doc)
    requires
        keys_unique(eb),
    ensures
        lookup(merged_entries(ea, eb), k) == match lookup(eb, k) {
            Some(v) => Some(arrived(lookup(ea, k), v)),
            None => lookup(ea, k),
        },
    decreases eb.len(),
{
    if eb.len() > 0 {
        let rest = eb.drop_last();
        let e = eb.last();
        assert(eb =~= rest.push(e));
        assert(keys_unique(rest));
        lemma_lookup_merged_entries(ea, rest, k);
        lemma_lookup_merged_entry(merged_entries(ea, rest), e, k);
        assert(merged_entries(ea, eb) == merged_entry(merged_entries(ea, rest), e));
        lemma_key_index(rest, k);
        assert(eb.drop_last() =~= rest);
        if k == e.0 {
            assert(key_index(rest, k) == -1);
            assert(key_index(eb, k) == eb.len() - 1);
        } else {
            assert(key_index(eb, k) == key_index(rest, k));
        }
    }
}

/// Position of the first entry whose key is the document `k`.
fn find_key(entries: &Vec<(Node, Node)>, k: &Node) -> (r: Option<usize>)
    ensures
        match r {
            Some(i) => key_index(entry_docs_of(entries@), k@) == i,
            None => key_index(entry_docs_of(entries@), k@) == -1,
        },
{
    let ghost docs = entry_docs_of(entries@);
    proof {
        lemma_key_index(docs, k@);
    }
    let mut i: usize = 0;
    while i < entries.len()
        invariant
            docs == entry_docs_of(entries@),
            i <= entries.len(),
            forall|j: int| 0 <= j < i ==> docs[j].0 != k@,
            -1 <= key_index(docs, k@) < docs.len(),
            key_index(docs, k@) >= 0 ==> docs[key_index(docs, k@)].0 == k@,
            forall|j: int| 0 <= j < docs.len() && docs[j].0 == k@ ==> key_index(docs, k@) >= 0 && key_index(docs, k@) <= j,
        decreases entries.len() - i,
    {
        if same_value(&entries[i].0, k) {
            assert(docs[i as int].0 == k@);
            return Some(i);
        }
        i = i + 1;
    }
    None
}

/// Whether a node is a sequence, seen through any tags around it.
pub fn is_sequence(v: &Node) -> (r: bool)
    ensures
        r == sequence_items(v@) is Some,
    decreases v,
{
    match v {
        Node::Sequence(_) => true,
        Node::Tagged(_, inner) => is_sequence(inner),
        _ => false,
    }
}

/// The elements of a node that is a sequence, with any tags around it dropped.
pub fn into_sequence(v: Node) -> (r: Vec<Node>)
    requires
        sequence_items(v@) is Some,
    ensures
        sequence_items(v@) == Some(docs_of(r@)),
    decreases v,
{
    match v {
        Node::Sequence(items) => items,
        Node::Tagged(_, inner) => into_sequence(*inner),
        _ => Vec::new(),
    }
}

/// Deep-merges `b` into `a`: where both are mappings, each entry of `b` in its
/// order joins `a` (two sequences under one key concatenate, other values
/// under a shared key merge, new keys are appended); otherwise `b` replaces `a`.
pub fn yaml(a: &mut Node, b: Node)
    ensures
        final(a)@ == merged(old(a)@, b@),
        well_formed(old(a)@) && well_formed(b@) ==> well_formed(final(a)@),
{
    proof {
        if well_formed(a@) && well_formed(b@) {
            law_merge_keeps_well_formed(a@, b@);
        }
    }
    let mut current = Node::Null;
    std::mem::swap(a, &mut current);
    *a = merge_values(current, b);
}

/// The deep merge of `b` into `a`, by value.
pub fn merge_values(a: Node, b: Node) -> (r: Node)
    ensures
        r@ == merged(a@, b@),
        well_formed(a@) && well_formed(b@) ==> well_formed(r@),
    decreases b,
{
    proof {
        if well_formed(a@) && well_formed(b@) {
            law_merge_keeps_well_formed(a@, b@);
        }
    }
    let ghost gb = b;
    match b {
        Node::Mapping(incoming) => match a {
            Node::Mapping(acc) => {
                let mut acc = acc;
                let ghost ea = entry_docs_of(acc@);
                let ghost eb = entry_docs_of(incoming@);
                let ghost inc = incoming@;
                assert(decreases_to!(gb => gb->Mapping_0));
                assert(decreases_to!(gb->Mapping_0 => gb->Mapping_0@));
                for e in it: incoming.into_iter()
                    invariant
                        it.seq() == inc,
                        b == gb,
                        decreases_to!(gb => inc),
                        eb == entry_docs_of(inc),
                        entry_docs_of(acc@) == merged_entries(ea, eb.take(it.index() as int)),
                {
                    let ghost j = it.index() as int;
                    let ghost before = entry_docs_of(acc@);
                    assert(eb.take(j + 1).drop_last() =~= eb.take(j));
                    assert(e == inc[j]);
                    let (k, v) = e;
                    assert(eb[j] == (k@, v@));
                    match find_key(&acc, &k) {
                        None => {
                            acc.push((k, v));
                            assert(entry_docs_of(acc@) =~= before.push((k@, v@)));
                        },
                        Some(i) => {
                            proof {
                                lemma_key_index(before, k@);
                            }
                            let (k0, v0) = acc.remove(i);
                            assert(before[i as int] == (k0@, v0@));
                            assert(decreases_to!(inc => inc[j]));
                            assert(decreases_to!(inc[j] => inc[j].1));
                            assert(decreases_to!(gb => v));
                            let nv = if is_sequence(&v0) && is_sequence(&v) {
                                let mut xs = into_sequence(v0);
                                let mut ys = into_sequence(v);
                                let ghost dx = docs_of(xs@);
                                let ghost dy = docs_of(ys@);
                                xs.append(&mut ys);
                                assert(docs_of(xs@) =~= dx + dy);
                                Node::Sequence(xs)
                            } else {
                                merge_values(v0, v)
                            };
                            acc.insert(i, (k0, nv));
                            assert(entry_docs_of(acc@) =~= before.update(
                                i as int,
                                (before[i as int].0, combined(before[i as int].1, eb[j].1)),
                            ));
                        },
                    }
                    assert(entry_docs_of(acc@) == merged_entry(before, eb[j]));
                    assert(eb.take(j + 1).last() == eb[j]);
                }
                assert(eb.take(eb.len() as int) =~= eb);
                Node::Mapping(acc)
            },
            _ => Node::Mapping(incoming),
        },
        other => other,
    }
}

/// Merging mappings whose keys do not collide appends the incoming entries,
/// unchanged and in their order, after the existing ones.
pub proof fn lemma_merged_entries_disjoint(ea: Seq<(Doc, Doc)>, eb: Seq<(Doc, Doc)>)
    requires
        well_formed(Doc::Mapping(eb)),
        forall|i: int, j: int| 0 <= i < ea.len() && 0 <= j < eb.len() ==> ea[i].0 != eb[j].0,
    ensures
        merged_entries(ea, eb) == ea + eb,
    decreases eb.len(),
{
    if eb.len() > 0 {
        let rest = eb.drop_last();
        let e = eb.last();
        assert(keys_unique(rest));
        lemma_merged_entries_disjoint(ea, rest);
        let front = ea + rest;
        lemma_key_index(front, e.0);
        if key_index(front, e.0) >= 0 {
            let x = key_index(front, e.0);
            if x < ea.len() {
                assert(front[x] == ea[x]);
                assert(ea[x].0 != eb[eb.len() - 1].0);
            } else {
                assert(front[x] == eb[x - ea.len()]);
            }
        }
        assert(merged_entry(front, e) == front.push(e));
        assert(front.push(e) =~= ea + eb);
    }
}

/// The elements of a well-formed sequence, tagged or not, are well formed.
pub proof fn lemma_sequence_items_well_formed(d: Doc)
    requires
        well_formed(d),
        sequence_items(d) is Some,
    ensures
        forall|i: int| 0 <= i < sequence_items(d).unwrap().len() ==> well_formed(#[trigger] sequence_items(d).unwrap()[i]),
    decreases d,
{
    if let Doc::Tagged(_, inner) = d {
        lemma_sequence_items_well_formed(*inner);
    }
}

/// Merging well-formed documents gives a well-formed document: no mapping
/// ever ends up binding a key twice.
pub proof fn law_merge_keeps_well_formed(a: Doc, b: Doc)
    requires
        well_formed(a),
        well_formed(b),
    ensures
        well_formed(merged(a, b)),
    decreases b, 0nat,
{
    if let Doc::Mapping(eb) = b {
        if let Doc::Mapping(ea) = a {
            lemma_merged_entries_well_formed(ea, eb);
        }
    }
}

/// The combined value of two well-formed values is well formed.
pub proof fn lemma_combined_well_formed(x: Doc, y: Doc)
    requires
        well_formed(x),
        well_formed(y),
    ensures
        well_formed(combined(x, y)),
    decreases y, 1nat,
{
    if sequence_items(x) is Some && sequence_items(y) is Some {
        lemma_sequence_items_well_formed(x);
        lemma_sequence_items_well_formed(y);
        let xs = sequence_items(x).unwrap();
        let ys = sequence_items(y).unwrap();
        assert forall|i: int| 0 <= i < (xs + ys).len() implies well_formed(#[trigger] (xs + ys)[i]) by {
            if i >= xs.len() {
                assert((xs + ys)[i] == ys[i - xs.len()]);
            }
        }
    } else {
        law_merge_keeps_well_formed(x, y);
    }
}

/// Merging well-formed entries into well-formed entries keeps them well formed.
pub proof fn lemma_merged_entries_well_formed(ea: Seq<(Doc, Doc)>, eb: Seq<(Doc, Doc)>)
    requires
        entries_well_formed(ea),
        entries_well_formed(eb),
    ensures
        entries_well_formed(merged_entries(ea, eb)),
    decreases eb, 2nat,
{
    if eb.len() > 0 {
        let rest = eb.drop_last();
        let e = eb.last();
        assert(well_formed(eb[eb.len() - 1].0) && well_formed(eb[eb.len() - 1].1));
        assert(entries_well_formed(rest));
        lemma_merged_entries_well_formed(ea, rest);
        let acc = merged_entries(ea, rest);
        assert(merged_entries(ea, eb) == merged_entry(acc, e));
        lemma_key_index(acc, e.0);
        let i = key_index(acc, e.0);
        if i < 0 {
            let pushed = acc.push(e);
            assert(merged_entry(acc, e) == pushed);
            assert forall|p: int, q: int| 0 <= p < pushed.len() && 0 <= q < pushed.len() && p != q implies pushed[p].0 != pushed[q].0 by {
                if p < acc.len() && q < acc.len() {
                    assert(pushed[p] == acc[p] && pushed[q] == acc[q]);
                }
            }
            assert(entries_well_formed(pushed));
        } else {
            lemma_combined_well_formed(acc[i].1, e.1);
            let upd = acc.update(i, (acc[i].0, combined(acc[i].1, e.1)));
            assert(merged_entry(acc, e) == upd);
            assert forall|p: int| 0 <= p < upd.len() implies upd[p].0 == acc[p].0 by {}
            assert(entries_well_formed(upd));
        }
    }
}

/// The documents of `docs` merged one after the other, left to right, into `start`.
pub open spec fn merged_all(start: Doc, docs: Seq<Doc>) -> Doc
    decreases docs.len(),
{
    if docs.len() == 0 {
        start
    } else {
        merged(merged_all(start, docs.drop_last()), docs.last())
    }
}

/// Folding two runs of documents one after the other is folding their
/// concatenation.
pub proof fn lemma_merged_all_split(start: Doc, xs: Seq<Doc>, ys: Seq<Doc>)
    ensures
        merged_all(start, xs + ys) == merged_all(merged_all(start, xs), ys),
    decreases ys.len(),
{
    if ys.len() == 0 {
        assert(xs + ys =~= xs);
    } else {
        lemma_merged_all_split(start, xs, ys.drop_last());
        assert((xs + ys).drop_last() =~= xs + ys.drop_last());
    }
}

/// Merging is a left fold, so it may be grouped either way: folding `a` and
/// `b` and then `c` gives what folding `a` and then `b` and `c` gives.
pub proof fn law_fold_regroups(start: Doc, a: Doc, b: Doc, c: Doc)
    ensures
        merged_all(merged_all(start, seq![a, b]), seq![c]) == merged_all(
            merged_all(start, seq![a]),
            seq![b, c],
        ),
{
    lemma_merged_all_split(start, seq![a, b], seq![c]);
    lemma_merged_all_split(start, seq![a], seq![b, c]);
    assert(seq![a, b] + seq![c] =~= seq![a] + seq![b, c]);
}

/// Merging does not commute: where two mappings bind one key to different
/// values that are not both sequences (tagged or not) nor both mappings, merging `b` into `a`
/// and `a` into `b` give different documents.
pub proof fn law_merge_not_commutative(ea: Seq<(Doc, Doc)>, eb: Seq<(Doc, Doc)>, k: Doc)
    requires
        well_formed(Doc::Mapping(ea)),
        well_formed(Doc::Mapping(eb)),
        lookup(ea, k) is Some,
        lookup(eb, k) is Some,
        lookup(ea, k) != lookup(eb, k),
        !(sequence_items(lookup(ea, k).unwrap()) is Some && sequence_items(lookup(eb, k).unwrap()) is Some),
        !(lookup(ea, k).unwrap() is Mapping && lookup(eb, k).unwrap() is Mapping),
    ensures
        merged(Doc::Mapping(ea), Doc::Mapping(eb)) != merged(Doc::Mapping(eb), Doc::Mapping(ea)),
{
    lemma_lookup_merged_entries(ea, eb, k);
    lemma_lookup_merged_entries(eb, ea, k);
    assert(lookup(merged_entries(ea, eb), k) == lookup(eb, k));
    assert(lookup(merged_entries(eb, ea), k) == lookup(ea, k));
}

/// Where no key collides, the merge of two mappings holds the entries of both,
/// unchanged: those of `a` first, then those of `b`, each in its order.
pub proof fn law_disjoint_union(ea: Seq<(Doc, Doc)>, eb: Seq<(Doc, Doc)>)
    requires
        well_formed(Doc::Mapping(eb)),
        forall|i: int, j: int| 0 <= i < ea.len() && 0 <= j < eb.len() ==> ea[i].0 != eb[j].0,
    ensures
        merged(Doc::Mapping(ea), Doc::Mapping(eb)) == Doc::Mapping(ea + eb),
{
    lemma_merged_entries_disjoint(ea, eb);
}

/// Two sequences under a shared key concatenate: the existing elements first,
/// then the incoming ones.
pub proof fn law_sequences_concatenate(
    ea: Seq<(Doc, Doc)>,
    eb: Seq<(Doc, Doc)>,
    k: Doc,
    xs: Seq<Doc>,
    ys: Seq<Doc>,
)
    requires
        well_formed(Doc::Mapping(eb)),
        lookup(ea, k) == Some(Doc::Sequence(xs)),
        lookup(eb, k) == Some(Doc::Sequence(ys)),
    ensures
        merged(Doc::Mapping(ea), Doc::Mapping(eb)) == Doc::Mapping(merged_entries(ea, eb)),
        lookup(merged_entries(ea, eb), k) == Some(Doc::Sequence(xs + ys)),
{
    lemma_lookup_merged_entries(ea, eb, k);
}

/// A scalar under a key of `a` gives way to a mapping under the same key of
/// `b`: the result binds the key to `b`'s mapping as it is.
pub proof fn law_mapping_replaces_scalar(
    ea: Seq<(Doc, Doc)>,
    eb: Seq<(Doc, Doc)>,
    k: Doc,
    scalar: Doc,
    mapping: Doc,
)
    requires
        well_formed(Doc::Mapping(eb)),
        !(scalar is Sequence),
        !(scalar is Mapping),
        mapping is Mapping,
        lookup(ea, k) == Some(scalar),
        lookup(eb, k) == Some(mapping),
    ensures
        merged(Doc::Mapping(ea), Doc::Mapping(eb)) == Doc::Mapping(merged_entries(ea, eb)),
        lookup(merged_entries(ea, eb), k) == Some(mapping),
{
    lemma_lookup_merged_entries(ea, eb, k);
}

} // verus!
