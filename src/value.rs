//! The format-independent document value that every fragment is parsed into,
//! and its mathematical model.

use vstd::prelude::*;

verus! {

/// The mathematical model of a document value.
pub enum Doc {
    Null,
    Bool(bool),
    Number(Seq<char>),
    Text(Seq<char>),
    Sequence(Seq<Doc>),
    Mapping(Seq<(Doc, Doc)>),
    Tagged(Seq<char>, Box<Doc>),
}

/// A structured document value: a mapping, a sequence or a scalar, recursively.
/// A number keeps the text it was written as; a mapping keeps its entries in
/// insertion order.
#[derive(Debug, PartialEq)]
pub enum Node {
    Null,
    Bool(bool),
    Number(String),
    Text(String),
    Sequence(Vec<Node>),
    Mapping(Vec<(Node, Node)>),
    Tagged(String, Box<Node>),
}

/// The models of a sequence of values, element by element.
pub open spec fn docs_of(items: Seq<Node>) -> Seq<Doc>
    decreases items,
{
    Seq::new(
        items.len(),
        |i: int|
            if 0 <= i < items.len() {
                doc_of(items[i])
            } else {
                Doc::Null
            },
    )
}

/// The models of a sequence of mapping entries, entry by entry.
pub open spec fn entry_docs_of(entries: Seq<(Node, Node)>) -> Seq<(Doc, Doc)>
    decreases entries,
{
    Seq::new(
        entries.len(),
        |i: int|
            if 0 <= i < entries.len() {
                (doc_of(entries[i].0), doc_of(entries[i].1))
            } else {
                (Doc::Null, Doc::Null)
            },
    )
}

pub open spec fn doc_of(v: Node) -> Doc
    decreases v,
{
    match v {
        Node::Null => Doc::Null,
        Node::Bool(b) => Doc::Bool(b),
        Node::Number(n) => Doc::Number(n@),
        Node::Text(s) => Doc::Text(s@),
        Node::Sequence(items) => Doc::Sequence(docs_of(items@)),
        Node::Mapping(entries) => Doc::Mapping(entry_docs_of(entries@)),
        Node::Tagged(tag, inner) => Doc::Tagged(tag@, Box::new(doc_of(*inner))),
    }
}

impl View for Node {
    type V = Doc;

    open spec fn view(&self) -> Doc {
        doc_of(*self)
    }
}

/// Whether two values are the same document: same shape, same scalars, same
/// entries in the same order.
pub fn same_value(a: &Node, b: &Node) -> (r: bool)
    ensures
        r == (a@ == b@),
    decreases a,
{
    match (a, b) {
        (Node::Null, Node::Null) => true,
        (Node::Bool(x), Node::Bool(y)) => *x == *y,
        (Node::Number(x), Node::Number(y)) => *x == *y,
        (Node::Text(x), Node::Text(y)) => *x == *y,
        (Node::Sequence(xs), Node::Sequence(ys)) => {
            if xs.len() != ys.len() {
                assert(docs_of(xs@).len() != docs_of(ys@).len());
                return false;
            }
            let mut i: usize = 0;
            while i < xs.len()
                invariant
                    *a == Node::Sequence(*xs),
                    *b == Node::Sequence(*ys),
                    xs.len() == ys.len(),
                    i <= xs.len(),
                    forall|j: int| 0 <= j < i ==> doc_of(#[trigger] xs@[j]) == doc_of(ys@[j]),
                decreases xs.len() - i,
            {
                assert(decreases_to!(*a => (*a)->Sequence_0));
                assert(decreases_to!(*xs => xs@));
                assert(decreases_to!(xs@ => xs@[i as int]));
                if !same_value(&xs[i], &ys[i]) {
                    assert(docs_of(xs@)[i as int] != docs_of(ys@)[i as int]);
                    return false;
                }
                i = i + 1;
            }
            assert(docs_of(xs@) =~= docs_of(ys@));
            true
        },
        (Node::Mapping(xs), Node::Mapping(ys)) => {
            if xs.len() != ys.len() {
                assert(entry_docs_of(xs@).len() != entry_docs_of(ys@).len());
                return false;
            }
            let mut i: usize = 0;
            while i < xs.len()
                invariant
                    *a == Node::Mapping(*xs),
                    *b == Node::Mapping(*ys),
                    xs.len() == ys.len(),
                    i <= xs.len(),
                    forall|j: int|
                        0 <= j < i ==> doc_of(#[trigger] xs@[j].0) == doc_of(ys@[j].0) && doc_of(
                            xs@[j].1,
                        ) == doc_of(ys@[j].1),
                decreases xs.len() - i,
            {
                assert(decreases_to!(*a => (*a)->Mapping_0));
                assert(decreases_to!(*xs => xs@));
                assert(decreases_to!(xs@ => xs@[i as int]));
                assert(decreases_to!(xs@[i as int] => xs@[i as int].0));
                assert(decreases_to!(xs@[i as int] => xs@[i as int].1));
                if !same_value(&xs[i].0, &ys[i].0) || !same_value(&xs[i].1, &ys[i].1) {
                    assert(entry_docs_of(xs@)[i as int] != entry_docs_of(ys@)[i as int]);
                    return false;
                }
                i = i + 1;
            }
            assert(entry_docs_of(xs@) =~= entry_docs_of(ys@));
            true
        },
        (Node::Tagged(s, x), Node::Tagged(t, y)) => *s == *t && same_value(x, y),
        _ => false,
    }
}

} // verus!
