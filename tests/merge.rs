use relconf::merge::{merge_values, yaml};
use relconf::tool::{merge_all, Synthesis};
use relconf::value::{same_value, Node};

fn text(s: &str) -> Node {
    Node::Text(s.to_string())
}

fn num(s: &str) -> Node {
    Node::Number(s.to_string())
}

fn seq(items: Vec<Node>) -> Node {
    Node::Sequence(items)
}

fn map(entries: Vec<(&str, Node)>) -> Node {
    Node::Mapping(entries.into_iter().map(|(k, v)| (text(k), v)).collect())
}

#[test]
fn two_fragments_merge_into_one_document() {
    let first = map(vec![("a", num("1")), ("list", seq(vec![num("1"), num("2")]))]);
    let second = map(vec![
        ("a", num("2")),
        ("list", seq(vec![num("3"), num("4")])),
        ("b", num("5")),
    ]);
    let merged = merge_all(vec![first, second]);
    let expected = map(vec![
        ("a", num("2")),
        ("list", seq(vec![num("1"), num("2"), num("3"), num("4")])),
        ("b", num("5")),
    ]);
    assert_eq!(merged, expected);
}

#[test]
fn synthesis_folds_in_order() {
    let mut s = Synthesis::new();
    s.absorb(map(vec![("a", num("1"))]));
    s.absorb(map(vec![("a", num("2")), ("c", text("x"))]));
    assert_eq!(s.merged(), &map(vec![("a", num("2")), ("c", text("x"))]));
    assert_eq!(s.into_merged(), map(vec![("a", num("2")), ("c", text("x"))]));
}

#[test]
fn nothing_absorbed_gives_an_empty_mapping() {
    assert_eq!(merge_all(vec![]), Node::Mapping(vec![]));
    assert_eq!(Synthesis::new().into_merged(), Node::Mapping(vec![]));
}

#[test]
fn sequences_under_a_shared_key_concatenate() {
    let mut a = map(vec![("k", seq(vec![num("1"), num("2")]))]);
    yaml(&mut a, map(vec![("k", seq(vec![num("3"), num("4")]))]));
    assert_eq!(a, map(vec![("k", seq(vec![num("1"), num("2"), num("3"), num("4")]))]));
}

#[test]
fn mapping_replaces_a_scalar_verbatim() {
    let inner = map(vec![("x", Node::Bool(true)), ("y", Node::Null)]);
    let mut a = map(vec![("k", num("7")), ("other", text("kept"))]);
    yaml(&mut a, map(vec![("k", map(vec![("x", Node::Bool(true)), ("y", Node::Null)]))]));
    assert_eq!(a, map(vec![("k", inner), ("other", text("kept"))]));
}

#[test]
fn disjoint_keys_are_appended_in_order() {
    let a = map(vec![("a", num("1")), ("b", num("2"))]);
    let b = map(vec![("c", num("3")), ("d", seq(vec![]))]);
    let r = merge_values(a, b);
    assert_eq!(
        r,
        map(vec![("a", num("1")), ("b", num("2")), ("c", num("3")), ("d", seq(vec![]))])
    );
}

#[test]
fn nested_mappings_merge_recursively() {
    let a = map(vec![("outer", map(vec![("x", num("1")), ("list", seq(vec![text("a")]))]))]);
    let b = map(vec![("outer", map(vec![("y", num("2")), ("list", seq(vec![text("b")]))]))]);
    let r = merge_values(a, b);
    let expected = map(vec![(
        "outer",
        map(vec![
            ("x", num("1")),
            ("list", seq(vec![text("a"), text("b")])),
            ("y", num("2")),
        ]),
    )]);
    assert_eq!(r, expected);
}

#[test]
fn merge_is_not_commutative() {
    let a = || map(vec![("k", num("1"))]);
    let b = || map(vec![("k", num("2"))]);
    let ab = merge_values(a(), b());
    let ba = merge_values(b(), a());
    assert_eq!(ab, map(vec![("k", num("2"))]));
    assert_eq!(ba, map(vec![("k", num("1"))]));
    assert_ne!(ab, ba);
}

#[test]
fn grouping_of_the_fold_does_not_matter() {
    let a = || map(vec![("k", seq(vec![num("1")])), ("s", num("1"))]);
    let b = || map(vec![("k", seq(vec![num("2")])), ("t", num("2"))]);
    let c = || map(vec![("k", num("3")), ("s", text("c"))]);
    let left = merge_values(merge_values(merge_values(Node::Mapping(vec![]), a()), b()), c());
    let mut s = Synthesis::new();
    s.absorb(a());
    let right = merge_values(merge_values(s.into_merged(), b()), c());
    assert_eq!(left, right);
    assert_eq!(left, map(vec![("k", num("3")), ("s", text("c")), ("t", num("2"))]));
}

#[test]
fn non_mapping_incoming_value_wins() {
    let mut a = map(vec![("k", num("1"))]);
    yaml(&mut a, seq(vec![num("9")]));
    assert_eq!(a, seq(vec![num("9")]));
    let mut s = seq(vec![num("1")]);
    yaml(&mut s, map(vec![("k", num("2"))]));
    assert_eq!(s, map(vec![("k", num("2"))]));
    let mut x = text("old");
    yaml(&mut x, Node::Null);
    assert_eq!(x, Node::Null);
}

#[test]
fn sequence_and_scalar_under_one_key_take_the_incoming() {
    let mut a = map(vec![("k", seq(vec![num("1")]))]);
    yaml(&mut a, map(vec![("k", text("s"))]));
    assert_eq!(a, map(vec![("k", text("s"))]));
}

#[test]
fn tagged_and_non_text_keys_are_matched_by_value() {
    let key = || Node::Tagged("!t".to_string(), Box::new(num("1")));
    let a = Node::Mapping(vec![(key(), num("1")), (num("1"), text("n"))]);
    let b = Node::Mapping(vec![(key(), num("2")), (text("1"), text("t"))]);
    let r = merge_values(a, b);
    assert_eq!(
        r,
        Node::Mapping(vec![(key(), num("2")), (num("1"), text("n")), (text("1"), text("t"))])
    );
}

#[test]
fn same_value_compares_structure() {
    assert!(same_value(&map(vec![("a", seq(vec![num("1")]))]), &map(vec![("a", seq(vec![num("1")]))])));
    assert!(!same_value(&map(vec![("a", num("1"))]), &map(vec![("a", text("1"))])));
    assert!(!same_value(&seq(vec![num("1")]), &seq(vec![num("1"), num("2")])));
    assert!(!same_value(&map(vec![("a", num("1")), ("b", num("2"))]), &map(vec![("b", num("2")), ("a", num("1"))])));
}

#[test]
fn tagged_sequences_concatenate_untagged() {
    let tagged = |items: Vec<Node>| Node::Tagged("!t".to_string(), Box::new(seq(items)));
    let mut a = map(vec![("k", tagged(vec![num("1")]))]);
    yaml(&mut a, map(vec![("k", seq(vec![num("2")]))]));
    assert_eq!(a, map(vec![("k", seq(vec![num("1"), num("2")]))]));
    let mut b = map(vec![("k", seq(vec![num("1")]))]);
    yaml(&mut b, map(vec![("k", tagged(vec![num("2")]))]));
    assert_eq!(b, map(vec![("k", seq(vec![num("1"), num("2")]))]));
}

#[test]
fn tagged_scalar_is_not_a_sequence() {
    let mut a = map(vec![("k", seq(vec![num("1")]))]);
    let incoming = Node::Tagged("!t".to_string(), Box::new(num("2")));
    yaml(&mut a, map(vec![("k", Node::Tagged("!t".to_string(), Box::new(num("2"))))]));
    assert_eq!(a, map(vec![("k", incoming)]));
}

#[test]
fn merge_is_associative_on_one_shape() {
    let a = || map(vec![("k", seq(vec![num("1")])), ("m", map(vec![("x", num("1"))])), ("s", num("1"))]);
    let b = || map(vec![("k", seq(vec![num("2")])), ("m", map(vec![("y", num("2"))])), ("t", text("b"))]);
    let c = || map(vec![("m", map(vec![("x", num("3")), ("z", seq(vec![]))])), ("k", seq(vec![num("3")])), ("s", text("c"))]);
    let left = merge_values(merge_values(a(), b()), c());
    let right = merge_values(a(), merge_values(b(), c()));
    assert_eq!(left, right);
    assert_eq!(
        left,
        map(vec![
            ("k", seq(vec![num("1"), num("2"), num("3")])),
            ("m", map(vec![("x", num("3")), ("y", num("2")), ("z", seq(vec![]))])),
            ("s", text("c")),
            ("t", text("b")),
        ])
    );
}
