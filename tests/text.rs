use titan_runtime::request::{parse_query, split_pair};
use titan_runtime::text::{join_from, keep_non_empty, segments_of, split_on};

fn s(x: &str) -> String {
    x.to_string()
}

#[test]
fn split_on_keeps_empty_pieces() {
    assert_eq!(split_on("/a//b/", '/'), vec![s(""), s("a"), s(""), s("b"), s("")]);
    assert_eq!(split_on("", '/'), vec![s("")]);
    assert_eq!(split_on("abc", '/'), vec![s("abc")]);
}

#[test]
fn segments_drop_empty_pieces() {
    assert_eq!(segments_of("/users//42/", '/'), vec![s("users"), s("42")]);
    assert!(segments_of("/", '/').is_empty());
    assert_eq!(keep_non_empty(&vec![s(""), s("x"), s("")]), vec![s("x")]);
}

#[test]
fn join_from_joins_a_suffix() {
    let parts = vec![s("a"), s("b"), s("c")];
    assert_eq!(join_from(&parts, 0, "/"), "a/b/c");
    assert_eq!(join_from(&parts, 1, ", "), "b, c");
    assert_eq!(join_from(&parts, 3, "/"), "");
}

#[test]
fn query_is_split_into_ordered_pairs() {
    assert_eq!(
        parse_query(Some("a=1&b=&c&d=x=y")),
        vec![(s("a"), s("1")), (s("b"), s("")), (s("c"), s("")), (s("d"), s("x=y"))]
    );
    assert!(parse_query(None).is_empty());
    assert_eq!(parse_query(Some("")), vec![(s(""), s(""))]);
}

#[test]
fn query_pair_splits_at_first_equals() {
    assert_eq!(split_pair("k=v=w"), (s("k"), s("v=w")));
    assert_eq!(split_pair("=v"), (s(""), s("v")));
    assert_eq!(split_pair("k"), (s("k"), s("")));
}
