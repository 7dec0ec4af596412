use pyo3_macros_backend::fields::{
    parse_descriptors, Attribute, Field, FnType, MetaItem, MetaList, NestedMeta, SelfType,
};
use pyo3_macros_backend::item::{collect_descriptors, strip_members};
use pyo3_macros_backend::syntax::{Path, PathSegment, Span};

fn loc(id: usize) -> Span {
    Span { id }
}

fn word(ident: &str, id: usize) -> Path {
    Path {
        leading_colon: false,
        segments: vec![PathSegment { ident: ident.to_string(), arguments: None }],
        span: loc(id),
    }
}

fn item(ident: &str, id: usize) -> NestedMeta {
    NestedMeta::Meta(MetaItem { path: word(ident, id), span: loc(id) })
}

fn list_attr(path: &str, nested: Vec<NestedMeta>, id: usize) -> Attribute {
    Attribute { list: Some(MetaList { path: word(path, id), nested }), span: loc(id) }
}

fn marker(words: &[&str], id: usize) -> Attribute {
    let nested = words.iter().enumerate().map(|(i, w)| item(w, id + 1 + i)).collect();
    list_attr("pyo3", nested, id)
}

fn plain_attr(id: usize) -> Attribute {
    Attribute { list: None, span: loc(id) }
}

fn member(ident: Option<&str>, attrs: Vec<Attribute>, id: usize) -> Field {
    Field { attrs, ident: ident.map(|i| i.to_string()), doc: None, span: loc(id) }
}

const GETTER: FnType = FnType::Getter(SelfType::Receiver { mutable: false });
const SETTER: FnType = FnType::Setter(SelfType::Receiver { mutable: true });

#[test]
fn get_alone_asks_for_one_getter() {
    let mut field = member(Some("x"), vec![marker(&["get"], 10)], 1);
    let descs = parse_descriptors(&mut field).unwrap();
    assert_eq!(descs, vec![GETTER]);
    assert_eq!(descs.iter().filter(|d| matches!(d, FnType::Setter(_))).count(), 0);
}

#[test]
fn set_alone_asks_for_one_setter() {
    let mut field = member(Some("x"), vec![marker(&["set"], 10)], 1);
    assert_eq!(parse_descriptors(&mut field).unwrap(), vec![SETTER]);
}

#[test]
fn get_and_set_ask_for_both() {
    let mut field = member(Some("x"), vec![marker(&["get", "set"], 10)], 1);
    assert_eq!(parse_descriptors(&mut field).unwrap(), vec![GETTER, SETTER]);
    let mut field = member(Some("x"), vec![marker(&["set", "get"], 10)], 1);
    assert_eq!(parse_descriptors(&mut field).unwrap(), vec![SETTER, GETTER]);
}

#[test]
fn markers_add_up_in_order() {
    let mut field =
        member(Some("x"), vec![marker(&["set"], 10), plain_attr(20), marker(&["get"], 30)], 1);
    assert_eq!(parse_descriptors(&mut field).unwrap(), vec![SETTER, GETTER]);
    let mut field = member(Some("x"), vec![marker(&["get", "get"], 10)], 1);
    assert_eq!(parse_descriptors(&mut field).unwrap(), vec![GETTER, GETTER]);
}

#[test]
fn a_member_without_markers_asks_for_nothing() {
    let mut field = member(Some("x"), vec![plain_attr(20), list_attr("serde", vec![], 30)], 1);
    let before = member(Some("x"), vec![plain_attr(20), list_attr("serde", vec![], 30)], 1);
    assert_eq!(parse_descriptors(&mut field).unwrap(), vec![]);
    assert_eq!(field, before);
    let mut bare = member(Some("x"), vec![], 1);
    assert_eq!(parse_descriptors(&mut bare).unwrap(), vec![]);
    assert_eq!(bare, member(Some("x"), vec![], 1));
}

#[test]
fn markers_are_stripped_and_the_rest_is_kept() {
    let mut field = member(
        Some("x"),
        vec![
            plain_attr(20),
            marker(&["get"], 10),
            list_attr("derive", vec![item("get", 41)], 40),
            marker(&["set"], 50),
            plain_attr(60),
        ],
        1,
    );
    parse_descriptors(&mut field).unwrap();
    assert_eq!(
        field,
        member(
            Some("x"),
            vec![plain_attr(20), list_attr("derive", vec![item("get", 41)], 40), plain_attr(60)],
            1
        )
    );
}

#[test]
fn an_empty_marker_is_stripped_too() {
    let mut field = member(Some("x"), vec![marker(&[], 10)], 1);
    assert_eq!(parse_descriptors(&mut field).unwrap(), vec![]);
    assert_eq!(field.attrs, vec![]);
}

#[test]
fn another_word_in_a_marker_is_refused() {
    let mut field = member(Some("x"), vec![plain_attr(5), marker(&["get", "name"], 10)], 1);
    let before = member(Some("x"), vec![plain_attr(5), marker(&["get", "name"], 10)], 1);
    let err = parse_descriptors(&mut field).unwrap_err();
    assert_eq!(err.message, "only get and set are supported");
    assert_eq!(err.span, loc(12));
    assert_eq!(field, before);
}

#[test]
fn the_first_word_that_is_refused_decides() {
    let mut field =
        member(Some("x"), vec![marker(&["get", "a"], 10), marker(&["b", "set"], 20)], 1);
    let err = parse_descriptors(&mut field).unwrap_err();
    assert_eq!(err.span, loc(12));
}

#[test]
fn a_literal_in_a_marker_asks_for_nothing() {
    let nested = vec![NestedMeta::Lit(loc(11)), item("get", 12)];
    let mut field = member(Some("x"), vec![list_attr("pyo3", nested, 10)], 1);
    assert_eq!(parse_descriptors(&mut field).unwrap(), vec![GETTER]);
}

#[test]
fn a_marker_is_a_list_under_the_bare_word() {
    let longer = Attribute {
        list: Some(MetaList {
            path: Path {
                leading_colon: false,
                segments: vec![
                    PathSegment { ident: "pyo3".to_string(), arguments: None },
                    PathSegment { ident: "pyo3".to_string(), arguments: None },
                ],
                span: loc(10),
            },
            nested: vec![item("get", 11)],
        }),
        span: loc(10),
    };
    let rooted = Attribute {
        list: Some(MetaList {
            path: Path { leading_colon: true, ..word("pyo3", 20) },
            nested: vec![item("bogus", 21)],
        }),
        span: loc(20),
    };
    assert!(!longer.is_marker());
    assert!(!rooted.is_marker());
    assert!(!plain_attr(1).is_marker());
    assert!(marker(&[], 1).is_marker());
    let mut field = member(Some("x"), vec![longer, rooted], 1);
    assert_eq!(parse_descriptors(&mut field).unwrap(), vec![]);
    assert_eq!(field.attrs.len(), 2);
}

#[test]
fn get_with_arguments_is_no_get() {
    let path = Path {
        leading_colon: false,
        segments: vec![PathSegment {
            ident: "get".to_string(),
            arguments: Some("<T>".to_string()),
        }],
        span: loc(11),
    };
    assert!(!path.is_ident("get"));
    assert!(word("get", 1).is_ident("get"));
    assert!(!word("get", 1).is_ident("set"));
    let nested = vec![NestedMeta::Meta(MetaItem { path, span: loc(11) })];
    let mut field = member(Some("x"), vec![list_attr("pyo3", nested, 10)], 1);
    let err = parse_descriptors(&mut field).unwrap_err();
    assert_eq!(err.message, "only get and set are supported");
}

#[test]
fn a_positional_member_can_be_read_for_markers() {
    let mut field = member(None, vec![marker(&["get"], 10)], 1);
    assert_eq!(parse_descriptors(&mut field).unwrap(), vec![GETTER]);
    assert_eq!(field.attrs, vec![]);
}

#[test]
fn only_members_that_ask_are_collected() {
    let members = vec![
        member(Some("a"), vec![plain_attr(10)], 1),
        Field { doc: Some("the b".to_string()), ..member(Some("b"), vec![marker(&["get"], 20)], 2) },
        member(Some("c"), vec![marker(&[], 30)], 3),
        member(None, vec![marker(&["set", "get"], 40)], 4),
    ];
    let collected = collect_descriptors(&members).unwrap();
    assert_eq!(collected.len(), 2);
    assert_eq!(collected[0].ident, Some("b".to_string()));
    assert_eq!(collected[0].doc, Some("the b".to_string()));
    assert_eq!(collected[0].span, loc(2));
    assert_eq!(collected[0].fns, vec![GETTER]);
    assert_eq!(collected[1].ident, None);
    assert_eq!(collected[1].doc, None);
    assert_eq!(collected[1].span, loc(4));
    assert_eq!(collected[1].fns, vec![SETTER, GETTER]);
}

#[test]
fn collecting_stops_at_the_first_member_that_is_refused() {
    let members = vec![
        member(Some("a"), vec![marker(&["get"], 10)], 1),
        member(Some("b"), vec![marker(&["put"], 20)], 2),
        member(Some("c"), vec![marker(&["take"], 30)], 3),
    ];
    let err = collect_descriptors(&members).unwrap_err();
    assert_eq!(err.message, "only get and set are supported");
    assert_eq!(err.span, loc(21));
}

#[test]
fn every_member_loses_its_markers() {
    let mut members = vec![
        member(Some("a"), vec![plain_attr(10), marker(&["get"], 11)], 1),
        member(None, vec![marker(&["whatever"], 20)], 2),
        member(Some("c"), vec![], 3),
    ];
    strip_members(&mut members);
    assert_eq!(
        members,
        vec![
            member(Some("a"), vec![plain_attr(10)], 1),
            member(None, vec![], 2),
            member(Some("c"), vec![], 3),
        ]
    );
}
