use htoml::error::HtomlError;
use htoml::arg::Argument;
use htoml::html::Html;
use htoml::htoml::Htoml;
use htoml::value::{Content, Table};

fn text(s: &str) -> Content {
    Content::Text(s.to_string())
}

fn table(entries: Vec<(&str, Content)>) -> Table {
    let mut t = Table::new();
    for (k, v) in entries {
        t.insert(k.to_string(), v);
    }
    t
}

#[test]
fn class_string_and_id() {
    let t = table(vec![("type", text("p")), ("id", text("top")), ("class", text("a b"))]);
    let mut attrs = Vec::new();
    let mut class_str = String::new();
    assert_eq!(Htoml::parse_class_and_id(&mut attrs, &t, &mut class_str), Ok(()));
    assert_eq!(
        attrs,
        vec![Argument { name: "class", val: "a b" }, Argument { name: "id", val: "top" }]
    );
}

#[test]
fn class_array_is_joined_with_spaces() {
    let t = table(vec![("class", Content::Array(vec![text("a"), text("b"), text("c")]))]);
    let mut attrs = Vec::new();
    let mut class_str = String::new();
    assert_eq!(Htoml::parse_class_and_id(&mut attrs, &t, &mut class_str), Ok(()));
    assert_eq!(attrs, vec![Argument { name: "class", val: "a b c" }]);
}

#[test]
fn class_array_loses_all_leading_whitespace() {
    let t = table(vec![("class", Content::Array(vec![text(""), text("\t x"), text("y ")]))]);
    let mut attrs = Vec::new();
    let mut class_str = String::new();
    assert_eq!(Htoml::parse_class_and_id(&mut attrs, &t, &mut class_str), Ok(()));
    assert_eq!(attrs, vec![Argument { name: "class", val: "x y " }]);
}

#[test]
fn empty_class_array_is_an_empty_class() {
    let t = table(vec![("class", Content::Array(vec![]))]);
    let mut attrs = Vec::new();
    let mut class_str = String::new();
    assert_eq!(Htoml::parse_class_and_id(&mut attrs, &t, &mut class_str), Ok(()));
    assert_eq!(attrs, vec![Argument { name: "class", val: "" }]);
}

#[test]
fn class_with_a_name_that_is_no_string() {
    let t = table(vec![("class", Content::Array(vec![text("a"), Content::Integer(1)])), ("id", text("x"))]);
    let mut attrs = Vec::new();
    let mut class_str = String::new();
    assert_eq!(Htoml::parse_class_and_id(&mut attrs, &t, &mut class_str), Err(HtomlError::UnknownClass));
    assert_eq!(attrs, vec![]);
}

#[test]
fn class_that_is_neither_string_nor_array() {
    let t = table(vec![("class", Content::Boolean(true))]);
    let mut attrs = Vec::new();
    let mut class_str = String::new();
    assert_eq!(Htoml::parse_class_and_id(&mut attrs, &t, &mut class_str), Err(HtomlError::UnknownClass));
}

#[test]
fn id_that_is_no_string() {
    let t = table(vec![("class", text("a")), ("id", Content::Integer(3))]);
    let mut attrs = Vec::new();
    let mut class_str = String::new();
    assert_eq!(
        Htoml::parse_class_and_id(&mut attrs, &t, &mut class_str),
        Err(HtomlError::NonStringAttr("id".to_string()))
    );
    assert_eq!(attrs, vec![Argument { name: "class", val: "a" }]);
}

#[test]
fn neither_class_nor_id() {
    let t = table(vec![("type", text("p"))]);
    let mut attrs = vec![Argument { name: "lang", val: "en" }];
    let mut class_str = String::new();
    assert_eq!(Htoml::parse_class_and_id(&mut attrs, &t, &mut class_str), Ok(()));
    assert_eq!(attrs, vec![Argument { name: "lang", val: "en" }]);
}

#[test]
fn other_attributes_skip_the_reserved_keys() {
    let t = table(vec![
        ("type", text("a")),
        ("href", text("/x")),
        ("class", text("c")),
        ("cont", text("go")),
        ("id", text("i")),
        ("target", text("_blank")),
    ]);
    let mut attrs = Vec::new();
    assert_eq!(Htoml::parse_other_attr(&mut attrs, &t), Ok(()));
    assert_eq!(
        attrs,
        vec![Argument { name: "href", val: "/x" }, Argument { name: "target", val: "_blank" }]
    );
}

#[test]
fn other_attribute_that_is_no_string_is_named() {
    let t = table(vec![("title", text("t")), ("width", Content::Integer(3)), ("alt", text("x"))]);
    let mut attrs = Vec::new();
    assert_eq!(
        Htoml::parse_other_attr(&mut attrs, &t),
        Err(HtomlError::NonStringAttr("width".to_string()))
    );
    assert_eq!(attrs, vec![Argument { name: "title", val: "t" }]);
}

#[test]
fn gathered_attributes_go_into_an_opening_tag() {
    let t = table(vec![("class", Content::Array(vec![text("a"), text("b")])), ("id", text("i")), ("dir", text("ltr"))]);
    let mut attrs = Vec::new();
    let mut class_str = String::new();
    assert_eq!(Htoml::parse_class_and_id(&mut attrs, &t, &mut class_str), Ok(()));
    assert_eq!(Htoml::parse_other_attr(&mut attrs, &t), Ok(()));
    let mut html = Html::default();
    html.open_elem_with_args("div", &attrs);
    assert_eq!(String::from(html), "<div class=\"a b\" id=\"i\" dir=\"ltr\">");
}
