use htoml::error::HtomlError;
use htoml::html::Html;
use htoml::htoml::Htoml;
use htoml::markup::{classify, ElementKind};
use htoml::value::{Content, Table};

fn text(s: &str) -> Content {
    Content::Text(s.to_string())
}

fn element(entries: &[(&str, Content)]) -> Content {
    let mut t = Table::new();
    for (k, v) in entries {
        t.insert(k.to_string(), copy(v));
    }
    Content::Table(t)
}

fn copy(c: &Content) -> Content {
    match c {
        Content::Text(s) => Content::Text(s.clone()),
        Content::Array(items) => Content::Array(items.iter().map(copy).collect()),
        Content::Table(t) => {
            let mut out = Table::new();
            for i in 0..t.len() {
                out.insert(t.key_at(i).to_string(), copy(t.value_at(i)));
            }
            Content::Table(out)
        }
        Content::Integer(n) => Content::Integer(*n),
        Content::Boolean(b) => Content::Boolean(*b),
        Content::Float => Content::Float,
        Content::Datetime => Content::Datetime,
    }
}

fn render(c: &Content) -> (Result<(), HtomlError>, String) {
    let mut html = Html::default();
    let r = Htoml::parse_element(&mut html, c);
    (r, String::from(html))
}

#[test]
fn classify_knows_the_closed_sets() {
    assert_eq!(classify("br"), Some(ElementKind::Void));
    assert_eq!(classify("hr"), Some(ElementKind::Void));
    for tag in ["p", "b", "i", "strong", "mark", "u", "s", "small"] {
        assert_eq!(classify(tag), Some(ElementKind::Simple));
    }
    assert_eq!(classify("a"), Some(ElementKind::Anchor));
    assert_eq!(classify("blink"), None);
    assert_eq!(classify("div"), None);
    assert_eq!(classify("P"), None);
    assert_eq!(classify(""), None);
}

#[test]
fn text_is_written_verbatim() {
    assert_eq!(render(&text("a < b & c")), (Ok(()), "a < b & c".to_string()));
}

#[test]
fn void_elements_are_self_closing() {
    assert_eq!(render(&element(&[("type", text("br"))])), (Ok(()), "<br />".to_string()));
    assert_eq!(render(&element(&[("type", text("hr"))])), (Ok(()), "<hr />".to_string()));
}

#[test]
fn void_elements_ignore_their_content() {
    let br = element(&[("type", text("br")), ("cont", text("ignored"))]);
    assert_eq!(render(&br), (Ok(()), "<br />".to_string()));
    let hr = element(&[("cont", Content::Integer(1)), ("type", text("hr"))]);
    assert_eq!(render(&hr), (Ok(()), "<hr />".to_string()));
}

#[test]
fn simple_element_wraps_its_text() {
    let p = element(&[("type", text("p")), ("cont", text("hello"))]);
    assert_eq!(render(&p), (Ok(()), "<p>hello</p>".to_string()));
}

#[test]
fn every_simple_element_wraps_its_text() {
    for tag in ["p", "b", "i", "strong", "mark", "u", "s", "small"] {
        let e = element(&[("type", text(tag)), ("cont", text("x"))]);
        assert_eq!(render(&e), (Ok(()), format!("<{tag}>x</{tag}>")));
    }
}

#[test]
fn simple_element_writes_no_attributes() {
    let p = element(&[
        ("type", text("p")),
        ("class", text("lead")),
        ("id", text("intro")),
        ("title", text("t")),
        ("cont", text("hello")),
    ]);
    assert_eq!(render(&p), (Ok(()), "<p>hello</p>".to_string()));
}

#[test]
fn anchor_writes_its_target() {
    let a = element(&[("type", text("a")), ("href", text("http://x")), ("cont", text("click"))]);
    assert_eq!(render(&a), (Ok(()), "<a href=\"http://x\">click</a>".to_string()));
}

#[test]
fn anchor_without_href_fails() {
    let a = element(&[("type", text("a")), ("cont", text("click"))]);
    assert_eq!(render(&a), (Err(HtomlError::AWithoutHref), String::new()));
    let b = element(&[("type", text("a")), ("href", Content::Integer(1)), ("cont", text("click"))]);
    assert_eq!(render(&b).0, Err(HtomlError::AWithoutHref));
    let c = element(&[("type", text("a"))]);
    assert_eq!(render(&c).0, Err(HtomlError::AWithoutHref));
}

#[test]
fn anchor_without_content_fails() {
    let a = element(&[("type", text("a")), ("href", text("http://x"))]);
    assert_eq!(render(&a), (Err(HtomlError::NoContent), String::new()));
}

#[test]
fn simple_element_without_content_fails() {
    let p = element(&[("type", text("p"))]);
    assert_eq!(render(&p), (Err(HtomlError::NoContent), String::new()));
}

#[test]
fn array_of_texts_is_concatenated() {
    let items = Content::Array(vec![text("a"), text("b")]);
    assert_eq!(render(&items), (Ok(()), "ab".to_string()));
}

#[test]
fn empty_array_writes_nothing() {
    assert_eq!(render(&Content::Array(vec![])), (Ok(()), String::new()));
}

#[test]
fn nested_content_is_rendered_depth_first() {
    let inner = element(&[("type", text("b")), ("cont", text("bold"))]);
    let link = element(&[
        ("type", text("a")),
        ("href", text("/x")),
        ("cont", Content::Array(vec![text("go "), copy(&inner)])),
    ]);
    let p = element(&[
        ("type", text("p")),
        ("cont", Content::Array(vec![text("one"), element(&[("type", text("br"))]), link, text("two")])),
    ]);
    assert_eq!(
        render(&p),
        (Ok(()), "<p>one<br /><a href=\"/x\">go <b>bold</b></a>two</p>".to_string())
    );
}

#[test]
fn unknown_element_names_its_type() {
    let e = element(&[("type", text("blink")), ("cont", text("x"))]);
    assert_eq!(render(&e), (Err(HtomlError::UnknownElement("blink".to_string())), String::new()));
}

#[test]
fn element_without_a_string_type_fails() {
    assert_eq!(render(&element(&[("cont", text("x"))])).0, Err(HtomlError::UntypedElement));
    assert_eq!(
        render(&element(&[("type", Content::Integer(1)), ("cont", text("x"))])).0,
        Err(HtomlError::UntypedElement)
    );
    assert_eq!(render(&Content::Table(Table::new())).0, Err(HtomlError::UntypedElement));
}

#[test]
fn scalars_are_no_content() {
    assert_eq!(render(&Content::Integer(1)), (Err(HtomlError::UnknownContent), String::new()));
    assert_eq!(render(&Content::Boolean(true)).0, Err(HtomlError::UnknownContent));
    assert_eq!(render(&Content::Float).0, Err(HtomlError::UnknownContent));
    assert_eq!(render(&Content::Datetime).0, Err(HtomlError::UnknownContent));
}

#[test]
fn a_fault_stops_the_walk() {
    let items = Content::Array(vec![
        text("a"),
        element(&[("type", text("p")), ("cont", Content::Array(vec![text("b"), Content::Integer(1), text("c")]))]),
        text("d"),
    ]);
    assert_eq!(render(&items), (Err(HtomlError::UnknownContent), "a<p>b".to_string()));
}

#[test]
fn rendering_appends_to_what_the_buffer_holds() {
    let mut html = Html::default();
    html.push("before");
    let r = Htoml::parse_element(&mut html, &element(&[("type", text("i")), ("cont", text("x"))]));
    assert_eq!(r, Ok(()));
    assert_eq!(String::from(html), "before<i>x</i>");
}
