use htoml::arg::Argument;
use htoml::html::Html;

fn text(html: Html) -> String {
    String::from(html)
}

#[test]
fn default_buffer_is_empty() {
    assert_eq!(text(Html::default()), "");
}

#[test]
fn push_appends_verbatim() {
    let mut html = Html::default();
    html.push("a < b");
    html.push(" & c");
    assert_eq!(text(html), "a < b & c");
}

#[test]
fn open_elem_writes_the_tag() {
    let mut html = Html::default();
    html.open_elem("p");
    assert_eq!(text(html), "<p>");
}

#[test]
fn open_elem_with_args_writes_attributes_in_order() {
    let mut html = Html::default();
    let args = [Argument { name: "id", val: "top" }, Argument { name: "class", val: "a b" }];
    html.open_elem_with_args("div", &args);
    assert_eq!(text(html), "<div id=\"top\" class=\"a b\">");
}

#[test]
fn open_elem_with_no_args_is_the_plain_tag() {
    let mut html = Html::default();
    html.open_elem_with_args("div", &[]);
    assert_eq!(text(html), "<div>");
}

#[test]
fn close_elem_writes_the_closing_tag() {
    let mut html = Html::default();
    html.close_elem("p");
    assert_eq!(text(html), "</p>");
}

#[test]
fn insert_elem_wraps_the_content() {
    let mut html = Html::default();
    html.insert_elem("title", "Home");
    assert_eq!(text(html), "<title>Home</title>");
}

#[test]
fn insert_elem_with_args_wraps_the_content() {
    let mut html = Html::default();
    html.insert_elem_with_args("a", "click", &[Argument { name: "href", val: "http://x" }]);
    assert_eq!(text(html), "<a href=\"http://x\">click</a>");
}

#[test]
fn insert_void_elem_is_self_closing() {
    let mut html = Html::default();
    html.insert_void_elem("br");
    assert_eq!(text(html), "<br />");
}

#[test]
fn buffer_only_grows() {
    let mut html = Html::default();
    html.push("x");
    html.open_elem("b");
    html.push("y");
    html.close_elem("b");
    html.insert_void_elem("hr");
    assert_eq!(text(html), "x<b>y</b><hr />");
}

#[test]
fn as_str_shows_what_was_written() {
    let mut html = Html::default();
    assert_eq!(html.as_str(), "");
    html.open_elem("p");
    assert_eq!(html.as_str(), "<p>");
}
