use htoml::text::str_eq;
use htoml::value::{Content, Table};

fn text(s: &str) -> Content {
    Content::Text(s.to_string())
}

#[test]
fn new_table_is_empty() {
    let t = Table::new();
    assert_eq!(t.len(), 0);
    assert_eq!(t.get("a"), None);
    assert_eq!(t.position("a"), None);
}

#[test]
fn insert_appends_new_keys_in_order() {
    let mut t = Table::new();
    assert_eq!(t.insert("b".to_string(), text("1")), None);
    assert_eq!(t.insert("a".to_string(), text("2")), None);
    assert_eq!(t.len(), 2);
    assert_eq!(t.key_at(0), "b");
    assert_eq!(t.key_at(1), "a");
    assert_eq!(t.value_at(0), &text("1"));
    assert_eq!(t.value_at(1), &text("2"));
    assert_eq!(t.position("a"), Some(1));
}

#[test]
fn insert_replaces_in_place() {
    let mut t = Table::new();
    t.insert("a".to_string(), text("1"));
    t.insert("b".to_string(), text("2"));
    assert_eq!(t.insert("a".to_string(), Content::Integer(3)), Some(text("1")));
    assert_eq!(t.len(), 2);
    assert_eq!(t.key_at(0), "a");
    assert_eq!(t.get("a"), Some(&Content::Integer(3)));
    assert_eq!(t.get("b"), Some(&text("2")));
}

#[test]
fn get_misses_an_absent_key() {
    let mut t = Table::new();
    t.insert("type".to_string(), text("p"));
    assert_eq!(t.get("typ"), None);
    assert_eq!(t.get("type "), None);
    assert_eq!(t.get(""), None);
}

#[test]
fn str_eq_compares_characters() {
    assert!(str_eq("", ""));
    assert!(str_eq("title", "title"));
    assert!(!str_eq("title", "titl"));
    assert!(!str_eq("title", "tiTle"));
    assert!(str_eq("h\u{e9}llo", "h\u{e9}llo"));
    assert!(!str_eq("h\u{e9}llo", "hello"));
}

#[test]
fn from_toml_copies_scalars() {
    assert_eq!(Content::from_toml(&toml::Value::String("x".to_string())), text("x"));
    assert_eq!(Content::from_toml(&toml::Value::Integer(-7)), Content::Integer(-7));
    assert_eq!(Content::from_toml(&toml::Value::Boolean(true)), Content::Boolean(true));
    assert_eq!(Content::from_toml(&toml::Value::Float(1.5)), Content::Float);
}

#[test]
fn from_toml_copies_a_datetime() {
    let parsed: toml::Table = "d = 1979-05-27".parse().unwrap();
    assert_eq!(Content::from_toml(&parsed["d"]), Content::Datetime);
}

#[test]
fn from_toml_copies_an_array_in_order() {
    let v = toml::Value::Array(vec![
        toml::Value::String("a".to_string()),
        toml::Value::Integer(2),
        toml::Value::Array(vec![toml::Value::String("c".to_string())]),
    ]);
    assert_eq!(
        Content::from_toml(&v),
        Content::Array(vec![text("a"), Content::Integer(2), Content::Array(vec![text("c")])])
    );
}

#[test]
fn from_toml_copies_a_table_in_key_order() {
    let mut inner = toml::Table::new();
    inner.insert("k".to_string(), toml::Value::Boolean(false));
    let mut map = toml::Table::new();
    map.insert("z".to_string(), toml::Value::String("last".to_string()));
    map.insert("a".to_string(), toml::Value::Table(inner));
    let copied = Content::from_toml(&toml::Value::Table(map));
    let mut expected_inner = Table::new();
    expected_inner.insert("k".to_string(), Content::Boolean(false));
    let mut expected = Table::new();
    expected.insert("a".to_string(), Content::Table(expected_inner));
    expected.insert("z".to_string(), text("last"));
    assert_eq!(copied, Content::Table(expected));
}
