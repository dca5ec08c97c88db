//! The document model: values, tables and their mathematical views.
//!
//! A value of the `toml` crate is opaque to the verifier, and so is a `toml`
//! table, whose values are of that type. A document is therefore copied
//! once, value for value, into [`Content`] and [`Table`], and the rules of
//! the conversion read the copy.

use vstd::prelude::*;
use vstd::string::StringExecFns;
use crate::text::str_eq;

verus! {

/// The mathematical view of a [`Content`].
pub enum Node {
    /// A string.
    Text(Seq<char>),
    /// A table: its entries in iteration order.
    Table(Seq<(Seq<char>, Node)>),
    /// An array: its items in order.
    Array(Seq<Node>),
    /// An integer.
    Integer(int),
    /// A boolean.
    Boolean(bool),
    /// A floating-point number; its value is not modelled.
    Float,
    /// A date or time; its value is not modelled.
    Datetime,
}

/// The keys of the first `n` entries of `entries` all differ from `key`.
pub open spec fn absent(entries: Seq<(Seq<char>, Node)>, key: Seq<char>, n: int) -> bool {
    forall|j: int| 0 <= j < n ==> (#[trigger] entries[j]).0 != key
}

/// No key occurs twice in `entries`.
pub open spec fn distinct_keys(entries: Seq<(Seq<char>, Node)>) -> bool {
    forall|i: int, j: int|
        0 <= i < j < entries.len() ==> (#[trigger] entries[i]).0 != (#[trigger] entries[j]).0
}

/// The value stored under `key`: that of the first entry with this key, if any.
pub open spec fn lookup(entries: Seq<(Seq<char>, Node)>, key: Seq<char>) -> Option<Node>
    decreases entries.len(),
{
    if entries.len() == 0 {
        None
    } else if entries[0].0 == key {
        Some(entries[0].1)
    } else {
        lookup(entries.drop_first(), key)
    }
}

/// A value of a document: text, a table, an array, or a scalar of another kind.
#[derive(Debug, PartialEq, Eq)]
pub enum Content {
    Text(String),
    Table(Table),
    Array(Vec<Content>),
    Integer(i64),
    Boolean(bool),
    Float,
    Datetime,
}

/// A table: a map from keys to values that keeps its entries in a fixed
/// order. No key occurs twice in it.
#[derive(Debug, PartialEq, Eq)]
pub struct Table {
    entries: Vec<(String, Content)>,
}

impl View for Content {
    type V = Node;

    /// The same value with every string as its characters and every list as
    /// a sequence. (The guards on `i` only bound the recursion: a sequence is
    /// asked for indices within its length alone.)
    open spec fn view(&self) -> Node
        decreases self,
    {
        match self {
            Content::Text(s) => Node::Text(s@),
            Content::Table(t) => Node::Table(t@),
            Content::Array(items) => Node::Array(
                Seq::new(items@.len(), |i: int| if 0 <= i < items@.len() { items@[i]@ } else { Node::Float }),
            ),
            Content::Integer(n) => Node::Integer(*n as int),
            Content::Boolean(b) => Node::Boolean(*b),
            Content::Float => Node::Float,
            Content::Datetime => Node::Datetime,
        }
    }
}

impl View for Table {
    type V = Seq<(Seq<char>, Node)>;

    closed spec fn view(&self) -> Seq<(Seq<char>, Node)>
        decreases self,
    {
        model(self.entries@)
    }
}

/// The views of stored entries, in their order.
spec fn model(entries: Seq<(String, Content)>) -> Seq<(Seq<char>, Node)>
    decreases entries,
{
    Seq::new(
        entries.len(),
        |i: int| if 0 <= i < entries.len() { (entries[i].0@, entries[i].1@) } else { (Seq::empty(), Node::Float) },
    )
}

/// The entries of `entries` with `node` stored under `key`: in the place of the
/// entry that held the key, or at the end where none did.
pub open spec fn put(entries: Seq<(Seq<char>, Node)>, key: Seq<char>, node: Node) -> Seq<
    (Seq<char>, Node),
> {
    match key_index(entries, key) {
        Some(i) => entries.update(i, (key, node)),
        None => entries.push((key, node)),
    }
}

/// The index of the first entry with `key`, if any.
pub open spec fn key_index(entries: Seq<(Seq<char>, Node)>, key: Seq<char>) -> Option<int> {
    if exists|i: int| 0 <= i < entries.len() && (#[trigger] entries[i]).0 == key && absent(entries, key, i) {
        Some(choose|i: int| 0 <= i < entries.len() && (#[trigger] entries[i]).0 == key && absent(entries, key, i))
    } else {
        None
    }
}

/// Where the first `n` keys differ from `key`, the lookup goes on behind them.
pub proof fn lemma_lookup_skip(entries: Seq<(Seq<char>, Node)>, key: Seq<char>, n: int)
    requires
        0 <= n <= entries.len(),
        absent(entries, key, n),
    ensures
        lookup(entries, key) == lookup(entries.skip(n), key),
    decreases n,
{
    if n == 0 {
        assert(entries.skip(0) =~= entries);
    } else {
        let rest = entries.drop_first();
        assert forall|j: int| 0 <= j < n - 1 implies (#[trigger] rest[j]).0 != key by {
        }
        lemma_lookup_skip(rest, key, n - 1);
        assert(rest.skip(n - 1) =~= entries.skip(n));
    }
}

/// A lookup finds the first entry with the key, and fails where there is none.
pub proof fn lemma_lookup_index(entries: Seq<(Seq<char>, Node)>, key: Seq<char>)
    ensures
        match key_index(entries, key) {
            Some(i) => 0 <= i < entries.len() && entries[i].0 == key && absent(entries, key, i)
                && lookup(entries, key) == Some(entries[i].1),
            None => absent(entries, key, entries.len() as int) && lookup(entries, key) is None,
        },
{
    match key_index(entries, key) {
        Some(i) => {
            lemma_lookup_skip(entries, key, i);
        },
        None => {
            lemma_absent_all(entries, key, entries.len() as int);
            lemma_lookup_skip(entries, key, entries.len() as int);
        },
    }
}

/// The first entry that holds `key` is the one that `key_index` names.
pub proof fn lemma_key_index_is(entries: Seq<(Seq<char>, Node)>, key: Seq<char>, i: int)
    requires
        0 <= i < entries.len(),
        entries[i].0 == key,
        absent(entries, key, i),
    ensures
        key_index(entries, key) == Some(i),
{
    let k = key_index(entries, key)->0;
    if k < i {
    } else if i < k {
    }
}

/// Without a first entry that holds `key`, no entry holds it.
proof fn lemma_absent_all(entries: Seq<(Seq<char>, Node)>, key: Seq<char>, n: int)
    requires
        0 <= n <= entries.len(),
        key_index(entries, key) is None,
    ensures
        absent(entries, key, n),
    decreases n,
{
    if n > 0 {
        lemma_absent_all(entries, key, n - 1);
        if entries[n - 1].0 == key {
        }
    }
}

/// What a lookup finds is smaller than the entries: a recursion over it ends.
pub proof fn lemma_lookup_decreases(entries: Seq<(Seq<char>, Node)>, key: Seq<char>)
    ensures
        lookup(entries, key) matches Some(node) ==> decreases_to!(entries => node),
{
    lemma_lookup_index(entries, key);
    if let Some(i) = key_index(entries, key) {
    }
}

/// A value of the `toml` crate. Verified code sees into it only through
/// [`unpack`].
#[verifier::external_type_specification]
#[verifier::external_body]
pub struct ExTomlValue(toml::Value);

/// What a `toml::Value` holds: its variant and, below it, what its parts hold.
pub uninterp spec fn toml_node(value: toml::Value) -> Node;

/// What the `toml` parser reads from `text`: the document's table, or `None`
/// where the parser rejects the text.
pub uninterp spec fn toml_document(text: Seq<char>) -> Option<Node>;

/// The diagnostic with which the `toml` parser rejects `text`.
pub uninterp spec fn toml_diagnostic(text: Seq<char>) -> toml::de::Error;

/// What the items of a `toml` array hold, in order.
pub open spec fn toml_items(items: Seq<toml::Value>) -> Seq<Node> {
    Seq::new(items.len(), |i: int| toml_node(items[i]))
}

/// What the entries of a `toml` table hold, in order.
pub open spec fn toml_entries(entries: Seq<(&str, &toml::Value)>) -> Seq<(Seq<char>, Node)> {
    Seq::new(entries.len(), |i: int| (entries[i].0@, toml_node(*entries[i].1)))
}

/// The top level of a `toml::Value`, with its parts still in `toml`'s form.
pub enum Shape<'a> {
    Text(&'a str),
    Table(Vec<(&'a str, &'a toml::Value)>),
    Array(&'a Vec<toml::Value>),
    Integer(i64),
    Boolean(bool),
    Float,
    Datetime,
}

/// Parses `text` with `str::parse::<toml::Table>` (which is `toml::from_str`)
/// and wraps the table as a `toml::Value`. Trusted: the parser is a function
/// of the text, so what comes back holds what [`toml_document`] names, an
/// error comes exactly where the parser rejects the text, and it is the
/// diagnostic that [`toml_diagnostic`] names.
#[verifier::external_body]
pub(crate) fn parse_document(text: &str) -> (r: Result<toml::Value, toml::de::Error>)
    ensures
        match r {
            Ok(value) => toml_document(text@) == Some(toml_node(value)) && toml_node(value) is Table,
            Err(diagnostic) => toml_document(text@) is None && diagnostic == toml_diagnostic(text@),
        },
{
    text.parse::<toml::Table>().map(toml::Value::Table)
}

/// Tells the variants of `toml::Value` apart and hands out the parts: a
/// string as it is, an array as it is, a table as the list of its entries in
/// the order of `toml::map::Map::iter`. Trusted: each variant holds what is
/// handed out, and no key occurs twice in a `toml` table. The payload of a
/// float and of a datetime is dropped.
#[verifier::external_body]
pub(crate) fn unpack<'a>(value: &'a toml::Value) -> (r: Shape<'a>)
    ensures
        match r {
            Shape::Text(s) => toml_node(*value) == Node::Text(s@),
            Shape::Table(entries) => toml_node(*value) == Node::Table(toml_entries(entries@))
                && distinct_keys(toml_entries(entries@)),
            Shape::Array(items) => toml_node(*value) == Node::Array(toml_items(items@)),
            Shape::Integer(n) => toml_node(*value) == Node::Integer(n as int),
            Shape::Boolean(b) => toml_node(*value) == Node::Boolean(b),
            Shape::Float => toml_node(*value) == Node::Float,
            Shape::Datetime => toml_node(*value) == Node::Datetime,
        },
{
    match value {
        toml::Value::String(s) => Shape::Text(s.as_str()),
        toml::Value::Table(map) => Shape::Table(map.iter().map(|(k, v)| (k.as_str(), v)).collect()),
        toml::Value::Array(items) => Shape::Array(items),
        toml::Value::Integer(n) => Shape::Integer(*n),
        toml::Value::Boolean(b) => Shape::Boolean(*b),
        toml::Value::Float(_) => Shape::Float,
        toml::Value::Datetime(_) => Shape::Datetime,
    }
}

impl Content {
    /// Copies a `toml::Value` into a [`Content`] that holds the same.
    pub fn from_toml(value: &toml::Value) -> (r: Content)
        ensures
            r@ == toml_node(*value),
        decreases toml_node(*value), 1nat,
    {
        match unpack(value) {
            Shape::Text(s) => Content::Text(String::from_str(s)),
            Shape::Table(entries) => {
                assert(decreases_to!(toml_node(*value) => toml_node(*value)->Table_0));
                Content::Table(Table::from_entries(&entries))
            },
            Shape::Array(items) => {
                let mut copies: Vec<Content> = Vec::new();
                let mut i: usize = 0;
                while i < items.len()
                    invariant
                        i <= items.len(),
                        copies@.len() == i,
                        toml_node(*value) == Node::Array(toml_items(items@)),
                        forall|j: int| 0 <= j < i ==> (#[trigger] copies@[j])@ == toml_node(items@[j]),
                    decreases items.len() - i,
                {
                    assert(decreases_to!(toml_node(*value)->Array_0 => toml_node(*value)->Array_0[i as int]));
                    copies.push(Content::from_toml(&items[i]));
                    i += 1;
                }
                let r = Content::Array(copies);
                assert(r@->Array_0 =~= toml_items(items@));
                r
            },
            Shape::Integer(n) => Content::Integer(n),
            Shape::Boolean(b) => Content::Boolean(b),
            Shape::Float => Content::Float,
            Shape::Datetime => Content::Datetime,
        }
    }
}

impl Table {
    #[verifier::type_invariant]
    closed spec fn unique(&self) -> bool {
        distinct_keys(self@)
    }

    /// Copies the entries of a `toml` table, in their order.
    pub(crate) fn from_entries(entries: &Vec<(&str, &toml::Value)>) -> (t: Table)
        requires
            distinct_keys(toml_entries(entries@)),
        ensures
            t@ == toml_entries(entries@),
        decreases toml_entries(entries@), 0nat,
    {
        let mut copies: Vec<(String, Content)> = Vec::new();
        let mut i: usize = 0;
        while i < entries.len()
            invariant
                i <= entries.len(),
                copies@.len() == i,
                forall|j: int| 0 <= j < i ==> (#[trigger] model(copies@)[j]) == toml_entries(entries@)[j],
            decreases entries.len() - i,
        {
            let (key, value) = entries[i];
            assert(toml_entries(entries@)[i as int].1 == toml_node(*value));
            let ghost before = model(copies@);
            copies.push((String::from_str(key), Content::from_toml(value)));
            assert forall|j: int| 0 <= j < i + 1 implies (#[trigger] model(copies@)[j]) == toml_entries(entries@)[j] by {
                if j < i {
                    assert(model(copies@)[j] == before[j]);
                }
            }
            i += 1;
        }
        assert(model(copies@) =~= toml_entries(entries@));
        Table { entries: copies }
    }

    /// An empty table.
    pub fn new() -> (t: Table)
        ensures
            t@ == Seq::<(Seq<char>, Node)>::empty(),
    {
        Table { entries: Vec::new() }
    }

    /// The number of entries. No key occurs twice among them.
    pub fn len(&self) -> (n: usize)
        ensures
            n == self@.len(),
            distinct_keys(self@),
    {
        proof {
            use_type_invariant(self);
        }
        self.entries.len()
    }

    /// The key of the entry at `i`.
    pub fn key_at(&self, i: usize) -> (k: &str)
        requires
            i < self@.len(),
        ensures
            k@ == self@[i as int].0,
    {
        self.entries[i].0.as_str()
    }

    /// The value of the entry at `i`.
    pub fn value_at(&self, i: usize) -> (v: &Content)
        requires
            i < self@.len(),
        ensures
            v@ == self@[i as int].1,
    {
        &self.entries[i].1
    }

    /// Stores `value` under `key` and returns the value that the key held before.
    /// A key that is already there keeps its place; a new one goes to the end.
    pub fn insert(&mut self, key: String, value: Content) -> (previous: Option<Content>)
        ensures
            final(self)@ == put(old(self)@, key@, value@),
            match previous {
                Some(v) => lookup(old(self)@, key@) == Some(v@),
                None => lookup(old(self)@, key@) is None,
            },
    {
        proof {
            use_type_invariant(&*self);
            lemma_lookup_index(self@, key@);
        }
        let ghost before = self@;
        let found = self.position(key.as_str());
        let mut entries: Vec<(String, Content)> = Vec::new();
        core::mem::swap(&mut self.entries, &mut entries);
        let previous = match found {
            Some(i) => {
                let held = entries.remove(i);
                entries.insert(i, (key, value));
                assert(model(entries@) =~= before.update(i as int, (key@, value@)));
                Some(held.1)
            },
            None => {
                entries.push((key, value));
                assert(model(entries@) =~= before.push((key@, value@)));
                None
            },
        };
        core::mem::swap(&mut self.entries, &mut entries);
        previous
    }

    /// The index of the entry with `key`, if there is one.
    pub fn position(&self, key: &str) -> (r: Option<usize>)
        ensures
            match r {
                Some(i) => key_index(self@, key@) == Some(i as int),
                None => key_index(self@, key@) is None,
            },
    {
        let mut i: usize = 0;
        while i < self.entries.len()
            invariant
                i <= self.entries.len(),
                self.entries@.len() == self@.len(),
                absent(self@, key@, i as int),
            decreases self.entries.len() - i,
        {
            if str_eq(self.entries[i].0.as_str(), key) {
                proof {
                    lemma_key_index_is(self@, key@, i as int);
                }
                return Some(i);
            }
            i += 1;
        }
        proof {
            lemma_lookup_index(self@, key@);
        }
        None
    }

    /// The value stored under `key`, if there is one.
    pub fn get(&self, key: &str) -> (r: Option<&Content>)
        ensures
            match r {
                Some(v) => lookup(self@, key@) == Some(v@),
                None => lookup(self@, key@) is None,
            },
    {
        proof {
            lemma_lookup_index(self@, key@);
        }
        match self.position(key) {
            Some(i) => Some(&self.entries[i].1),
            None => None,
        }
    }
}

} // verus!
