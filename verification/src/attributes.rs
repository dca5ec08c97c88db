//! Attributes of an element table: `class`, `id`, and the string-valued keys
//! beside them. The renderer of the closed element set writes none of them;
//! they are gathered for callers that write attributed tags themselves.

use vstd::prelude::*;
use vstd::string::StringExecFns;
use crate::error::{Fault, HtomlError};
use crate::arg::Argument;
use crate::html::arg_views;
use crate::htoml::Htoml;
use crate::text::str_eq;
use crate::value::{lookup, Content, Node, Table};

verus! {

/// Whether `c` is whitespace as `char::is_whitespace` has it: whether it is
/// one of the characters with the Unicode property `White_Space`.
pub open spec fn is_whitespace(c: char) -> bool {
    let code = c as u32;
    ||| 0x09 <= code <= 0x0D
    ||| code == 0x20
    ||| code == 0x85
    ||| code == 0xA0
    ||| code == 0x1680
    ||| 0x2000 <= code <= 0x200A
    ||| code == 0x2028
    ||| code == 0x2029
    ||| code == 0x202F
    ||| code == 0x205F
    ||| code == 0x3000
}

/// `text` without its leading whitespace.
pub open spec fn trimmed_start(text: Seq<char>) -> Seq<char>
    decreases text.len(),
{
    if text.len() > 0 && is_whitespace(text[0]) {
        trimmed_start(text.drop_first())
    } else {
        text
    }
}

/// Calls `str::trim_start`. Trusted: as std documents it, the result is the
/// text behind the leading characters that have the Unicode property
/// `White_Space`, which [`is_whitespace`] lists.
#[verifier::external_body]
pub(crate) fn trim_start<'a>(text: &'a str) -> (r: &'a str)
    ensures
        r@ == trimmed_start(text@),
{
    text.trim_start()
}

/// What gathering attributes leaves behind: the attributes added to the list,
/// the text added to the class buffer, and the fault that stopped it, if any.
pub struct Gathered {
    pub attrs: Seq<(Seq<char>, Seq<char>)>,
    pub joined: Seq<char>,
    pub fault: Option<Fault>,
}

/// The first `n` class names, each behind a space. A name that is no string
/// stops the walk: it and the names behind it add nothing.
pub open spec fn joined_classes(names: Seq<Node>, n: nat) -> Seq<char>
    decreases n,
{
    if n == 0 || n > names.len() {
        Seq::empty()
    } else if strings_before(names, n) {
        joined_classes(names, (n - 1) as nat) + " "@ + names[n - 1]->Text_0
    } else {
        joined_classes(names, (n - 1) as nat)
    }
}

/// The first `n` of `names` are strings.
pub open spec fn strings_before(names: Seq<Node>, n: nat) -> bool {
    forall|j: int| 0 <= j < n && j < names.len() ==> (#[trigger] names[j]) is Text
}

/// Gathering `class`, into a buffer that holds `held`. A string is the
/// attribute as it is. An array of strings is joined into the buffer, each
/// name behind a space, and the attribute is the buffer without its leading
/// whitespace. Anything else is a fault.
pub open spec fn class_attr(entries: Seq<(Seq<char>, Node)>, held: Seq<char>) -> Gathered {
    match lookup(entries, "class"@) {
        Some(Node::Text(s)) => Gathered {
            attrs: seq![("class"@, s)],
            joined: Seq::empty(),
            fault: None,
        },
        Some(Node::Array(names)) => {
            let joined = joined_classes(names, names.len());
            if strings_before(names, names.len()) {
                Gathered { attrs: seq![("class"@, trimmed_start(held + joined))], joined, fault: None }
            } else {
                Gathered { attrs: Seq::empty(), joined, fault: Some(Fault::UnknownClass) }
            }
        },
        Some(_) => Gathered {
            attrs: Seq::empty(),
            joined: Seq::empty(),
            fault: Some(Fault::UnknownClass),
        },
        None => Gathered { attrs: Seq::empty(), joined: Seq::empty(), fault: None },
    }
}

/// Gathering `class`, then `id`. A string `id` is the attribute as it is; an
/// `id` that is no string is a fault, which names it.
pub open spec fn class_and_id(entries: Seq<(Seq<char>, Node)>, held: Seq<char>) -> Gathered {
    let class = class_attr(entries, held);
    if class.fault is Some {
        class
    } else {
        match lookup(entries, "id"@) {
            Some(Node::Text(s)) => Gathered { attrs: class.attrs.push(("id"@, s)), ..class },
            Some(_) => Gathered { fault: Some(Fault::NonStringAttr("id"@)), ..class },
            None => class,
        }
    }
}

/// Whether `key` is one of the keys with a meaning of their own, which are
/// no generic attributes.
pub open spec fn reserved_key(key: Seq<char>) -> bool {
    key == "class"@ || key == "id"@ || key == "cont"@ || key == "type"@
}

/// Gathering the generic attributes among the first `n` entries, in order:
/// every key that is not reserved, with its string. A value that is no string
/// is a fault, which names the key, and stops the walk.
pub open spec fn other_attrs(entries: Seq<(Seq<char>, Node)>, n: nat) -> Gathered
    decreases n,
{
    if n == 0 || n > entries.len() {
        Gathered { attrs: Seq::empty(), joined: Seq::empty(), fault: None }
    } else {
        let before = other_attrs(entries, (n - 1) as nat);
        let (key, node) = entries[n - 1];
        if before.fault is Some || reserved_key(key) {
            before
        } else {
            match node {
                Node::Text(s) => Gathered { attrs: before.attrs.push((key, s)), ..before },
                _ => Gathered { fault: Some(Fault::NonStringAttr(key)), ..before },
            }
        }
    }
}

impl Gathered {
    /// Whether `r` reports how the gathering ended.
    pub open spec fn reported_by(self, r: Result<(), HtomlError>) -> bool {
        match r {
            Ok(_) => self.fault is None,
            Err(e) => self.fault == Some(e@),
        }
    }
}

impl Htoml {
    /// Adds the `class` and the `id` of the element `elem` to `attrs`. The
    /// names of a `class` array are joined in `class_str`.
    pub fn parse_class_and_id<'a>(
        attrs: &mut Vec<Argument<'a>>,
        elem: &'a Table,
        class_str: &'a mut String,
    ) -> (r: Result<(), HtomlError>)
        ensures
            arg_views(final(attrs)@) == arg_views(old(attrs)@) + class_and_id(
                elem@,
                old(class_str)@,
            ).attrs,
            final(class_str)@ == old(class_str)@ + class_and_id(elem@, old(class_str)@).joined,
            class_and_id(elem@, old(class_str)@).reported_by(r),
    {
        let ghost before = arg_views(attrs@);
        match elem.get("class") {
            Some(Content::Text(s)) => {
                attrs.push(Argument { name: "class", val: s.as_str() });
            },
            Some(Content::Array(arr)) => {
                let ghost names = lookup(elem@, "class"@)->0->Array_0;
                let mut i: usize = 0;
                while i < arr.len()
                    invariant
                        i <= arr.len(),
                        attrs@ == old(attrs)@,
                        before == arg_views(old(attrs)@),
                        lookup(elem@, "class"@) == Some(Node::Array(names)),
                        names.len() == arr@.len(),
                        forall|j: int| 0 <= j < arr@.len() ==> names[j] == (#[trigger] arr@[j])@,
                        strings_before(names, i as nat),
                        class_str@ == old(class_str)@ + joined_classes(names, i as nat),
                    decreases arr.len() - i,
                {
                    match &arr[i] {
                        Content::Text(class) => {
                            class_str.append(" ");
                            class_str.append(class.as_str());
                        },
                        _ => {
                            proof {
                                lemma_classes_stop(names, i as nat, names.len());
                            }
                            return Err(HtomlError::UnknownClass);
                        },
                    }
                    i += 1;
                }
                attrs.push(Argument { name: "class", val: trim_start(class_str.as_str()) });
            },
            Some(_) => {
                return Err(HtomlError::UnknownClass);
            },
            None => {},
        }
        match elem.get("id") {
            Some(Content::Text(id_str)) => {
                attrs.push(Argument { name: "id", val: id_str.as_str() });
            },
            Some(_) => {
                return Err(HtomlError::NonStringAttr(String::from_str("id")));
            },
            None => {},
        }
        Ok(())
    }

    /// Adds the generic attributes of `table` to `attrs`, in the order of its entries.
    pub fn parse_other_attr<'a>(attrs: &mut Vec<Argument<'a>>, table: &'a Table) -> (r: Result<
        (),
        HtomlError,
    >)
        ensures
            arg_views(final(attrs)@) == arg_views(old(attrs)@) + other_attrs(
                table@,
                table@.len(),
            ).attrs,
            other_attrs(table@, table@.len()).reported_by(r),
    {
        let ghost before = arg_views(attrs@);
        let mut i: usize = 0;
        while i < table.len()
            invariant
                i <= table@.len(),
                before == arg_views(old(attrs)@),
                other_attrs(table@, i as nat).fault is None,
                arg_views(attrs@) == before + other_attrs(table@, i as nat).attrs,
            decreases table@.len() - i,
        {
            let attr_name = table.key_at(i);
            let ghost held = attrs@;
            if !(str_eq(attr_name, "class") || str_eq(attr_name, "id") || str_eq(attr_name, "cont")
                || str_eq(attr_name, "type")) {
                match table.value_at(i) {
                    Content::Text(val) => {
                        attrs.push(Argument { name: attr_name, val: val.as_str() });
                        assert(arg_views(attrs@) =~= arg_views(held).push((attr_name@, val@)));
                    },
                    _ => {
                        proof {
                            lemma_attrs_stop(table@, (i + 1) as nat, table@.len());
                        }
                        return Err(HtomlError::NonStringAttr(String::from_str(attr_name)));
                    },
                }
            }
            i += 1;
        }
        Ok(())
    }
}

/// Joined class names begin with a space and the first name.
pub proof fn lemma_joined_begins(names: Seq<Node>, n: nat)
    requires
        1 <= n <= names.len(),
        strings_before(names, n),
        names[0]->Text_0.len() > 0,
    ensures
        joined_classes(names, n).len() >= 2,
        joined_classes(names, n)[0] == ' ',
        joined_classes(names, n)[1] == names[0]->Text_0[0],
    decreases n,
{
    reveal_strlit(" ");
    if n == 1 {
        reveal_with_fuel(joined_classes, 2);
        assert(joined_classes(names, 1) =~= " "@ + names[0]->Text_0);
    } else {
        lemma_joined_begins(names, (n - 1) as nat);
    }
}

/// Where `class` is an array of strings whose first is not empty and does not
/// begin with whitespace, and the buffer is empty, the class is the names
/// with one space between them: the joined text without its first space.
pub proof fn lemma_class_of_names(entries: Seq<(Seq<char>, Node)>, names: Seq<Node>)
    requires
        lookup(entries, "class"@) == Some(Node::Array(names)),
        names.len() > 0,
        strings_before(names, names.len()),
        names[0]->Text_0.len() > 0,
        !is_whitespace(names[0]->Text_0[0]),
    ensures
        class_attr(entries, Seq::empty()).fault is None,
        class_attr(entries, Seq::empty()).attrs == seq![
            ("class"@, joined_classes(names, names.len()).drop_first()),
        ],
{
    let joined = joined_classes(names, names.len());
    lemma_joined_begins(names, names.len());
    assert(Seq::<char>::empty() + joined =~= joined);
    assert(is_whitespace(' '));
    assert(joined.drop_first()[0] == joined[1]);
    assert(trimmed_start(joined) == trimmed_start(joined.drop_first()));
    assert(trimmed_start(joined.drop_first()) == joined.drop_first());
}

/// Behind a class name that is no string, the joined text grows no more.
pub proof fn lemma_classes_stop(names: Seq<Node>, n: nat, m: nat)
    requires
        n < m <= names.len(),
        !(names[n as int] is Text),
    ensures
        joined_classes(names, m) == joined_classes(names, n),
        !strings_before(names, m),
    decreases m,
{
    if n + 1 < m {
        lemma_classes_stop(names, n, (m - 1) as nat);
    }
}

/// A fault among the first entries stays when more are walked.
pub proof fn lemma_attrs_stop(entries: Seq<(Seq<char>, Node)>, n: nat, m: nat)
    requires
        n <= m <= entries.len(),
        other_attrs(entries, n).fault is Some,
    ensures
        other_attrs(entries, m) == other_attrs(entries, n),
    decreases m,
{
    if n < m {
        lemma_attrs_stop(entries, n, (m - 1) as nat);
    }
}

} // verus!
