//! What a document is rendered to: the rules of the conversion, stated over
//! the views of the document's values.

use vstd::prelude::*;
use crate::error::{Fault, HtomlError};
use crate::html::{close_tag, open_tag, open_tag_with, void_tag};
use crate::text::str_eq;
use crate::value::{lemma_lookup_decreases, lookup, Node};

verus! {

/// The class of an element type.
#[derive(Debug, Clone, Copy, PartialEq, Eq, Structural)]
pub enum ElementKind {
    /// No content and no closing tag: `br`, `hr`.
    Void,
    /// Opening tag, content, closing tag: `p`, `b`, `i`, `strong`, `mark`, `u`, `s`, `small`.
    Simple,
    /// The link `a`, which needs a `href`.
    Anchor,
}

/// The class of the element type `tag`, or `None` for an unknown type.
pub open spec fn element_kind(tag: Seq<char>) -> Option<ElementKind> {
    if tag == "br"@ || tag == "hr"@ {
        Some(ElementKind::Void)
    } else if tag == "p"@ || tag == "b"@ || tag == "i"@ || tag == "strong"@ || tag == "mark"@ || tag
        == "u"@ || tag == "s"@ || tag == "small"@ {
        Some(ElementKind::Simple)
    } else if tag == "a"@ {
        Some(ElementKind::Anchor)
    } else {
        None
    }
}

/// Classifies an element type.
pub fn classify(tag: &str) -> (r: Option<ElementKind>)
    ensures
        r == element_kind(tag@),
{
    if str_eq(tag, "br") || str_eq(tag, "hr") {
        Some(ElementKind::Void)
    } else if str_eq(tag, "p") || str_eq(tag, "b") || str_eq(tag, "i") || str_eq(tag, "strong")
        || str_eq(tag, "mark") || str_eq(tag, "u") || str_eq(tag, "s") || str_eq(tag, "small") {
        Some(ElementKind::Simple)
    } else if str_eq(tag, "a") {
        Some(ElementKind::Anchor)
    } else {
        None
    }
}

/// What a step of the conversion appends to the buffer, and the fault that
/// stopped it, if one did.
pub struct Emitted {
    pub text: Seq<char>,
    pub fault: Option<Fault>,
}

impl Emitted {
    /// A step that appends `text` and succeeds.
    pub open spec fn written(text: Seq<char>) -> Emitted {
        Emitted { text, fault: None }
    }

    /// A step that appends nothing and fails.
    pub open spec fn failed(fault: Fault) -> Emitted {
        Emitted { text: Seq::empty(), fault: Some(fault) }
    }

    /// This step followed by `next`, which does not run where this one failed.
    pub open spec fn followed_by(self, next: Emitted) -> Emitted {
        if self.fault is Some {
            self
        } else {
            Emitted { text: self.text + next.text, fault: next.fault }
        }
    }

    /// Whether `r` reports how this step ended.
    pub open spec fn reported_by(self, r: Result<(), HtomlError>) -> bool {
        match r {
            Ok(_) => self.fault is None,
            Err(e) => self.fault == Some(e@),
        }
    }
}

/// Rendering a content value: text verbatim, an array item by item, a table
/// as an element; anything else is no content.
pub open spec fn emit(node: Node) -> Emitted
    decreases node, 0nat,
{
    match node {
        Node::Text(s) => Emitted::written(s),
        Node::Array(items) => emit_items(items, items.len()),
        Node::Table(entries) => emit_element(entries),
        _ => Emitted::failed(Fault::UnknownContent),
    }
}

/// Rendering the first `n` items of an array, in order and with nothing between them.
pub open spec fn emit_items(items: Seq<Node>, n: nat) -> Emitted
    decreases items, n,
{
    if n == 0 || n > items.len() {
        Emitted::written(Seq::empty())
    } else {
        emit_items(items, (n - 1) as nat).followed_by(emit(items[n - 1]))
    }
}

/// An element between its tags: the opening text, the rendered content, `</tag>`.
pub open spec fn enclosed(opening: Seq<char>, content: Emitted, tag: Seq<char>) -> Emitted {
    Emitted::written(opening).followed_by(content).followed_by(Emitted::written(close_tag(tag)))
}

/// Rendering an element table. Its `type` must be a string that names a known
/// element. A void element is its tag alone. A simple element needs `cont`. An
/// `a` needs a string `href`, then `cont`.
pub open spec fn emit_element(entries: Seq<(Seq<char>, Node)>) -> Emitted
    decreases entries, 0nat,
{
    match lookup(entries, "type"@) {
        Some(Node::Text(tag)) => match element_kind(tag) {
            Some(ElementKind::Void) => Emitted::written(void_tag(tag)),
            Some(ElementKind::Simple) => match lookup(entries, "cont"@) {
                Some(cont) => {
                    proof {
                        lemma_lookup_decreases(entries, "cont"@);
                    }
                    enclosed(open_tag(tag), emit(cont), tag)
                },
                None => Emitted::failed(Fault::NoContent),
            },
            Some(ElementKind::Anchor) => match lookup(entries, "href"@) {
                Some(Node::Text(href)) => match lookup(entries, "cont"@) {
                    Some(cont) => {
                        proof {
                            lemma_lookup_decreases(entries, "cont"@);
                        }
                        enclosed(open_tag_with(tag, seq![("href"@, href)]), emit(cont), tag)
                    },
                    None => Emitted::failed(Fault::NoContent),
                },
                _ => Emitted::failed(Fault::AWithoutHref),
            },
            None => Emitted::failed(Fault::UnknownElement(tag)),
        },
        _ => Emitted::failed(Fault::UntypedElement),
    }
}

/// The doctype declaration: `<!DOCTYPE version>`, with the string under `html`
/// as the version, taken as it is.
pub open spec fn doctype(doc: Seq<(Seq<char>, Node)>) -> Emitted {
    match lookup(doc, "html"@) {
        Some(Node::Text(version)) => Emitted::written(open_tag("!DOCTYPE "@ + version)),
        _ => Emitted::failed(Fault::UndeclaredFile),
    }
}

/// One entry of the head: a `title` that is a string becomes a `title`
/// element around its text. Any other entry is a fault that names its key: a
/// key that is not `title`, and a `title` that is no string.
pub open spec fn head_entry(key: Seq<char>, node: Node) -> Emitted {
    match node {
        Node::Text(title) => if key == "title"@ {
            Emitted::written(open_tag("title"@) + title + close_tag("title"@))
        } else {
            Emitted::failed(Fault::UnknownHead(key))
        },
        _ => Emitted::failed(Fault::UnknownHead(key)),
    }
}

/// The first `n` entries of the head, in order.
pub open spec fn head_entries(head: Seq<(Seq<char>, Node)>, n: nat) -> Emitted
    decreases n,
{
    if n == 0 || n > head.len() {
        Emitted::written(Seq::empty())
    } else {
        head_entries(head, (n - 1) as nat).followed_by(head_entry(head[n - 1].0, head[n - 1].1))
    }
}

/// The head block: `<head>`, the entries of the table under `head`, `</head>`.
/// Without a `head` the block is empty; a `head` that is no table is a fault.
pub open spec fn head(doc: Seq<(Seq<char>, Node)>) -> Emitted {
    match lookup(doc, "head"@) {
        Some(Node::Table(entries)) => enclosed(
            open_tag("head"@),
            head_entries(entries, entries.len()),
            "head"@,
        ),
        Some(_) => Emitted::failed(Fault::NonTableHead),
        None => enclosed(open_tag("head"@), Emitted::written(Seq::empty()), "head"@),
    }
}

/// The body block with the attributes `attrs` on its tag: the content under
/// `body` is rendered between the tags, and nothing where there is none.
pub open spec fn body_with(doc: Seq<(Seq<char>, Node)>, attrs: Seq<(Seq<char>, Seq<char>)>) -> Emitted {
    enclosed(
        open_tag_with("body"@, attrs),
        match lookup(doc, "body"@) {
            Some(content) => emit(content),
            None => Emitted::written(Seq::empty()),
        },
        "body"@,
    )
}

/// The body block. A string under `lang` becomes the `lang` attribute of the
/// tag; a `lang` that is no string is a fault.
pub open spec fn body(doc: Seq<(Seq<char>, Node)>) -> Emitted {
    match lookup(doc, "lang"@) {
        Some(Node::Text(lang)) => body_with(doc, seq![("lang"@, lang)]),
        Some(_) => Emitted::failed(Fault::NonStrLang),
        None => body_with(doc, Seq::empty()),
    }
}

/// The `html` element: the head block, then the body block.
pub open spec fn page(doc: Seq<(Seq<char>, Node)>) -> Emitted {
    enclosed(open_tag("html"@), head(doc).followed_by(body(doc)), "html"@)
}

/// The whole page: the doctype declaration, then the `html` element.
pub open spec fn document(doc: Seq<(Seq<char>, Node)>) -> Emitted {
    doctype(doc).followed_by(page(doc))
}

/// Whether `r` is the outcome of converting `doc` with a buffer that held
/// `start`: the page behind `start` where no step fails, and else the first
/// fault, without any output.
pub open spec fn converted(
    start: Seq<char>,
    doc: Seq<(Seq<char>, Node)>,
    r: Result<String, HtomlError>,
) -> bool {
    match r {
        Ok(page) => document(doc).fault is None && page@ == start + document(doc).text,
        Err(e) => document(doc).fault == Some(e@),
    }
}

/// Converting the same document twice gives the same outcome: the same page,
/// character for character, or the same fault.
pub proof fn lemma_conversion_is_a_function(
    start: Seq<char>,
    doc: Seq<(Seq<char>, Node)>,
    first: Result<String, HtomlError>,
    second: Result<String, HtomlError>,
)
    requires
        converted(start, doc, first),
        converted(start, doc, second),
    ensures
        match first {
            Ok(page) => second matches Ok(again) && page@ == again@,
            Err(e) => second matches Err(again) && e@ == again@,
        },
{
}

/// Once an item has failed, the items behind it add nothing.
pub proof fn lemma_items_stop(items: Seq<Node>, n: nat, m: nat)
    requires
        n <= m <= items.len(),
        emit_items(items, n).fault is Some,
    ensures
        emit_items(items, m) == emit_items(items, n),
    decreases m,
{
    if n < m {
        lemma_items_stop(items, n, (m - 1) as nat);
    }
}

/// A fault among the first entries of the head stays when more are walked.
pub proof fn lemma_head_stop(head: Seq<(Seq<char>, Node)>, n: nat, m: nat)
    requires
        n <= m <= head.len(),
        head_entries(head, n).fault is Some,
    ensures
        head_entries(head, m) == head_entries(head, n),
    decreases m,
{
    if n < m {
        lemma_head_stop(head, n, (m - 1) as nat);
    }
}

/// `part` occurs in `text` as a run of consecutive characters.
pub open spec fn contains(text: Seq<char>, part: Seq<char>) -> bool {
    exists|i: int, j: int| 0 <= i <= j <= text.len() && #[trigger] text.subrange(i, j) == part
}

/// A text contains what stands between its beginning and its end.
pub proof fn lemma_contains_middle(before: Seq<char>, part: Seq<char>, after: Seq<char>)
    ensures
        contains(before + part + after, part),
{
    let text = before + part + after;
    let i = before.len() as int;
    let j = i + part.len();
    assert(text.subrange(i, j) =~= part);
}

/// A document without a string under `html` is not converted: the fault is
/// `UndeclaredFile`, and nothing is written.
pub proof fn lemma_undeclared_document(doc: Seq<(Seq<char>, Node)>)
    requires
        !(lookup(doc, "html"@) matches Some(Node::Text(_))),
    ensures
        document(doc) == Emitted::failed(Fault::UndeclaredFile),
{
}

/// Without a string under `html` the doctype step writes nothing and fails
/// with `UndeclaredFile`.
pub proof fn lemma_undeclared_doctype(doc: Seq<(Seq<char>, Node)>)
    requires
        !(lookup(doc, "html"@) matches Some(Node::Text(_))),
    ensures
        doctype(doc) == Emitted::failed(Fault::UndeclaredFile),
{
}

/// A head whose first entry is a `title` that is no string fails with
/// `UnknownHead`, which names `title`; only `<head>` has been written then.
pub proof fn lemma_title_that_is_no_string(doc: Seq<(Seq<char>, Node)>, entries: Seq<(Seq<char>, Node)>)
    requires
        lookup(doc, "head"@) == Some(Node::Table(entries)),
        entries.len() > 0,
        entries[0].0 == "title"@,
        !(entries[0].1 is Text),
    ensures
        head(doc).fault == Some(Fault::UnknownHead("title"@)),
        head(doc).text == open_tag("head"@),
{
    reveal_with_fuel(head_entries, 2);
    lemma_head_stop(entries, 1, entries.len());
    assert(head(doc).text =~= open_tag("head"@));
}

/// A document that is converted is the doctype declaration, `<html>`, the
/// head block, the body block and `</html>`, in this order.
pub proof fn lemma_document_parts(doc: Seq<(Seq<char>, Node)>)
    requires
        document(doc).fault is None,
    ensures
        doctype(doc).fault is None,
        head(doc).fault is None,
        body(doc).fault is None,
        document(doc).text == doctype(doc).text + open_tag("html"@) + head(doc).text + body(doc).text
            + close_tag("html"@),
{
    assert(document(doc).text =~= doctype(doc).text + open_tag("html"@) + head(doc).text + body(
        doc,
    ).text + close_tag("html"@));
}

/// A head that holds a string `title` and nothing else is rendered as
/// `<head><title>`, the title, `</title></head>`, and the page of a converted
/// document contains exactly this.
pub proof fn lemma_head_with_title(doc: Seq<(Seq<char>, Node)>, title: Seq<char>)
    requires
        lookup(doc, "head"@) == Some(Node::Table(seq![("title"@, Node::Text(title))])),
    ensures
        head(doc) == Emitted::written("<head><title>"@ + title + "</title></head>"@),
        document(doc).fault is None ==> contains(
            document(doc).text,
            "<head><title>"@ + title + "</title></head>"@,
        ),
{
    let entries = seq![("title"@, Node::Text(title))];
    reveal_with_fuel(head_entries, 2);
    reveal_strlit("<");
    reveal_strlit(">");
    reveal_strlit("</");
    reveal_strlit("head");
    reveal_strlit("title");
    reveal_strlit("<head><title>");
    reveal_strlit("</title></head>");
    let block = "<head><title>"@ + title + "</title></head>"@;
    assert(head(doc).text =~= block);
    if document(doc).fault is None {
        lemma_document_parts(doc);
        lemma_contains_middle(
            doctype(doc).text + open_tag("html"@),
            block,
            body(doc).text + close_tag("html"@),
        );
        assert(document(doc).text =~= (doctype(doc).text + open_tag("html"@)) + block + (body(
            doc,
        ).text + close_tag("html"@)));
    }
}

/// The page of a converted document contains the rendering of its body.
pub proof fn lemma_document_holds_body(doc: Seq<(Seq<char>, Node)>, content: Node)
    requires
        lookup(doc, "body"@) == Some(content),
        document(doc).fault is None,
    ensures
        emit(content).fault is None,
        contains(document(doc).text, emit(content).text),
{
    lemma_document_parts(doc);
    let attrs = match lookup(doc, "lang"@) {
        Some(Node::Text(lang)) => seq![("lang"@, lang)],
        _ => Seq::empty(),
    };
    let before = doctype(doc).text + open_tag("html"@) + head(doc).text + open_tag_with(
        "body"@,
        attrs,
    );
    let after = close_tag("body"@) + close_tag("html"@);
    lemma_contains_middle(before, emit(content).text, after);
    assert(document(doc).text =~= before + emit(content).text + after);
}

/// An element of type `br` or `hr` is rendered as its self-closing tag,
/// whether or not it has a `cont`.
pub proof fn lemma_void_element(entries: Seq<(Seq<char>, Node)>, tag: Seq<char>)
    requires
        lookup(entries, "type"@) == Some(Node::Text(tag)),
        tag == "br"@ || tag == "hr"@,
    ensures
        emit(Node::Table(entries)) == Emitted::written(void_tag(tag)),
        tag == "br"@ ==> void_tag(tag) == "<br />"@,
        tag == "hr"@ ==> void_tag(tag) == "<hr />"@,
{
    reveal_strlit("<");
    reveal_strlit(" />");
    reveal_strlit("br");
    reveal_strlit("hr");
    reveal_strlit("<br />");
    reveal_strlit("<hr />");
    assert("<"@ + "br"@ + " />"@ =~= "<br />"@);
    assert("<"@ + "hr"@ + " />"@ =~= "<hr />"@);
}

/// A simple element whose `cont` is a string is rendered as `<tag>`, the
/// string as it is, `</tag>`.
pub proof fn lemma_simple_element_with_text(
    entries: Seq<(Seq<char>, Node)>,
    tag: Seq<char>,
    text: Seq<char>,
)
    requires
        lookup(entries, "type"@) == Some(Node::Text(tag)),
        element_kind(tag) == Some(ElementKind::Simple),
        lookup(entries, "cont"@) == Some(Node::Text(text)),
    ensures
        emit(Node::Table(entries)) == Emitted::written(
            "<"@ + tag + ">"@ + text + "</"@ + tag + ">"@,
        ),
{
    assert(emit(Node::Text(text)) == Emitted::written(text));
    assert(emit(Node::Table(entries)).text =~= "<"@ + tag + ">"@ + text + "</"@ + tag + ">"@);
}

/// An `a` element with a string `href` and a string `cont` is rendered as
/// `<a href="`, the target, `">`, the string, `</a>`.
pub proof fn lemma_anchor_with_text(
    entries: Seq<(Seq<char>, Node)>,
    href: Seq<char>,
    text: Seq<char>,
)
    requires
        lookup(entries, "type"@) == Some(Node::Text("a"@)),
        lookup(entries, "href"@) == Some(Node::Text(href)),
        lookup(entries, "cont"@) == Some(Node::Text(text)),
    ensures
        emit(Node::Table(entries)) == Emitted::written(
            "<a href=\""@ + href + "\">"@ + text + "</a>"@,
        ),
{
    lemma_anchor_kind();
    reveal_with_fuel(crate::html::attrs_text, 2);
    reveal_strlit("<");
    reveal_strlit(">");
    reveal_strlit("</");
    reveal_strlit("a");
    reveal_strlit(" ");
    reveal_strlit("href");
    reveal_strlit("=\"");
    reveal_strlit("\"");
    reveal_strlit("<a href=\"");
    reveal_strlit("\">");
    reveal_strlit("</a>");
    let attrs = seq![("href"@, href)];
    assert(emit(Node::Text(text)) == Emitted::written(text));
    assert(emit(Node::Table(entries)).text =~= "<a href=\""@ + href + "\">"@ + text + "</a>"@);
}

/// An `a` element without a string `href` fails with `AWithoutHref`, whatever
/// else it holds.
pub proof fn lemma_anchor_without_href(entries: Seq<(Seq<char>, Node)>)
    requires
        lookup(entries, "type"@) == Some(Node::Text("a"@)),
        !(lookup(entries, "href"@) matches Some(Node::Text(_))),
    ensures
        emit(Node::Table(entries)) == Emitted::failed(Fault::AWithoutHref),
{
    lemma_anchor_kind();
}

/// A simple element, or an `a` element with a string `href`, that has no
/// `cont` fails with `NoContent`.
pub proof fn lemma_element_without_content(entries: Seq<(Seq<char>, Node)>, tag: Seq<char>)
    requires
        lookup(entries, "type"@) == Some(Node::Text(tag)),
        element_kind(tag) == Some(ElementKind::Simple) || (element_kind(tag) == Some(
            ElementKind::Anchor,
        ) && lookup(entries, "href"@) matches Some(Node::Text(_))),
        lookup(entries, "cont"@) is None,
    ensures
        emit(Node::Table(entries)) == Emitted::failed(Fault::NoContent),
{
}

/// An element whose type is none of the known ones fails with
/// `UnknownElement`, which names the type.
pub proof fn lemma_unknown_element(entries: Seq<(Seq<char>, Node)>, tag: Seq<char>)
    requires
        lookup(entries, "type"@) == Some(Node::Text(tag)),
        element_kind(tag) is None,
    ensures
        emit(Node::Table(entries)) == Emitted::failed(Fault::UnknownElement(tag)),
{
}

/// An array of two strings is rendered as the first followed by the second,
/// with nothing between them.
pub proof fn lemma_two_texts(first: Seq<char>, second: Seq<char>)
    ensures
        emit(Node::Array(seq![Node::Text(first), Node::Text(second)])) == Emitted::written(
            first + second,
        ),
{
    let items = seq![Node::Text(first), Node::Text(second)];
    reveal_with_fuel(emit_items, 3);
    assert(emit_items(items, 2).text =~= first + second);
}

/// `a` is the one element type of its class.
pub proof fn lemma_anchor_kind()
    ensures
        element_kind("a"@) == Some(ElementKind::Anchor),
{
    reveal_strlit("a");
    reveal_strlit("br");
    reveal_strlit("hr");
    reveal_strlit("p");
    reveal_strlit("b");
    reveal_strlit("i");
    reveal_strlit("strong");
    reveal_strlit("mark");
    reveal_strlit("u");
    reveal_strlit("s");
    reveal_strlit("small");
    let a = "a"@;
    assert("br"@.len() == 2 && "hr"@.len() == 2);
    assert("strong"@.len() == 6 && "mark"@.len() == 4 && "small"@.len() == 5);
    assert("p"@[0] == 'p' && "b"@[0] == 'b' && "i"@[0] == 'i' && "u"@[0] == 'u' && "s"@[0] == 's');
}

} // verus!
