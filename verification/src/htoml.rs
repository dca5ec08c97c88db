//! The converter: from a document table to the text of an HTML page.

use vstd::prelude::*;
use vstd::string::StringExecFns;
use crate::arg::Argument;
use crate::error::{Fault, HtomlError};
use crate::html::{arg_views, open_tag, Html};
use crate::markup::{
    body, classify, converted, doctype, document, emit, emit_items, head, head_entries,
    lemma_head_stop, lemma_items_stop, page, ElementKind,
};
use crate::text::str_eq;
use crate::value::{
    lemma_lookup_decreases, lookup, parse_document, toml_diagnostic, toml_document, Content, Node,
    Table,
};

verus! {

/// A parsed document together with the buffer that its page is written to.
pub struct Htoml {
    toml: Table,
    html: Html,
}

impl Htoml {
    /// The entries of the document's table.
    pub closed spec fn entries(&self) -> Seq<(Seq<char>, Node)> {
        self.toml@
    }

    /// The text written to the buffer so far.
    pub closed spec fn written(&self) -> Seq<char> {
        self.html@
    }

    /// A converter for the document `table`, with an empty buffer.
    pub fn from_table(table: Table) -> (h: Htoml)
        ensures
            h.entries() == table@,
            h.written() == Seq::<char>::empty(),
    {
        Htoml { toml: table, html: Html::default() }
    }

    /// Parses `toml` as a TOML document. The result holds the table that the
    /// parser read and an empty buffer; a text that the parser rejects gives
    /// `InvalidToml` with the parser's diagnostic.
    pub fn new(toml: String) -> (r: Result<Htoml, HtomlError>)
        ensures
            match r {
                Ok(h) => toml_document(toml@) == Some(Node::Table(h.entries())) && h.written()
                    == Seq::<char>::empty(),
                Err(e) => toml_document(toml@) is None && e@ == Fault::InvalidToml(
                    toml_diagnostic(toml@),
                ),
            },
    {
        match parse_document(toml.as_str()) {
            Ok(value) => match Content::from_toml(&value) {
                Content::Table(table) => Ok(Htoml { toml: table, html: Html::default() }),
                _ => vstd::pervasive::unreached(),
            },
            Err(e) => Err(HtomlError::InvalidToml(e)),
        }
    }

    /// The text written to the buffer so far.
    pub fn output(&self) -> (text: &str)
        ensures
            text@ == self.written(),
    {
        self.html.as_str()
    }

    /// Writes the doctype declaration, from the string under `html`.
    pub fn version(&mut self) -> (r: Result<(), HtomlError>)
        ensures
            final(self).entries() == old(self).entries(),
            final(self).written() == old(self).written() + doctype(old(self).entries()).text,
            doctype(old(self).entries()).reported_by(r),
    {
        match self.toml.get("html") {
            Some(Content::Text(ver)) => {
                let mut name = String::from_str("!DOCTYPE ");
                name.append(ver.as_str());
                self.html.open_elem(name.as_str());
                Ok(())
            },
            _ => {
                Err(HtomlError::UndeclaredFile)
            },
        }
    }

    /// Writes the head block.
    pub fn parse_head(&mut self) -> (r: Result<(), HtomlError>)
        ensures
            final(self).entries() == old(self).entries(),
            final(self).written() == old(self).written() + head(old(self).entries()).text,
            head(old(self).entries()).reported_by(r),
    {
        match self.toml.get("head") {
            Some(Content::Table(table)) => {
                self.html.open_elem("head");
                let ghost opened = self.html@;
                let mut i: usize = 0;
                while i < table.len()
                    invariant
                        i <= table@.len(),
                        self.toml == old(self).toml,
                        lookup(old(self).entries(), "head"@) == Some(Node::Table(table@)),
                        opened == old(self).html@ + open_tag("head"@),
                        head_entries(table@, i as nat).fault is None,
                        self.html@ == opened + head_entries(table@, i as nat).text,
                    decreases table@.len() - i,
                {
                    let key = table.key_at(i);
                    let title = match table.value_at(i) {
                        Content::Text(text) => if str_eq(key, "title") {
                            Some(text.as_str())
                        } else {
                            None
                        },
                        _ => None,
                    };
                    match title {
                        Some(text) => {
                            self.html.insert_elem("title", text);
                        },
                        None => {
                            proof {
                                lemma_head_stop(table@, (i + 1) as nat, table@.len());
                                assert(self.html@ =~= old(self).html@ + head(
                                    old(self).entries(),
                                ).text);
                            }
                            return Err(HtomlError::UnknownHead(String::from_str(key)));
                        },
                    }
                    i += 1;
                }
                self.html.close_elem("head");
                Ok(())
            },
            Some(_) => {
                Err(HtomlError::NonTableHead)
            },
            None => {
                self.html.open_elem("head");
                self.html.close_elem("head");
                Ok(())
            },
        }
    }

    /// Writes the body block, with the `lang` attribute where the document has one.
    pub fn parse_body(&mut self) -> (r: Result<(), HtomlError>)
        ensures
            final(self).entries() == old(self).entries(),
            final(self).written() == old(self).written() + body(old(self).entries()).text,
            body(old(self).entries()).reported_by(r),
    {
        let mut args: Vec<Argument> = Vec::with_capacity(1);
        match self.toml.get("lang") {
            Some(Content::Text(s)) => {
                args.push(Argument { name: "lang", val: s.as_str() });
                assert(arg_views(args@) =~= seq![("lang"@, s@)]);
            },
            Some(_) => {
                return Err(HtomlError::NonStrLang);
            },
            None => {
            },
        }
        self.html.open_elem_with_args("body", args.as_slice());
        if let Some(content) = self.toml.get("body") {
            let inner = Self::parse_element(&mut self.html, content);
            if inner.is_err() {
                return inner;
            }
        }
        self.html.close_elem("body");
        Ok(())
    }

    /// Writes the `html` element: the head block and the body block between its tags.
    pub fn parse_html(&mut self) -> (r: Result<(), HtomlError>)
        ensures
            final(self).entries() == old(self).entries(),
            final(self).written() == old(self).written() + page(old(self).entries()).text,
            page(old(self).entries()).reported_by(r),
    {
        self.html.open_elem("html");
        self.parse_head()?;
        self.parse_body()?;
        self.html.close_elem("html");
        Ok(())
    }

    /// Converts the document: the text of the page where every step succeeds,
    /// and the first fault, with no output, where one does not.
    pub fn parse(self) -> (r: Result<String, HtomlError>)
        ensures
            converted(self.written(), self.entries(), r),
    {
        let mut run = self;
        run.version()?;
        run.parse_html()?;
        let page: String = run.html.into();
        assert(page@ =~= self.written() + document(self.entries()).text);
        Ok(page)
    }

    /// Renders the content value `elem` into `html`, depth first. On a fault
    /// the buffer keeps what was written before it.
    pub fn parse_element(html: &mut Html, elem: &Content) -> (r: Result<(), HtomlError>)
        ensures
            final(html)@ == old(html)@ + emit(elem@).text,
            emit(elem@).reported_by(r),
        decreases elem@,
    {
        match elem {
            Content::Text(s) => {
                html.push(s.as_str());
                Ok(())
            },
            Content::Table(table) => {
                let tag = match table.get("type") {
                    Some(Content::Text(t)) => t.as_str(),
                    _ => {
                        return Err(HtomlError::UntypedElement);
                    },
                };
                match classify(tag) {
                    Some(ElementKind::Void) => {
                        html.insert_void_elem(tag);
                        Ok(())
                    },
                    Some(ElementKind::Simple) => match table.get("cont") {
                        Some(cont) => {
                            proof {
                                lemma_lookup_decreases(table@, "cont"@);
                            }
                            html.open_elem(tag);
                            let inner = Self::parse_element(html, cont);
                            if inner.is_ok() {
                                html.close_elem(tag);
                            }
                            inner
                        },
                        None => {
                            Err(HtomlError::NoContent)
                        },
                    },
                    Some(ElementKind::Anchor) => {
                        let href = match table.get("href") {
                            Some(Content::Text(h)) => h.as_str(),
                            _ => {
                                return Err(HtomlError::AWithoutHref);
                            },
                        };
                        match table.get("cont") {
                            Some(cont) => {
                                proof {
                                    lemma_lookup_decreases(table@, "cont"@);
                                }
                                let args = [Argument { name: "href", val: href }];
                                assert(arg_views(args@) =~= seq![("href"@, href@)]);
                                html.open_elem_with_args(tag, &args);
                                let inner = Self::parse_element(html, cont);
                                if inner.is_ok() {
                                    html.close_elem(tag);
                                }
                                inner
                            },
                            None => {
                                Err(HtomlError::NoContent)
                            },
                        }
                    },
                    None => {
                        Err(HtomlError::UnknownElement(String::from_str(tag)))
                    },
                }
            },
            Content::Array(items) => {
                let ghost nodes = elem@->Array_0;
                let mut i: usize = 0;
                while i < items.len()
                    invariant
                        i <= items.len(),
                        elem@ == Node::Array(nodes),
                        nodes.len() == items@.len(),
                        forall|j: int| 0 <= j < items@.len() ==> nodes[j] == (#[trigger] items@[j])@,
                        html@ == old(html)@ + emit_items(nodes, i as nat).text,
                        emit_items(nodes, i as nat).fault is None,
                    decreases items.len() - i,
                {
                    let r = Self::parse_element(html, &items[i]);
                    if r.is_err() {
                        proof {
                            lemma_items_stop(nodes, (i + 1) as nat, nodes.len());
                        }
                        return r;
                    }
                    i += 1;
                }
                Ok(())
            },
            _ => {
                Err(HtomlError::UnknownContent)
            },
        }
    }
}

/// Whether `r` is the outcome of converting the text `source`: for a text
/// that the parser rejects, `InvalidToml` with the parser's diagnostic of this
/// text; for a document that the parser reads, what [`converted`] says of it
/// with an empty buffer.
pub open spec fn compiled(source: Seq<char>, r: Result<String, HtomlError>) -> bool {
    match toml_document(source) {
        Some(Node::Table(doc)) => converted(Seq::empty(), doc, r),
        _ => toml_document(source) is None && (r matches Err(e) && e@ == Fault::InvalidToml(
            toml_diagnostic(source),
        )),
    }
}

/// Converts the text of a TOML document into the text of its page: the whole
/// way from the source to the output. Every fault comes back as it arose.
pub fn compile(source: String) -> (r: Result<String, HtomlError>)
    ensures
        compiled(source@, r),
{
    Htoml::new(source)?.parse()
}

/// Converting the same text twice gives the same outcome: the same page,
/// character for character, or the same fault with the same payload.
pub proof fn lemma_compile_is_a_function(
    source: Seq<char>,
    first: Result<String, HtomlError>,
    second: Result<String, HtomlError>,
)
    requires
        compiled(source, first),
        compiled(source, second),
    ensures
        match first {
            Ok(page) => second matches Ok(again) && page@ == again@,
            Err(e) => second matches Err(again) && e@ == again@,
        },
{
}

/// Reading the same text twice gives the same document.
pub proof fn lemma_same_text_same_document(text: Seq<char>, first: Htoml, second: Htoml)
    requires
        toml_document(text) == Some(Node::Table(first.entries())),
        toml_document(text) == Some(Node::Table(second.entries())),
    ensures
        first.entries() == second.entries(),
{
}

} // verus!
