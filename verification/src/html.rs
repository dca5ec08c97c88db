//! The output buffer: an append-only accumulator of markup.

use vstd::prelude::*;
use vstd::string::StringExecFns;
use crate::arg::Argument;

verus! {

/// The text of one attribute inside a tag: a space, the name, `="`, the value, `"`.
pub open spec fn attr_text(name: Seq<char>, val: Seq<char>) -> Seq<char> {
    " "@ + name + "=\""@ + val + "\""@
}

/// The text of the first `n` attributes of `args`, in order.
pub open spec fn attrs_text(args: Seq<(Seq<char>, Seq<char>)>, n: int) -> Seq<char>
    decreases n,
{
    if n <= 0 {
        Seq::empty()
    } else {
        attrs_text(args, n - 1) + attr_text(args[n - 1].0, args[n - 1].1)
    }
}

/// The names and values of a list of attributes, in order.
pub open spec fn arg_views(args: Seq<Argument<'_>>) -> Seq<(Seq<char>, Seq<char>)> {
    Seq::new(args.len(), |i: int| args[i]@)
}

/// An opening tag with attributes: `<elem name="val" ...>`.
pub open spec fn open_tag_with(elem: Seq<char>, args: Seq<(Seq<char>, Seq<char>)>) -> Seq<char> {
    "<"@ + elem + attrs_text(args, args.len() as int) + ">"@
}

/// An opening tag without attributes: `<elem>`.
pub open spec fn open_tag(elem: Seq<char>) -> Seq<char> {
    "<"@ + elem + ">"@
}

/// A closing tag: `</elem>`.
pub open spec fn close_tag(elem: Seq<char>) -> Seq<char> {
    "</"@ + elem + ">"@
}

/// A void element: `<elem />`.
pub open spec fn void_tag(elem: Seq<char>) -> Seq<char> {
    "<"@ + elem + " />"@
}

/// The append-only output buffer. Its view is the text written so far.
#[derive(Debug)]
pub struct Html(String);

impl View for Html {
    type V = Seq<char>;

    closed spec fn view(&self) -> Seq<char> {
        self.0@
    }
}

impl From<Html> for String {
    /// The text written so far.
    fn from(value: Html) -> (s: String)
        ensures
            s@ == value@,
    {
        value.0
    }
}

impl vstd::std_specs::convert::FromSpecImpl<Html> for String {
    open spec fn obeys_from_spec() -> bool {
        true
    }

    closed spec fn from_spec(value: Html) -> String {
        value.0
    }
}

impl Default for Html {
    fn default() -> (r: Html)
        ensures
            r@ == Seq::<char>::empty(),
    {
        Html(String::new())
    }
}

impl Html {
    /// The text written so far.
    pub fn as_str(&self) -> (text: &str)
        ensures
            text@ == self@,
    {
        self.0.as_str()
    }

    /// Appends `cont` verbatim.
    pub fn push(&mut self, cont: &str)
        ensures
            final(self)@ == old(self)@ + cont@,
    {
        self.0.append(cont);
    }

    /// Appends `<elem`, then each attribute of `args` in order, then `>`.
    pub fn open_elem_with_args(&mut self, elem: &str, args: &[Argument<'_>])
        ensures
            final(self)@ == old(self)@ + open_tag_with(elem@, arg_views(args@)),
    {
        self.0.append("<");
        self.0.append(elem);
        let ghost base = self.0@;
        let mut i: usize = 0;
        while i < args.len()
            invariant
                i <= args.len(),
                base == old(self)@ + "<"@ + elem@,
                self.0@ == base + attrs_text(arg_views(args@), i as int),
            decreases args.len() - i,
        {
            let arg = &args[i];
            self.0.append(" ");
            self.0.append(arg.name);
            self.0.append("=\"");
            self.0.append(arg.val);
            self.0.append("\"");
            i += 1;
        }
        self.0.append(">");
    }

    /// Appends `<elem>`.
    pub fn open_elem(&mut self, elem: &str)
        ensures
            final(self)@ == old(self)@ + open_tag(elem@),
    {
        self.open_elem_with_args(elem, &[]);
    }

    /// Appends `</elem>`.
    pub fn close_elem(&mut self, elem: &str)
        ensures
            final(self)@ == old(self)@ + close_tag(elem@),
    {
        self.0.append("</");
        self.0.append(elem);
        self.0.append(">");
    }

    /// Appends the opening tag with `args`, then `cont` verbatim, then the closing tag.
    pub fn insert_elem_with_args(&mut self, elem: &str, cont: &str, args: &[Argument<'_>])
        ensures
            final(self)@ == old(self)@ + open_tag_with(elem@, arg_views(args@)) + cont@ + close_tag(
                elem@,
            ),
    {
        self.open_elem_with_args(elem, args);
        self.0.append(cont);
        self.close_elem(elem);
    }

    /// Appends `<elem>`, then `cont` verbatim, then `</elem>`.
    pub fn insert_elem(&mut self, elem: &str, cont: &str)
        ensures
            final(self)@ == old(self)@ + open_tag(elem@) + cont@ + close_tag(elem@),
    {
        self.insert_elem_with_args(elem, cont, &[]);
    }

    /// Appends `<elem />`.
    pub fn insert_void_elem(&mut self, elem: &str)
        ensures
            final(self)@ == old(self)@ + void_tag(elem@),
    {
        self.0.append("<");
        self.0.append(elem);
        self.0.append(" />");
    }
}

} // verus!
