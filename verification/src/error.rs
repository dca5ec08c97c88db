//! The errors of a conversion, and what contracts say of them.

use vstd::prelude::*;

verus! {

/// The diagnostic of the `toml` parser. Nothing of its contents is known
/// here; it is carried as it is.
#[verifier::external_type_specification]
#[verifier::external_body]
pub struct ExTomlError(toml::de::Error);

/// Why a conversion, or the command around it, failed.
#[derive(Debug, PartialEq, Eq)]
pub enum HtomlError {
    /// No subcommand was given.
    NoCommand,
    /// The subcommand is not one of the known ones.
    UnknownCommand(String),
    /// `compile` was given without a file.
    NoFileGiven,
    /// The text is not a TOML document.
    InvalidToml(toml::de::Error),
    /// The document has no string under `html`.
    UndeclaredFile,
    /// The source file could not be read.
    ReadFileError,
    /// The destination file could not be written.
    WriteFileError,
    /// `head` is present and is not a table.
    NonTableHead,
    /// `head` holds a key other than `title`.
    UnknownHead(String),
    /// `class` is neither a string nor an array of strings.
    UnknownClass,
    /// The named attribute is not a string.
    NonStringAttr(String),
    /// An element table has no string under `type`.
    UntypedElement,
    /// The element type is not one of the known ones.
    UnknownElement(String),
    /// An element that needs content has no `cont`.
    NoContent,
    /// A content value is neither text, nor a table, nor an array.
    UnknownContent,
    /// An `a` element has no string under `href`.
    AWithoutHref,
    /// `lang` is present and is not a string.
    NonStrLang,
}

/// The mathematical view of an [`HtomlError`]: the same cases, with names as
/// character sequences and the parser's diagnostic as it is.
pub enum Fault {
    NoCommand,
    UnknownCommand(Seq<char>),
    NoFileGiven,
    InvalidToml(toml::de::Error),
    UndeclaredFile,
    ReadFileError,
    WriteFileError,
    NonTableHead,
    UnknownHead(Seq<char>),
    UnknownClass,
    NonStringAttr(Seq<char>),
    UntypedElement,
    UnknownElement(Seq<char>),
    NoContent,
    UnknownContent,
    AWithoutHref,
    NonStrLang,
}

impl View for HtomlError {
    type V = Fault;

    open spec fn view(&self) -> Fault {
        match self {
            HtomlError::NoCommand => Fault::NoCommand,
            HtomlError::UnknownCommand(name) => Fault::UnknownCommand(name@),
            HtomlError::NoFileGiven => Fault::NoFileGiven,
            HtomlError::InvalidToml(diagnostic) => Fault::InvalidToml(*diagnostic),
            HtomlError::UndeclaredFile => Fault::UndeclaredFile,
            HtomlError::ReadFileError => Fault::ReadFileError,
            HtomlError::WriteFileError => Fault::WriteFileError,
            HtomlError::NonTableHead => Fault::NonTableHead,
            HtomlError::UnknownHead(key) => Fault::UnknownHead(key@),
            HtomlError::UnknownClass => Fault::UnknownClass,
            HtomlError::NonStringAttr(name) => Fault::NonStringAttr(name@),
            HtomlError::UntypedElement => Fault::UntypedElement,
            HtomlError::UnknownElement(tag) => Fault::UnknownElement(tag@),
            HtomlError::NoContent => Fault::NoContent,
            HtomlError::UnknownContent => Fault::UnknownContent,
            HtomlError::AWithoutHref => Fault::AWithoutHref,
            HtomlError::NonStrLang => Fault::NonStrLang,
        }
    }
}

} // verus!
