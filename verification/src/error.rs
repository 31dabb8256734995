//! The errors of the parser and the generator, with the context in which a parse error arose.

use vstd::prelude::*;
use crate::model::{opt_v, views};
use crate::text::push_str_chars;
use crate::timestamp::{dec, push_dec_u64};

verus! {

/// Where a parse error arose.
#[derive(Debug, Default)]
pub struct ErrorContext {
    /// The reader's byte offset in the document.
    pub byte_offset: u64,
    /// The id of the line being read, if any.
    pub line_id: Option<String>,
    /// The path of open tags, such as `["tt", "body", "div", "p", "span"]`.
    pub tag_stack: Vec<String>,
    /// The attribute being read, if any.
    pub current_attribute: Option<String>,
    /// The text that caused the error, if known.
    pub offending_string: Option<String>,
}

/// Mathematical model of an [`ErrorContext`].
pub struct ErrorContextV {
    pub byte_offset: u64,
    pub line_id: Option<Seq<char>>,
    pub tag_stack: Seq<Seq<char>>,
    pub current_attribute: Option<Seq<char>>,
    pub offending_string: Option<Seq<char>>,
}

impl View for ErrorContext {
    type V = ErrorContextV;

    open spec fn view(&self) -> ErrorContextV {
        ErrorContextV {
            byte_offset: self.byte_offset,
            line_id: crate::model::opt_v(self.line_id),
            tag_stack: crate::model::views(self.tag_stack@),
            current_attribute: crate::model::opt_v(self.current_attribute),
            offending_string: crate::model::opt_v(self.offending_string),
        }
    }
}

/// What went wrong in a parse.
#[derive(Debug)]
pub enum ParseErrorKind {
    /// A malformed attribute, with the message of the XML layer.
    AttrError(String),
    /// An unknown or malformed entity or character reference.
    EntityError(String),
    /// A timestamp that cannot be read, as it was written.
    InvalidTimestamp(String),
    /// A required attribute is missing; its name.
    MissingAttribute(String),
    /// The document ends inside an element.
    UnexpectedEof,
    /// A syntax error of XML, with the message of the XML layer.
    XmlError(String),
}

/// Mathematical model of a [`ParseErrorKind`].
pub enum ParseErrorKindV {
    AttrError(Seq<char>),
    EntityError(Seq<char>),
    InvalidTimestamp(Seq<char>),
    MissingAttribute(Seq<char>),
    UnexpectedEof,
    XmlError(Seq<char>),
}

impl View for ParseErrorKind {
    type V = ParseErrorKindV;

    open spec fn view(&self) -> ParseErrorKindV {
        match self {
            ParseErrorKind::AttrError(s) => ParseErrorKindV::AttrError(s@),
            ParseErrorKind::EntityError(s) => ParseErrorKindV::EntityError(s@),
            ParseErrorKind::InvalidTimestamp(s) => ParseErrorKindV::InvalidTimestamp(s@),
            ParseErrorKind::MissingAttribute(s) => ParseErrorKindV::MissingAttribute(s@),
            ParseErrorKind::UnexpectedEof => ParseErrorKindV::UnexpectedEof,
            ParseErrorKind::XmlError(s) => ParseErrorKindV::XmlError(s@),
        }
    }
}

/// The errors of the library.
#[derive(Debug)]
pub enum TTMLProcessorError {
    /// A parse error and where it arose.
    ParseError { kind: ParseErrorKind, context: Box<ErrorContext> },
    /// The XML writer failed; its message.
    IoError(String),
    /// A tag name or a text of the document is not UTF-8; the message of the decoding error.
    Utf8Error(String),
    /// The generated document is not UTF-8.
    FromUtf8Error,
}

/// Mathematical model of a [`TTMLProcessorError`].
pub enum TTMLProcessorErrorV {
    ParseError { kind: ParseErrorKindV, context: ErrorContextV },
    IoError(Seq<char>),
    Utf8Error(Seq<char>),
    FromUtf8Error,
}

impl View for TTMLProcessorError {
    type V = TTMLProcessorErrorV;

    open spec fn view(&self) -> TTMLProcessorErrorV {
        match self {
            TTMLProcessorError::ParseError { kind, context } => TTMLProcessorErrorV::ParseError {
                kind: kind@,
                context: (**context)@,
            },
            TTMLProcessorError::IoError(s) => TTMLProcessorErrorV::IoError(s@),
            TTMLProcessorError::Utf8Error(s) => TTMLProcessorErrorV::Utf8Error(s@),
            TTMLProcessorError::FromUtf8Error => TTMLProcessorErrorV::FromUtf8Error,
        }
    }
}

/// The library's result type.
pub type Result<T> = core::result::Result<T, TTMLProcessorError>;

/// The message of a parse error kind.
pub open spec fn kind_message(k: ParseErrorKindV) -> Seq<char> {
    match k {
        ParseErrorKindV::AttrError(m) => "XML attribute error: "@ + m,
        ParseErrorKindV::EntityError(s) => "Unknown XML entity: "@ + s,
        ParseErrorKindV::InvalidTimestamp(s) => "Invalid timestamp format: "@ + s,
        ParseErrorKindV::MissingAttribute(s) => "Missing required attribute: "@ + s,
        ParseErrorKindV::UnexpectedEof => "Unexpected end of file"@,
        ParseErrorKindV::XmlError(m) => "XML parsing error: "@ + m,
    }
}

/// The name of a parse error kind.
pub open spec fn kind_name(k: ParseErrorKindV) -> Seq<char> {
    match k {
        ParseErrorKindV::AttrError(_) => "AttrError"@,
        ParseErrorKindV::EntityError(_) => "EntityError"@,
        ParseErrorKindV::InvalidTimestamp(_) => "InvalidTimestamp"@,
        ParseErrorKindV::MissingAttribute(_) => "MissingAttribute"@,
        ParseErrorKindV::UnexpectedEof => "UnexpectedEof"@,
        ParseErrorKindV::XmlError(_) => "XmlError"@,
    }
}

/// The message of an error; a parse error tells its byte offset.
pub open spec fn error_message(e: TTMLProcessorErrorV) -> Seq<char> {
    match e {
        TTMLProcessorErrorV::ParseError { kind, context } => kind_message(kind) + " (at byte offset "@ + dec(
            context.byte_offset as nat,
        ) + ")"@,
        TTMLProcessorErrorV::IoError(m) => "IO error: "@ + m,
        TTMLProcessorErrorV::Utf8Error(m) => "UTF-8 decoding error: "@ + m,
        TTMLProcessorErrorV::FromUtf8Error => "UTF-8 from bytes error"@,
    }
}

impl ParseErrorKind {
    /// The name of the kind, such as `InvalidTimestamp`.
    pub fn name(&self) -> (r: &'static str)
        ensures
            r@ == kind_name(self@),
    {
        match self {
            ParseErrorKind::AttrError(_) => "AttrError",
            ParseErrorKind::EntityError(_) => "EntityError",
            ParseErrorKind::InvalidTimestamp(_) => "InvalidTimestamp",
            ParseErrorKind::MissingAttribute(_) => "MissingAttribute",
            ParseErrorKind::UnexpectedEof => "UnexpectedEof",
            ParseErrorKind::XmlError(_) => "XmlError",
        }
    }

    /// The message of the kind, such as `Invalid timestamp format: 1:xx`.
    pub fn message(&self) -> (r: String)
        ensures
            r@ == kind_message(self@),
    {
        let mut v: Vec<char> = Vec::new();
        match self {
            ParseErrorKind::AttrError(m) => {
                push_str_chars(&mut v, "XML attribute error: ");
                push_str_chars(&mut v, m.as_str());
            },
            ParseErrorKind::EntityError(m) => {
                push_str_chars(&mut v, "Unknown XML entity: ");
                push_str_chars(&mut v, m.as_str());
            },
            ParseErrorKind::InvalidTimestamp(m) => {
                push_str_chars(&mut v, "Invalid timestamp format: ");
                push_str_chars(&mut v, m.as_str());
            },
            ParseErrorKind::MissingAttribute(m) => {
                push_str_chars(&mut v, "Missing required attribute: ");
                push_str_chars(&mut v, m.as_str());
            },
            ParseErrorKind::UnexpectedEof => {
                push_str_chars(&mut v, "Unexpected end of file");
            },
            ParseErrorKind::XmlError(m) => {
                push_str_chars(&mut v, "XML parsing error: ");
                push_str_chars(&mut v, m.as_str());
            },
        }
        assert(v@ =~= kind_message(self@));
        assert(v@.subrange(0, v.len() as int) =~= v@);
        crate::text::string_from_chars(&v, 0, v.len())
    }
}

impl TTMLProcessorError {
    /// The message of the error; a parse error tells its byte offset.
    pub fn message(&self) -> (r: String)
        ensures
            r@ == error_message(self@),
    {
        let mut v: Vec<char> = Vec::new();
        match self {
            TTMLProcessorError::ParseError { kind, context } => {
                let k = kind.message();
                push_str_chars(&mut v, k.as_str());
                push_str_chars(&mut v, " (at byte offset ");
                push_dec_u64(&mut v, context.byte_offset);
                push_str_chars(&mut v, ")");
            },
            TTMLProcessorError::IoError(m) => {
                push_str_chars(&mut v, "IO error: ");
                push_str_chars(&mut v, m.as_str());
            },
            TTMLProcessorError::Utf8Error(m) => {
                push_str_chars(&mut v, "UTF-8 decoding error: ");
                push_str_chars(&mut v, m.as_str());
            },
            TTMLProcessorError::FromUtf8Error => {
                push_str_chars(&mut v, "UTF-8 from bytes error");
            },
        }
        assert(v@ =~= error_message(self@));
        assert(v@.subrange(0, v.len() as int) =~= v@);
        crate::text::string_from_chars(&v, 0, v.len())
    }
}

/// An error as handed to JavaScript: its kind and message, and the context of a parse error.
#[derive(Debug)]
pub struct JsError {
    /// The kind: the parse error kind, or `IoError`, `Utf8Error`, `FromUtf8Error`.
    pub kind: String,
    /// The message.
    pub message: String,
    /// The byte offset of a parse error.
    pub byte_offset: Option<u64>,
    /// The line id of a parse error.
    pub line_id: Option<String>,
    /// The open tags of a parse error.
    pub tag_stack: Option<Vec<String>>,
    /// The attribute of a parse error.
    pub current_attribute: Option<String>,
    /// The offending text of a parse error.
    pub offending_string: Option<String>,
}

/// Mathematical model of a [`JsError`].
pub struct JsErrorV {
    pub kind: Seq<char>,
    pub message: Seq<char>,
    pub byte_offset: Option<u64>,
    pub line_id: Option<Seq<char>>,
    pub tag_stack: Option<Seq<Seq<char>>>,
    pub current_attribute: Option<Seq<char>>,
    pub offending_string: Option<Seq<char>>,
}

impl View for JsError {
    type V = JsErrorV;

    open spec fn view(&self) -> JsErrorV {
        JsErrorV {
            kind: self.kind@,
            message: self.message@,
            byte_offset: self.byte_offset,
            line_id: opt_v(self.line_id),
            tag_stack: crate::model::opt_views(self.tag_stack),
            current_attribute: opt_v(self.current_attribute),
            offending_string: opt_v(self.offending_string),
        }
    }
}

/// The JavaScript error of an error: a parse error gives its kind's name and its context; the
/// others their own name and no context.
pub open spec fn spec_js_error(e: TTMLProcessorErrorV) -> JsErrorV {
    match e {
        TTMLProcessorErrorV::ParseError { kind, context } => JsErrorV {
            kind: kind_name(kind),
            message: error_message(e),
            byte_offset: Some(context.byte_offset),
            line_id: context.line_id,
            tag_stack: Some(context.tag_stack),
            current_attribute: context.current_attribute,
            offending_string: context.offending_string,
        },
        _ => JsErrorV {
            kind: match e {
                TTMLProcessorErrorV::IoError(_) => "IoError"@,
                TTMLProcessorErrorV::Utf8Error(_) => "Utf8Error"@,
                _ => "FromUtf8Error"@,
            },
            message: error_message(e),
            byte_offset: None,
            line_id: None,
            tag_stack: None,
            current_attribute: None,
            offending_string: None,
        },
    }
}

impl JsError {
    /// The JavaScript error of an error.
    pub fn from_error(err: &TTMLProcessorError) -> (r: JsError)
        ensures
            r@ == spec_js_error(err@),
    {
        let message = err.message();
        match err {
            TTMLProcessorError::ParseError { kind, context } => JsError {
                kind: crate::text::copy_str(kind.name()),
                message,
                byte_offset: Some(context.byte_offset),
                line_id: crate::parser::state::copy_opt_str(&context.line_id),
                tag_stack: Some(crate::parser::state::copy_strings(&context.tag_stack)),
                current_attribute: crate::parser::state::copy_opt_str(&context.current_attribute),
                offending_string: crate::parser::state::copy_opt_str(&context.offending_string),
            },
            TTMLProcessorError::IoError(_) => JsError {
                kind: crate::text::copy_str("IoError"),
                message,
                byte_offset: None,
                line_id: None,
                tag_stack: None,
                current_attribute: None,
                offending_string: None,
            },
            TTMLProcessorError::Utf8Error(_) => JsError {
                kind: crate::text::copy_str("Utf8Error"),
                message,
                byte_offset: None,
                line_id: None,
                tag_stack: None,
                current_attribute: None,
                offending_string: None,
            },
            TTMLProcessorError::FromUtf8Error => JsError {
                kind: crate::text::copy_str("FromUtf8Error"),
                message,
                byte_offset: None,
                line_id: None,
                tag_stack: None,
                current_attribute: None,
                offending_string: None,
            },
        }
    }
}

} // verus!
