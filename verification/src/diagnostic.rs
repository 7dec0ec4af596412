//! The diagnostics with which generation fails.

use vstd::prelude::*;
use vstd::string::*;
use crate::syntax::Span;

verus! {

/// An element of the argument list is neither a flag nor `key = value`.
pub const FAILED_TO_PARSE: &'static str = "failed to parse arguments";

pub const EXPECTED_FLAG: &'static str = "expected one of gc/weakref/subclass/dict/unsendable";

pub const EXPECTED_KEY: &'static str = "expected one of freelist/name/extends/module";

/// The value of `name` is a string literal that does not hold one identifier.
pub const EXPECTED_IDENT: &'static str = "expected a single identifier in double-quotes";

pub const EXPECTED_NAME: &'static str = "expected type name (e.g. \"Name\")";

pub const EXPECTED_PATH: &'static str = "expected type path (e.g., my_mod::BaseClass)";

pub const EXPECTED_STRING: &'static str = "expected string literal (e.g., \"my_mod\")";

/// The value of `name` is a bare identifier: the message goes on with the
/// identifier in double quotes.
pub const UNQUOTED_NAME: &'static str =
    "since PyO3 0.13 a pyclass name should be in double-quotes, e.g. \"";

pub const QUOTE: &'static str = "\"";

pub const GENERIC_PARAMETERS: &'static str = "#[pyclass] cannot have generic parameters";

pub const ONLY_GET_AND_SET: &'static str = "only get and set are supported";

pub const TUPLE_FIELD: &'static str = "get/set is not supported on tuple struct fields";

/// A failure of generation: what is wrong, and where.
#[derive(Debug, PartialEq, Eq)]
pub struct Diagnostic {
    pub span: Span,
    pub message: String,
}

/// The view of a [`Diagnostic`].
pub struct DiagnosticView {
    pub span: Span,
    pub message: Seq<char>,
}

impl View for Diagnostic {
    type V = DiagnosticView;

    open spec fn view(&self) -> DiagnosticView {
        DiagnosticView { span: self.span, message: self.message@ }
    }
}

impl Diagnostic {
    pub fn new(span: Span, message: &str) -> (d: Diagnostic)
        ensures
            d@ == (DiagnosticView { span, message: message@ }),
    {
        Diagnostic { span, message: message.to_owned() }
    }
}

} // verus!
