//! The error taxonomy.
//!
//! Parse and rule errors are document-level and fatal; query errors are
//! raised while a field resolves and carry the position (and, for resolver
//! and hook failures, the path) of the failing field. Every failure surfaces
//! through the response envelope as a wire-shaped error object.

use crate::json::json_val_of;
use crate::json::JsonVal;
use crate::json::JsonValue;
use vstd::prelude::*;
use vstd::string::StringExecFns;

verus! {

/// A 1-based source position.
#[derive(Debug, PartialEq, Eq, Structural, Clone, Copy)]
pub struct Pos {
    pub line: u32,
    pub column: u32,
}

/// A field-scoped failure raised by a resolver or a directive hook: a message
/// and an optional structured payload for the response's `extensions` key.
#[derive(Debug, PartialEq)]
pub struct FieldError {
    pub message: String,
    pub extensions: Option<JsonValue>,
}

/// The mathematical form of a [`FieldError`].
pub struct FieldErrorV {
    pub message: Seq<char>,
    pub extensions: Option<JsonVal>,
}

impl View for FieldError {
    type V = FieldErrorV;

    open spec fn view(&self) -> FieldErrorV {
        FieldErrorV {
            message: self.message@,
            extensions: match self.extensions {
                Some(e) => Some(json_val_of(e)),
                None => None,
            },
        }
    }
}

impl FieldError {
    /// A failure that carries a bare message.
    pub fn new(message: String) -> (r: FieldError)
        ensures
            r@.message == message@,
            r@.extensions is None,
    {
        FieldError { message, extensions: None }
    }

    /// A failure that carries a message and a structured payload.
    pub fn with_extensions(message: String, extensions: JsonValue) -> (r: FieldError)
        ensures
            r@.message == message@,
            r@.extensions == Some(extensions@),
    {
        FieldError { message, extensions: Some(extensions) }
    }
}

/// What a resolver or a directive hook hands back.
pub type FieldResult<T> = Result<T, FieldError>;

/// Why an input validator rejected a coerced value.
#[derive(Debug, PartialEq)]
pub enum InputValueError {
    /// A validator's own reason.
    Custom(String),
}

/// What an input validator hands back: the possibly transformed value, or a
/// rejection.
pub type InputValueResult<T> = Result<T, InputValueError>;

/// A fatal failure of the external query parser, consumed verbatim.
#[derive(Debug, PartialEq)]
pub struct ParseError {
    pub message: String,
    pub pos: Pos,
}

/// The mathematical form of a [`ParseError`].
pub struct ParseErrorV {
    pub message: Seq<char>,
    pub pos: Pos,
}

impl View for ParseError {
    type V = ParseErrorV;

    open spec fn view(&self) -> ParseErrorV {
        ParseErrorV { message: self.message@, pos: self.pos }
    }
}

/// One violation reported by the external query validator, consumed verbatim.
#[derive(Debug, PartialEq)]
pub struct RuleError {
    pub message: String,
    pub locations: Vec<Pos>,
}

/// The mathematical form of a [`RuleError`].
pub struct RuleErrorV {
    pub message: Seq<char>,
    pub locations: Seq<Pos>,
}

impl View for RuleError {
    type V = RuleErrorV;

    open spec fn view(&self) -> RuleErrorV {
        RuleErrorV { message: self.message@, locations: self.locations@ }
    }
}

impl ParseError {
    /// A structural copy.
    pub fn duplicate(&self) -> (r: ParseError)
        ensures
            r@ == self@,
    {
        ParseError { message: self.message.clone(), pos: self.pos }
    }
}

impl RuleError {
    /// A structural copy.
    pub fn duplicate(&self) -> (r: RuleError)
        ensures
            r@ == self@,
    {
        let mut locations: Vec<Pos> = Vec::new();
        let mut i: usize = 0;
        while i < self.locations.len()
            invariant
                i <= self.locations@.len(),
                locations@ =~= self.locations@.take(i as int),
            decreases self.locations@.len() - i,
        {
            locations.push(self.locations[i]);
            i = i + 1;
        }
        proof {
            assert(locations@ =~= self.locations@);
        }
        let r = RuleError { message: self.message.clone(), locations };
        proof {
            assert(r@.locations =~= self@.locations);
        }
        r
    }
}

/// What went wrong while one field or one input value was handled.
#[derive(Debug, PartialEq)]
pub enum QueryError {
    /// A resolver or a directive hook failed.
    FieldError { err: String, extended_error: Option<JsonValue> },
    /// An input validator rejected a coerced argument or input-object field.
    ParseInputValue { reason: String },
    /// The operation references a variable that the request did not define.
    VarNotDefined { name: String },
    /// The operation kind is not supported by this engine.
    NotSupported,
}

/// The mathematical form of a [`QueryError`].
pub enum QueryErrorV {
    FieldError { err: Seq<char>, extended_error: Option<JsonVal> },
    ParseInputValue { reason: Seq<char> },
    VarNotDefined { name: Seq<char> },
    NotSupported,
}

impl View for QueryError {
    type V = QueryErrorV;

    open spec fn view(&self) -> QueryErrorV {
        match self {
            QueryError::FieldError { err, extended_error } => QueryErrorV::FieldError {
                err: err@,
                extended_error: match extended_error {
                    Some(e) => Some(json_val_of(*e)),
                    None => None,
                },
            },
            QueryError::ParseInputValue { reason } => QueryErrorV::ParseInputValue {
                reason: reason@,
            },
            QueryError::VarNotDefined { name } => QueryErrorV::VarNotDefined { name: name@ },
            QueryError::NotSupported => QueryErrorV::NotSupported,
        }
    }
}

/// The message a query error shows on the wire.
pub open spec fn query_error_message(e: QueryErrorV) -> Seq<char> {
    match e {
        QueryErrorV::FieldError { err, .. } => err,
        QueryErrorV::ParseInputValue { reason } => reason,
        QueryErrorV::VarNotDefined { name } => "Variable \""@ + name + "\" is not defined."@,
        QueryErrorV::NotSupported => "Not supported."@,
    }
}

impl QueryError {
    /// Renders the error's wire message.
    pub fn message(&self) -> (s: String)
        ensures
            s@ == query_error_message(self@),
    {
        match self {
            QueryError::FieldError { err, .. } => err.clone(),
            QueryError::ParseInputValue { reason } => reason.clone(),
            QueryError::VarNotDefined { name } => {
                let mut s = String::new();
                s.append("Variable \"");
                s.append(name.as_str());
                s.append("\" is not defined.");
                proof {
                    assert(s@ =~= query_error_message(self@));
                }
                s
            },
            QueryError::NotSupported => String::from_str("Not supported."),
        }
    }
}

/// A request-level failure: exactly one of these reaches the envelope.
#[derive(Debug, PartialEq)]
pub enum Error {
    /// The query text did not parse; nothing was executed.
    Parse(ParseError),
    /// A field or input value failed during execution, with the position of
    /// the failing field and, for resolver and hook failures, its path.
    Query { pos: Pos, path: Option<JsonValue>, err: QueryError },
    /// The document broke one or more validation rules; nothing was executed.
    Rule { errors: Vec<RuleError> },
}

/// The mathematical form of an [`Error`].
pub enum ErrorV {
    Parse(ParseErrorV),
    Query { pos: Pos, path: Option<JsonVal>, err: QueryErrorV },
    Rule { errors: Seq<RuleErrorV> },
}

impl View for Error {
    type V = ErrorV;

    open spec fn view(&self) -> ErrorV {
        match self {
            Error::Parse(p) => ErrorV::Parse(p@),
            Error::Query { pos, path, err } => ErrorV::Query {
                pos: *pos,
                path: match path {
                    Some(p) => Some(json_val_of(*p)),
                    None => None,
                },
                err: err@,
            },
            Error::Rule { errors } => ErrorV::Rule {
                errors: Seq::new(errors@.len(), |i: int| errors@[i]@),
            },
        }
    }
}

} // verus!
