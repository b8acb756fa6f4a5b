//! Error values shared by every calculation domain.

use vstd::prelude::*;

verus! {

/// The category of a calculation error.
#[derive(Debug, Clone, Copy, PartialEq, Eq, Structural)]
pub enum ErrorKind {
    Parse,
    Eval,
    Overflow,
    DivisionByZero,
    Domain,
    DepthExceeded,
    NaNOrInf,
    UndefinedSymbol,
    Timeout,
    Usage,
}

/// A calculation error: a kind, an English detail message, an optional hint
/// for the user, and an optional message-catalogue key with its named
/// arguments.
#[derive(Debug, Clone, PartialEq, Eq)]
pub struct CalcError {
    pub kind: ErrorKind,
    pub message: String,
    pub hint: Option<String>,
    pub i18n_key: Option<&'static str>,
    pub i18n_args: Vec<(String, String)>,
}

/// The view of a list of named arguments: the pairs of character sequences.
pub open spec fn args_view(args: Seq<(String, String)>) -> Seq<(Seq<char>, Seq<char>)> {
    args.map_values(|p: (String, String)| (p.0@, p.1@))
}

impl CalcError {
    /// An error of the given kind with the given message and no catalogue key.
    pub fn new(kind: ErrorKind, message: String) -> (r: CalcError)
        ensures
            r.kind == kind,
            r.message@ == message@,
            r.hint.is_none(),
            r.i18n_key.is_none(),
            r.i18n_args@.len() == 0,
    {
        CalcError { kind, message, hint: None, i18n_key: None, i18n_args: Vec::new() }
    }

    /// A domain error (the input lies outside what the operation accepts).
    pub fn domain(message: String) -> (r: CalcError)
        ensures
            r.kind == ErrorKind::Domain,
            r.message@ == message@,
            r.hint.is_none(),
            r.i18n_key.is_none(),
            r.i18n_args@.len() == 0,
    {
        Self::new(ErrorKind::Domain, message)
    }

    /// An evaluation error (for instance an unbound variable).
    pub fn eval(message: String) -> (r: CalcError)
        ensures
            r.kind == ErrorKind::Eval,
            r.message@ == message@,
            r.hint.is_none(),
            r.i18n_key.is_none(),
            r.i18n_args@.len() == 0,
    {
        Self::new(ErrorKind::Eval, message)
    }

    /// An arithmetic overflow: a bound of the operation was exceeded.
    pub fn overflow() -> (r: CalcError)
        ensures
            r.kind == ErrorKind::Overflow,
            r.message@ == "arithmetic overflow"@,
            r.hint.is_none(),
            r.i18n_key.is_none(),
            r.i18n_args@.len() == 0,
    {
        Self::new(ErrorKind::Overflow, crate::text::owned("arithmetic overflow"))
    }

    /// A division (or reduction) by zero.
    pub fn division_by_zero() -> (r: CalcError)
        ensures
            r.kind == ErrorKind::DivisionByZero,
            r.message@ == "division by zero"@,
            r.hint.is_none(),
            r.i18n_key.is_none(),
            r.i18n_args@.len() == 0,
    {
        Self::new(ErrorKind::DivisionByZero, crate::text::owned("division by zero"))
    }

    /// Attaches a catalogue key and its named arguments, keeping kind and message.
    pub fn with_i18n(self, key: &'static str, args: Vec<(String, String)>) -> (r: CalcError)
        ensures
            r.kind == self.kind,
            r.message@ == self.message@,
            r.hint == self.hint,
            r.i18n_key == Some(key),
            r.i18n_args@ == args@,
    {
        CalcError { kind: self.kind, message: self.message, hint: self.hint, i18n_key: Some(key), i18n_args: args }
    }

    /// Attaches a hint for the user, keeping everything else.
    pub fn with_hint(self, hint: &str) -> (r: CalcError)
        ensures
            r.kind == self.kind,
            r.message@ == self.message@,
            r.hint matches Some(h) && h@ == hint@,
            r.i18n_key == self.i18n_key,
            r.i18n_args@ == self.i18n_args@,
    {
        CalcError {
            kind: self.kind,
            message: self.message,
            hint: Some(crate::text::owned(hint)),
            i18n_key: self.i18n_key,
            i18n_args: self.i18n_args,
        }
    }
}

} // verus!
