//! Grammar-level parse errors.
//!
//! Every failure a combinator can produce is an ordinary value of
//! [`SQLError`]; the engine never panics on bad input.  `MismatchToken`
//! comes from a literal match, `CannotFindIdent` from the identifier
//! primitive, `Visited` from the left-recursion guard, and `Merge` pairs
//! the failures of both branches of an ordered choice.
use vstd::prelude::*;

verus! {

/// An error produced while parsing, together with the data needed for a
/// diagnostic.
#[derive(Debug)]
pub enum SQLError {
    /// The input at the given offset does not start with the expected literal.
    MismatchToken(usize, String),
    /// An error with no further information.
    Unknown,
    /// A recursive rule was re-entered at the same position and was cut off
    /// by the guard against left recursion.
    Visited,
    /// Both branches of an ordered choice failed; both errors are kept.
    Merge(Box<SQLError>, Box<SQLError>),
    /// No identifier character was found at the given offset.
    CannotFindIdent(usize),
}

/// The mathematical shape of an [`SQLError`]: offsets become `int`,
/// strings become `Seq<char>`.
pub enum ErrModel {
    MismatchToken(int, Seq<char>),
    Unknown,
    Visited,
    Merge(Box<ErrModel>, Box<ErrModel>),
    CannotFindIdent(int),
}

/// Recursive definition behind [`SQLError::deep_view`].
pub open spec fn err_view(e: SQLError) -> ErrModel
    decreases e,
{
    match e {
        SQLError::MismatchToken(at, tok) => ErrModel::MismatchToken(at as int, tok@),
        SQLError::Unknown => ErrModel::Unknown,
        SQLError::Visited => ErrModel::Visited,
        SQLError::Merge(a, b) => ErrModel::Merge(
            Box::new(err_view(*a)),
            Box::new(err_view(*b)),
        ),
        SQLError::CannotFindIdent(at) => ErrModel::CannotFindIdent(at as int),
    }
}

impl DeepView for SQLError {
    type V = ErrModel;

    open spec fn deep_view(&self) -> ErrModel {
        err_view(*self)
    }
}

impl Clone for SQLError {
    fn clone(&self) -> (r: SQLError)
        ensures
            r.deep_view() == self.deep_view(),
        decreases *self,
    {
        match self {
            SQLError::MismatchToken(at, tok) => SQLError::MismatchToken(*at, tok.clone()),
            SQLError::Unknown => SQLError::Unknown,
            SQLError::Visited => SQLError::Visited,
            SQLError::Merge(a, b) => SQLError::Merge(
                Box::new((**a).clone()),
                Box::new((**b).clone()),
            ),
            SQLError::CannotFindIdent(at) => SQLError::CannotFindIdent(*at),
        }
    }
}

} // verus!

verus! {

/// A type with a distinguished value for a rule cut off by the guard
/// against left recursion.
pub trait Visited: Sized {
    fn visited() -> Self;
}

impl Visited for SQLError {
    fn visited() -> (r: SQLError) {
        SQLError::Visited
    }
}

} // verus!
