//! Declarative annotations for `fatal` or `jfyi` error variants.
//!
//! An error type is annotated per variant: `#[fatal]` (or `#[fatal(true)]`),
//! `#[fatal(false)]`, `#[fatal(forward)]`, or no annotation at all.  From
//! these annotations the crate decides what `Fatality::is_fatal` answers for
//! each variant and, for `splitable` enums, how an error splits into a fatal
//! and an informational ("just for your information") part.
//!
//! `generate::fatality_text` is the whole expansion of `#[fatality(..)]`:
//! it reads the item from its source text and writes the generated code.

pub mod attr;
pub mod decl;
pub mod expand;
pub mod generate;
pub mod plan;
pub mod read;
pub mod render;
pub mod text;
pub mod value;

use vstd::prelude::*;

verus! {

/// Determine the fatality of an error.
pub trait Fatality {
    /// Whether `is_fatal` of this type answers `fatal`.  An implementation
    /// that defines `fatal` and proves `is_fatal` against it says so; every
    /// other implementation keeps this default, and then nothing is known
    /// of its answers.
    closed spec fn obeys_fatality() -> bool {
        false
    }

    /// What `is_fatal` answers for this value, where the type obeys.
    closed spec fn fatal(&self) -> bool {
        arbitrary()
    }

    /// Returns `true` if the error variant is _fatal_
    /// or `false` if it is more of a informational error.
    fn is_fatal(&self) -> (r: bool)
        ensures
            Self::obeys_fatality() ==> r == self.fatal(),
    ;
}

/// Allows to split an error into two types - a fatal
/// and a informational enum error type, that can be further consumed.
pub trait Split: Sized {
    type Jfyi;
    type Fatal;

    /// Whether `split` of this type hands back `split_outcome`.  An
    /// implementation that defines `split_outcome` and proves `split`
    /// against it says so; every other implementation keeps this default,
    /// and then nothing is known of its results.
    closed spec fn obeys_split() -> bool {
        false
    }

    /// What `split` hands back for this value, where the type obeys.
    closed spec fn split_outcome(self) -> Result<Self::Jfyi, Self::Fatal> {
        arbitrary()
    }

    /// Split the error into it's fatal and non-fatal variants.
    ///
    /// `Ok(jfyi)` contains a enum representing all non-fatal variants, `Err(fatal)`
    /// contains all fatal variants.
    fn split(self) -> (r: Result<Self::Jfyi, Self::Fatal>)
        ensures
            Self::obeys_split() ==> r == self.split_outcome(),
    ;
}

/// The nested form of a flat result: success stays inside two `Ok`s, an
/// informational error inside `Ok(Err(..))`, a fatal error in the outer `Err`.
pub open spec fn nested_of<T, E: Split>(r: Result<T, E>) -> Result<Result<T, E::Jfyi>, E::Fatal> {
    match r {
        Ok(t) => Ok(Ok(t)),
        Err(e) => match e.split_outcome() {
            Ok(jfyi) => Ok(Err(jfyi)),
            Err(fatal) => Err(fatal),
        },
    }
}

/// Converts a flat, yet `splitable` error into a nested `Result<Result<_,Jfyi>, Fatal>`
/// error type.
pub trait Nested<T, E: Split>: Sized {
    /// Whether `into_nested` of this type hands back `nested`.
    closed spec fn obeys_nested() -> bool {
        false
    }

    /// What `into_nested` hands back for this value, where the type obeys.
    closed spec fn nested(self) -> Result<Result<T, E::Jfyi>, E::Fatal> {
        arbitrary()
    }

    /// Convert into a nested error rather than a flat one, commonly for direct handling.
    fn into_nested(self) -> (r: Result<Result<T, E::Jfyi>, E::Fatal>)
        ensures
            Self::obeys_nested() ==> r == self.nested(),
    ;
}

impl<T, E: Split> Nested<T, E> for Result<T, E> {
    /// Nesting a `Result` follows `split` of its error type.
    open spec fn obeys_nested() -> bool {
        E::obeys_split()
    }

    open spec fn nested(self) -> Result<Result<T, E::Jfyi>, E::Fatal> {
        nested_of(self)
    }

    /// Success is kept as `Ok(Ok(t))` whatever the error type; an error goes
    /// where its `split` sends it.
    fn into_nested(self) -> (r: Result<Result<T, E::Jfyi>, E::Fatal>)
        ensures
            self is Ok ==> r == Ok::<Result<T, E::Jfyi>, E::Fatal>(Ok(self->Ok_0)),
    {
        match self {
            Ok(t) => Ok(Ok(t)),
            Err(e) => match e.split() {
                Ok(jfyi) => Ok(Err(jfyi)),
                Err(fatal) => Err(fatal),
            },
        }
    }
}

} // verus!
