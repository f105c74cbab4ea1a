//! The attribute grammar: the arguments of the `fatality` attribute itself
//! (nothing, or `splitable`), the arguments of `#[fatal(..)]`, and the
//! classification of the attributes found on a type, a variant or a field.
//!
//! Attributes arrive as their source text, such as `#[fatal(forward)]` or
//! `# [error (transparent)]`; whitespace between tokens is not significant.

use vstd::prelude::*;
use crate::text::{
    inside, is_parenthesised, ident_end, ident_len, range_is, trim, trim_range,
};

verus! {

/// How the fatality of a variant (or of a struct) is resolved.
#[derive(Clone, Copy, Debug, PartialEq, Eq, Structural)]
pub enum ResolutionMode {
    /// No `#[fatal]` annotation: informational.
    NoAnnotation,
    /// `#[fatal]`: fatal.
    Fatal,
    /// `#[fatal(true)]` or `#[fatal(false)]`.
    WithExplicitBool(bool),
    /// `#[fatal(forward)]`: as fatal as the wrapped inner error.
    Forward,
}

/// Arguments of the `fatality` attribute.
#[derive(Clone, Copy, Debug, PartialEq, Eq, Structural)]
pub struct Attr {
    /// `splitable` was given: also generate the fatal and informational types.
    pub splitable: bool,
}

/// A piece of attribute text that does not follow the grammar.
#[derive(Clone, Copy, Debug, PartialEq, Eq, Structural)]
pub enum AttrError {
    /// Something else than nothing or `splitable` in the `fatality` attribute.
    UnexpectedToken,
    /// Something else than `forward`, `true` or `false` inside `#[fatal(..)]`.
    ExpectedResolutionMode,
}

/// What an attribute on a type, variant or field means here.
#[derive(Clone, Copy, Debug, PartialEq, Eq, Structural)]
pub enum AttributeKind {
    /// `#[fatal]` or `#[fatal(..)]` with valid arguments.
    Fatal(ResolutionMode),
    /// `#[fatal ..]` whose arguments do not follow the grammar.
    MalformedFatal,
    /// `#[error(transparent)]`.
    Transparent,
    /// `#[source]`.
    Source,
    /// `#[from]`.
    From,
    /// Anything else, kept as it is.
    Other,
}

pub open spec fn word_splitable() -> Seq<char> {
    seq!['s', 'p', 'l', 'i', 't', 'a', 'b', 'l', 'e']
}

pub open spec fn word_forward() -> Seq<char> {
    seq!['f', 'o', 'r', 'w', 'a', 'r', 'd']
}

pub open spec fn word_true() -> Seq<char> {
    seq!['t', 'r', 'u', 'e']
}

pub open spec fn word_false() -> Seq<char> {
    seq!['f', 'a', 'l', 's', 'e']
}

pub open spec fn word_fatal() -> Seq<char> {
    seq!['f', 'a', 't', 'a', 'l']
}

pub open spec fn word_error() -> Seq<char> {
    seq!['e', 'r', 'r', 'o', 'r']
}

pub open spec fn word_transparent() -> Seq<char> {
    seq!['t', 'r', 'a', 'n', 's', 'p', 'a', 'r', 'e', 'n', 't']
}

pub open spec fn word_source() -> Seq<char> {
    seq!['s', 'o', 'u', 'r', 'c', 'e']
}

pub open spec fn word_from() -> Seq<char> {
    seq!['f', 'r', 'o', 'm']
}

/// The meaning of the arguments of the `fatality` attribute.
pub open spec fn attr_of(s: Seq<char>) -> Result<Attr, AttrError> {
    let t = trim(s);
    if t.len() == 0 {
        Ok(Attr { splitable: false })
    } else if t == word_splitable() {
        Ok(Attr { splitable: true })
    } else {
        Err(AttrError::UnexpectedToken)
    }
}

/// The meaning of the (already trimmed) arguments inside `#[fatal(..)]`.
pub open spec fn mode_of(a: Seq<char>) -> Result<ResolutionMode, AttrError> {
    if a == word_forward() {
        Ok(ResolutionMode::Forward)
    } else if a == word_true() {
        Ok(ResolutionMode::WithExplicitBool(true))
    } else if a == word_false() {
        Ok(ResolutionMode::WithExplicitBool(false))
    } else {
        Err(AttrError::ExpectedResolutionMode)
    }
}

/// The attribute's path goes on past its first identifier (`#[a::b]`), so
/// that it is not the single identifier the attribute is named by.
pub open spec fn continues_path(rest: Seq<char>) -> bool {
    rest.len() > 0 && rest[0] == ':'
}

/// The meaning of an attribute `#[name rest]`, from its name and the
/// trimmed text that follows the name.
pub open spec fn meta_kind(name: Seq<char>, rest: Seq<char>) -> AttributeKind {
    if continues_path(rest) {
        AttributeKind::Other
    } else if name == word_fatal() {
        if rest.len() == 0 {
            AttributeKind::Fatal(ResolutionMode::Fatal)
        } else if is_parenthesised(rest) {
            match mode_of(trim(inside(rest))) {
                Ok(m) => AttributeKind::Fatal(m),
                Err(_) => AttributeKind::MalformedFatal,
            }
        } else {
            AttributeKind::MalformedFatal
        }
    } else if name == word_error() {
        if is_parenthesised(rest) && trim(inside(rest)) == word_transparent() {
            AttributeKind::Transparent
        } else {
            AttributeKind::Other
        }
    } else if name == word_source() && rest.len() == 0 {
        AttributeKind::Source
    } else if name == word_from() && rest.len() == 0 {
        AttributeKind::From
    } else {
        AttributeKind::Other
    }
}

/// The meaning of the text inside the brackets of `#[ .. ]`: a leading
/// identifier (the attribute's name) and what follows it.
pub open spec fn meta_text_kind(m: Seq<char>) -> AttributeKind {
    let n = ident_len(m);
    meta_kind(m.take(n as int), trim(m.skip(n as int)))
}

/// The meaning of the source text of an outer attribute `#[ .. ]`.
pub open spec fn attribute_kind_of(s: Seq<char>) -> AttributeKind {
    let t = trim(s);
    if t.len() >= 1 && t[0] == '#' {
        let b = trim(t.drop_first());
        if b.len() >= 2 && b[0] == '[' && b.last() == ']' {
            meta_text_kind(trim(inside(b)))
        } else {
            AttributeKind::Other
        }
    } else {
        AttributeKind::Other
    }
}

impl Attr {
    /// Parses the arguments of the `fatality` attribute: nothing, or the
    /// single keyword `splitable`.
    pub fn parse(s: &str) -> (r: Result<Attr, AttrError>)
        ensures
            r == attr_of(s@),
    {
        let n = s.unicode_len();
        let (a, b) = trim_range(s, 0, n);
        assert(s@.subrange(0, n as int) =~= s@);
        if a == b {
            Ok(Attr { splitable: false })
        } else {
            let is_splitable = range_is(s, a, b, "splitable");
            proof {
                reveal_strlit("splitable");
                assert("splitable"@ =~= word_splitable());
            }
            if is_splitable {
                Ok(Attr { splitable: true })
            } else {
                Err(AttrError::UnexpectedToken)
            }
        }
    }
}

/// The resolution mode written in `s[lo..hi]`, which is already trimmed.
fn mode_in_range(s: &str, lo: usize, hi: usize) -> (r: Result<ResolutionMode, AttrError>)
    requires
        lo <= hi <= s@.len(),
    ensures
        r == mode_of(s@.subrange(lo as int, hi as int)),
{
    proof {
        reveal_strlit("forward");
        reveal_strlit("true");
        reveal_strlit("false");
        assert("forward"@ =~= word_forward());
        assert("true"@ =~= word_true());
        assert("false"@ =~= word_false());
    }
    if range_is(s, lo, hi, "forward") {
        Ok(ResolutionMode::Forward)
    } else if range_is(s, lo, hi, "true") {
        Ok(ResolutionMode::WithExplicitBool(true))
    } else if range_is(s, lo, hi, "false") {
        Ok(ResolutionMode::WithExplicitBool(false))
    } else {
        Err(AttrError::ExpectedResolutionMode)
    }
}

impl ResolutionMode {
    /// Parses the arguments written inside `#[fatal(..)]`: `forward`, `true`
    /// or `false`.
    pub fn parse(s: &str) -> (r: Result<ResolutionMode, AttrError>)
        ensures
            r == mode_of(trim(s@)),
    {
        let n = s.unicode_len();
        let (a, b) = trim_range(s, 0, n);
        assert(s@.subrange(0, n as int) =~= s@);
        mode_in_range(s, a, b)
    }

    /// The resolution mode that a complete `#[fatal ..]` attribute states:
    /// `#[fatal]` is fatal, `#[fatal(..)]` holds a mode.  `None` where the
    /// text is no `fatal` attribute at all.
    pub fn from_attribute(s: &str) -> (r: Option<Result<ResolutionMode, AttrError>>)
        ensures
            r == match attribute_kind_of(s@) {
                AttributeKind::Fatal(m) => Some(Ok(m)),
                AttributeKind::MalformedFatal => Some(Err(AttrError::ExpectedResolutionMode)),
                _ => None,
            },
    {
        match attribute_kind(s) {
            AttributeKind::Fatal(m) => Some(Ok(m)),
            AttributeKind::MalformedFatal => Some(Err(AttrError::ExpectedResolutionMode)),
            _ => None,
        }
    }
}

/// The meaning of `#[name rest]` where the name is `s[lo..mid]` and the
/// trimmed rest is `s[r0..r1]`.
fn meta_kind_in(s: &str, lo: usize, mid: usize, r0: usize, r1: usize) -> (r: AttributeKind)
    requires
        lo <= mid <= s@.len(),
        r0 <= r1 <= s@.len(),
    ensures
        r == meta_kind(s@.subrange(lo as int, mid as int), s@.subrange(r0 as int, r1 as int)),
{
    let ghost name = s@.subrange(lo as int, mid as int);
    let ghost rest = s@.subrange(r0 as int, r1 as int);
    proof {
        reveal_strlit("fatal");
        reveal_strlit("error");
        reveal_strlit("transparent");
        reveal_strlit("source");
        reveal_strlit("from");
        assert("fatal"@ =~= word_fatal());
        assert("error"@ =~= word_error());
        assert("transparent"@ =~= word_transparent());
        assert("source"@ =~= word_source());
        assert("from"@ =~= word_from());
    }
    if r1 > r0 && s.get_char(r0) == ':' {
        return AttributeKind::Other;
    }
    let parenthesised = r1 - r0 >= 2 && s.get_char(r0) == '(' && s.get_char(r1 - 1) == ')';
    if parenthesised {
        assert(inside(rest) =~= s@.subrange(r0 + 1, r1 - 1));
    }
    if range_is(s, lo, mid, "fatal") {
        if r0 == r1 {
            AttributeKind::Fatal(ResolutionMode::Fatal)
        } else if parenthesised {
            let (a, b) = trim_range(s, r0 + 1, r1 - 1);
            match mode_in_range(s, a, b) {
                Ok(m) => AttributeKind::Fatal(m),
                Err(_) => AttributeKind::MalformedFatal,
            }
        } else {
            AttributeKind::MalformedFatal
        }
    } else if range_is(s, lo, mid, "error") {
        if parenthesised {
            let (a, b) = trim_range(s, r0 + 1, r1 - 1);
            if range_is(s, a, b, "transparent") {
                AttributeKind::Transparent
            } else {
                AttributeKind::Other
            }
        } else {
            AttributeKind::Other
        }
    } else if range_is(s, lo, mid, "source") && r0 == r1 {
        AttributeKind::Source
    } else if range_is(s, lo, mid, "from") && r0 == r1 {
        AttributeKind::From
    } else {
        AttributeKind::Other
    }
}

/// Classifies the source text of one outer attribute.
pub fn attribute_kind(s: &str) -> (r: AttributeKind)
    ensures
        r == attribute_kind_of(s@),
{
    let n = s.unicode_len();
    let (a, b) = trim_range(s, 0, n);
    assert(s@.subrange(0, n as int) =~= s@);
    let ghost t = s@.subrange(a as int, b as int);
    if b - a >= 1 && s.get_char(a) == '#' {
        assert(t.drop_first() =~= s@.subrange(a + 1, b as int));
        let (c, d) = trim_range(s, a + 1, b);
        let ghost bb = s@.subrange(c as int, d as int);
        if d - c >= 2 && s.get_char(c) == '[' && s.get_char(d - 1) == ']' {
            assert(inside(bb) =~= s@.subrange(c + 1, d - 1));
            let (e, f) = trim_range(s, c + 1, d - 1);
            let ghost m = s@.subrange(e as int, f as int);
            let g = ident_end(s, e, f);
            assert(m.take((g - e) as int) =~= s@.subrange(e as int, g as int));
            assert(m.skip((g - e) as int) =~= s@.subrange(g as int, f as int));
            let (h, k) = trim_range(s, g, f);
            meta_kind_in(s, e, g, h, k)
        } else {
            AttributeKind::Other
        }
    } else {
        AttributeKind::Other
    }
}

} // verus!
