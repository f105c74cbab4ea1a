//! The annotated type as plain values: its name, whether it has generic
//! parameters, and for each variant (or for the struct) its attributes and
//! fields, attributes given as their source text.
//!
//! The readings of those attributes that the expansion rests on are stated
//! here: the resolution mode of a variant, whether it is transparent, and
//! which of its fields an inner error is forwarded from.

use vstd::prelude::*;
use crate::attr::{attribute_kind, attribute_kind_of, word_source, AttrError, AttributeKind, ResolutionMode};
use crate::text::range_is;

verus! {

/// How the fields of a variant or a struct are written.
#[derive(Clone, Copy, Debug, PartialEq, Eq, Structural)]
pub enum FieldsShape {
    /// No fields: `V`, `struct S;`.
    Unit,
    /// Positional fields: `V(A, B)`.
    Tuple,
    /// Named fields: `V { a: A }`.
    Named,
}

/// A field: the source text of each of its attributes, of its visibility
/// and of its type, and its name (empty for a positional field).
#[derive(Debug)]
pub struct FieldDecl {
    pub attrs: Vec<String>,
    pub vis: String,
    pub name: String,
    pub ty: String,
}

/// A variant of an enum, or the body of a struct: its attributes, name and
/// fields, whether the list of fields ends in a comma, and the source text
/// of its discriminant (empty where it has none).
#[derive(Debug)]
pub struct VariantDecl {
    pub attrs: Vec<String>,
    pub name: String,
    pub shape: FieldsShape,
    pub fields: Vec<FieldDecl>,
    pub trailing_comma: bool,
    pub discriminant: String,
}

/// An enum: its own attributes, its variants, and whether the list of
/// variants ends in a comma.
#[derive(Debug)]
pub struct EnumDecl {
    pub attrs: Vec<String>,
    pub variants: Vec<VariantDecl>,
    pub trailing_comma: bool,
}

/// What kind of item carries the `fatality` attribute.
#[derive(Debug)]
pub enum ItemBody {
    /// An enum.
    Enum(EnumDecl),
    /// A struct; its attributes and fields stand in one `VariantDecl` named
    /// like the struct.
    Struct(VariantDecl),
    /// Any other item.
    Other,
}

/// The item that carries the `fatality` attribute: the source text of its
/// visibility, its name, whether it has generic parameters, the source text
/// of its `where` clause (empty where it has none), and its body.
#[derive(Debug)]
pub struct ItemDecl {
    pub vis: String,
    pub name: String,
    pub has_generics: bool,
    pub where_clause: String,
    pub body: ItemBody,
}

/// The index of the first element of `s` of which `p` holds.
pub open spec fn first_index<A>(s: Seq<A>, p: spec_fn(A) -> bool) -> Option<int>
    decreases s.len(),
{
    if s.len() == 0 {
        None
    } else {
        match first_index(s.drop_last(), p) {
            Some(k) => Some(k),
            None => if p(s.last()) {
                Some(s.len() - 1)
            } else {
                None
            },
        }
    }
}

/// The resolution mode that a list of attributes states: the first `fatal`
/// attribute decides, and without one there is no annotation.
pub open spec fn resolution_of(attrs: Seq<String>) -> Result<ResolutionMode, AttrError>
    decreases attrs.len(),
{
    if attrs.len() == 0 {
        Ok(ResolutionMode::NoAnnotation)
    } else {
        match attribute_kind_of(attrs[0]@) {
            AttributeKind::Fatal(m) => Ok(m),
            AttributeKind::MalformedFatal => Err(AttrError::ExpectedResolutionMode),
            _ => resolution_of(attrs.drop_first()),
        }
    }
}

/// The field is marked as the source of the error: `#[source]` or `#[from]`.
pub open spec fn marked_source(f: FieldDecl) -> bool {
    exists|i: int|
        0 <= i < f.attrs@.len() && (attribute_kind_of(#[trigger] f.attrs@[i]@) == AttributeKind::Source
            || attribute_kind_of(f.attrs@[i]@) == AttributeKind::From)
}

/// The field is named `source`.
pub open spec fn named_source(f: FieldDecl) -> bool {
    f.name@ == word_source()
}

/// `marked_source` as a predicate.
pub open spec fn marked_source_pred() -> spec_fn(FieldDecl) -> bool {
    |f: FieldDecl| marked_source(f)
}

/// `named_source` as a predicate.
pub open spec fn named_source_pred() -> spec_fn(FieldDecl) -> bool {
    |f: FieldDecl| named_source(f)
}

/// The field that `#[fatal(forward)]` asks about: the first field marked
/// `#[source]` or `#[from]`; else the first field named `source`; else the
/// first field.
pub open spec fn forward_field(v: VariantDecl) -> Option<int> {
    match first_index(v.fields@, marked_source_pred()) {
        Some(k) => Some(k),
        None => match first_index(v.fields@, named_source_pred()) {
            Some(k) => Some(k),
            None => if v.fields@.len() > 0 {
                Some(0)
            } else {
                None
            },
        },
    }
}

proof fn lemma_resolution_skip(attrs: Seq<String>, i: int)
    requires
        0 <= i < attrs.len(),
    ensures
        resolution_of(attrs.skip(i)) == match attribute_kind_of(attrs[i]@) {
            AttributeKind::Fatal(m) => Ok(m),
            AttributeKind::MalformedFatal => Err(AttrError::ExpectedResolutionMode),
            _ => resolution_of(attrs.skip(i + 1)),
        },
{
    assert(attrs.skip(i).drop_first() =~= attrs.skip(i + 1));
}

/// The resolution mode that `attrs` states.
pub fn resolution(attrs: &Vec<String>) -> (r: Result<ResolutionMode, AttrError>)
    ensures
        r == resolution_of(attrs@),
{
    let mut i: usize = 0;
    assert(attrs@.skip(0) =~= attrs@);
    while i < attrs.len()
        invariant
            i <= attrs@.len(),
            resolution_of(attrs@) == resolution_of(attrs@.skip(i as int)),
        decreases attrs@.len() - i,
    {
        proof {
            lemma_resolution_skip(attrs@, i as int);
        }
        match attribute_kind(attrs[i].as_str()) {
            AttributeKind::Fatal(m) => {
                return Ok(m);
            },
            AttributeKind::MalformedFatal => {
                return Err(AttrError::ExpectedResolutionMode);
            },
            _ => {},
        }
        i = i + 1;
    }
    assert(attrs@.skip(i as int).len() == 0);
    Ok(ResolutionMode::NoAnnotation)
}

/// Whether the field carries `#[source]` or `#[from]`.
pub fn is_marked_source(f: &FieldDecl) -> (r: bool)
    ensures
        r == marked_source(*f),
{
    let mut i: usize = 0;
    while i < f.attrs.len()
        invariant
            i <= f.attrs@.len(),
            forall|j: int|
                0 <= j < i ==> attribute_kind_of(#[trigger] f.attrs@[j]@) != AttributeKind::Source
                    && attribute_kind_of(f.attrs@[j]@) != AttributeKind::From,
        decreases f.attrs@.len() - i,
    {
        let k = attribute_kind(f.attrs[i].as_str());
        if k == AttributeKind::Source || k == AttributeKind::From {
            return true;
        }
        i = i + 1;
    }
    false
}

/// Whether the field is named `source`.
pub fn is_named_source(f: &FieldDecl) -> (r: bool)
    ensures
        r == named_source(*f),
{
    proof {
        reveal_strlit("source");
        assert("source"@ =~= word_source());
    }
    let n = f.name.as_str().unicode_len();
    let r = range_is(f.name.as_str(), 0, n, "source");
    assert(f.name@.subrange(0, n as int) =~= f.name@);
    r
}

proof fn lemma_first_index_step<A>(s: Seq<A>, p: spec_fn(A) -> bool, i: int)
    requires
        0 <= i < s.len(),
        first_index(s.take(i), p) is None,
    ensures
        first_index(s.take(i + 1), p) == (if p(s[i]) {
            Some(i)
        } else {
            None::<int>
        }),
{
    assert(s.take(i + 1).drop_last() =~= s.take(i));
}

proof fn lemma_first_index_prefix<A>(s: Seq<A>, p: spec_fn(A) -> bool, i: int)
    requires
        0 <= i < s.len(),
        first_index(s.take(i + 1), p) == Some(i),
    ensures
        first_index(s, p) == Some(i),
    decreases s.len(),
{
    if s.len() == i + 1 {
        assert(s.take(i + 1) =~= s);
    } else {
        assert(s.drop_last().take(i + 1) =~= s.take(i + 1));
        lemma_first_index_prefix(s.drop_last(), p, i);
    }
}

/// The index of the field that `#[fatal(forward)]` asks about.
pub fn forward_target(v: &VariantDecl) -> (r: Option<usize>)
    ensures
        r matches Some(k) ==> forward_field(*v) == Some(k as int),
        r is None ==> forward_field(*v) is None,
{
    let mut i: usize = 0;
    while i < v.fields.len()
        invariant
            i <= v.fields@.len(),
            first_index(v.fields@.take(i as int), marked_source_pred()) is None,
        decreases v.fields@.len() - i,
    {
        proof {
            lemma_first_index_step(v.fields@, marked_source_pred(), i as int);
        }
        if is_marked_source(&v.fields[i]) {
            proof {
                assert(marked_source_pred()(v.fields@[i as int]));
                lemma_first_index_prefix(v.fields@, marked_source_pred(), i as int);
            }
            return Some(i);
        }
        i = i + 1;
    }
    assert(v.fields@.take(i as int) =~= v.fields@);
    let mut j: usize = 0;
    while j < v.fields.len()
        invariant
            j <= v.fields@.len(),
            first_index(v.fields@, marked_source_pred()) is None,
            first_index(v.fields@.take(j as int), named_source_pred()) is None,
        decreases v.fields@.len() - j,
    {
        proof {
            lemma_first_index_step(v.fields@, named_source_pred(), j as int);
        }
        if is_named_source(&v.fields[j]) {
            proof {
                assert(named_source_pred()(v.fields@[j as int]));
                lemma_first_index_prefix(v.fields@, named_source_pred(), j as int);
            }
            return Some(j);
        }
        j = j + 1;
    }
    assert(v.fields@.take(j as int) =~= v.fields@);
    if v.fields.len() > 0 {
        Some(0)
    } else {
        None
    }
}

} // verus!
