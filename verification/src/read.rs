//! Reading the annotated item from its source text into an `ItemDecl`.
//!
//! Each level of the item (the item, an enum, a struct, a variant, a list
//! of fields, a field) is parsed by `syn` from its own source text, and its
//! parts are handed over as their token text.  That text is printed by
//! `proc_macro2`, whose printer and lexer depend on the process (inside a
//! procedural macro or not), so nothing is claimed of it: the readers here
//! are verified for every value `syn` hands back, and the items they build
//! from those values are stated exactly.

use vstd::prelude::*;
use quote::ToTokens;
use crate::decl::{EnumDecl, FieldDecl, FieldsShape, ItemBody, ItemDecl, VariantDecl};
use crate::text::{trim, trim_range};

verus! {

/// What kind of item a text holds.
#[derive(Clone, Copy, Debug, PartialEq, Eq, Structural)]
pub enum ItemKind {
    Enum,
    Struct,
    Other,
}

/// An enum as `syn` reads it, each part as its source text: attributes,
/// visibility, name, the number of generic parameters, the `where` clause
/// (empty where there is none), each variant, and whether the variants end
/// in a comma.
#[derive(Debug)]
pub struct EnumSyntax {
    pub attrs: Vec<String>,
    pub vis: String,
    pub name: String,
    pub generic_params: usize,
    pub where_clause: String,
    pub variants: Vec<String>,
    pub trailing_comma: bool,
}

/// A struct as `syn` reads it: attributes, visibility, name, the number of
/// generic parameters, the `where` clause, and its fields (with their
/// brackets) as source text.
#[derive(Debug)]
pub struct StructSyntax {
    pub attrs: Vec<String>,
    pub vis: String,
    pub name: String,
    pub generic_params: usize,
    pub where_clause: String,
    pub fields: String,
}

/// A variant as `syn` reads it: attributes, name, its fields (with their
/// brackets) and its discriminant expression (empty where it has none).
#[derive(Debug)]
pub struct VariantSyntax {
    pub attrs: Vec<String>,
    pub name: String,
    pub fields: String,
    pub discriminant: String,
}

/// A bracketed list of fields as `syn` reads it: each field's source text,
/// and whether the list ends in a comma.
#[derive(Debug)]
pub struct FieldsSyntax {
    pub fields: Vec<String>,
    pub trailing_comma: bool,
}

/// Reads the kind of item in `text` with `syn::parse_str::<syn::Item>`, or
/// the message of `syn`'s error.  Nothing is claimed of which: it rests on
/// the token lexer of the process.
#[verifier::external_body]
fn read_item_kind(text: &str) -> (r: Result<ItemKind, String>) {
    match syn::parse_str::<syn::Item>(text) {
        Ok(syn::Item::Enum(_)) => Ok(ItemKind::Enum),
        Ok(syn::Item::Struct(_)) => Ok(ItemKind::Struct),
        Ok(_) => Ok(ItemKind::Other),
        Err(e) => Err(e.to_string()),
    }
}

/// Reads an enum with `syn::parse_str::<syn::ItemEnum>`, each part as its
/// token text, or the message of `syn`'s error.  Nothing is claimed of the
/// texts, which the token printer of the process writes.
#[verifier::external_body]
fn read_enum(text: &str) -> (r: Result<EnumSyntax, String>) {
    let e = syn::parse_str::<syn::ItemEnum>(text).map_err(|e| e.to_string())?;
    Ok(EnumSyntax {
        attrs: e.attrs.iter().map(|a| a.to_token_stream().to_string()).collect(),
        vis: e.vis.to_token_stream().to_string(),
        name: e.ident.to_string(),
        generic_params: e.generics.params.len(),
        where_clause: e.generics.where_clause.map(|w| w.to_token_stream().to_string()).unwrap_or_default(),
        variants: e.variants.iter().map(|v| v.to_token_stream().to_string()).collect(),
        trailing_comma: e.variants.trailing_punct(),
    })
}

/// Reads a struct with `syn::parse_str::<syn::ItemStruct>`, each part as
/// its token text, or the message of `syn`'s error.  Nothing is claimed of
/// the texts.
#[verifier::external_body]
fn read_struct(text: &str) -> (r: Result<StructSyntax, String>) {
    let s = syn::parse_str::<syn::ItemStruct>(text).map_err(|e| e.to_string())?;
    Ok(StructSyntax {
        attrs: s.attrs.iter().map(|a| a.to_token_stream().to_string()).collect(),
        vis: s.vis.to_token_stream().to_string(),
        name: s.ident.to_string(),
        generic_params: s.generics.params.len(),
        where_clause: s.generics.where_clause.map(|w| w.to_token_stream().to_string()).unwrap_or_default(),
        fields: s.fields.to_token_stream().to_string(),
    })
}

/// Reads a variant with `syn::parse_str::<syn::Variant>`, each part as its
/// token text, or the message of `syn`'s error.  Nothing is claimed of the
/// texts.
#[verifier::external_body]
fn read_variant(text: &str) -> (r: Result<VariantSyntax, String>) {
    let v = syn::parse_str::<syn::Variant>(text).map_err(|e| e.to_string())?;
    Ok(VariantSyntax {
        attrs: v.attrs.iter().map(|a| a.to_token_stream().to_string()).collect(),
        name: v.ident.to_string(),
        fields: v.fields.to_token_stream().to_string(),
        discriminant: v.discriminant.map(|(_, d)| d.to_token_stream().to_string()).unwrap_or_default(),
    })
}

/// Reads `{ .. }` with `syn::parse_str::<syn::FieldsNamed>`, each field as
/// its token text, or the message of `syn`'s error.  Nothing is claimed of
/// the texts.
#[verifier::external_body]
fn read_named_fields(text: &str) -> (r: Result<FieldsSyntax, String>) {
    let f = syn::parse_str::<syn::FieldsNamed>(text).map_err(|e| e.to_string())?;
    Ok(FieldsSyntax {
        fields: f.named.iter().map(|x| x.to_token_stream().to_string()).collect(),
        trailing_comma: f.named.trailing_punct(),
    })
}

/// Reads `( .. )` with `syn::parse_str::<syn::FieldsUnnamed>`, each field
/// as its token text, or the message of `syn`'s error.  Nothing is claimed
/// of the texts.
#[verifier::external_body]
fn read_unnamed_fields(text: &str) -> (r: Result<FieldsSyntax, String>) {
    let f = syn::parse_str::<syn::FieldsUnnamed>(text).map_err(|e| e.to_string())?;
    Ok(FieldsSyntax {
        fields: f.unnamed.iter().map(|x| x.to_token_stream().to_string()).collect(),
        trailing_comma: f.unnamed.trailing_punct(),
    })
}

/// Reads a named field with `syn::Field::parse_named`, each part as its
/// token text, or the message of `syn`'s error.  Nothing is claimed of the
/// texts.
#[verifier::external_body]
fn read_named_field(text: &str) -> (r: Result<FieldDecl, String>) {
    let f = syn::parse::Parser::parse_str(syn::Field::parse_named, text).map_err(|e| e.to_string())?;
    Ok(FieldDecl {
        attrs: f.attrs.iter().map(|a| a.to_token_stream().to_string()).collect(),
        vis: f.vis.to_token_stream().to_string(),
        name: f.ident.map(|i| i.to_string()).unwrap_or_default(),
        ty: f.ty.to_token_stream().to_string(),
    })
}

/// Reads a positional field with `syn::Field::parse_unnamed`, each part as
/// its token text, or the message of `syn`'s error.  A positional field has
/// no name: the one handed back is empty.  Nothing else is claimed.
#[verifier::external_body]
fn read_unnamed_field(text: &str) -> (r: Result<FieldDecl, String>)
    ensures
        r matches Ok(f) ==> f.name@.len() == 0,
{
    let f = syn::parse::Parser::parse_str(syn::Field::parse_unnamed, text).map_err(|e| e.to_string())?;
    Ok(FieldDecl {
        attrs: f.attrs.iter().map(|a| a.to_token_stream().to_string()).collect(),
        vis: f.vis.to_token_stream().to_string(),
        name: String::new(),
        ty: f.ty.to_token_stream().to_string(),
    })
}

/// The message when a list of fields opens with neither `(` nor `{`.
pub open spec fn unreadable_fields() -> Seq<char> {
    "expected `(` or `{`"@
}

/// The shape of a bracketed list of fields from its first character.
pub open spec fn fields_shape_of(ft: Seq<char>) -> Option<FieldsShape> {
    let t = trim(ft);
    if t.len() == 0 {
        Some(FieldsShape::Unit)
    } else if t[0] == '(' {
        Some(FieldsShape::Tuple)
    } else if t[0] == '{' {
        Some(FieldsShape::Named)
    } else {
        None
    }
}

/// The fields fit their shape: no fields and no comma without brackets,
/// and no names between round brackets.
pub open spec fn fields_fit(shape: FieldsShape, fs: Seq<FieldDecl>, trailing: bool) -> bool {
    match shape {
        FieldsShape::Unit => fs.len() == 0 && !trailing,
        FieldsShape::Tuple => forall|i: int| 0 <= i < fs.len() ==> (#[trigger] fs[i]).name@.len() == 0,
        FieldsShape::Named => true,
    }
}

/// The item built from an enum as `syn` reads it, with its variants read:
/// it has generics exactly when it has a generic parameter.
pub open spec fn enum_built(es: EnumSyntax, variants: Vec<VariantDecl>, d: ItemDecl) -> bool {
    &&& d.vis@ == es.vis@
    &&& d.name@ == es.name@
    &&& d.has_generics == (es.generic_params > 0)
    &&& d.where_clause@ == es.where_clause@
    &&& d.body matches ItemBody::Enum(e) && e.attrs@ == es.attrs@ && e.variants@ == variants@
        && e.trailing_comma == es.trailing_comma
}

/// The item built from a struct as `syn` reads it, with its fields read:
/// the body is a variant named like the struct, without a discriminant.
pub open spec fn struct_built(
    ss: StructSyntax,
    shape: FieldsShape,
    fields: Vec<FieldDecl>,
    trailing: bool,
    d: ItemDecl,
) -> bool {
    &&& d.vis@ == ss.vis@
    &&& d.name@ == ss.name@
    &&& d.has_generics == (ss.generic_params > 0)
    &&& d.where_clause@ == ss.where_clause@
    &&& d.body matches ItemBody::Struct(v) && v.attrs@ == ss.attrs@ && v.name@ == ss.name@
        && v.shape == shape && v.fields@ == fields@ && v.trailing_comma == trailing
        && v.discriminant@.len() == 0
}

/// The variant built from a variant as `syn` reads it, with its fields read.
pub open spec fn variant_built(
    vs: VariantSyntax,
    shape: FieldsShape,
    fields: Vec<FieldDecl>,
    trailing: bool,
    v: VariantDecl,
) -> bool {
    &&& v.attrs@ == vs.attrs@
    &&& v.name@ == vs.name@
    &&& v.shape == shape
    &&& v.fields@ == fields@
    &&& v.trailing_comma == trailing
    &&& v.discriminant@ == vs.discriminant@
}

/// What every item read from a text satisfies, whatever `syn` hands back:
/// the fields of each variant (or of the struct) fit their shape, a struct's
/// body is named like the struct and has no discriminant, and any other
/// item is read as nothing but its kind.
pub open spec fn well_read(d: ItemDecl) -> bool {
    match d.body {
        ItemBody::Enum(e) => forall|i: int|
            0 <= i < e.variants@.len() ==> fields_fit(
                (#[trigger] e.variants@[i]).shape,
                e.variants@[i].fields@,
                e.variants@[i].trailing_comma,
            ),
        ItemBody::Struct(v) => {
            &&& v.name@ == d.name@
            &&& v.discriminant@.len() == 0
            &&& fields_fit(v.shape, v.fields@, v.trailing_comma)
        },
        ItemBody::Other => {
            &&& !d.has_generics
            &&& d.vis@.len() == 0
            &&& d.name@.len() == 0
            &&& d.where_clause@.len() == 0
        },
    }
}

/// The shape of the bracketed list of fields `ft`, from its first
/// character.
pub fn fields_shape(ft: &str) -> (r: Option<FieldsShape>)
    ensures
        r == fields_shape_of(ft@),
{
    let n = ft.unicode_len();
    let (a, b) = trim_range(ft, 0, n);
    assert(ft@.subrange(0, n as int) =~= ft@);
    if a == b {
        Some(FieldsShape::Unit)
    } else {
        let c = ft.get_char(a);
        if c == '(' {
            Some(FieldsShape::Tuple)
        } else if c == '{' {
            Some(FieldsShape::Named)
        } else {
            None
        }
    }
}

/// Builds the item of an enum as `syn` reads it, with its variants read.
pub fn enum_decl(es: EnumSyntax, variants: Vec<VariantDecl>) -> (d: ItemDecl)
    ensures
        enum_built(es, variants, d),
{
    let has_generics = es.generic_params > 0;
    ItemDecl {
        vis: es.vis,
        name: es.name,
        has_generics,
        where_clause: es.where_clause,
        body: ItemBody::Enum(EnumDecl { attrs: es.attrs, variants, trailing_comma: es.trailing_comma }),
    }
}

/// Builds the item of a struct as `syn` reads it, with its fields read.
pub fn struct_decl(ss: StructSyntax, shape: FieldsShape, fields: Vec<FieldDecl>, trailing: bool) -> (d:
    ItemDecl)
    ensures
        struct_built(ss, shape, fields, trailing, d),
{
    let has_generics = ss.generic_params > 0;
    let name = ss.name.clone();
    ItemDecl {
        vis: ss.vis,
        name: ss.name,
        has_generics,
        where_clause: ss.where_clause,
        body: ItemBody::Struct(
            VariantDecl {
                attrs: ss.attrs,
                name,
                shape,
                fields,
                trailing_comma: trailing,
                discriminant: String::new(),
            },
        ),
    }
}

/// Builds a variant as `syn` reads it, with its fields read.
pub fn variant_decl(vs: VariantSyntax, shape: FieldsShape, fields: Vec<FieldDecl>, trailing: bool) -> (v:
    VariantDecl)
    ensures
        variant_built(vs, shape, fields, trailing, v),
{
    VariantDecl {
        attrs: vs.attrs,
        name: vs.name,
        shape,
        fields,
        trailing_comma: trailing,
        discriminant: vs.discriminant,
    }
}

/// Reads the field texts `ts` one by one, named or positional; the first
/// error stops the reading.
fn read_field_list(ts: &Vec<String>, named: bool) -> (r: Result<Vec<FieldDecl>, String>)
    ensures
        r matches Ok(fs) ==> (fs@.len() == ts@.len() && (!named ==> fields_fit(
            FieldsShape::Tuple,
            fs@,
            false,
        ))),
{
    let mut out: Vec<FieldDecl> = Vec::new();
    let mut i: usize = 0;
    while i < ts.len()
        invariant
            i <= ts@.len(),
            out@.len() == i,
            !named ==> forall|j: int| 0 <= j < i ==> (#[trigger] out@[j]).name@.len() == 0,
        decreases ts@.len() - i,
    {
        let f = if named {
            read_named_field(ts[i].as_str())
        } else {
            read_unnamed_field(ts[i].as_str())
        };
        match f {
            Ok(f) => {
                out.push(f);
            },
            Err(e) => {
                return Err(e);
            },
        }
        i = i + 1;
    }
    Ok(out)
}

/// Reads a bracketed list of fields: its shape, its fields, and whether it
/// ends in a comma.  A list that opens with neither `(` nor `{` is refused
/// without a call.
fn read_fields(ft: &str) -> (r: Result<(FieldsShape, Vec<FieldDecl>, bool), String>)
    ensures
        fields_shape_of(ft@) is None ==> (r matches Err(e) && e@ == unreadable_fields()),
        r matches Ok((shape, fs, trailing)) ==> (fields_shape_of(ft@) == Some(shape) && fields_fit(
            shape,
            fs@,
            trailing,
        )),
{
    match fields_shape(ft) {
        None => {
            let e = String::from_str("expected `(` or `{`");
            proof {
                reveal_strlit("expected `(` or `{`");
            }
            Err(e)
        },
        Some(FieldsShape::Unit) => Ok((FieldsShape::Unit, Vec::new(), false)),
        Some(FieldsShape::Tuple) => match read_unnamed_fields(ft) {
            Err(e) => Err(e),
            Ok(s) => match read_field_list(&s.fields, false) {
                Err(e) => Err(e),
                Ok(fs) => Ok((FieldsShape::Tuple, fs, s.trailing_comma)),
            },
        },
        Some(FieldsShape::Named) => match read_named_fields(ft) {
            Err(e) => Err(e),
            Ok(s) => match read_field_list(&s.fields, true) {
                Err(e) => Err(e),
                Ok(fs) => Ok((FieldsShape::Named, fs, s.trailing_comma)),
            },
        },
    }
}

/// Reads one variant from its text.
fn read_variant_decl(t: &str) -> (r: Result<VariantDecl, String>)
    ensures
        r matches Ok(v) ==> fields_fit(v.shape, v.fields@, v.trailing_comma),
{
    match read_variant(t) {
        Err(e) => Err(e),
        Ok(vs) => match read_fields(vs.fields.as_str()) {
            Err(e) => Err(e),
            Ok((shape, fields, trailing_comma)) => Ok(variant_decl(vs, shape, fields, trailing_comma)),
        },
    }
}

/// Reads the variant texts `ts` one by one; the first error stops the
/// reading.
fn read_variant_list(ts: &Vec<String>) -> (r: Result<Vec<VariantDecl>, String>)
    ensures
        r matches Ok(vs) ==> (vs@.len() == ts@.len() && forall|i: int|
            0 <= i < vs@.len() ==> fields_fit(
                (#[trigger] vs@[i]).shape,
                vs@[i].fields@,
                vs@[i].trailing_comma,
            )),
{
    let mut out: Vec<VariantDecl> = Vec::new();
    let mut i: usize = 0;
    while i < ts.len()
        invariant
            i <= ts@.len(),
            out@.len() == i,
            forall|j: int|
                0 <= j < i ==> fields_fit(
                    (#[trigger] out@[j]).shape,
                    out@[j].fields@,
                    out@[j].trailing_comma,
                ),
        decreases ts@.len() - i,
    {
        match read_variant_decl(ts[i].as_str()) {
            Ok(v) => {
                out.push(v);
            },
            Err(e) => {
                return Err(e);
            },
        }
        i = i + 1;
    }
    Ok(out)
}

/// Reads the item in `text`: level by level with `syn`, into the plain
/// values of an `ItemDecl`; or the first error that `syn` reports.  Which
/// of the two comes back, and the texts of the parts, rest on `syn` and the
/// token printer of the process; what holds of every item read is
/// `well_read`.
pub fn read_item(text: &str) -> (r: Result<ItemDecl, String>)
    ensures
        r matches Ok(d) ==> well_read(d),
{
    match read_item_kind(text) {
        Err(e) => Err(e),
        Ok(ItemKind::Other) => Ok(
            ItemDecl {
                vis: String::new(),
                name: String::new(),
                has_generics: false,
                where_clause: String::new(),
                body: ItemBody::Other,
            },
        ),
        Ok(ItemKind::Enum) => match read_enum(text) {
            Err(e) => Err(e),
            Ok(es) => match read_variant_list(&es.variants) {
                Err(e) => Err(e),
                Ok(variants) => Ok(enum_decl(es, variants)),
            },
        },
        Ok(ItemKind::Struct) => match read_struct(text) {
            Err(e) => Err(e),
            Ok(ss) => match read_fields(ss.fields.as_str()) {
                Err(e) => Err(e),
                Ok((shape, fields, trailing_comma)) => Ok(struct_decl(ss, shape, fields, trailing_comma)),
            },
        },
    }
}

} // verus!
