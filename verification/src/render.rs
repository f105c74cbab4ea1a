//! The generated code, as source text: the annotated item again (without
//! its `fatal` attributes), its `Fatality` impl, and for a `splitable` item
//! the fatal and informational parts, the conversions back and the `Split`
//! impl.  Tokens are separated by spaces where the text does not fix them.

use vstd::prelude::*;
use crate::attr::{attribute_kind, attribute_kind_of, AttributeKind};
use crate::decl::{EnumDecl, FieldDecl, FieldsShape, ItemDecl, VariantDecl};
use crate::plan::{consumed, Verdict};

verus! {

/// The texts `parts`, one after the other.
pub open spec fn concat(parts: Seq<Seq<char>>) -> Seq<char>
    decreases parts.len(),
{
    if parts.len() == 0 {
        seq![]
    } else {
        concat(parts.drop_last()) + parts.last()
    }
}

proof fn lemma_concat_take(parts: Seq<Seq<char>>, i: int)
    requires
        0 <= i < parts.len(),
    ensures
        concat(parts.take(i + 1)) == concat(parts.take(i)) + parts[i],
{
    assert(parts.take(i + 1).drop_last() =~= parts.take(i));
}

proof fn lemma_concat_all(parts: Seq<Seq<char>>)
    ensures
        concat(parts.take(parts.len() as int)) == concat(parts),
{
    assert(parts.take(parts.len() as int) =~= parts);
}

/// The separator before the `i`-th element of a comma-separated list.
pub open spec fn sep(i: int) -> Seq<char> {
    if i == 0 {
        seq![]
    } else {
        ", "@
    }
}

fn push_sep(s: &mut String, i: usize)
    ensures
        final(s)@ == old(s)@ + sep(i as int),
{
    if i > 0 {
        s.append(", ");
    } else {
        assert(old(s)@ + sep(0) =~= old(s)@);
    }
}

/// The decimal digit `d`.
pub open spec fn digit(d: nat) -> Seq<char> {
    if d == 0 {
        "0"@
    } else if d == 1 {
        "1"@
    } else if d == 2 {
        "2"@
    } else if d == 3 {
        "3"@
    } else if d == 4 {
        "4"@
    } else if d == 5 {
        "5"@
    } else if d == 6 {
        "6"@
    } else if d == 7 {
        "7"@
    } else if d == 8 {
        "8"@
    } else {
        "9"@
    }
}

/// `n` written in decimal.
pub open spec fn decimal(n: nat) -> Seq<char>
    decreases n,
{
    if n < 10 {
        digit(n)
    } else {
        decimal(n / 10) + digit(n % 10)
    }
}

fn digit_text(d: usize) -> (r: &'static str)
    requires
        d < 10,
    ensures
        r@ == digit(d as nat),
{
    if d == 0 {
        "0"
    } else if d == 1 {
        "1"
    } else if d == 2 {
        "2"
    } else if d == 3 {
        "3"
    } else if d == 4 {
        "4"
    } else if d == 5 {
        "5"
    } else if d == 6 {
        "6"
    } else if d == 7 {
        "7"
    } else if d == 8 {
        "8"
    } else {
        "9"
    }
}

/// `n` written in decimal.
pub fn decimal_text(n: usize) -> (r: String)
    ensures
        r@ == decimal(n as nat),
    decreases n,
{
    if n < 10 {
        String::from_str(digit_text(n))
    } else {
        let mut s = decimal_text(n / 10);
        s.append(digit_text(n % 10));
        s
    }
}

/// The name a pattern binds field `k` of `v` to: the field's name, or
/// `arg_k` for a positional field.
pub open spec fn binding(v: VariantDecl, k: int) -> Seq<char> {
    if v.shape == FieldsShape::Named {
        v.fields@[k].name@
    } else {
        "arg_"@ + decimal(k as nat)
    }
}

fn binding_text(v: &VariantDecl, k: usize) -> (r: String)
    requires
        k < v.fields@.len(),
    ensures
        r@ == binding(*v, k as int),
{
    if v.shape == FieldsShape::Named {
        v.fields[k].name.clone()
    } else {
        let d = decimal_text(k);
        let mut s = String::from_str("arg_");
        s.append(d.as_str());
        s
    }
}

/// A pattern of `v` at `path` that binds nothing.
pub open spec fn any_pattern(path: Seq<char>, v: VariantDecl) -> Seq<char> {
    match v.shape {
        FieldsShape::Unit => path,
        FieldsShape::Tuple => path + "(..)"@,
        FieldsShape::Named => path + "{..}"@,
    }
}

fn any_pattern_text(path: &str, v: &VariantDecl) -> (r: String)
    ensures
        r@ == any_pattern(path@, *v),
{
    let mut s = String::from_str(path);
    match v.shape {
        FieldsShape::Unit => {},
        FieldsShape::Tuple => s.append("(..)"),
        FieldsShape::Named => s.append("{..}"),
    }
    s
}

/// `_, ` written `k` times.
pub open spec fn skipped(k: nat) -> Seq<char>
    decreases k,
{
    if k == 0 {
        seq![]
    } else {
        skipped((k - 1) as nat) + "_, "@
    }
}

fn skipped_text(k: usize) -> (r: String)
    ensures
        r@ == skipped(k as nat),
{
    let mut s = String::new();
    let mut i: usize = 0;
    while i < k
        invariant
            i <= k,
            s@ == skipped(i as nat),
        decreases k - i,
    {
        s.append("_, ");
        i = i + 1;
    }
    s
}

/// A pattern of `v` at `path` that binds field `k` by reference.
pub open spec fn ref_pattern(path: Seq<char>, v: VariantDecl, k: int) -> Seq<char> {
    if v.shape == FieldsShape::Named {
        path + "{ref "@ + binding(v, k) + ", ..}"@
    } else {
        path + "("@ + skipped(k as nat) + "ref "@ + binding(v, k) + ", ..)"@
    }
}

fn ref_pattern_text(path: &str, v: &VariantDecl, k: usize) -> (r: String)
    requires
        k < v.fields@.len(),
    ensures
        r@ == ref_pattern(path@, *v, k as int),
{
    let b = binding_text(v, k);
    let mut s = String::from_str(path);
    if v.shape == FieldsShape::Named {
        s.append("{ref ");
        s.append(b.as_str());
        s.append(", ..}");
    } else {
        let u = skipped_text(k);
        s.append("(");
        s.append(u.as_str());
        s.append("ref ");
        s.append(b.as_str());
        s.append(", ..)");
    }
    s
}

/// The bindings of all fields of `v`, comma-separated.
pub open spec fn bindings(v: VariantDecl) -> Seq<char> {
    concat(Seq::new(v.fields@.len(), |i: int| sep(i) + binding(v, i)))
}

fn bindings_text(v: &VariantDecl) -> (r: String)
    ensures
        r@ == bindings(*v),
{
    let ghost parts = Seq::new(v.fields@.len(), |i: int| sep(i) + binding(*v, i));
    let mut s = String::new();
    let mut i: usize = 0;
    while i < v.fields.len()
        invariant
            i <= v.fields@.len(),
            parts == Seq::new(v.fields@.len(), |i: int| sep(i) + binding(*v, i)),
            s@ == concat(parts.take(i as int)),
        decreases v.fields@.len() - i,
    {
        proof {
            lemma_concat_take(parts, i as int);
        }
        push_sep(&mut s, i);
        let b = binding_text(v, i);
        s.append(b.as_str());
        i = i + 1;
    }
    proof {
        lemma_concat_all(parts);
    }
    s
}

/// A pattern (or expression) of `v` at `path` with every field bound by value.
pub open spec fn full_pattern(path: Seq<char>, v: VariantDecl) -> Seq<char> {
    match v.shape {
        FieldsShape::Unit => path,
        FieldsShape::Tuple => path + "("@ + bindings(v) + ")"@,
        FieldsShape::Named => path + "{"@ + bindings(v) + "}"@,
    }
}

fn full_pattern_text(path: &str, v: &VariantDecl) -> (r: String)
    ensures
        r@ == full_pattern(path@, *v),
{
    let mut s = String::from_str(path);
    match v.shape {
        FieldsShape::Unit => {},
        FieldsShape::Tuple => {
            let b = bindings_text(v);
            s.append("(");
            s.append(b.as_str());
            s.append(")");
        },
        FieldsShape::Named => {
            let b = bindings_text(v);
            s.append("{");
            s.append(b.as_str());
            s.append("}");
        },
    }
    s
}

} // verus!

verus! {

/// Every attribute of `attrs`, each followed by a space.
pub open spec fn attrs_text(attrs: Seq<String>) -> Seq<char> {
    concat(Seq::new(attrs.len(), |i: int| attrs[i]@ + " "@))
}

fn attrs_text_of(attrs: &Vec<String>) -> (r: String)
    ensures
        r@ == attrs_text(attrs@),
{
    let ghost parts = Seq::new(attrs@.len(), |i: int| attrs@[i]@ + " "@);
    let mut s = String::new();
    let mut i: usize = 0;
    while i < attrs.len()
        invariant
            i <= attrs@.len(),
            parts == Seq::new(attrs@.len(), |i: int| attrs@[i]@ + " "@),
            s@ == concat(parts.take(i as int)),
        decreases attrs@.len() - i,
    {
        proof {
            lemma_concat_take(parts, i as int);
        }
        s.append(attrs[i].as_str());
        s.append(" ");
        i = i + 1;
    }
    proof {
        lemma_concat_all(parts);
    }
    s
}

/// The attribute `a` followed by a space, unless the expansion consumes it.
pub open spec fn kept_attr_text(a: Seq<char>) -> Seq<char> {
    if consumed(attribute_kind_of(a)) {
        seq![]
    } else {
        a + " "@
    }
}

/// The attributes of `attrs` that stay, each followed by a space.
pub open spec fn kept_attrs_text(attrs: Seq<String>) -> Seq<char> {
    concat(Seq::new(attrs.len(), |i: int| kept_attr_text(attrs[i]@)))
}

fn kept_attrs_text_of(attrs: &Vec<String>) -> (r: String)
    ensures
        r@ == kept_attrs_text(attrs@),
{
    let ghost parts = Seq::new(attrs@.len(), |i: int| kept_attr_text(attrs@[i]@));
    let mut s = String::new();
    let mut i: usize = 0;
    while i < attrs.len()
        invariant
            i <= attrs@.len(),
            parts == Seq::new(attrs@.len(), |i: int| kept_attr_text(attrs@[i]@)),
            s@ == concat(parts.take(i as int)),
        decreases attrs@.len() - i,
    {
        proof {
            lemma_concat_take(parts, i as int);
        }
        let stays = match attribute_kind(attrs[i].as_str()) {
            AttributeKind::Fatal(_) => false,
            AttributeKind::MalformedFatal => false,
            _ => true,
        };
        if stays {
            s.append(attrs[i].as_str());
            s.append(" ");
        } else {
            assert(s@ + seq![] =~= s@);
        }
        i = i + 1;
    }
    proof {
        lemma_concat_all(parts);
    }
    s
}

/// A field's text with the type text `ty`.
pub open spec fn field_text(f: FieldDecl, named: bool, ty: Seq<char>) -> Seq<char> {
    attrs_text(f.attrs@) + f.vis@ + " "@ + (if named {
        f.name@ + " : "@
    } else {
        seq![]
    }) + ty
}

/// The part `part` (`Fatal` or `Jfyi`) of the split of type `ty`.
pub open spec fn split_type(ty: Seq<char>, part: Seq<char>) -> Seq<char> {
    "<"@ + ty + " as crate::Split>::"@ + part
}

/// The type text of field `i` of `v`, where field `k` of `replaced` gets
/// the given part of its type's split.
pub open spec fn field_type(v: VariantDecl, i: int, replaced: Option<(int, Seq<char>)>) -> Seq<char> {
    match replaced {
        Some((k, part)) => if k == i {
            split_type(v.fields@[i].ty@, part)
        } else {
            v.fields@[i].ty@
        },
        None => v.fields@[i].ty@,
    }
}

/// The fields of `v`, comma-separated.
pub open spec fn field_list(v: VariantDecl, replaced: Option<(int, Seq<char>)>) -> Seq<char> {
    concat(
        Seq::new(
            v.fields@.len(),
            |i: int|
                sep(i) + field_text(v.fields@[i], v.shape == FieldsShape::Named, field_type(v, i, replaced)),
        ),
    )
}

/// A comma where the list ends in one.
pub open spec fn trailing(comma: bool) -> Seq<char> {
    if comma {
        ","@
    } else {
        seq![]
    }
}

/// The fields of `v` with their brackets.
pub open spec fn fields_text(v: VariantDecl, replaced: Option<(int, Seq<char>)>) -> Seq<char> {
    match v.shape {
        FieldsShape::Unit => seq![],
        FieldsShape::Tuple => "("@ + field_list(v, replaced) + trailing(v.trailing_comma) + ")"@,
        FieldsShape::Named => "{ "@ + field_list(v, replaced) + trailing(v.trailing_comma) + " }"@,
    }
}

pub open spec fn replaced_view(replaced: Option<(usize, &str)>) -> Option<(int, Seq<char>)> {
    match replaced {
        Some((k, p)) => Some((k as int, p@)),
        None => None,
    }
}

fn field_text_of(v: &VariantDecl, i: usize, replaced: Option<(usize, &str)>) -> (r: String)
    requires
        i < v.fields@.len(),
    ensures
        r@ == field_text(
            v.fields@[i as int],
            v.shape == FieldsShape::Named,
            field_type(*v, i as int, replaced_view(replaced)),
        ),
{
    let f = &v.fields[i];
    let a = attrs_text_of(&f.attrs);
    let mut s = a;
    s.append(f.vis.as_str());
    s.append(" ");
    let ghost before_name = s@;
    if v.shape == FieldsShape::Named {
        s.append(f.name.as_str());
        s.append(" : ");
    } else {
        assert(s@ + seq![] =~= s@);
    }
    let ghost before_ty = s@;
    match replaced {
        Some((k, part)) => {
            if k == i {
                s.append("<");
                s.append(f.ty.as_str());
                s.append(" as crate::Split>::");
                s.append(part);
                assert(s@ =~= before_ty + split_type(f.ty@, part@));
            } else {
                s.append(f.ty.as_str());
            }
        },
        None => {
            s.append(f.ty.as_str());
        },
    }
    s
}

fn fields_text_of(v: &VariantDecl, replaced: Option<(usize, &str)>) -> (r: String)
    ensures
        r@ == fields_text(*v, replaced_view(replaced)),
{
    let ghost rv = replaced_view(replaced);
    let ghost parts = Seq::new(
        v.fields@.len(),
        |i: int|
            sep(i) + field_text(v.fields@[i], v.shape == FieldsShape::Named, field_type(*v, i, rv)),
    );
    let mut list = String::new();
    let mut i: usize = 0;
    while i < v.fields.len()
        invariant
            i <= v.fields@.len(),
            rv == replaced_view(replaced),
            parts == Seq::new(
                v.fields@.len(),
                |i: int|
                    sep(i) + field_text(v.fields@[i], v.shape == FieldsShape::Named, field_type(*v, i, rv)),
            ),
            list@ == concat(parts.take(i as int)),
        decreases v.fields@.len() - i,
    {
        proof {
            lemma_concat_take(parts, i as int);
        }
        push_sep(&mut list, i);
        let f = field_text_of(v, i, replaced);
        list.append(f.as_str());
        i = i + 1;
    }
    proof {
        lemma_concat_all(parts);
    }
    let tc = if v.trailing_comma {
        ","
    } else {
        ""
    };
    proof {
        reveal_strlit("");
        assert(""@ =~= seq![]);
    }
    let mut s = String::new();
    match v.shape {
        FieldsShape::Unit => {
            assert(s@ =~= seq![]);
        },
        FieldsShape::Tuple => {
            s.append("(");
            s.append(list.as_str());
            s.append(tc);
            s.append(")");
        },
        FieldsShape::Named => {
            s.append("{ ");
            s.append(list.as_str());
            s.append(tc);
            s.append(" }");
        },
    }
    s
}

/// The discriminant of `v`, if it has one.
pub open spec fn discriminant_text(v: VariantDecl) -> Seq<char> {
    if v.discriminant@.len() > 0 {
        " = "@ + v.discriminant@
    } else {
        seq![]
    }
}

/// A variant as it is emitted: its attributes but the `fatal` ones, its
/// name, fields and discriminant.
pub open spec fn variant_text(v: VariantDecl) -> Seq<char> {
    kept_attrs_text(v.attrs@) + v.name@ + " "@ + fields_text(v, None) + discriminant_text(v)
}

fn variant_text_of(v: &VariantDecl) -> (r: String)
    ensures
        r@ == variant_text(*v),
{
    let mut s = kept_attrs_text_of(&v.attrs);
    s.append(v.name.as_str());
    s.append(" ");
    let f = fields_text_of(v, None);
    s.append(f.as_str());
    if v.discriminant.as_str().unicode_len() > 0 {
        s.append(" = ");
        s.append(v.discriminant.as_str());
    } else {
        assert(s@ + seq![] =~= s@);
    }
    s
}

} // verus!

verus! {

/// The derive that every emitted type carries.
pub open spec fn derive_text() -> Seq<char> {
    "#[derive(crate::thiserror::Error, Debug)] "@
}

/// The verdicts fit the variants: one each, and a forward names a field.
pub open spec fn verdicts_fit(vs: Seq<VariantDecl>, verdicts: Seq<Verdict>) -> bool {
    &&& verdicts.len() == vs.len()
    &&& forall|i: int|
        0 <= i < vs.len() ==> (#[trigger] verdicts[i] matches Verdict::Forward(k) ==> k
            < vs[i].fields@.len())
}

/// The variants of `vs` at the indices `idx`, comma-separated.
pub open spec fn variant_list(vs: Seq<VariantDecl>, idx: Seq<usize>) -> Seq<char> {
    concat(Seq::new(idx.len(), |j: int| sep(j) + variant_text(vs[idx[j] as int])))
}

fn variant_list_of(vs: &Vec<VariantDecl>, idx: &Vec<usize>) -> (r: String)
    requires
        forall|j: int| 0 <= j < idx@.len() ==> #[trigger] idx@[j] < vs@.len(),
    ensures
        r@ == variant_list(vs@, idx@),
{
    let ghost parts = Seq::new(idx@.len(), |j: int| sep(j) + variant_text(vs@[idx@[j] as int]));
    let mut s = String::new();
    let mut j: usize = 0;
    while j < idx.len()
        invariant
            j <= idx@.len(),
            forall|j: int| 0 <= j < idx@.len() ==> #[trigger] idx@[j] < vs@.len(),
            parts == Seq::new(idx@.len(), |j: int| sep(j) + variant_text(vs@[idx@[j] as int])),
            s@ == concat(parts.take(j as int)),
        decreases idx@.len() - j,
    {
        proof {
            lemma_concat_take(parts, j as int);
        }
        push_sep(&mut s, j);
        let t = variant_text_of(&vs[idx[j]]);
        s.append(t.as_str());
        j = j + 1;
    }
    proof {
        lemma_concat_all(parts);
    }
    s
}

/// `0, 1, .., n - 1`.
pub open spec fn all_indices(n: nat) -> Seq<usize> {
    Seq::new(n, |i: int| i as usize)
}

fn all_indices_of(n: usize) -> (r: Vec<usize>)
    ensures
        r@ == all_indices(n as nat),
{
    let mut r: Vec<usize> = Vec::new();
    let mut i: usize = 0;
    while i < n
        invariant
            i <= n,
            r@ == all_indices(i as nat),
        decreases n - i,
    {
        r.push(i);
        i = i + 1;
        assert(r@ =~= all_indices(i as nat));
    }
    r
}

/// The `where` clause `w` as it follows the item's name: nothing where
/// there is none.
pub open spec fn where_part(w: Seq<char>) -> Seq<char> {
    if w.len() == 0 {
        seq![]
    } else {
        " "@ + w
    }
}

fn push_where(s: &mut String, w: &String)
    ensures
        final(s)@ == old(s)@ + where_part(w@),
{
    if w.as_str().unicode_len() == 0 {
        assert(s@ + seq![] =~= s@);
    } else {
        s.append(" ");
        s.append(w.as_str());
        assert(old(s)@ + " "@ + w@ =~= old(s)@ + where_part(w@));
    }
}

/// An enum as it is emitted: with the derive, its own attributes, its
/// `where` clause, and its variants without their `fatal` attributes.
pub open spec fn enum_item_text(d: ItemDecl, e: EnumDecl) -> Seq<char> {
    derive_text() + attrs_text(e.attrs@) + d.vis@ + " enum "@ + d.name@ + where_part(d.where_clause@) + " { "@ + variant_list(
        e.variants@,
        all_indices(e.variants@.len()),
    ) + trailing(e.trailing_comma) + " } "@
}

fn enum_item_text_of(d: &ItemDecl, e: &EnumDecl) -> (r: String)
    ensures
        r@ == enum_item_text(*d, *e),
{
    let idx = all_indices_of(e.variants.len());
    let list = variant_list_of(&e.variants, &idx);
    let a = attrs_text_of(&e.attrs);
    let mut s = String::from_str("#[derive(crate::thiserror::Error, Debug)] ");
    s.append(a.as_str());
    s.append(d.vis.as_str());
    s.append(" enum ");
    s.append(d.name.as_str());
    push_where(&mut s, &d.where_clause);
    s.append(" { ");
    s.append(list.as_str());
    if e.trailing_comma {
        s.append(",");
    } else {
        assert(s@ + seq![] =~= s@);
    }
    s.append(" } ");
    s
}

/// `Self::` followed by the variant's name.
pub open spec fn self_path(v: VariantDecl) -> Seq<char> {
    "Self::"@ + v.name@
}

fn path_of(prefix: &str, v: &VariantDecl) -> (r: String)
    ensures
        r@ == prefix@ + v.name@,
{
    let mut s = String::from_str(prefix);
    s.append(v.name.as_str());
    s
}

/// The arm of `is_fatal` for variant `v`.
pub open spec fn fatality_arm(v: VariantDecl, verdict: Verdict) -> Seq<char> {
    match verdict {
        Verdict::Jfyi => any_pattern(self_path(v), v) + " => false"@,
        Verdict::Fatal => any_pattern(self_path(v), v) + " => true"@,
        Verdict::Forward(k) => ref_pattern(self_path(v), v, k as int)
            + " => <_ as crate::Fatality>::is_fatal("@ + binding(v, k as int) + ")"@,
    }
}

fn fatality_arm_of(v: &VariantDecl, verdict: Verdict) -> (r: String)
    requires
        verdict matches Verdict::Forward(k) ==> k < v.fields@.len(),
    ensures
        r@ == fatality_arm(*v, verdict),
{
    let path = path_of("Self::", v);
    match verdict {
        Verdict::Jfyi => {
            let mut s = any_pattern_text(path.as_str(), v);
            s.append(" => false");
            s
        },
        Verdict::Fatal => {
            let mut s = any_pattern_text(path.as_str(), v);
            s.append(" => true");
            s
        },
        Verdict::Forward(k) => {
            let mut s = ref_pattern_text(path.as_str(), v, k);
            let b = binding_text(v, k);
            s.append(" => <_ as crate::Fatality>::is_fatal(");
            s.append(b.as_str());
            s.append(")");
            s
        },
    }
}

/// The `Fatality` impl of an enum.
pub open spec fn enum_fatality_impl(name: Seq<char>, vs: Seq<VariantDecl>, verdicts: Seq<Verdict>) -> Seq<char> {
    "impl crate::Fatality for "@ + name + " { fn is_fatal(&self) -> bool { match self { "@ + concat(
        Seq::new(vs.len(), |i: int| fatality_arm(vs[i], verdicts[i]) + ", "@),
    ) + "} } } "@
}

fn enum_fatality_impl_of(name: &String, vs: &Vec<VariantDecl>, verdicts: &Vec<Verdict>) -> (r: String)
    requires
        verdicts_fit(vs@, verdicts@),
    ensures
        r@ == enum_fatality_impl(name@, vs@, verdicts@),
{
    let ghost parts = Seq::new(vs@.len(), |i: int| fatality_arm(vs@[i], verdicts@[i]) + ", "@);
    let mut arms = String::new();
    let mut i: usize = 0;
    while i < vs.len()
        invariant
            i <= vs@.len(),
            verdicts_fit(vs@, verdicts@),
            parts == Seq::new(vs@.len(), |i: int| fatality_arm(vs@[i], verdicts@[i]) + ", "@),
            arms@ == concat(parts.take(i as int)),
        decreases vs@.len() - i,
    {
        proof {
            lemma_concat_take(parts, i as int);
        }
        let verdict = verdicts[i];
        assert(verdicts@[i as int] matches Verdict::Forward(k) ==> k < vs@[i as int].fields@.len());
        let a = fatality_arm_of(&vs[i], verdict);
        arms.append(a.as_str());
        arms.append(", ");
        i = i + 1;
    }
    proof {
        lemma_concat_all(parts);
    }
    let mut s = String::from_str("impl crate::Fatality for ");
    s.append(name.as_str());
    s.append(" { fn is_fatal(&self) -> bool { match self { ");
    s.append(arms.as_str());
    s.append("} } } ");
    s
}

} // verus!

verus! {

/// Which variants a list of the split takes, by verdict.
#[derive(Clone, Copy, Debug, PartialEq, Eq, Structural)]
pub enum Selection {
    /// Annotated fatal.
    Fatal,
    /// Forwarding.
    Forward,
    /// Informational.
    Jfyi,
    /// The fatal part: annotated fatal or forwarding.
    FatalPart,
    /// The informational part: informational or forwarding.
    JfyiPart,
}

/// Whether a variant with this verdict belongs to the selection.
pub open spec fn selects(sel: Selection, v: Verdict) -> bool {
    match sel {
        Selection::Fatal => v is Fatal,
        Selection::Forward => v is Forward,
        Selection::Jfyi => v is Jfyi,
        Selection::FatalPart => v is Fatal || v is Forward,
        Selection::JfyiPart => v is Jfyi || v is Forward,
    }
}

/// The indices, in order, of the verdicts that the selection takes.
pub open spec fn indices_where(verdicts: Seq<Verdict>, sel: Selection) -> Seq<usize>
    decreases verdicts.len(),
{
    if verdicts.len() == 0 {
        seq![]
    } else {
        indices_where(verdicts.drop_last(), sel) + if selects(sel, verdicts.last()) {
            seq![(verdicts.len() - 1) as usize]
        } else {
            seq![]
        }
    }
}

pub proof fn lemma_indices_where_bound(verdicts: Seq<Verdict>, sel: Selection)
    requires
        verdicts.len() <= usize::MAX,
    ensures
        forall|j: int|
            0 <= j < indices_where(verdicts, sel).len() ==> #[trigger] indices_where(verdicts, sel)[j]
                < verdicts.len(),
    decreases verdicts.len(),
{
    if verdicts.len() > 0 {
        lemma_indices_where_bound(verdicts.drop_last(), sel);
        let a = indices_where(verdicts.drop_last(), sel);
        let all = indices_where(verdicts, sel);
        assert forall|j: int| 0 <= j < all.len() implies #[trigger] all[j] < verdicts.len() by {
            if j < a.len() {
                assert(all[j] == a[j]);
            }
        }
    }
}

fn indices_of(verdicts: &Vec<Verdict>, sel: Selection) -> (r: Vec<usize>)
    ensures
        r@ == indices_where(verdicts@, sel),
        forall|j: int| 0 <= j < r@.len() ==> #[trigger] r@[j] < verdicts@.len(),
{
    let mut r: Vec<usize> = Vec::new();
    let mut i: usize = 0;
    while i < verdicts.len()
        invariant
            i <= verdicts@.len(),
            r@ == indices_where(verdicts@.take(i as int), sel),
        decreases verdicts@.len() - i,
    {
        let v = verdicts[i];
        let takes = match sel {
            Selection::Fatal => v == Verdict::Fatal,
            Selection::Forward => match v {
                Verdict::Forward(_) => true,
                _ => false,
            },
            Selection::Jfyi => v == Verdict::Jfyi,
            Selection::FatalPart => v != Verdict::Jfyi,
            Selection::JfyiPart => v != Verdict::Fatal,
        };
        assert(verdicts@.take(i + 1).drop_last() =~= verdicts@.take(i as int));
        if takes {
            r.push(i);
        }
        i = i + 1;
        assert(r@ =~= indices_where(verdicts@.take(i as int), sel));
    }
    assert(verdicts@.take(i as int) =~= verdicts@);
    proof {
        lemma_indices_where_bound(verdicts@, sel);
    }
    r
}

/// The arm of a conversion from the part `part_name` back to the enum.
pub open spec fn from_arm(part_name: Seq<char>, v: VariantDecl) -> Seq<char> {
    full_pattern(part_name + "::"@ + v.name@, v) + " => "@ + full_pattern(self_path(v), v)
}

/// The conversion from the part `part_name` (bound to `param`), made of the
/// variants `idx`, back to the enum `name`.
pub open spec fn from_impl(
    name: Seq<char>,
    part_name: Seq<char>,
    param: Seq<char>,
    vs: Seq<VariantDecl>,
    idx: Seq<usize>,
) -> Seq<char> {
    "impl ::std::convert::From<"@ + part_name + "> for "@ + name + " { fn from("@ + param + ": "@
        + part_name + ") -> Self { match "@ + param + " { "@ + concat(
        Seq::new(idx.len(), |j: int| from_arm(part_name, vs[idx[j] as int]) + ", "@),
    ) + "} } } "@
}

fn from_impl_of(
    name: &String,
    part_name: &String,
    param: &str,
    vs: &Vec<VariantDecl>,
    idx: &Vec<usize>,
) -> (r: String)
    requires
        forall|j: int| 0 <= j < idx@.len() ==> #[trigger] idx@[j] < vs@.len(),
    ensures
        r@ == from_impl(name@, part_name@, param@, vs@, idx@),
{
    let ghost parts = Seq::new(idx@.len(), |j: int| from_arm(part_name@, vs@[idx@[j] as int]) + ", "@);
    let mut arms = String::new();
    let mut j: usize = 0;
    let mut prefix = part_name.clone();
    prefix.append("::");
    while j < idx.len()
        invariant
            j <= idx@.len(),
            prefix@ == part_name@ + "::"@,
            forall|j: int| 0 <= j < idx@.len() ==> #[trigger] idx@[j] < vs@.len(),
            parts == Seq::new(idx@.len(), |j: int| from_arm(part_name@, vs@[idx@[j] as int]) + ", "@),
            arms@ == concat(parts.take(j as int)),
        decreases idx@.len() - j,
    {
        proof {
            lemma_concat_take(parts, j as int);
        }
        let v = &vs[idx[j]];
        let from_path = path_of(prefix.as_str(), v);
        let to_path = path_of("Self::", v);
        let from = full_pattern_text(from_path.as_str(), v);
        let to = full_pattern_text(to_path.as_str(), v);
        arms.append(from.as_str());
        arms.append(" => ");
        arms.append(to.as_str());
        arms.append(", ");
        assert(from_path@ == part_name@ + "::"@ + v.name@);
        j = j + 1;
    }
    proof {
        lemma_concat_all(parts);
    }
    let mut s = String::from_str("impl ::std::convert::From<");
    s.append(part_name.as_str());
    s.append("> for ");
    s.append(name.as_str());
    s.append(" { fn from(");
    s.append(param);
    s.append(": ");
    s.append(part_name.as_str());
    s.append(") -> Self { match ");
    s.append(param);
    s.append(" { ");
    s.append(arms.as_str());
    s.append("} } } ");
    s
}

/// A part of the split enum: the variants `idx`, under the name `part_name`.
pub open spec fn part_enum(vis: Seq<char>, part_name: Seq<char>, vs: Seq<VariantDecl>, idx: Seq<usize>) -> Seq<char> {
    derive_text() + vis + " enum "@ + part_name + " { "@ + variant_list(vs, idx) + " } "@
}

fn part_enum_of(vis: &String, part_name: &String, vs: &Vec<VariantDecl>, idx: &Vec<usize>) -> (r: String)
    requires
        forall|j: int| 0 <= j < idx@.len() ==> #[trigger] idx@[j] < vs@.len(),
    ensures
        r@ == part_enum(vis@, part_name@, vs@, idx@),
{
    let list = variant_list_of(vs, idx);
    let mut s = String::from_str("#[derive(crate::thiserror::Error, Debug)] ");
    s.append(vis.as_str());
    s.append(" enum ");
    s.append(part_name.as_str());
    s.append(" { ");
    s.append(list.as_str());
    s.append(" } ");
    s
}

/// The arm of `split` for variant `v`: a variant annotated fatal goes to
/// the fatal part, an informational one to the informational part, and a
/// forwarding one to the fatal part exactly when its inner error is fatal.
pub open spec fn split_arm(fatal_name: Seq<char>, jfyi_name: Seq<char>, v: VariantDecl, verdict: Verdict) -> Seq<char> {
    let this = full_pattern(self_path(v), v);
    let fatal = full_pattern(fatal_name + "::"@ + v.name@, v);
    let jfyi = full_pattern(jfyi_name + "::"@ + v.name@, v);
    match verdict {
        Verdict::Fatal => this + " => Err("@ + fatal + ")"@,
        Verdict::Jfyi => this + " => Ok("@ + jfyi + ")"@,
        Verdict::Forward(k) => this + " => if <_ as crate::Fatality>::is_fatal(&"@ + binding(v, k as int)
            + ") { Err("@ + fatal + ") } else { Ok("@ + jfyi + ") }"@,
    }
}

fn split_arm_of(fatal_name: &String, jfyi_name: &String, v: &VariantDecl, verdict: Verdict) -> (r: String)
    requires
        verdict matches Verdict::Forward(k) ==> k < v.fields@.len(),
    ensures
        r@ == split_arm(fatal_name@, jfyi_name@, *v, verdict),
{
    let mut fatal_prefix = fatal_name.clone();
    fatal_prefix.append("::");
    let mut jfyi_prefix = jfyi_name.clone();
    jfyi_prefix.append("::");
    let this_path = path_of("Self::", v);
    let fatal_path = path_of(fatal_prefix.as_str(), v);
    let jfyi_path = path_of(jfyi_prefix.as_str(), v);
    let this = full_pattern_text(this_path.as_str(), v);
    let fatal = full_pattern_text(fatal_path.as_str(), v);
    let jfyi = full_pattern_text(jfyi_path.as_str(), v);
    let mut s = this;
    match verdict {
        Verdict::Fatal => {
            s.append(" => Err(");
            s.append(fatal.as_str());
            s.append(")");
        },
        Verdict::Jfyi => {
            s.append(" => Ok(");
            s.append(jfyi.as_str());
            s.append(")");
        },
        Verdict::Forward(k) => {
            let b = binding_text(v, k);
            s.append(" => if <_ as crate::Fatality>::is_fatal(&");
            s.append(b.as_str());
            s.append(") { Err(");
            s.append(fatal.as_str());
            s.append(") } else { Ok(");
            s.append(jfyi.as_str());
            s.append(") }");
        },
    }
    s
}

} // verus!

verus! {

/// The order of the arms of `split`: the variants annotated fatal, then
/// the forwarding ones, then the informational ones.
pub open spec fn split_order(verdicts: Seq<Verdict>) -> Seq<usize> {
    indices_where(verdicts, Selection::Fatal) + indices_where(verdicts, Selection::Forward)
        + indices_where(verdicts, Selection::Jfyi)
}

/// The `Split` impl of an enum.
pub open spec fn split_impl(
    name: Seq<char>,
    fatal_name: Seq<char>,
    jfyi_name: Seq<char>,
    vs: Seq<VariantDecl>,
    verdicts: Seq<Verdict>,
) -> Seq<char> {
    let order = split_order(verdicts);
    "impl crate::Split for "@ + name + " { type Fatal = "@ + fatal_name + "; type Jfyi = "@ + jfyi_name
        + "; fn split(self) -> ::std::result::Result<Self::Jfyi, Self::Fatal> { match self { "@
        + concat(
        Seq::new(
            order.len(),
            |j: int|
                split_arm(fatal_name, jfyi_name, vs[order[j] as int], verdicts[order[j] as int]) + ", "@,
        ),
    ) + "} } } "@
}

fn split_impl_of(
    name: &String,
    fatal_name: &String,
    jfyi_name: &String,
    vs: &Vec<VariantDecl>,
    verdicts: &Vec<Verdict>,
) -> (r: String)
    requires
        verdicts_fit(vs@, verdicts@),
    ensures
        r@ == split_impl(name@, fatal_name@, jfyi_name@, vs@, verdicts@),
{
    let mut order = indices_of(verdicts, Selection::Fatal);
    let mut forward = indices_of(verdicts, Selection::Forward);
    let mut jfyi = indices_of(verdicts, Selection::Jfyi);
    order.append(&mut forward);
    order.append(&mut jfyi);
    assert(order@ =~= split_order(verdicts@));
    let ghost parts = Seq::new(
        order@.len(),
        |j: int|
            split_arm(fatal_name@, jfyi_name@, vs@[order@[j] as int], verdicts@[order@[j] as int]) + ", "@,
    );
    let mut arms = String::new();
    let mut j: usize = 0;
    while j < order.len()
        invariant
            j <= order@.len(),
            verdicts_fit(vs@, verdicts@),
            forall|j: int| 0 <= j < order@.len() ==> #[trigger] order@[j] < vs@.len(),
            parts == Seq::new(
                order@.len(),
                |j: int|
                    split_arm(fatal_name@, jfyi_name@, vs@[order@[j] as int], verdicts@[order@[j] as int])
                        + ", "@,
            ),
            arms@ == concat(parts.take(j as int)),
        decreases order@.len() - j,
    {
        proof {
            lemma_concat_take(parts, j as int);
        }
        let i = order[j];
        let verdict = verdicts[i];
        assert(verdicts@[i as int] matches Verdict::Forward(k) ==> k < vs@[i as int].fields@.len());
        let a = split_arm_of(fatal_name, jfyi_name, &vs[i], verdict);
        arms.append(a.as_str());
        arms.append(", ");
        j = j + 1;
    }
    proof {
        lemma_concat_all(parts);
    }
    let mut s = String::from_str("impl crate::Split for ");
    s.append(name.as_str());
    s.append(" { type Fatal = ");
    s.append(fatal_name.as_str());
    s.append("; type Jfyi = ");
    s.append(jfyi_name.as_str());
    s.append("; fn split(self) -> ::std::result::Result<Self::Jfyi, Self::Fatal> { match self { ");
    s.append(arms.as_str());
    s.append("} } } ");
    s
}

/// The code generated for an enum: the enum, its `Fatality` impl, and for
/// a `splitable` enum the conversions back from the two parts, the two
/// parts, and the `Split` impl.
pub open spec fn enum_output(d: ItemDecl, e: EnumDecl, splitable: bool, verdicts: Seq<Verdict>) -> Seq<char> {
    let vs = e.variants@;
    let fatal_name = "Fatal"@ + d.name@;
    let jfyi_name = "Jfyi"@ + d.name@;
    let fatal_part = indices_where(verdicts, Selection::FatalPart);
    let jfyi_part = indices_where(verdicts, Selection::JfyiPart);
    enum_item_text(d, e) + enum_fatality_impl(d.name@, vs, verdicts) + if splitable {
        from_impl(d.name@, fatal_name, "fatal"@, vs, fatal_part) + from_impl(
            d.name@,
            jfyi_name,
            "jfyi"@,
            vs,
            jfyi_part,
        ) + part_enum(d.vis@, fatal_name, vs, fatal_part) + part_enum(d.vis@, jfyi_name, vs, jfyi_part)
            + split_impl(d.name@, fatal_name, jfyi_name, vs, verdicts)
    } else {
        seq![]
    }
}

/// The code generated for the enum `e` of the item `d`.
pub fn enum_output_of(d: &ItemDecl, e: &EnumDecl, splitable: bool, verdicts: &Vec<Verdict>) -> (r: String)
    requires
        verdicts_fit(e.variants@, verdicts@),
    ensures
        r@ == enum_output(*d, *e, splitable, verdicts@),
{
    let item = enum_item_text_of(d, e);
    let fatality = enum_fatality_impl_of(&d.name, &e.variants, verdicts);
    let mut s = item;
    s.append(fatality.as_str());
    if splitable {
        let mut fatal_name = String::from_str("Fatal");
        fatal_name.append(d.name.as_str());
        let mut jfyi_name = String::from_str("Jfyi");
        jfyi_name.append(d.name.as_str());
        let fatal_part = indices_of(verdicts, Selection::FatalPart);
        let jfyi_part = indices_of(verdicts, Selection::JfyiPart);
        let from_fatal = from_impl_of(&d.name, &fatal_name, "fatal", &e.variants, &fatal_part);
        let from_jfyi = from_impl_of(&d.name, &jfyi_name, "jfyi", &e.variants, &jfyi_part);
        let fatal_enum = part_enum_of(&d.vis, &fatal_name, &e.variants, &fatal_part);
        let jfyi_enum = part_enum_of(&d.vis, &jfyi_name, &e.variants, &jfyi_part);
        let split = split_impl_of(&d.name, &fatal_name, &jfyi_name, &e.variants, verdicts);
        let mut rest = from_fatal;
        rest.append(from_jfyi.as_str());
        rest.append(fatal_enum.as_str());
        rest.append(jfyi_enum.as_str());
        rest.append(split.as_str());
        s.append(rest.as_str());
    } else {
        assert(s@ + seq![] =~= s@);
    }
    s
}

} // verus!

verus! {

/// The semicolon that ends a struct without named fields.
pub open spec fn semicolon(v: VariantDecl) -> Seq<char> {
    if v.shape == FieldsShape::Named {
        seq![]
    } else {
        ";"@
    }
}

/// The `where` clause of the struct itself, which its parts (those with a
/// field replaced) do not repeat.
pub open spec fn struct_where(d: ItemDecl, replaced: Option<(int, Seq<char>)>) -> Seq<char> {
    if replaced is None {
        where_part(d.where_clause@)
    } else {
        seq![]
    }
}

/// A struct as it is emitted under the name `name`: with the derive, its
/// attributes but the `fatal` ones, its fields (the type of one of them
/// replaced as `replaced` says), and its `where` clause, before named
/// fields and after positional ones.
pub open spec fn struct_item_text(
    d: ItemDecl,
    v: VariantDecl,
    name: Seq<char>,
    replaced: Option<(int, Seq<char>)>,
) -> Seq<char> {
    let w = struct_where(d, replaced);
    derive_text() + kept_attrs_text(v.attrs@) + d.vis@ + " struct "@ + name + if v.shape
        == FieldsShape::Named {
        w + " "@ + fields_text(v, replaced)
    } else {
        " "@ + fields_text(v, replaced) + w
    } + semicolon(v) + " "@
}

fn struct_item_text_of(d: &ItemDecl, v: &VariantDecl, name: &String, replaced: Option<(usize, &str)>) -> (r: String)
    ensures
        r@ == struct_item_text(*d, *v, name@, replaced_view(replaced)),
{
    let attrs = kept_attrs_text_of(&v.attrs);
    let fields = fields_text_of(v, replaced);
    let mut s = String::from_str("#[derive(crate::thiserror::Error, Debug)] ");
    s.append(attrs.as_str());
    s.append(d.vis.as_str());
    s.append(" struct ");
    s.append(name.as_str());
    let ghost head = s@;
    let ghost w = struct_where(*d, replaced_view(replaced));
    let empty = String::new();
    let wc = if replaced.is_none() {
        &d.where_clause
    } else {
        &empty
    };
    assert(where_part(wc@) == w);
    if v.shape == FieldsShape::Named {
        push_where(&mut s, wc);
        s.append(" ");
        s.append(fields.as_str());
        assert(s@ =~= head + (w + " "@ + fields@));
        assert(s@ + seq![] =~= s@);
    } else {
        s.append(" ");
        s.append(fields.as_str());
        push_where(&mut s, wc);
        assert(s@ =~= head + (" "@ + fields@ + w));
        s.append(";");
    }
    s.append(" ");
    s
}

/// How field `k` of a struct is reached from `self`.
pub open spec fn member(v: VariantDecl, k: int) -> Seq<char> {
    if v.shape == FieldsShape::Named {
        v.fields@[k].name@
    } else {
        decimal(k as nat)
    }
}

/// The `Fatality` impl of a struct.
pub open spec fn struct_fatality_impl(name: Seq<char>, v: VariantDecl, verdict: Verdict) -> Seq<char> {
    "impl crate::Fatality for "@ + name + " { fn is_fatal(&self) -> bool { "@ + match verdict {
        Verdict::Jfyi => "false"@,
        Verdict::Fatal => "true"@,
        Verdict::Forward(k) => "crate::Fatality::is_fatal(&self."@ + member(v, k as int) + ")"@,
    } + " } } "@
}

fn struct_fatality_impl_of(name: &String, v: &VariantDecl, verdict: Verdict) -> (r: String)
    requires
        verdict matches Verdict::Forward(k) ==> k < v.fields@.len(),
    ensures
        r@ == struct_fatality_impl(name@, *v, verdict),
{
    let body = match verdict {
        Verdict::Jfyi => String::from_str("false"),
        Verdict::Fatal => String::from_str("true"),
        Verdict::Forward(k) => {
            let m = if v.shape == FieldsShape::Named {
                v.fields[k].name.clone()
            } else {
                decimal_text(k)
            };
            let mut b = String::from_str("crate::Fatality::is_fatal(&self.");
            b.append(m.as_str());
            b.append(")");
            b
        },
    };
    let mut s = String::from_str("impl crate::Fatality for ");
    s.append(name.as_str());
    s.append(" { fn is_fatal(&self) -> bool { ");
    s.append(body.as_str());
    s.append(" } } ");
    s
}

/// The piece of `rebuilt` for field `i`.
pub open spec fn rebuilt_piece(v: VariantDecl, k: int, i: int) -> Seq<char> {
    if v.shape == FieldsShape::Named {
        sep(i) + binding(v, i) + ": "@ + if i == k {
            "part"@
        } else {
            binding(v, i)
        }
    } else {
        sep(i) + if i == k {
            "part"@
        } else {
            binding(v, i)
        }
    }
}

/// The value of a part of a split struct: the struct's fields, with field
/// `k` replaced by `part`.
pub open spec fn rebuilt(part_name: Seq<char>, v: VariantDecl, k: int) -> Seq<char> {
    let list = concat(Seq::new(v.fields@.len(), |i: int| rebuilt_piece(v, k, i)));
    if v.shape == FieldsShape::Named {
        part_name + " { "@ + list + " }"@
    } else {
        part_name + "("@ + list + ")"@
    }
}

fn rebuilt_of(part_name: &String, v: &VariantDecl, k: usize) -> (r: String)
    ensures
        r@ == rebuilt(part_name@, *v, k as int),
{
    let ghost parts = Seq::new(v.fields@.len(), |i: int| rebuilt_piece(*v, k as int, i));
    let mut list = String::new();
    let mut i: usize = 0;
    while i < v.fields.len()
        invariant
            i <= v.fields@.len(),
            parts == Seq::new(v.fields@.len(), |i: int| rebuilt_piece(*v, k as int, i)),
            list@ == concat(parts.take(i as int)),
        decreases v.fields@.len() - i,
    {
        proof {
            lemma_concat_take(parts, i as int);
        }
        push_sep(&mut list, i);
        let b = binding_text(v, i);
        if v.shape == FieldsShape::Named {
            list.append(b.as_str());
            list.append(": ");
        }
        if i == k {
            list.append("part");
        } else {
            list.append(b.as_str());
        }
        i = i + 1;
    }
    proof {
        lemma_concat_all(parts);
    }
    let mut s = part_name.clone();
    if v.shape == FieldsShape::Named {
        s.append(" { ");
        s.append(list.as_str());
        s.append(" }");
    } else {
        s.append("(");
        s.append(list.as_str());
        s.append(")");
    }
    s
}

/// The `Split` impl of a struct that forwards to field `k`: the struct
/// splits as the inner error in field `k` splits.
pub open spec fn struct_split_impl(
    name: Seq<char>,
    fatal_name: Seq<char>,
    jfyi_name: Seq<char>,
    v: VariantDecl,
    k: int,
) -> Seq<char> {
    "impl crate::Split for "@ + name + " { type Fatal = "@ + fatal_name + "; type Jfyi = "@ + jfyi_name
        + "; fn split(self) -> ::std::result::Result<Self::Jfyi, Self::Fatal> { let "@ + full_pattern(
        "Self"@,
        v,
    ) + " = self; match crate::Split::split("@ + binding(v, k) + ") { Ok(part) => Ok("@ + rebuilt(
        jfyi_name,
        v,
        k,
    ) + "), Err(part) => Err("@ + rebuilt(fatal_name, v, k) + "), } } } "@
}

fn struct_split_impl_of(name: &String, fatal_name: &String, jfyi_name: &String, v: &VariantDecl, k: usize) -> (r: String)
    requires
        k < v.fields@.len(),
    ensures
        r@ == struct_split_impl(name@, fatal_name@, jfyi_name@, *v, k as int),
{
    let this = full_pattern_text("Self", v);
    let b = binding_text(v, k);
    let j = rebuilt_of(jfyi_name, v, k);
    let f = rebuilt_of(fatal_name, v, k);
    let mut s = String::from_str("impl crate::Split for ");
    s.append(name.as_str());
    s.append(" { type Fatal = ");
    s.append(fatal_name.as_str());
    s.append("; type Jfyi = ");
    s.append(jfyi_name.as_str());
    s.append("; fn split(self) -> ::std::result::Result<Self::Jfyi, Self::Fatal> { let ");
    s.append(this.as_str());
    s.append(" = self; match crate::Split::split(");
    s.append(b.as_str());
    s.append(") { Ok(part) => Ok(");
    s.append(j.as_str());
    s.append("), Err(part) => Err(");
    s.append(f.as_str());
    s.append("), } } } ");
    s
}

/// The code generated for a struct: the struct, its `Fatality` impl, and
/// for a `splitable` struct that forwards, its fatal and informational
/// parts and its `Split` impl.
pub open spec fn struct_output(d: ItemDecl, v: VariantDecl, verdict: Verdict, splitable: bool) -> Seq<char> {
    let fatal_name = "Fatal"@ + d.name@;
    let jfyi_name = "Jfyi"@ + d.name@;
    struct_item_text(d, v, d.name@, None) + struct_fatality_impl(d.name@, v, verdict) + match verdict {
        Verdict::Forward(k) => if splitable {
            struct_item_text(d, v, fatal_name, Some((k as int, "Fatal"@))) + struct_item_text(
                d,
                v,
                jfyi_name,
                Some((k as int, "Jfyi"@)),
            ) + struct_split_impl(d.name@, fatal_name, jfyi_name, v, k as int)
        } else {
            seq![]
        },
        _ => seq![],
    }
}

/// The code generated for the struct `v` of the item `d`.
pub fn struct_output_of(d: &ItemDecl, v: &VariantDecl, verdict: Verdict, splitable: bool) -> (r: String)
    requires
        verdict matches Verdict::Forward(k) ==> k < v.fields@.len(),
    ensures
        r@ == struct_output(*d, *v, verdict, splitable),
{
    let item = struct_item_text_of(d, v, &d.name, None);
    let fatality = struct_fatality_impl_of(&d.name, v, verdict);
    let mut s = item;
    s.append(fatality.as_str());
    match verdict {
        Verdict::Forward(k) => {
            if splitable {
                let mut fatal_name = String::from_str("Fatal");
                fatal_name.append(d.name.as_str());
                let mut jfyi_name = String::from_str("Jfyi");
                jfyi_name.append(d.name.as_str());
                let fatal_struct = struct_item_text_of(d, v, &fatal_name, Some((k, "Fatal")));
                let jfyi_struct = struct_item_text_of(d, v, &jfyi_name, Some((k, "Jfyi")));
                let split = struct_split_impl_of(&d.name, &fatal_name, &jfyi_name, v, k);
                let mut rest = fatal_struct;
                rest.append(jfyi_struct.as_str());
                rest.append(split.as_str());
                s.append(rest.as_str());
            } else {
                assert(s@ + seq![] =~= s@);
            }
        },
        _ => {
            assert(s@ + seq![] =~= s@);
        },
    }
    s
}

} // verus!

verus! {

proof fn lemma_indices_where_members(verdicts: Seq<Verdict>, sel: Selection)
    requires
        verdicts.len() <= usize::MAX,
    ensures
        forall|i: int|
            0 <= i < verdicts.len() ==> (indices_where(verdicts, sel).contains(i as usize) <==> selects(
                sel,
                #[trigger] verdicts[i],
            )),
        forall|j: int|
            0 <= j < indices_where(verdicts, sel).len() ==> #[trigger] indices_where(verdicts, sel)[j]
                < verdicts.len() && selects(sel, verdicts[indices_where(verdicts, sel)[j] as int]),
        forall|j1: int, j2: int|
            0 <= j1 < j2 < indices_where(verdicts, sel).len() ==> indices_where(verdicts, sel)[j1]
                < indices_where(verdicts, sel)[j2],
    decreases verdicts.len(),
{
    if verdicts.len() > 0 {
        let p = verdicts.drop_last();
        lemma_indices_where_members(p, sel);
        let a = indices_where(p, sel);
        let all = indices_where(verdicts, sel);
        let n = verdicts.len() - 1;
        assert forall|j: int| 0 <= j < all.len() implies #[trigger] all[j] < verdicts.len() && selects(
            sel,
            verdicts[all[j] as int],
        ) by {
            if j < a.len() {
                assert(all[j] == a[j]);
                assert(verdicts[a[j] as int] == p[a[j] as int]);
            }
        }
        assert forall|i: int| 0 <= i < verdicts.len() implies (all.contains(i as usize) <==> selects(
            sel,
            #[trigger] verdicts[i],
        )) by {
            if i < n {
                assert(verdicts[i] == p[i]);
                if a.contains(i as usize) {
                    let j = choose|j: int| 0 <= j < a.len() && a[j] == i as usize;
                    assert(all[j] == a[j]);
                }
                if all.contains(i as usize) {
                    let j = choose|j: int| 0 <= j < all.len() && all[j] == i as usize;
                    if j < a.len() {
                        assert(all[j] == a[j]);
                    }
                }
            } else {
                if selects(sel, verdicts[i]) {
                    assert(all[a.len() as int] == i as usize);
                }
                if all.contains(i as usize) {
                    let j = choose|j: int| 0 <= j < all.len() && all[j] == i as usize;
                    if j < a.len() {
                        assert(all[j] == a[j]);
                    }
                }
            }
        }
        assert forall|j1: int, j2: int| 0 <= j1 < j2 < all.len() implies all[j1] < all[j2] by {
            assert(all[j1] == a[j1]);
            if j2 < a.len() {
                assert(all[j2] == a[j2]);
            }
        }
    }
}

/// The arms of the generated `split` cover every variant exactly once:
/// the match is exhaustive and has no unreachable arm.
pub proof fn lemma_split_order_covers(verdicts: Seq<Verdict>)
    requires
        verdicts.len() <= usize::MAX,
    ensures
        forall|i: int| 0 <= i < verdicts.len() ==> #[trigger] split_order(verdicts).contains(i as usize),
        forall|j: int| 0 <= j < split_order(verdicts).len() ==> #[trigger] split_order(verdicts)[j] < verdicts.len(),
        forall|j1: int, j2: int|
            0 <= j1 < j2 < split_order(verdicts).len() ==> split_order(verdicts)[j1] != split_order(
                verdicts,
            )[j2],
{
    lemma_indices_where_members(verdicts, Selection::Fatal);
    lemma_indices_where_members(verdicts, Selection::Forward);
    lemma_indices_where_members(verdicts, Selection::Jfyi);
    let f = indices_where(verdicts, Selection::Fatal);
    let w = indices_where(verdicts, Selection::Forward);
    let y = indices_where(verdicts, Selection::Jfyi);
    let o = split_order(verdicts);
    assert(o == f + w + y);
    assert forall|i: int| 0 <= i < verdicts.len() implies #[trigger] o.contains(i as usize) by {
        let v = verdicts[i];
        if v is Fatal {
            let j = choose|j: int| 0 <= j < f.len() && f[j] == i as usize;
            assert(o[j] == f[j]);
        } else if v is Forward {
            let j = choose|j: int| 0 <= j < w.len() && w[j] == i as usize;
            assert(o[f.len() + j] == w[j]);
        } else {
            let j = choose|j: int| 0 <= j < y.len() && y[j] == i as usize;
            assert(o[f.len() + w.len() + j] == y[j]);
        }
    }
    assert forall|j: int| 0 <= j < o.len() implies #[trigger] o[j] < verdicts.len() by {
        if j < f.len() {
            assert(o[j] == f[j]);
        } else if j < f.len() + w.len() {
            assert(o[j] == w[j - f.len()]);
        } else {
            assert(o[j] == y[j - f.len() - w.len()]);
        }
    }
    assert forall|j1: int, j2: int| 0 <= j1 < j2 < o.len() implies o[j1] != o[j2] by {
        let s1 = if j1 < f.len() {
            Selection::Fatal
        } else if j1 < f.len() + w.len() {
            Selection::Forward
        } else {
            Selection::Jfyi
        };
        let s2 = if j2 < f.len() {
            Selection::Fatal
        } else if j2 < f.len() + w.len() {
            Selection::Forward
        } else {
            Selection::Jfyi
        };
        if j1 < f.len() {
            assert(o[j1] == f[j1]);
        } else if j1 < f.len() + w.len() {
            assert(o[j1] == w[j1 - f.len()]);
        } else {
            assert(o[j1] == y[j1 - f.len() - w.len()]);
        }
        if j2 < f.len() {
            assert(o[j2] == f[j2]);
        } else if j2 < f.len() + w.len() {
            assert(o[j2] == w[j2 - f.len()]);
        } else {
            assert(o[j2] == y[j2 - f.len() - w.len()]);
        }
        assert(selects(s1, verdicts[o[j1] as int]));
        assert(selects(s2, verdicts[o[j2] as int]));
    }
}

} // verus!

verus! {

/// The generated fatal part lists, in the enum's order, exactly the
/// variants annotated fatal or forwarding; the informational part exactly
/// the informational or forwarding ones.
pub proof fn lemma_generated_parts(verdicts: Seq<Verdict>)
    requires
        verdicts.len() <= usize::MAX,
    ensures
        forall|i: int|
            0 <= i < verdicts.len() ==> (indices_where(verdicts, Selection::FatalPart).contains(
                i as usize,
            ) <==> crate::plan::goes_fatal(#[trigger] verdicts[i])),
        forall|i: int|
            0 <= i < verdicts.len() ==> (indices_where(verdicts, Selection::JfyiPart).contains(
                i as usize,
            ) <==> crate::plan::goes_jfyi(#[trigger] verdicts[i])),
        forall|j1: int, j2: int|
            0 <= j1 < j2 < indices_where(verdicts, Selection::FatalPart).len() ==> indices_where(
                verdicts,
                Selection::FatalPart,
            )[j1] < indices_where(verdicts, Selection::FatalPart)[j2],
        forall|j1: int, j2: int|
            0 <= j1 < j2 < indices_where(verdicts, Selection::JfyiPart).len() ==> indices_where(
                verdicts,
                Selection::JfyiPart,
            )[j1] < indices_where(verdicts, Selection::JfyiPart)[j2],
{
    lemma_indices_where_members(verdicts, Selection::FatalPart);
    lemma_indices_where_members(verdicts, Selection::JfyiPart);
}

} // verus!

verus! {

/// `needle` stands somewhere in `hay`.
pub open spec fn occurs_in(needle: Seq<char>, hay: Seq<char>) -> bool {
    exists|i: int|
        0 <= i && i + needle.len() <= hay.len() && #[trigger] hay.subrange(i, i + needle.len())
            == needle
}

proof fn lemma_suffix(a: Seq<char>, n: Seq<char>)
    ensures
        n.is_suffix_of(a + n),
{
    assert((a + n).subrange(a.len() as int, (a + n).len() as int) =~= n);
}

proof fn lemma_prefix(n: Seq<char>, b: Seq<char>)
    ensures
        n.is_prefix_of(n + b),
{
    assert((n + b).subrange(0, n.len() as int) =~= n);
}

proof fn lemma_occurs(a: Seq<char>, n: Seq<char>, b: Seq<char>)
    ensures
        occurs_in(n, a + n + b),
{
    let h = a + n + b;
    assert(h.subrange(a.len() as int, (a.len() + n.len()) as int) =~= n);
}

/// The `is_fatal` emitted for a struct returns `false` under the verdict
/// `Jfyi`, `true` under `Fatal`, and under `Forward(k)` the fatality of
/// field `k` itself, reached through its name, or through its position
/// where the fields are positional.
pub proof fn lemma_struct_is_fatal_asks_forwarded_field(name: Seq<char>, v: VariantDecl, k: usize)
    ensures
        "bool { false } } "@.is_suffix_of(struct_fatality_impl(name, v, Verdict::Jfyi)),
        "bool { true } } "@.is_suffix_of(struct_fatality_impl(name, v, Verdict::Fatal)),
        ("bool { crate::Fatality::is_fatal(&self."@ + (if v.shape == FieldsShape::Named {
            v.fields@[k as int].name@
        } else {
            decimal(k as nat)
        }) + ") } } "@).is_suffix_of(struct_fatality_impl(name, v, Verdict::Forward(k))),
{
    let head = "impl crate::Fatality for "@ + name + " { fn is_fatal(&self) -> "@;
    let m = if v.shape == FieldsShape::Named {
        v.fields@[k as int].name@
    } else {
        decimal(k as nat)
    };
    reveal_strlit(" { fn is_fatal(&self) -> bool { ");
    reveal_strlit(" { fn is_fatal(&self) -> ");
    reveal_strlit("bool { false } } ");
    reveal_strlit("bool { true } } ");
    reveal_strlit("bool { crate::Fatality::is_fatal(&self.");
    reveal_strlit("crate::Fatality::is_fatal(&self.");
    reveal_strlit(") } } ");
    reveal_strlit(")");
    reveal_strlit(" } } ");
    reveal_strlit("false");
    reveal_strlit("true");
    reveal_strlit("bool { ");
    assert(struct_fatality_impl(name, v, Verdict::Jfyi) =~= head + "bool { false } } "@);
    lemma_suffix(head, "bool { false } } "@);
    assert(struct_fatality_impl(name, v, Verdict::Fatal) =~= head + "bool { true } } "@);
    lemma_suffix(head, "bool { true } } "@);
    let n = "bool { crate::Fatality::is_fatal(&self."@ + m + ") } } "@;
    assert(struct_fatality_impl(name, v, Verdict::Forward(k)) =~= head + n);
    lemma_suffix(head, n);
}

/// The arm of `is_fatal` answers by the verdict, and the arm of `split`
/// agrees with it: a fatal variant answers `true` and goes to the fatal
/// part, an informational one answers `false` and goes to the
/// informational part, and a variant that forwards to field `k` answers the
/// fatality of binding `k` and goes to the fatal part exactly when that same
/// binding is fatal.
#[verifier::spinoff_prover]
#[verifier::rlimit(60)]
pub proof fn lemma_split_arm_follows_is_fatal_arm(
    fatal_name: Seq<char>,
    jfyi_name: Seq<char>,
    v: VariantDecl,
    verdict: Verdict,
)
    ensures
        ({
            let fatal = full_pattern(fatal_name + "::"@ + v.name@, v);
            let jfyi = full_pattern(jfyi_name + "::"@ + v.name@, v);
            let arm = split_arm(fatal_name, jfyi_name, v, verdict);
            match verdict {
                Verdict::Fatal => " => true"@.is_suffix_of(fatality_arm(v, verdict)) && (
                " => Err("@ + fatal + ")"@).is_suffix_of(arm),
                Verdict::Jfyi => " => false"@.is_suffix_of(fatality_arm(v, verdict)) && (
                " => Ok("@ + jfyi + ")"@).is_suffix_of(arm),
                Verdict::Forward(k) => (" => <_ as crate::Fatality>::is_fatal("@ + binding(
                    v,
                    k as int,
                ) + ")"@).is_suffix_of(fatality_arm(v, verdict)) && (
                " => if <_ as crate::Fatality>::is_fatal(&"@ + binding(v, k as int) + ") { Err("@
                    + fatal + ") } else { Ok("@ + jfyi + ") }"@).is_suffix_of(arm),
            }
        }),
{
    let this = full_pattern(self_path(v), v);
    let fatal = full_pattern(fatal_name + "::"@ + v.name@, v);
    let jfyi = full_pattern(jfyi_name + "::"@ + v.name@, v);
    let arm = split_arm(fatal_name, jfyi_name, v, verdict);
    match verdict {
        Verdict::Fatal => {
            lemma_suffix(any_pattern(self_path(v), v), " => true"@);
            assert(arm =~= this + (" => Err("@ + fatal + ")"@));
            lemma_suffix(this, " => Err("@ + fatal + ")"@);
        },
        Verdict::Jfyi => {
            lemma_suffix(any_pattern(self_path(v), v), " => false"@);
            assert(arm =~= this + (" => Ok("@ + jfyi + ")"@));
            lemma_suffix(this, " => Ok("@ + jfyi + ")"@);
        },
        Verdict::Forward(k) => {
            let b = binding(v, k as int);
            let f = " => <_ as crate::Fatality>::is_fatal("@ + b + ")"@;
            assert(fatality_arm(v, verdict) =~= ref_pattern(self_path(v), v, k as int) + f);
            lemma_suffix(ref_pattern(self_path(v), v, k as int), f);
            let s = " => if <_ as crate::Fatality>::is_fatal(&"@ + b + ") { Err("@ + fatal
                + ") } else { Ok("@ + jfyi + ") }"@;
            assert(arm =~= this + s);
            lemma_suffix(this, s);
        },
    }
}

/// The enum is emitted with every one of its own attributes, in order,
/// right after the derive and before its visibility and name.
#[verifier::spinoff_prover]
#[verifier::rlimit(60)]
pub proof fn lemma_enum_keeps_its_attributes(d: ItemDecl, e: EnumDecl)
    ensures
        (derive_text() + attrs_text(e.attrs@) + d.vis@ + " enum "@ + d.name@).is_prefix_of(
            enum_item_text(d, e),
        ),
        forall|i: int|
            0 <= i < e.attrs@.len() ==> occurs_in(#[trigger] e.attrs@[i]@, enum_item_text(d, e)),
{
    let p = derive_text() + attrs_text(e.attrs@) + d.vis@ + " enum "@ + d.name@;
    let rest = where_part(d.where_clause@) + " { "@ + variant_list(
        e.variants@,
        all_indices(e.variants@.len()),
    ) + trailing(e.trailing_comma) + " } "@;
    assert(enum_item_text(d, e) =~= p + rest);
    lemma_prefix(p, rest);
    let parts = Seq::new(e.attrs@.len(), |i: int| e.attrs@[i]@ + " "@);
    assert forall|i: int| 0 <= i < e.attrs@.len() implies occurs_in(
        #[trigger] e.attrs@[i]@,
        enum_item_text(d, e),
    ) by {
        lemma_concat_split(parts, i);
        let before = concat(parts.take(i));
        let after = concat(parts.skip(i + 1));
        assert(attrs_text(e.attrs@) == before + (e.attrs@[i]@ + " "@) + after);
        let a = derive_text() + before;
        let b = " "@ + after + d.vis@ + " enum "@ + d.name@ + rest;
        assert(enum_item_text(d, e) =~= a + e.attrs@[i]@ + b);
        lemma_occurs(a, e.attrs@[i]@, b);
    }
}

proof fn lemma_concat_split(parts: Seq<Seq<char>>, i: int)
    requires
        0 <= i < parts.len(),
    ensures
        concat(parts) == concat(parts.take(i)) + parts[i] + concat(parts.skip(i + 1)),
    decreases parts.len(),
{
    if i == parts.len() - 1 {
        assert(parts.take(i) =~= parts.drop_last());
        assert(parts.skip(i + 1) =~= Seq::<Seq<char>>::empty());
        assert(concat(parts) =~= concat(parts.take(i)) + parts[i] + concat(parts.skip(i + 1)));
    } else {
        lemma_concat_split(parts.drop_last(), i);
        assert(parts.drop_last().take(i) =~= parts.take(i));
        assert(parts.skip(i + 1).drop_last() =~= parts.drop_last().skip(i + 1));
        assert(parts.skip(i + 1).last() == parts.last());
        assert(concat(parts.skip(i + 1)) == concat(parts.drop_last().skip(i + 1)) + parts.last());
        assert(concat(parts) =~= concat(parts.take(i)) + parts[i] + concat(parts.skip(i + 1)));
    }
}

/// The `split` of a struct that forwards to field `k` splits exactly that
/// field's binding, and builds each part with `part` in field `k`; in each
/// rebuilt part, field `k` holds `part` and every other field its own
/// binding.
pub proof fn lemma_struct_split_splits_forwarded_field(
    name: Seq<char>,
    fatal_name: Seq<char>,
    jfyi_name: Seq<char>,
    v: VariantDecl,
    k: int,
)
    ensures
        (" = self; match crate::Split::split("@ + binding(v, k) + ") { Ok(part) => Ok("@ + rebuilt(
            jfyi_name,
            v,
            k,
        ) + "), Err(part) => Err("@ + rebuilt(fatal_name, v, k) + "), } } } "@).is_suffix_of(
            struct_split_impl(name, fatal_name, jfyi_name, v, k),
        ),
        "part"@.is_suffix_of(rebuilt_piece(v, k, k)),
        forall|i: int| i != k ==> binding(v, i).is_suffix_of(#[trigger] rebuilt_piece(v, k, i)),
{
    let head = "impl crate::Split for "@ + name + " { type Fatal = "@ + fatal_name + "; type Jfyi = "@
        + jfyi_name + "; fn split(self) -> ::std::result::Result<Self::Jfyi, Self::Fatal> { let "@
        + full_pattern("Self"@, v);
    let tail = " = self; match crate::Split::split("@ + binding(v, k) + ") { Ok(part) => Ok("@
        + rebuilt(jfyi_name, v, k) + "), Err(part) => Err("@ + rebuilt(fatal_name, v, k)
        + "), } } } "@;
    assert(struct_split_impl(name, fatal_name, jfyi_name, v, k) =~= head + tail);
    lemma_suffix(head, tail);
    if v.shape == FieldsShape::Named {
        lemma_suffix(sep(k) + binding(v, k) + ": "@, "part"@);
    } else {
        lemma_suffix(sep(k), "part"@);
    }
    assert forall|i: int| i != k implies binding(v, i).is_suffix_of(
        #[trigger] rebuilt_piece(v, k, i),
    ) by {
        if v.shape == FieldsShape::Named {
            lemma_suffix(sep(i) + binding(v, i) + ": "@, binding(v, i));
        } else {
            lemma_suffix(sep(i), binding(v, i));
        }
    }
}

} // verus!
