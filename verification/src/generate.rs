//! The whole expansion of `#[fatality(attr)]` on an item given as source
//! text: the generated code, or, where the expansion fails, the item
//! unchanged followed by a compile error.

use vstd::prelude::*;
use crate::attr::attr_of;
use crate::decl::{ItemBody, ItemDecl};
use crate::expand::{expand, expands_to, outcome_of, Failure, ItemPlan};
use crate::plan::{
    enum_verdicts, lemma_enum_verdicts_per_variant, lemma_forward_names_a_field, message_of,
    Verdict,
};
use crate::read::{read_item, well_read};
use crate::render::{enum_output, enum_output_of, struct_output, struct_output_of, verdicts_fit};

verus! {

/// Writes the compile error for `message` with `syn::Error::new` (at the
/// call site) and `to_compile_error`, as token text.  Nothing is claimed of
/// that text, which the token printer of the process writes.
#[verifier::external_body]
fn compile_error_text(message: &str) -> (r: String) {
    syn::Error::new(proc_macro2::Span::call_site(), message).to_compile_error().to_string()
}

/// The expansion of the item `item` under the attribute arguments `attr`:
/// the generated code, or the message of the error that stops it.
pub open spec fn rendered(attr: Seq<char>, item: Result<ItemDecl, String>) -> Result<Seq<char>, Seq<char>> {
    match outcome_of(attr, item) {
        Err(Failure::Rejected(r)) => Err(message_of(r)),
        Err(Failure::Unparsed(e)) => Err(e@),
        Ok(None) => match item {
            Ok(d) => match d.body {
                ItemBody::Enum(e) => Ok(
                    enum_output(
                        d,
                        e,
                        attr_of(attr)->Ok_0.splitable,
                        enum_verdicts(e.variants@)->Ok_0,
                    ),
                ),
                _ => Ok(seq![]),
            },
            Err(_) => Ok(seq![]),
        },
        Ok(Some(verdict)) => match item {
            Ok(d) => match d.body {
                ItemBody::Struct(v) => Ok(
                    struct_output(d, v, verdict, attr_of(attr)->Ok_0.splitable),
                ),
                _ => Ok(seq![]),
            },
            Err(_) => Ok(seq![]),
        },
    }
}

/// An item that the reader may hand back: well read where it was read.
pub open spec fn read_fits(item: Result<ItemDecl, String>) -> bool {
    item matches Ok(d) ==> well_read(d)
}

/// `out` is what the expansion of `item`, read from `text`, writes: the
/// generated code, or, where there is none, `text` and a space before the
/// compile error.
pub open spec fn expansion_written(
    attr: Seq<char>,
    text: Seq<char>,
    item: Result<ItemDecl, String>,
    out: Seq<char>,
) -> bool {
    match rendered(attr, item) {
        Ok(code) => out == code,
        Err(_) => out.len() >= text.len() + 1 && out.subrange(0, text.len() + 1 as int) == text + " "@,
    }
}

/// Every expansion follows its plan: the expansion of `item` under `attr`
/// succeeds exactly when planning it does; a refused plan is reported with
/// its message, an item that could not be read with the reader's error, and
/// a plan that stands is written out as the code of that plan.
pub proof fn lemma_expansion_follows_plan(
    attr: Seq<char>,
    item: Result<ItemDecl, String>,
    p: Result<ItemPlan, Failure<String>>,
)
    requires
        expands_to(attr, item, p),
    ensures
        p is Ok <==> rendered(attr, item) is Ok,
        match p {
            Err(Failure::Rejected(j)) => rendered(attr, item) == Err::<Seq<char>, Seq<char>>(
                message_of(j),
            ),
            Err(Failure::Unparsed(e)) => rendered(attr, item) == Err::<Seq<char>, Seq<char>>(e@),
            Ok(ItemPlan::Enum(ep)) => match item {
                Ok(d) => match d.body {
                    ItemBody::Enum(e) => rendered(attr, item) == Ok::<Seq<char>, Seq<char>>(
                        enum_output(d, e, ep.is_splitable(), ep.verdicts()),
                    ),
                    _ => false,
                },
                Err(_) => false,
            },
            Ok(ItemPlan::Struct(sp)) => match item {
                Ok(d) => match d.body {
                    ItemBody::Struct(v) => rendered(attr, item) == Ok::<Seq<char>, Seq<char>>(
                        struct_output(d, v, sp.verdict, sp.splitable),
                    ),
                    _ => false,
                },
                Err(_) => false,
            },
        },
{
}

/// Reads the item in `text` and plans its expansion under the arguments
/// `attr` of the `fatality` attribute.
pub fn expand_text(attr: &str, text: &str) -> (r: Result<ItemPlan, Failure<String>>)
    ensures
        exists|item: Result<ItemDecl, String>| read_fits(item) && #[trigger] expands_to(attr@, item, r),
{
    let item = read_item(text);
    let r = expand(attr, &item);
    assert(read_fits(item) && expands_to(attr@, item, r));
    r
}

/// The expansion of the item `item` under the arguments `attr` of the
/// `fatality` attribute: the generated code, or the message of the error
/// that stops it.
pub fn render_expansion(attr: &str, item: &Result<ItemDecl, String>) -> (r: Result<String, String>)
    ensures
        match r {
            Ok(code) => rendered(attr@, *item) == Ok::<Seq<char>, Seq<char>>(code@),
            Err(message) => rendered(attr@, *item) == Err::<Seq<char>, Seq<char>>(message@),
        },
{
    let planned = expand(attr, item);
    match planned {
        Err(Failure::Rejected(rejection)) => Err(String::from_str(rejection.message())),
        Err(Failure::Unparsed(e)) => Err(e),
        Ok(ItemPlan::Enum(p)) => match item {
            Ok(d) => match &d.body {
                ItemBody::Enum(e) => {
                    proof {
                        lemma_enum_verdicts_per_variant(e.variants@);
                        assert forall|i: int| 0 <= i < e.variants@.len() implies (
                        #[trigger] p.verdicts()[i] matches Verdict::Forward(k) ==> k
                            < e.variants@[i].fields@.len()) by {
                            lemma_forward_names_a_field(e.variants@[i], false);
                        }
                        assert(verdicts_fit(e.variants@, p.verdicts()));
                    }
                    Ok(enum_output_of(d, e, p.splitable(), p.verdict_list()))
                },
                _ => Ok(String::new()),
            },
            Err(_) => Ok(String::new()),
        },
        Ok(ItemPlan::Struct(sp)) => match item {
            Ok(d) => match &d.body {
                ItemBody::Struct(v) => {
                    proof {
                        lemma_forward_names_a_field(*v, sp.splitable);
                    }
                    Ok(struct_output_of(d, v, sp.verdict, sp.splitable))
                },
                _ => Ok(String::new()),
            },
            Err(_) => Ok(String::new()),
        },
    }
}

/// The expansion of `#[fatality(attr)]` on the item written in `text`: the
/// generated code, or `text` unchanged followed by the compile error that
/// reports why there is none.
pub fn fatality_text(attr: &str, text: &str) -> (r: String)
    ensures
        exists|item: Result<ItemDecl, String>|
            read_fits(item) && #[trigger] expansion_written(attr@, text@, item, r@),
{
    let item = read_item(text);
    let r = match render_expansion(attr, &item) {
        Ok(code) => code,
        Err(message) => {
            let mut s = String::from_str(text);
            s.append(" ");
            let c = compile_error_text(message.as_str());
            let ghost head = s@;
            proof {
                reveal_strlit(" ");
            }
            assert(head =~= text@ + " "@);
            s.append(c.as_str());
            assert(s@.subrange(0, text@.len() + 1 as int) =~= head);
            s
        },
    };
    assert(read_fits(item) && expansion_written(attr@, text@, item, r@));
    r
}

} // verus!
