use vstd::prelude::*;

use crate::dispatch::Dispatcher;
use crate::error::GenerationError;
use crate::parser::{
    classify, lemma_plain_arg_listed, param_fits, param_possible, parse_function, pascal_of,
    plain_args, HandlerFn,
};
use crate::requirement::{condensed, unique_ids, ResourceType};
use crate::variant::{
    all_configured, call_requirements, has_arg, lemma_condensed_variant_plannable, CallContext,
    NautilusEntrypointEnumVariant,
};

verus! {

/// Every parameter of the handler can be analysed.
pub open spec fn handler_possible(objects: Seq<ResourceType>, f: HandlerFn) -> bool {
    forall|k: int| 0 <= k < f.inputs@.len() ==> #[trigger] param_possible(objects, f.inputs@[k])
}

/// `v` is the variant analysis makes of handler `f`.
pub open spec fn variant_of(
    objects: Seq<ResourceType>,
    f: HandlerFn,
    v: NautilusEntrypointEnumVariant,
) -> bool {
    &&& v.variant_ident@ == pascal_of(f.ident@)
    &&& v.call_ident == f.ident
    &&& v.variant_args@ == plain_args(objects, f.inputs@)
    &&& v.call_context@.len() == f.inputs@.len()
    &&& forall|k: int|
        0 <= k < v.call_context@.len() ==> param_fits(objects, f.inputs@[k], #[trigger] v.call_context@[k])
    &&& v.required_accounts@ == condensed(call_requirements(v.call_context@))
    &&& unique_ids(v.required_accounts@)
}

/// One variant per handler, in declaration order; the discriminant of a
/// handler is its position.
pub fn build_variants(objects: &Vec<ResourceType>, functions: Vec<HandlerFn>) -> (r: Result<
    Vec<NautilusEntrypointEnumVariant>,
    GenerationError,
>)
    ensures
        functions@.len() > 256 ==> r matches Err(GenerationError::TooManyHandlers),
        r is Ok <==> functions@.len() <= 256 && forall|i: int|
            0 <= i < functions@.len() ==> #[trigger] handler_possible(objects@, functions@[i]),
        r matches Ok(vs) ==> {
            &&& vs@.len() == functions@.len()
            &&& forall|i: int|
                0 <= i < vs@.len() ==> (#[trigger] vs@[i]).discriminant == i as u8 && variant_of(
                    objects@,
                    functions@[i],
                    vs@[i],
                )
        },
{
    if functions.len() > 256 {
        return Err(GenerationError::TooManyHandlers);
    }
    let ghost orig = functions@;
    let n = functions.len();
    let mut pending = functions;
    let mut variants: Vec<NautilusEntrypointEnumVariant> = Vec::new();
    let mut i: usize = 0;
    while pending.len() > 0
        invariant
            orig == functions@,
            n == orig.len(),
            n <= 256,
            i + pending@.len() == n,
            pending@ == orig.skip(i as int),
            variants@.len() == i,
            forall|j: int| 0 <= j < i ==> #[trigger] handler_possible(objects@, orig[j]),
            forall|j: int|
                0 <= j < i ==> (#[trigger] variants@[j]).discriminant == j as u8 && variant_of(
                    objects@,
                    orig[j],
                    variants@[j],
                ),
        decreases pending@.len(),
    {
        let f = pending.remove(0);
        assert(orig[i as int] == f);
        let ghost fv = f;
        let (vi, args, ci, cc) = match parse_function(objects, f) {
            Ok(t) => t,
            Err(e) => {
                assert(!handler_possible(objects@, orig[i as int]));
                return Err(e);
            },
        };
        assert(all_configured(cc@)) by {
            assert forall|k: int| 0 <= k < cc@.len() implies match #[trigger] cc@[k] {
                CallContext::Nautilus(o) => o.entry_config is Some,
                CallContext::Arg(_) => true,
            } by {
                assert(param_fits(objects@, fv.inputs@[k], cc@[k]));
            }
        }
        let v = match NautilusEntrypointEnumVariant::new(i as u8, vi, args, ci, cc) {
            Ok(v) => v,
            Err(e) => {
                return Err(e);
            },
        };
        variants.push(v);
        i = i + 1;
        assert(pending@ =~= orig.skip(i as int));
    }
    Ok(variants)
}

/// Analyses all handlers into one dispatcher.
pub fn build_dispatcher(objects: &Vec<ResourceType>, functions: Vec<HandlerFn>) -> (r: Result<
    Dispatcher,
    GenerationError,
>)
    ensures
        functions@.len() > 256 ==> r matches Err(GenerationError::TooManyHandlers),
        r is Ok <==> functions@.len() <= 256 && forall|i: int|
            0 <= i < functions@.len() ==> #[trigger] handler_possible(objects@, functions@[i]),
        r matches Ok(d) ==> {
            &&& d@.len() == functions@.len()
            &&& forall|i: int|
                0 <= i < d@.len() ==> (#[trigger] d@[i]).discriminant == i as u8 && variant_of(
                    objects@,
                    functions@[i],
                    d@[i],
                )
        },
{
    let ghost fs = functions@;
    let variants = build_variants(objects, functions)?;
    proof {
        assert forall|i: int| 0 <= i < variants@.len() implies #[trigger] variants@[i].plan_possible() by {
            let v = variants@[i];
            let f = fs[i];
            assert(variant_of(objects@, f, v));
            assert(handler_possible(objects@, f));
            assert(all_configured(v.call_context@)) by {
                assert forall|k: int| 0 <= k < v.call_context@.len() implies match #[trigger] v.call_context@[k] {
                    CallContext::Nautilus(o) => o.entry_config is Some,
                    CallContext::Arg(_) => true,
                } by {
                    assert(param_fits(objects@, f.inputs@[k], v.call_context@[k]));
                }
            }
            assert forall|k: int| 0 <= k < v.call_context@.len() implies (#[trigger] v.call_context@[k] matches CallContext::Arg(
                name,
            ) ==> has_arg(v.variant_args@, name@)) by {
                assert(param_fits(objects@, f.inputs@[k], v.call_context@[k]));
                assert(param_possible(objects@, f.inputs@[k]));
                if v.call_context@[k] is Arg {
                    lemma_plain_arg_listed(objects@, f.inputs@, k);
                }
            }
            lemma_condensed_variant_plannable(v);
        }
        assert forall|a: int, b: int|
            0 <= a < variants@.len() && 0 <= b < variants@.len() && a != b implies variants@[a].discriminant
            != variants@[b].discriminant by {
            assert(variants@[a].discriminant == a as u8);
            assert(variants@[b].discriminant == b as u8);
        }
    }
    Dispatcher::new(variants)
}

} // verus!
