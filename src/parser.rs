use vstd::prelude::*;

use convert_case::Casing;

use crate::error::{GenerationError, TypeError};
use crate::requirement::{same_resource, ResourceType};
use crate::shape::{
    child_of, derive_child_type, insert_lifetime_first, new_angle_bracketed_args, GenericArgument, ParamType,
    PathArguments, PathSegment, TypePath,
};
use crate::variant::{CallContext, NautilusObject, ObjectEntryConfig};

verus! {

/// The capability wrappers a resource parameter may be declared with.
#[derive(Debug, Clone, Copy, PartialEq, Eq, Structural)]
pub enum Capability {
    Create,
    Signer,
    Mut,
    Record,
}

/// A handler function as discovery sees it: its name and its parameters.
#[derive(Debug)]
pub struct HandlerFn {
    pub ident: String,
    pub inputs: Vec<(String, ParamType)>,
}

/// The Pascal-case form of an identifier, as convert_case computes it.
pub uninterp spec fn pascal_of(s: Seq<char>) -> Seq<char>;

/// Relies on convert_case's `Casing::to_case` with `Case::Pascal`; the
/// result depends on the characters of the input alone.
#[verifier::external_body]
fn to_pascal_case(s: &String) -> (r: String)
    ensures
        r@ == pascal_of(s@),
{
    s.to_case(convert_case::Case::Pascal)
}

pub open spec fn capability_of(ident: Seq<char>) -> Option<Capability> {
    if ident == "Create"@ {
        Some(Capability::Create)
    } else if ident == "Signer"@ {
        Some(Capability::Signer)
    } else if ident == "Mut"@ {
        Some(Capability::Mut)
    } else if ident == "Record"@ {
        Some(Capability::Record)
    } else {
        None
    }
}

pub fn capability(ident: &String) -> (r: Option<Capability>)
    ensures
        r == capability_of(ident@),
{
    if *ident == String::from_str("Create") {
        Some(Capability::Create)
    } else if *ident == String::from_str("Signer") {
        Some(Capability::Signer)
    } else if *ident == String::from_str("Mut") {
        Some(Capability::Mut)
    } else if *ident == String::from_str("Record") {
        Some(Capability::Record)
    } else {
        None
    }
}

/// The capability wrapper a parameter type is declared with, if any.
pub open spec fn wrapper_capability(ty: ParamType) -> Option<Capability> {
    match ty {
        ParamType::Path(p) => if p.segments@.len() > 0 {
            capability_of(p.segments@[0].ident@)
        } else {
            None
        },
        ParamType::Other(_) => None,
    }
}

/// The inner path is itself a capability wrapper.
pub open spec fn is_nested(child: TypePath) -> bool {
    child.segments@.len() > 0 && capability_of(child.segments@[0].ident@) is Some
}

/// Classification of a parameter type: the type it refers to, as written
/// (the inner type of a wrapper, else the type itself), and the create,
/// signer and mut flags. `mut` is implied by create and signer. A wrapper
/// without an inner type, or around another wrapper, has no classification.
pub open spec fn classify(ty: ParamType) -> Option<(ParamType, bool, bool, bool)> {
    match wrapper_capability(ty) {
        Some(cap) => match child_of(ty->Path_0.segments@[0].arguments) {
            Some(child) => if is_nested(child) {
                None
            } else {
                Some(
                    (
                        ParamType::Path(child),
                        cap == Capability::Create,
                        cap == Capability::Signer,
                        cap != Capability::Record,
                    ),
                )
            },
            None => None,
        },
        None => Some((ty, false, false, false)),
    }
}

/// `e` says why `ty` has no classification.
pub open spec fn type_error_of(ty: ParamType, e: TypeError) -> bool {
    let first = ty->Path_0.segments@[0];
    match child_of(first.arguments) {
        None => e == TypeError::MissingInnerType(first.ident),
        Some(child) => e == TypeError::NestedWrapper(child.segments@[0].ident),
    }
}

/// `new` is `old` with the lifetime `lt` put first among its generic arguments.
pub open spec fn args_with_lifetime(old: PathArguments, new: PathArguments, lt: Seq<char>) -> bool {
    let prior = match old {
        PathArguments::AngleBracketed(o) => o@,
        PathArguments::Bare => Seq::empty(),
    };
    match new {
        PathArguments::AngleBracketed(v) => {
            &&& v@.len() == prior.len() + 1
            &&& v@[0] matches GenericArgument::Lifetime(l) && l@ == lt
            &&& forall|i: int| 0 <= i < prior.len() ==> v@[i + 1] == prior[i]
        },
        PathArguments::Bare => false,
    }
}

/// `new` is `old` with the lifetime on its first segment.
pub open spec fn path_with_lifetime(old: TypePath, new: TypePath, lt: Seq<char>) -> bool {
    &&& new.segments@.len() == old.segments@.len()
    &&& forall|i: int| 1 <= i < old.segments@.len() ==> new.segments@[i] == old.segments@[i]
    &&& old.segments@.len() > 0 ==> {
        &&& new.segments@[0].ident == old.segments@[0].ident
        &&& args_with_lifetime(old.segments@[0].arguments, new.segments@[0].arguments, lt)
    }
}

/// The lifetime `lt` is threaded through every level of a parameter type:
/// a wrapper becomes `W<lt, T<lt, ..>>`, any other path `T<lt, ..>`.
pub open spec fn threaded(old: ParamType, new: ParamType, lt: Seq<char>) -> bool {
    match old {
        ParamType::Other(_) => new == old,
        ParamType::Path(p) => match new {
            ParamType::Path(q) => if p.segments@.len() > 0 && wrapper_capability(old) is Some
                && child_of(p.segments@[0].arguments) is Some {
                let child = child_of(p.segments@[0].arguments)->Some_0;
                &&& q.segments@.len() == p.segments@.len()
                &&& q.segments@[0].ident == p.segments@[0].ident
                &&& forall|i: int| 1 <= i < p.segments@.len() ==> q.segments@[i] == p.segments@[i]
                &&& q.segments@[0].arguments matches PathArguments::AngleBracketed(v)
                &&& v@.len() == 2
                &&& v@[0] matches GenericArgument::Lifetime(l) && l@ == lt
                &&& v@[1] matches GenericArgument::Type(c) && path_with_lifetime(child, c, lt)
            } else {
                path_with_lifetime(p, q, lt)
            },
            ParamType::Other(_) => false,
        },
    }
}

fn add_lifetime(arguments: PathArguments, lifetime: &String) -> (r: PathArguments)
    ensures
        args_with_lifetime(arguments, r, lifetime@),
{
    match arguments {
        PathArguments::AngleBracketed(args) => {
            let mut args = args;
            insert_lifetime_first(&mut args, lifetime);
            PathArguments::AngleBracketed(args)
        },
        PathArguments::Bare => new_angle_bracketed_args(lifetime.clone()),
    }
}

fn path_add_lifetime(p: TypePath, lifetime: &String) -> (r: TypePath)
    ensures
        path_with_lifetime(p, r, lifetime@),
{
    let mut segments = p.segments;
    if segments.len() == 0 {
        return TypePath { segments };
    }
    let ghost old_segments = segments@;
    let first = segments.remove(0);
    let PathSegment { ident, arguments } = first;
    let arguments = add_lifetime(arguments, lifetime);
    segments.insert(0, PathSegment { ident, arguments });
    assert forall|i: int| 1 <= i < old_segments.len() implies segments@[i] == old_segments[i] by {}
    TypePath { segments }
}

/// Threads the lifetime through every nesting level of a parameter type.
pub fn thread_lifetime(ty: ParamType, lifetime: &String) -> (r: ParamType)
    ensures
        threaded(ty, r, lifetime@),
{
    match ty {
        ParamType::Other(s) => ParamType::Other(s),
        ParamType::Path(p) => {
            if p.segments.len() == 0 {
                return ParamType::Path(path_add_lifetime(p, lifetime));
            }
            let wrapped = capability(&p.segments[0].ident).is_some();
            let has_child = match &p.segments[0].arguments {
                PathArguments::AngleBracketed(args) => args.len() > 0 && match &args[0] {
                    GenericArgument::Type(_) => true,
                    _ => false,
                },
                PathArguments::Bare => false,
            };
            if !(wrapped && has_child) {
                return ParamType::Path(path_add_lifetime(p, lifetime));
            }
            let mut segments = p.segments;
            let ghost old_segments = segments@;
            let first = segments.remove(0);
            let PathSegment { ident, arguments } = first;
            let mut args = match arguments {
                PathArguments::AngleBracketed(args) => args,
                PathArguments::Bare => Vec::new(),
            };
            let child = match args.remove(0) {
                GenericArgument::Type(t) => t,
                _ => TypePath { segments: Vec::new() },
            };
            let child = path_add_lifetime(child, lifetime);
            let mut new_args: Vec<GenericArgument> = Vec::new();
            new_args.push(GenericArgument::Lifetime(lifetime.clone()));
            new_args.push(GenericArgument::Type(child));
            segments.insert(0, PathSegment { ident, arguments: PathArguments::AngleBracketed(new_args) });
            assert forall|i: int| 1 <= i < old_segments.len() implies segments@[i] == old_segments[i] by {}
            ParamType::Path(TypePath { segments })
        },
    }
}

/// Classifies a parameter type: the type it refers to, as written, and the
/// create, signer and mut flags.
pub fn parse_type(ty: ParamType) -> (r: Result<(ParamType, bool, bool, bool), TypeError>)
    ensures
        r is Ok <==> classify(ty) is Some,
        r matches Ok((referenced, is_create, is_signer, is_mut)) ==> classify(ty) == Some(
            (referenced, is_create, is_signer, is_mut),
        ),
        r matches Err(e) ==> type_error_of(ty, e),
{
    match ty {
        ParamType::Other(s) => Ok((ParamType::Other(s), false, false, false)),
        ParamType::Path(p) => {
            let cap = if p.segments.len() > 0 {
                capability(&p.segments[0].ident)
            } else {
                None
            };
            let c = match cap {
                None => {
                    return Ok((ParamType::Path(p), false, false, false));
                },
                Some(c) => c,
            };
            match derive_child_type(&p.segments[0].arguments) {
                None => {
                    return Err(TypeError::MissingInnerType(p.segments[0].ident.clone()));
                },
                Some(child) => {
                    if child.segments.len() > 0 && capability(&child.segments[0].ident).is_some() {
                        return Err(TypeError::NestedWrapper(child.segments[0].ident.clone()));
                    }
                },
            }
            let ghost old_p = p;
            let mut segments = p.segments;
            let first = segments.remove(0);
            assert(first == old_p.segments@[0]);
            let PathSegment { ident: _, arguments } = first;
            let child = match arguments {
                PathArguments::AngleBracketed(args) => {
                    let mut args = args;
                    match args.remove(0) {
                        GenericArgument::Type(t) => t,
                        _ => TypePath { segments: Vec::new() },
                    }
                },
                PathArguments::Bare => TypePath { segments: Vec::new() },
            };
            Ok(
                (
                    ParamType::Path(child),
                    c == Capability::Create,
                    c == Capability::Signer,
                    c != Capability::Record,
                ),
            )
        },
    }
}

/// The name of a type written as a single bare identifier.
pub open spec fn simple_name(t: ParamType) -> Option<Seq<char>> {
    match t {
        ParamType::Path(p) => if p.segments@.len() == 1 && p.segments@[0].arguments is Bare {
            Some(p.segments@[0].ident@)
        } else {
            None
        },
        ParamType::Other(_) => None,
    }
}

pub fn simple_ident(t: &ParamType) -> (r: Option<&String>)
    ensures
        match r {
            Some(s) => simple_name(*t) == Some(s@),
            None => simple_name(*t) is None,
        },
{
    if let ParamType::Path(p) = t {
        if p.segments.len() == 1 {
            if let PathArguments::Bare = &p.segments[0].arguments {
                return Some(&p.segments[0].ident);
            }
        }
    }
    None
}

/// The text a diagnostic names a type by: its last segment, or the type as
/// written when it is not a path.
pub open spec fn label(t: ParamType) -> Seq<char> {
    match t {
        ParamType::Path(p) => if p.segments@.len() > 0 {
            p.segments@.last().ident@
        } else {
            Seq::empty()
        },
        ParamType::Other(s) => s@,
    }
}

pub fn type_label(t: &ParamType) -> (r: String)
    ensures
        r@ == label(*t),
{
    match t {
        ParamType::Path(p) => if p.segments.len() > 0 {
            p.segments[p.segments.len() - 1].ident.clone()
        } else {
            String::new()
        },
        ParamType::Other(s) => s.clone(),
    }
}

pub open spec fn has_object(objects: Seq<ResourceType>, name: Seq<char>) -> bool {
    exists|i: int| 0 <= i < objects.len() && objects[i].name@ == name
}

pub open spec fn is_first_object(objects: Seq<ResourceType>, name: Seq<char>, i: int) -> bool {
    &&& 0 <= i < objects.len()
    &&& objects[i].name@ == name
    &&& forall|j: int| 0 <= j < i ==> objects[j].name@ != name
}

/// The type is written as exactly the name of a discovered resource type.
pub open spec fn has_resource(objects: Seq<ResourceType>, t: ParamType) -> bool {
    simple_name(t) matches Some(n) && has_object(objects, n)
}

/// Position of the first discovered resource type with this name.
pub fn find_object(objects: &Vec<ResourceType>, name: &String) -> (r: Option<usize>)
    ensures
        r matches Some(i) ==> is_first_object(objects@, name@, i as int),
        r is None ==> !has_object(objects@, name@),
{
    let mut i: usize = 0;
    while i < objects.len()
        invariant
            i <= objects@.len(),
            forall|j: int| 0 <= j < i ==> objects@[j].name@ != name@,
        decreases objects@.len() - i,
    {
        if objects[i].name == *name {
            return Some(i);
        }
        i = i + 1;
    }
    None
}

/// A parameter can be analysed: its type classifies, and a wrapper wraps a
/// discovered resource type. Any unwrapped type is accepted.
pub open spec fn param_possible(objects: Seq<ResourceType>, input: (String, ParamType)) -> bool {
    match classify(input.1) {
        Some((t, _, _, _)) => has_resource(objects, t) || wrapper_capability(input.1) is None,
        None => false,
    }
}

/// The call context of a parameter: a discovered resource type, configured
/// with the parameter's name and flags, or a plain argument of that name.
pub open spec fn param_fits(
    objects: Seq<ResourceType>,
    input: (String, ParamType),
    cc: CallContext,
) -> bool {
    match classify(input.1) {
        Some((t, c, s, m)) => if has_resource(objects, t) {
            match cc {
                CallContext::Nautilus(o) => {
                    &&& exists|i: int|
                        is_first_object(objects, simple_name(t)->Some_0, i) && same_resource(
                            o.resource,
                            objects[i],
                        )
                    &&& o.entry_config matches Some(cfg)
                    &&& cfg.arg_ident == input.0
                    &&& cfg.is_create == c
                    &&& cfg.is_signer == s
                    &&& cfg.is_mut == m
                },
                CallContext::Arg(_) => false,
            }
        } else {
            cc matches CallContext::Arg(a) && a == input.0
        },
        None => false,
    }
}

/// `e` is the diagnostic of handler `handler` for a parameter that cannot
/// be analysed.
pub open spec fn param_error(
    objects: Seq<ResourceType>,
    handler: String,
    input: (String, ParamType),
    e: GenerationError,
) -> bool {
    match classify(input.1) {
        None => match e {
            GenerationError::MissingInnerType { handler: h, wrapper: w } => h == handler
                && type_error_of(input.1, TypeError::MissingInnerType(w)),
            GenerationError::UnresolvedInnerType { handler: h, resource: w } => h == handler
                && type_error_of(input.1, TypeError::NestedWrapper(w)),
            _ => false,
        },
        Some((t, _, _, _)) => e matches GenerationError::UnresolvedInnerType {
            handler: h,
            resource: w,
        } && h == handler && w@ == label(t),
    }
}

/// The payload shape: the plain parameters with their declared types, in order.
pub open spec fn plain_args(objects: Seq<ResourceType>, inputs: Seq<(String, ParamType)>) -> Seq<
    (String, ParamType),
>
    decreases inputs.len(),
{
    if inputs.len() == 0 {
        Seq::empty()
    } else {
        let prev = plain_args(objects, inputs.drop_last());
        let last = inputs.last();
        match classify(last.1) {
            Some((t, _, _, _)) => if !has_resource(objects, t) && wrapper_capability(last.1) is None {
                prev.push(last)
            } else {
                prev
            },
            None => prev,
        }
    }
}

/// Analyses the parameters of a handler whose variant name is already known.
pub fn parse_handler(objects: &Vec<ResourceType>, function: HandlerFn, variant_ident: String) -> (r:
    Result<(String, Vec<(String, ParamType)>, String, Vec<CallContext>), GenerationError>)
    ensures
        r is Ok <==> forall|k: int|
            0 <= k < function.inputs@.len() ==> #[trigger] param_possible(
                objects@,
                function.inputs@[k],
            ),
        r matches Ok((vi, args, ci, cc)) ==> {
            &&& vi == variant_ident
            &&& ci == function.ident
            &&& args@ == plain_args(objects@, function.inputs@)
            &&& cc@.len() == function.inputs@.len()
            &&& forall|k: int|
                0 <= k < cc@.len() ==> param_fits(objects@, function.inputs@[k], #[trigger] cc@[k])
        },
        r matches Err(e) ==> exists|k: int|
            0 <= k < function.inputs@.len() && !param_possible(objects@, function.inputs@[k])
                && (forall|j: int| 0 <= j < k ==> param_possible(objects@, #[trigger] function.inputs@[j]))
                && param_error(objects@, function.ident, #[trigger] function.inputs@[k], e),
{
    let ghost orig = function.inputs@;
    let n = function.inputs.len();
    let HandlerFn { ident, inputs } = function;
    let mut inputs = inputs;
    let mut variant_args: Vec<(String, ParamType)> = Vec::new();
    let mut call_context: Vec<CallContext> = Vec::new();
    let mut i: usize = 0;
    while inputs.len() > 0
        invariant
            orig == function.inputs@,
            ident == function.ident,
            n == orig.len(),
            i + inputs@.len() == orig.len(),
            inputs@ == orig.skip(i as int),
            call_context@.len() == i,
            variant_args@ == plain_args(objects@, orig.take(i as int)),
            forall|k: int| 0 <= k < i ==> #[trigger] param_possible(objects@, orig[k]),
            forall|k: int|
                0 <= k < i ==> param_fits(objects@, orig[k], #[trigger] call_context@[k]),
        decreases inputs@.len(),
    {
        let (name, ty) = inputs.remove(0);
        assert(orig[i as int] == (name, ty));
        assert(orig.take(i + 1).drop_last() == orig.take(i as int));
        let ghost input = orig[i as int];
        let wrapped = match &ty {
            ParamType::Path(p) => p.segments.len() > 0 && capability(&p.segments[0].ident).is_some(),
            ParamType::Other(_) => false,
        };
        let (referenced, is_create, is_signer, is_mut) = match parse_type(ty) {
            Ok(t) => t,
            Err(e) => {
                let err = match e {
                    TypeError::MissingInnerType(w) => GenerationError::MissingInnerType {
                        handler: ident.clone(),
                        wrapper: w,
                    },
                    TypeError::NestedWrapper(w) => GenerationError::UnresolvedInnerType {
                        handler: ident.clone(),
                        resource: w,
                    },
                };
                assert(param_error(objects@, function.ident, input, err));
                assert(!param_possible(objects@, function.inputs@[i as int]));
                return Err(err);
            },
        };
        let found = match simple_ident(&referenced) {
            Some(name) => find_object(objects, name),
            None => None,
        };
        match found {
            Some(j) => {
                let config = ObjectEntryConfig { arg_ident: name, is_create, is_signer, is_mut };
                call_context.push(
                    CallContext::Nautilus(
                        NautilusObject { resource: objects[j].duplicate(), entry_config: Some(config) },
                    ),
                );
                assert(is_first_object(objects@, simple_name(referenced)->Some_0, j as int));
            },
            None => {
                if wrapped {
                    let err = GenerationError::UnresolvedInnerType {
                        handler: ident.clone(),
                        resource: type_label(&referenced),
                    };
                    assert(param_error(objects@, function.ident, input, err));
                    assert(!param_possible(objects@, function.inputs@[i as int]));
                    return Err(err);
                }
                variant_args.push((name.clone(), referenced));
                call_context.push(CallContext::Arg(name));
            },
        }
        assert(param_fits(objects@, orig[i as int], call_context@[i as int]));
        i = i + 1;
        assert(inputs@ =~= orig.skip(i as int));
    }
    assert(orig.take(i as int) =~= orig);
    Ok((variant_ident, variant_args, ident, call_context))
}

/// Analyses a handler: its variant name is the Pascal-case form of its name.
pub fn parse_function(objects: &Vec<ResourceType>, function: HandlerFn) -> (r: Result<
    (String, Vec<(String, ParamType)>, String, Vec<CallContext>),
    GenerationError,
>)
    ensures
        r is Ok <==> forall|k: int|
            0 <= k < function.inputs@.len() ==> #[trigger] param_possible(
                objects@,
                function.inputs@[k],
            ),
        r matches Ok((vi, args, ci, cc)) ==> {
            &&& vi@ == pascal_of(function.ident@)
            &&& ci == function.ident
            &&& args@ == plain_args(objects@, function.inputs@)
            &&& cc@.len() == function.inputs@.len()
            &&& forall|k: int|
                0 <= k < cc@.len() ==> param_fits(objects@, function.inputs@[k], #[trigger] cc@[k])
        },
        r matches Err(e) ==> exists|k: int|
            0 <= k < function.inputs@.len() && !param_possible(objects@, function.inputs@[k])
                && (forall|j: int| 0 <= j < k ==> param_possible(objects@, #[trigger] function.inputs@[j]))
                && param_error(objects@, function.ident, #[trigger] function.inputs@[k], e),
{
    let variant_ident = to_pascal_case(&function.ident);
    parse_handler(objects, function, variant_ident)
}

/// A plain parameter's name is among the payload arguments.
pub proof fn lemma_plain_arg_listed(
    objects: Seq<ResourceType>,
    inputs: Seq<(String, ParamType)>,
    k: int,
)
    requires
        0 <= k < inputs.len(),
        param_possible(objects, inputs[k]),
        classify(inputs[k].1) matches Some((t, _, _, _)) && !has_resource(objects, t),
    ensures
        crate::variant::has_arg(plain_args(objects, inputs), inputs[k].0@),
    decreases inputs.len(),
{
    let prev = plain_args(objects, inputs.drop_last());
    if k == inputs.len() - 1 {
        assert(plain_args(objects, inputs)[prev.len() as int].0 == inputs[k].0);
    } else {
        assert(inputs.drop_last()[k] == inputs[k]);
        lemma_plain_arg_listed(objects, inputs.drop_last(), k);
        let j = choose|j: int| 0 <= j < prev.len() && prev[j].0@ == inputs[k].0@;
        assert(plain_args(objects, inputs)[j] == prev[j]);
    }
}

} // verus!
