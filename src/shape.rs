use vstd::prelude::*;

verus! {

/// One generic argument of a path segment.
#[derive(Debug)]
pub enum GenericArgument {
    Lifetime(String),
    Type(TypePath),
    /// Any other argument (a non-path type, a constant, a binding), as written.
    Other(String),
}

/// The arguments of a path segment: none, or `<...>`.
#[derive(Debug)]
pub enum PathArguments {
    Bare,
    AngleBracketed(Vec<GenericArgument>),
}

#[derive(Debug)]
pub struct PathSegment {
    pub ident: String,
    pub arguments: PathArguments,
}

/// A path type such as `Create<Vault>` or `u64`.
#[derive(Debug)]
pub struct TypePath {
    pub segments: Vec<PathSegment>,
}

/// The declared type of a handler parameter.
#[derive(Debug)]
pub enum ParamType {
    Path(TypePath),
    /// Any type that is not a path (a tuple, a reference, ...), as written.
    Other(String),
}

/// The tree of a `use` item.
#[derive(Debug)]
pub enum UseTree {
    Path { ident: String, tree: Box<UseTree> },
    Name(String),
    Glob,
}

/// A top-level item of a source file, as far as discovery looks at it.
#[derive(Debug)]
pub enum Item {
    Use(UseTree),
    Other,
}

/// The first generic argument, when it is a type.
pub open spec fn child_of(arguments: PathArguments) -> Option<TypePath> {
    match arguments {
        PathArguments::AngleBracketed(args) => if args@.len() > 0 {
            match args@[0] {
                GenericArgument::Type(t) => Some(t),
                _ => None,
            }
        } else {
            None
        },
        PathArguments::Bare => None,
    }
}

/// The identifier of the last segment of a path type.
pub open spec fn last_ident(ty: ParamType) -> Option<String> {
    match ty {
        ParamType::Path(p) => if p.segments@.len() > 0 {
            Some(p.segments@.last().ident)
        } else {
            None
        },
        ParamType::Other(_) => None,
    }
}

pub fn derive_child_type(arguments: &PathArguments) -> (r: Option<&TypePath>)
    ensures
        match r {
            Some(t) => child_of(*arguments) == Some(*t),
            None => child_of(*arguments) is None,
        },
{
    if let PathArguments::AngleBracketed(args) = arguments {
        if args.len() > 0 {
            if let GenericArgument::Type(t) = &args[0] {
                return Some(t);
            }
        }
    }
    None
}

pub fn type_to_string(ty: &ParamType) -> (r: Option<String>)
    ensures
        r == last_ident(*ty),
{
    if let ParamType::Path(p) = ty {
        if p.segments.len() > 0 {
            return Some(p.segments[p.segments.len() - 1].ident.clone());
        }
    }
    None
}

pub fn new_angle_bracketed_args(lifetime: String) -> (r: PathArguments)
    ensures
        r matches PathArguments::AngleBracketed(args) && args@ == seq![
            GenericArgument::Lifetime(lifetime),
        ],
{
    let mut args: Vec<GenericArgument> = Vec::new();
    args.push(GenericArgument::Lifetime(lifetime));
    PathArguments::AngleBracketed(args)
}

pub fn insert_lifetime_first(args: &mut Vec<GenericArgument>, lifetime: &String)
    ensures
        final(args)@ == seq![GenericArgument::Lifetime(*lifetime)] + old(args)@,
{
    args.insert(0, GenericArgument::Lifetime(lifetime.clone()));
    assert(final(args)@ =~= seq![GenericArgument::Lifetime(*lifetime)] + old(args)@);
}

/// `use super::*;`
pub open spec fn is_super_glob(item: Item) -> bool {
    match item {
        Item::Use(UseTree::Path { ident, tree }) => ident@ == "super"@ && *tree is Glob,
        _ => false,
    }
}

pub fn is_use_super_star(item: &Item) -> (r: bool)
    ensures
        r == is_super_glob(*item),
{
    if let Item::Use(UseTree::Path { ident, tree }) = item {
        if let UseTree::Glob = &**tree {
            return *ident == String::from_str("super");
        }
    }
    false
}

} // verus!
