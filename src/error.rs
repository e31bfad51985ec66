use vstd::prelude::*;

verus! {

/// A fatal problem found while analysing handlers; nothing is emitted.
#[derive(Debug, PartialEq, Eq)]
pub enum GenerationError {
    /// A capability wrapper of a handler parameter carries no inner type.
    MissingInnerType { handler: String, wrapper: String },
    /// A capability wrapper of a handler parameter wraps another wrapper or
    /// a type that was never discovered.
    UnresolvedInnerType { handler: String, resource: String },
    /// A resource argument of a handler reached the builder without a capability configuration.
    MissingEntryConfig { handler: String, resource: String },
    /// A call-plan argument names no payload argument of the handler.
    UnknownArgument { handler: String, arg: String },
    /// A resource argument needs an account that the condensed list lacks.
    MissingAccount { handler: String, resource: String },
    /// Two handlers carry the same discriminant.
    DuplicateDiscriminant(u8),
    /// More handlers than a one-byte discriminant can tell apart.
    TooManyHandlers,
}

/// Why a parameter type cannot be classified.
#[derive(Debug, PartialEq, Eq)]
pub enum TypeError {
    /// The capability wrapper named here carries no inner type.
    MissingInnerType(String),
    /// The inner type is itself the capability wrapper named here.
    NestedWrapper(String),
}

/// A failure of one dispatch call; nothing was consumed or invoked.
#[derive(Debug, Clone, Copy, PartialEq, Eq, Structural)]
pub enum DispatchError {
    /// The instruction data is empty: there is no discriminant.
    MissingDiscriminant,
    /// No variant carries the given discriminant.
    UnknownDiscriminant(u8),
    /// The variant has a payload argument whose type the dispatcher does not decode.
    UnsupportedPayload,
    /// The payload does not decode into the variant's argument shape.
    MalformedPayload,
    /// Fewer resources were supplied than the variant requires.
    NotEnoughAccounts,
}

} // verus!
