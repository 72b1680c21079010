use vstd::prelude::*;

verus! {

/// Why decoding a response onto a target variant set failed.
///
/// Every failure is local to one call and names the tag or field that did not
/// fit, so a mismatch between the caller's type and the service's intent
/// configuration can be diagnosed.
#[derive(Debug, PartialEq, Eq)]
pub enum DecodeError {
    /// The wire payload is missing a required structural field, or a present
    /// field has the wrong shape.
    MalformedResponse,
    /// The service reported an intent name that matches no variant's
    /// canonical tag. The name is never silently absorbed by the fallback
    /// variant.
    UnknownIntent(String),
    /// The service reported no intent name and the target variant set has no
    /// fallback variant.
    NoFallbackVariant,
    /// A field declared on the selected variant is absent from the parameter
    /// bag.
    MissingField(String),
    /// A field declared on the selected variant is present but its value
    /// cannot be coerced to the declared kind.
    FieldTypeMismatch(String),
}

} // verus!
