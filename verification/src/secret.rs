//! A credential wrapper that keeps secrets out of debug output.

use vstd::prelude::*;

verus! {

/// A string that must not appear in logs. Debug output shows a placeholder;
/// the raw value is reached only through the field.
pub struct Secret(pub String);

impl Secret {
    pub fn new(val: String) -> (r: Secret)
        ensures
            r.0 == val,
    {
        Secret(val)
    }

    /// Whether the secret equals the given string.
    pub fn matches(&self, other: &str) -> (r: bool)
        ensures
            r == (self.0@ == other@),
    {
        crate::text::str_eq_chars(other, &crate::text::to_chars(self.0.as_str()))
    }

    /// The raw value, for building outbound credentials.
    pub fn value(&self) -> (r: &String)
        ensures
            r == self.0,
    {
        &self.0
    }
}

} // verus!
