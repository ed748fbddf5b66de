//! Character classes, as the standard library decides them.
//!
//! The classes are Unicode properties, kept by the standard library as tables.
//! Each is known here by name only: the contracts of this crate say which
//! class a rule asks about, and nothing about which characters are in it.

use vstd::prelude::*;

verus! {

/// Whether `c` has Unicode's `Uppercase` property.
pub uninterp spec fn uppercase(c: char) -> bool;

/// Whether `c` has Unicode's `Lowercase` property.
pub uninterp spec fn lowercase(c: char) -> bool;

/// Whether `c` is in one of Unicode's numeric categories (`Nd`, `Nl`, `No`).
pub uninterp spec fn numeric(c: char) -> bool;

/// Whether `c` has Unicode's `White_Space` property.
pub uninterp spec fn whitespace(c: char) -> bool;

/// `char::is_uppercase` looks `c` up in the table of the `Uppercase` property.
/// Trusted: the answer depends on `c` alone.
pub assume_specification[ char::is_uppercase ](c: char) -> (b: bool)
    ensures
        b == uppercase(c),
;

/// `char::is_lowercase` looks `c` up in the table of the `Lowercase` property.
/// Trusted: the answer depends on `c` alone.
pub assume_specification[ char::is_lowercase ](c: char) -> (b: bool)
    ensures
        b == lowercase(c),
;

/// `char::is_numeric` looks `c` up in the tables of the numeric categories.
/// Trusted: the answer depends on `c` alone.
pub assume_specification[ char::is_numeric ](c: char) -> (b: bool)
    ensures
        b == numeric(c),
;

/// `char::is_whitespace` looks `c` up in the table of the `White_Space`
/// property. Trusted: the answer depends on `c` alone.
pub assume_specification[ char::is_whitespace ](c: char) -> (b: bool)
    ensures
        b == whitespace(c),
;

} // verus!
