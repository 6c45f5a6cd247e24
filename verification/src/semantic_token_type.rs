//! The classes of semantic tokens.

use vstd::prelude::*;

verus! {

pub const NAMESPACE: u32 = 0;

pub const TYPE: u32 = 1;

pub const FUNCTION: u32 = 2;

pub const METHOD: u32 = 3;

pub const PROPERTY: u32 = 4;

pub const VARIABLE: u32 = 5;

pub const PARAMETER: u32 = 6;

pub const ENUM_MEMBER: u32 = 7;

pub const MACRO: u32 = 8;

} // verus!
