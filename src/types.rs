//! Record type specifiers, as written in the type field of a record.

use vstd::prelude::*;

verus! {

/// Type specifier for a Data record.
pub const DATA: u8 = 0x00;

/// Type specifier for an End-Of-File record.
pub const END_OF_FILE: u8 = 0x01;

/// Type specifier for an Extended Segment Address record.
pub const EXTENDED_SEGMENT_ADDRESS: u8 = 0x02;

/// Type specifier for a Start Segment Address record.
pub const START_SEGMENT_ADDRESS: u8 = 0x03;

/// Type specifier for an Extended Linear Address record.
pub const EXTENDED_LINEAR_ADDRESS: u8 = 0x04;

/// Type specifier for a Start Linear Address record.
pub const START_LINEAR_ADDRESS: u8 = 0x05;

} // verus!
