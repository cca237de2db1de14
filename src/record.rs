use vstd::prelude::*;

use crate::types;

verus! {

/// One record of an Intel HEX object.
#[derive(Debug, Clone, Hash)]
pub enum Record {
    /// Specifies a 16-bit offset address and up to 255 bytes of data.
    /// Availability: I8HEX, I16HEX and I32HEX.
    Data {
        /// The offset of the data record in memory.
        offset: u16,
        /// Up to 255 bytes of data to be written to memory.
        value: Vec<u8>,
    },
    /// Indicates the end of the object file. Must occur exactly once per file, at the end.
    /// Availability: I8HEX, I16HEX and I32HEX.
    EndOfFile,
    /// Specifies bits 4-19 of the Segment Base Address (SBA) to address up to 1MiB.
    /// Availability: I16HEX.
    ExtendedSegmentAddress(u16),
    /// Specifies the 20-bit segment address via the CS and IP registers.
    /// Availability: I16HEX.
    StartSegmentAddress {
        /// Value of the CS register.
        cs: u16,
        /// Value of the IP register.
        ip: u16,
    },
    /// Specifies the upper 16 bits of a 32-bit linear address.
    /// The lower 16 bits are derived from the Data record load offset.
    /// Availability: I32HEX.
    ExtendedLinearAddress(u16),
    /// Specifies the execution start address for the object file.
    /// This is the 32-bit linear address for register EIP.
    /// Availability: I32HEX.
    StartLinearAddress(u32),
}

/// The mathematical value of a [`Record`]: the same variants, with the data
/// bytes as a sequence.
pub enum RecordView {
    Data { offset: u16, value: Seq<u8> },
    EndOfFile,
    ExtendedSegmentAddress(u16),
    StartSegmentAddress { cs: u16, ip: u16 },
    ExtendedLinearAddress(u16),
    StartLinearAddress(u32),
}

impl View for Record {
    type V = RecordView;

    open spec fn view(&self) -> RecordView {
        match self {
            Record::Data { offset, value } => RecordView::Data { offset: *offset, value: value@ },
            Record::EndOfFile => RecordView::EndOfFile,
            Record::ExtendedSegmentAddress(a) => RecordView::ExtendedSegmentAddress(*a),
            Record::StartSegmentAddress { cs, ip } => RecordView::StartSegmentAddress {
                cs: *cs,
                ip: *ip,
            },
            Record::ExtendedLinearAddress(a) => RecordView::ExtendedLinearAddress(*a),
            Record::StartLinearAddress(a) => RecordView::StartLinearAddress(*a),
        }
    }
}

/// The type specifier of a record.
pub open spec fn type_of(r: RecordView) -> u8 {
    match r {
        RecordView::Data { .. } => types::DATA,
        RecordView::EndOfFile => types::END_OF_FILE,
        RecordView::ExtendedSegmentAddress(..) => types::EXTENDED_SEGMENT_ADDRESS,
        RecordView::StartSegmentAddress { .. } => types::START_SEGMENT_ADDRESS,
        RecordView::ExtendedLinearAddress(..) => types::EXTENDED_LINEAR_ADDRESS,
        RecordView::StartLinearAddress(..) => types::START_LINEAR_ADDRESS,
    }
}

/// The 16-bit big-endian value of the bytes `hi`, `lo`.
pub open spec fn be16(hi: u8, lo: u8) -> u16 {
    (hi as int * 0x100 + lo as int) as u16
}

/// The 32-bit big-endian value of the bytes `b0` (most significant) to `b3`.
pub open spec fn be32(b0: u8, b1: u8, b2: u8, b3: u8) -> u32 {
    (b0 as int * 0x100_0000 + b1 as int * 0x1_0000 + b2 as int * 0x100 + b3 as int) as u32
}

/// The two big-endian bytes of a 16-bit value.
pub open spec fn bytes_of_u16(v: u16) -> Seq<u8> {
    seq![(v / 0x100) as u8, (v % 0x100) as u8]
}

/// The four big-endian bytes of a 32-bit value.
pub open spec fn bytes_of_u32(v: u32) -> Seq<u8> {
    seq![
        (v / 0x100_0000) as u8,
        (v / 0x1_0000 % 0x100) as u8,
        (v / 0x100 % 0x100) as u8,
        (v % 0x100) as u8,
    ]
}

/// The payload bytes of a record: a Data record's value, the big-endian
/// fields of the others.
pub open spec fn payload_of(r: RecordView) -> Seq<u8> {
    match r {
        RecordView::Data { value, .. } => value,
        RecordView::EndOfFile => seq![],
        RecordView::ExtendedSegmentAddress(a) => bytes_of_u16(a),
        RecordView::StartSegmentAddress { cs, ip } => bytes_of_u16(cs) + bytes_of_u16(ip),
        RecordView::ExtendedLinearAddress(a) => bytes_of_u16(a),
        RecordView::StartLinearAddress(a) => bytes_of_u32(a),
    }
}

/// The address field of a record: a Data record's offset, zero for the others.
pub open spec fn address_of(r: RecordView) -> u16 {
    match r {
        RecordView::Data { offset, .. } => offset,
        _ => 0,
    }
}

impl Record {
    /// The record type specifier corresponding to the receiver.
    pub fn record_type(&self) -> (r: u8)
        ensures
            r == type_of(self@),
    {
        match self {
            Record::Data { .. } => types::DATA,
            Record::EndOfFile => types::END_OF_FILE,
            Record::ExtendedSegmentAddress(..) => types::EXTENDED_SEGMENT_ADDRESS,
            Record::StartSegmentAddress { .. } => types::START_SEGMENT_ADDRESS,
            Record::ExtendedLinearAddress(..) => types::EXTENDED_LINEAR_ADDRESS,
            Record::StartLinearAddress(..) => types::START_LINEAR_ADDRESS,
        }
    }
}

/// Whether two byte vectors hold the same bytes.
fn same_bytes(a: &Vec<u8>, b: &Vec<u8>) -> (r: bool)
    ensures
        r == (a@ == b@),
{
    if a.len() != b.len() {
        return false;
    }
    let mut i: usize = 0;
    while i < a.len()
        invariant
            a@.len() == b@.len(),
            i <= a@.len(),
            forall|j: int| 0 <= j < i ==> a@[j] == b@[j],
        decreases a@.len() - i,
    {
        if a[i] != b[i] {
            return false;
        }
        i = i + 1;
    }
    assert(a@ =~= b@);
    true
}

impl PartialEq for Record {
    fn eq(&self, other: &Record) -> (r: bool)
        ensures
            r == (self@ == other@),
    {
        match (self, other) {
            (Record::Data { offset: o1, value: v1 }, Record::Data { offset: o2, value: v2 }) => {
                *o1 == *o2 && same_bytes(v1, v2)
            },
            (Record::EndOfFile, Record::EndOfFile) => true,
            (Record::ExtendedSegmentAddress(a), Record::ExtendedSegmentAddress(b)) => *a == *b,
            (
                Record::StartSegmentAddress { cs: c1, ip: i1 },
                Record::StartSegmentAddress { cs: c2, ip: i2 },
            ) => *c1 == *c2 && *i1 == *i2,
            (Record::ExtendedLinearAddress(a), Record::ExtendedLinearAddress(b)) => *a == *b,
            (Record::StartLinearAddress(a), Record::StartLinearAddress(b)) => *a == *b,
            _ => false,
        }
    }
}

impl vstd::std_specs::cmp::PartialEqSpecImpl for Record {
    open spec fn obeys_eq_spec() -> bool {
        true
    }

    open spec fn eq_spec(&self, other: &Record) -> bool {
        self@ == other@
    }
}

impl Eq for Record {

}

} // verus!
