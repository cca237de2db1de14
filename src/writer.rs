use vstd::prelude::*;

use crate::checksum::{checksum, checksum_of};
use crate::hex::{
    all_hex_digits, digit_char, hex_pairs, hex_string, lemma_hex_string_push,
    lemma_hex_string_round_trip,
};
use crate::reader::{
    record_of, record_of_bytes, record_of_line, ReaderError, LARGEST_RECORD_DIGITS,
    SMALLEST_RECORD_DIGITS,
};
use crate::record::{be16, be32};
use crate::record::{
    address_of, bytes_of_u16, bytes_of_u32, payload_of, type_of, Record, RecordView,
};

verus! {

/// Why a record or an object could not be written.
#[derive(PartialEq, Eq, Structural, Clone, Copy, Debug, Hash)]
pub enum WriterError {
    /// A record contains data too large to represent.
    DataExceedsMaximumLength(usize),
    /// Object does not end in an EoF record.
    MissingEndOfFileRecord,
    /// Object contains multiple EoF records.
    MultipleEndOfFileRecords(usize),
    /// Unable to synthesize record string. Writing to a string cannot fail,
    /// so no function of this library returns it.
    SynthesisFailed,
}

/// The most payload bytes a record can hold: its byte count is one byte.
pub const MAXIMUM_PAYLOAD_LENGTH: usize = 0xFF;

/// The bytes of a record line after the start code: byte count, big-endian
/// address, type, payload and checksum.
pub open spec fn frame_of(tag: u8, address: u16, payload: Seq<u8>) -> Seq<u8> {
    let head = seq![payload.len() as u8, (address / 0x100) as u8, (address % 0x100) as u8, tag]
        + payload;
    head.push(checksum_of(head))
}

/// The text of a record line: the start code, then two upper-case
/// hexadecimal digits per byte of the frame.
pub open spec fn line_of(tag: u8, address: u16, payload: Seq<u8>) -> Seq<char> {
    seq![':'] + hex_string(frame_of(tag, address, payload))
}

/// The line written for a record, or why it cannot be written.
pub open spec fn record_line(r: RecordView) -> Result<Seq<char>, WriterError> {
    let payload = payload_of(r);
    if payload.len() > MAXIMUM_PAYLOAD_LENGTH {
        Err(WriterError::DataExceedsMaximumLength(payload.len() as usize))
    } else {
        Ok(line_of(type_of(r), address_of(r), payload))
    }
}

/// The number of End-Of-File records in `rs`.
pub open spec fn eof_count(rs: Seq<RecordView>) -> nat
    decreases rs.len(),
{
    if rs.len() == 0 {
        0
    } else {
        eof_count(rs.drop_last()) + if rs.last() == RecordView::EndOfFile {
            1nat
        } else {
            0nat
        }
    }
}

/// The lines of all records, each followed by a line feed, or the error of
/// the first record that cannot be written.
pub open spec fn object_lines(rs: Seq<RecordView>) -> Result<Seq<char>, WriterError>
    decreases rs.len(),
{
    if rs.len() == 0 {
        Ok(seq![])
    } else {
        match object_lines(rs.drop_last()) {
            Err(e) => Err(e),
            Ok(text) => match record_line(rs.last()) {
                Err(e) => Err(e),
                Ok(line) => Ok(text + line.push('\n')),
            },
        }
    }
}

/// The text of the object made of `rs`, or why there is none: the object
/// must end in its one End-Of-File record.
pub open spec fn object_file_of(rs: Seq<RecordView>) -> Result<Seq<char>, WriterError> {
    if rs.len() == 0 || rs.last() != RecordView::EndOfFile {
        Err(WriterError::MissingEndOfFileRecord)
    } else if eof_count(rs) > 1 {
        Err(WriterError::MultipleEndOfFileRecords(eof_count(rs) as usize))
    } else {
        object_lines(rs)
    }
}

/// The value of a writing result.
pub open spec fn text_view(r: Result<String, WriterError>) -> Result<Seq<char>, WriterError> {
    match r {
        Ok(s) => Ok(s@),
        Err(e) => Err(e),
    }
}

/// The values of a sequence of records.
pub open spec fn views_of(records: Seq<Record>) -> Seq<RecordView> {
    records.map_values(|r: Record| r@)
}

/// Relies on std's `String::push`, which appends one character.
#[verifier::external_body]
fn push_char(s: &mut String, c: char)
    ensures
        final(s)@ == old(s)@.push(c),
{
    s.push(c);
}

/// The two big-endian bytes of `v`.
fn u16_bytes(v: u16) -> (r: Vec<u8>)
    ensures
        r@ == bytes_of_u16(v),
{
    let hi = ((v & 0xFF00) >> 8) as u8;
    let lo = (v & 0x00FF) as u8;
    assert(hi == v / 0x100 && lo == v % 0x100) by (bit_vector)
        requires
            hi == ((v & 0xFF00) >> 8) as u8,
            lo == (v & 0x00FF) as u8,
    ;
    let r = vec![hi, lo];
    assert(r@ =~= bytes_of_u16(v));
    r
}

/// The four big-endian bytes of `v`.
fn u32_bytes(v: u32) -> (r: Vec<u8>)
    ensures
        r@ == bytes_of_u32(v),
{
    let b0 = ((v & 0xFF00_0000) >> 24) as u8;
    let b1 = ((v & 0x00FF_0000) >> 16) as u8;
    let b2 = ((v & 0x0000_FF00) >> 8) as u8;
    let b3 = (v & 0x0000_00FF) as u8;
    assert(b0 == v / 0x100_0000 && b1 == v / 0x1_0000 % 0x100 && b2 == v / 0x100 % 0x100 && b3
        == v % 0x100) by (bit_vector)
        requires
            b0 == ((v & 0xFF00_0000) >> 24) as u8,
            b1 == ((v & 0x00FF_0000) >> 16) as u8,
            b2 == ((v & 0x0000_FF00) >> 8) as u8,
            b3 == (v & 0x0000_00FF) as u8,
    ;
    let r = vec![b0, b1, b2, b3];
    assert(r@ =~= bytes_of_u32(v));
    r
}

/// Formats the record line of type `record_type` at `address` holding
/// `data`. IHEX records all contain the following fields:
/// `+-----+------------+--------------+----------+------------+-------------+`
/// `| ':' | Length: u8 | Address: u16 | Type: u8 | Data: [u8] | Checksum: u8 |`
/// `+-----+------------+--------------+----------+------------+-------------+`
/// Multi-byte values are big-endian. Fails if `data` is more than 255 bytes
/// long.
fn format_record(record_type: u8, address: u16, data: &[u8]) -> (r: Result<String, WriterError>)
    ensures
        data@.len() > MAXIMUM_PAYLOAD_LENGTH ==> r == Err::<String, WriterError>(
            WriterError::DataExceedsMaximumLength(data@.len() as usize),
        ),
        data@.len() <= MAXIMUM_PAYLOAD_LENGTH ==> r is Ok && r->Ok_0@ == line_of(
            record_type,
            address,
            data@,
        ),
{
    if data.len() > MAXIMUM_PAYLOAD_LENGTH {
        return Err(WriterError::DataExceedsMaximumLength(data.len()));
    }
    let address_hi = ((address & 0xFF00) >> 8) as u8;
    let address_lo = (address & 0x00FF) as u8;
    assert(address_hi == address / 0x100 && address_lo == address % 0x100) by (bit_vector)
        requires
            address_hi == ((address & 0xFF00) >> 8) as u8,
            address_lo == (address & 0x00FF) as u8,
    ;
    let mut region: Vec<u8> = Vec::new();
    region.push(data.len() as u8);
    region.push(address_hi);
    region.push(address_lo);
    region.push(record_type);
    let mut i: usize = 0;
    while i < data.len()
        invariant
            i <= data@.len(),
            region@ == seq![data@.len() as u8, address_hi, address_lo, record_type]
                + data@.subrange(0, i as int),
        decreases data@.len() - i,
    {
        region.push(data[i]);
        i = i + 1;
        assert(region@ =~= seq![data@.len() as u8, address_hi, address_lo, record_type]
            + data@.subrange(0, i as int));
    }
    assert(data@.subrange(0, i as int) =~= data@);
    let sum = checksum(region.as_slice());
    region.push(sum);
    let ghost frame = region@;
    assert(frame == frame_of(record_type, address, data@));

    let mut result = String::new();
    push_char(&mut result, ':');
    let mut j: usize = 0;
    while j < region.len()
        invariant
            region@ == frame,
            j <= frame.len(),
            result@ == seq![':'] + hex_string(frame.subrange(0, j as int)),
        decreases frame.len() - j,
    {
        let b = region[j];
        push_char(&mut result, digit_char(b / 16));
        push_char(&mut result, digit_char(b % 16));
        proof {
            lemma_hex_string_push(frame.subrange(0, j as int), b);
            assert(frame.subrange(0, j as int).push(b) =~= frame.subrange(0, j + 1));
        }
        j = j + 1;
    }
    assert(frame.subrange(0, j as int) =~= frame);
    Ok(result)
}

impl Record {
    /// Returns the IHEX record representation of the receiver, or an error
    /// when its data is longer than 255 bytes.
    pub fn to_record_string(&self) -> (r: Result<String, WriterError>)
        ensures
            text_view(r) == record_line(self@),
    {
        let tag = self.record_type();
        match self {
            Record::Data { offset, value } => format_record(tag, *offset, value.as_slice()),
            Record::EndOfFile => {
                let empty: Vec<u8> = Vec::new();
                format_record(tag, 0x0000, empty.as_slice())
            },
            Record::ExtendedSegmentAddress(segment_address) => {
                let payload = u16_bytes(*segment_address);
                format_record(tag, 0x0000, payload.as_slice())
            },
            Record::StartSegmentAddress { cs, ip } => {
                let mut payload = u16_bytes(*cs);
                let ip_bytes = u16_bytes(*ip);
                payload.push(ip_bytes[0]);
                payload.push(ip_bytes[1]);
                assert(payload@ =~= bytes_of_u16(*cs) + bytes_of_u16(*ip));
                format_record(tag, 0x0000, payload.as_slice())
            },
            Record::ExtendedLinearAddress(linear_address) => {
                let payload = u16_bytes(*linear_address);
                format_record(tag, 0x0000, payload.as_slice())
            },
            Record::StartLinearAddress(address) => {
                let payload = u32_bytes(*address);
                format_record(tag, 0x0000, payload.as_slice())
            },
        }
    }
}

/// Generates an Intel HEX object file representation of the `records`
/// provided: the line of each record, each followed by a line feed. It is the
/// caller's responsibility to ensure that no overlapping data ranges are
/// defined within the object file. `records` must contain one EoF record, and
/// it must be the last element in `records`.
pub fn create_object_file_representation(records: &[Record]) -> (r: Result<String, WriterError>)
    ensures
        text_view(r) == object_file_of(views_of(records@)),
{
    let ghost rs = views_of(records@);
    let n = records.len();
    if n == 0 {
        return Err(WriterError::MissingEndOfFileRecord);
    }
    match &records[n - 1] {
        Record::EndOfFile => {},
        _ => {
            return Err(WriterError::MissingEndOfFileRecord);
        },
    }
    assert(rs.last() == RecordView::EndOfFile);

    // Validate exactly one EoF record exists.
    let mut eof_records: usize = 0;
    let mut i: usize = 0;
    while i < n
        invariant
            n == records@.len(),
            rs == views_of(records@),
            i <= n,
            eof_records == eof_count(rs.subrange(0, i as int)),
            eof_records <= i,
        decreases n - i,
    {
        assert(rs.subrange(0, i + 1).drop_last() =~= rs.subrange(0, i as int));
        if let Record::EndOfFile = &records[i] {
            eof_records = eof_records + 1;
        }
        i = i + 1;
    }
    assert(rs.subrange(0, n as int) =~= rs);
    if eof_records > 1 {
        return Err(WriterError::MultipleEndOfFileRecords(eof_records));
    }

    let mut result = String::new();
    let mut k: usize = 0;
    while k < n
        invariant
            n == records@.len(),
            rs == views_of(records@),
            k <= n,
            object_file_of(rs) == object_lines(rs),
            object_lines(rs.subrange(0, k as int)) == Ok::<Seq<char>, WriterError>(result@),
        decreases n - k,
    {
        assert(rs.subrange(0, k + 1).drop_last() =~= rs.subrange(0, k as int));
        match records[k].to_record_string() {
            Ok(line) => {
                result.append(line.as_str());
                push_char(&mut result, '\n');
            },
            Err(e) => {
                proof {
                    assert(object_lines(rs.subrange(0, k + 1)) == Err::<Seq<char>, WriterError>(e));
                    lemma_object_lines_error_persists(rs, k + 1, e);
                }
                return Err(e);
            },
        }
        k = k + 1;
    }
    assert(rs.subrange(0, n as int) =~= rs);
    Ok(result)
}

/// Once a prefix of the records cannot be written, no longer prefix can.
proof fn lemma_object_lines_error_persists(rs: Seq<RecordView>, k: int, e: WriterError)
    requires
        0 <= k <= rs.len(),
        object_lines(rs.subrange(0, k)) == Err::<Seq<char>, WriterError>(e),
    ensures
        object_lines(rs) == Err::<Seq<char>, WriterError>(e),
    decreases rs.len() - k,
{
    if k < rs.len() {
        assert(rs.subrange(0, k + 1).drop_last() =~= rs.subrange(0, k));
        lemma_object_lines_error_persists(rs, k + 1, e);
    } else {
        assert(rs.subrange(0, k) =~= rs);
    }
}

/// A 16-bit value is read back from its two big-endian bytes.
proof fn lemma_be16_of_bytes(v: u16)
    ensures
        be16(bytes_of_u16(v)[0], bytes_of_u16(v)[1]) == v,
{
}

/// A 32-bit value is read back from its four big-endian bytes.
proof fn lemma_be32_of_bytes(v: u32)
    ensures
        be32(bytes_of_u32(v)[0], bytes_of_u32(v)[1], bytes_of_u32(v)[2], bytes_of_u32(v)[3])
            == v,
{
    let x = v as int;
    assert(x == (x / 0x100_0000) * 0x100_0000 + (x / 0x1_0000 % 0x100) * 0x1_0000 + (x / 0x100
        % 0x100) * 0x100 + x % 0x100) by (nonlinear_arith)
        requires
            0 <= x < 0x1_0000_0000,
    ;
}

/// The checks on the characters of a written line pass, and what remains is
/// to read its bytes.
proof fn lemma_line_reads_frame(tag: u8, address: u16, payload: Seq<u8>)
    requires
        payload.len() <= MAXIMUM_PAYLOAD_LENGTH,
    ensures
        record_of_line(line_of(tag, address, payload)) == record_of_bytes(
            frame_of(tag, address, payload),
        ),
{
    let frame = frame_of(tag, address, payload);
    let line = line_of(tag, address, payload);
    let digits = hex_string(frame);
    lemma_hex_string_round_trip(frame);
    assert(frame.len() == payload.len() + 5);
    assert(line.drop_first() =~= digits);
    assert(line.len() > 0 && line[0] == ':');
    assert(all_hex_digits(digits));
    assert(SMALLEST_RECORD_DIGITS <= digits.len() <= LARGEST_RECORD_DIGITS);
    assert(digits.len() % 2 == 0);
    assert(hex_pairs(digits) == frame);
}

/// The checksum and byte count of a written frame check out, and its fields
/// are read back.
proof fn lemma_frame_reads_fields(tag: u8, address: u16, payload: Seq<u8>)
    requires
        payload.len() <= MAXIMUM_PAYLOAD_LENGTH,
    ensures
        record_of_bytes(frame_of(tag, address, payload)) == record_of(tag, address, payload),
{
    let head = seq![payload.len() as u8, (address / 0x100) as u8, (address % 0x100) as u8, tag]
        + payload;
    let frame = frame_of(tag, address, payload);
    reveal(record_of_bytes);
    assert(frame.drop_last() =~= head);
    assert(head.subrange(4, head.len() as int) =~= payload);
    assert(be16(head[1], head[2]) == address);
}

/// The fields of a record build the record again.
proof fn lemma_fields_build_record(r: RecordView)
    ensures
        record_of(type_of(r), address_of(r), payload_of(r)) == Ok::<RecordView, ReaderError>(r),
{
    match r {
        RecordView::ExtendedSegmentAddress(a) => lemma_be16_of_bytes(a),
        RecordView::StartSegmentAddress { cs, ip } => {
            lemma_be16_of_bytes(cs);
            lemma_be16_of_bytes(ip);
        },
        RecordView::ExtendedLinearAddress(a) => lemma_be16_of_bytes(a),
        RecordView::StartLinearAddress(a) => lemma_be32_of_bytes(a),
        _ => {},
    }
}

/// Reading the line written for a record gives the record back, for every
/// record whose payload fits in a line.
pub proof fn lemma_round_trip(r: RecordView)
    requires
        payload_of(r).len() <= MAXIMUM_PAYLOAD_LENGTH,
    ensures
        record_line(r) is Ok,
        record_of_line(record_line(r)->Ok_0) == Ok::<RecordView, ReaderError>(r),
{
    lemma_line_reads_frame(type_of(r), address_of(r), payload_of(r));
    lemma_frame_reads_fields(type_of(r), address_of(r), payload_of(r));
    lemma_fields_build_record(r);
}

} // verus!
