use vstd::prelude::*;

use crate::checksum::{checksum, checksum_of};
use crate::hex::{
    all_hex_digits, digit_value, hex_digit_value, hex_pair_value, hex_pairs, is_hex_digit,
    is_hex_digit_char,
};
use crate::record::{be16, be32, Record, RecordView};
use crate::types;

verus! {

/// Why a line could not be read as a record.
#[derive(PartialEq, Eq, Structural, Clone, Copy, Debug, Hash)]
pub enum ReaderError {
    /// The record provided does not begin with a ':'.
    MissingStartCode,
    /// The record provided is shorter than the smallest valid.
    RecordTooShort,
    /// The record provided exceeds the maximum size (255b payload).
    RecordTooLong,
    /// The record is not an even number of bytes.
    RecordNotEvenLength,
    /// The record is not all hexadecimal characters.
    ContainsInvalidCharacters,
    /// The checksum did not match: the one computed, then the one written.
    ChecksumMismatch(u8, u8),
    /// The record is not the length it claims.
    PayloadLengthMismatch,
    /// The record type is not supported.
    UnsupportedRecordType(u8),
    /// The payload length does not match the record type.
    InvalidLengthForType,
}

/// The fewest hexadecimal digits after the start code: byte count, address,
/// record type and checksum.
pub const SMALLEST_RECORD_DIGITS: usize = 10;

/// The most hexadecimal digits after the start code: the smallest record plus
/// a 255-byte payload.
pub const LARGEST_RECORD_DIGITS: usize = 520;

/// The record of type `tag` at `address` with `payload`, or why there is none.
pub open spec fn record_of(tag: u8, address: u16, payload: Seq<u8>) -> Result<
    RecordView,
    ReaderError,
> {
    if tag == types::DATA {
        Ok(RecordView::Data { offset: address, value: payload })
    } else if tag == types::END_OF_FILE {
        if payload.len() == 0 {
            Ok(RecordView::EndOfFile)
        } else {
            Err(ReaderError::InvalidLengthForType)
        }
    } else if tag == types::EXTENDED_SEGMENT_ADDRESS {
        if payload.len() == 2 {
            Ok(RecordView::ExtendedSegmentAddress(be16(payload[0], payload[1])))
        } else {
            Err(ReaderError::InvalidLengthForType)
        }
    } else if tag == types::START_SEGMENT_ADDRESS {
        if payload.len() == 4 {
            Ok(
                RecordView::StartSegmentAddress {
                    cs: be16(payload[0], payload[1]),
                    ip: be16(payload[2], payload[3]),
                },
            )
        } else {
            Err(ReaderError::InvalidLengthForType)
        }
    } else if tag == types::EXTENDED_LINEAR_ADDRESS {
        if payload.len() == 2 {
            Ok(RecordView::ExtendedLinearAddress(be16(payload[0], payload[1])))
        } else {
            Err(ReaderError::InvalidLengthForType)
        }
    } else if tag == types::START_LINEAR_ADDRESS {
        if payload.len() == 4 {
            Ok(
                RecordView::StartLinearAddress(
                    be32(payload[0], payload[1], payload[2], payload[3]),
                ),
            )
        } else {
            Err(ReaderError::InvalidLengthForType)
        }
    } else {
        Err(ReaderError::UnsupportedRecordType(tag))
    }
}

/// The record held by the bytes of a line (count, address, type, payload,
/// checksum), or why there is none.
#[verifier::opaque]
pub open spec fn record_of_bytes(bytes: Seq<u8>) -> Result<RecordView, ReaderError>
    recommends
        bytes.len() >= 5,
{
    let region = bytes.drop_last();
    let expected = bytes.last();
    let computed = checksum_of(region);
    if computed != expected {
        Err(ReaderError::ChecksumMismatch(computed, expected))
    } else if region.len() - 4 != region[0] as int {
        Err(ReaderError::PayloadLengthMismatch)
    } else {
        record_of(region[3], be16(region[1], region[2]), region.subrange(4, region.len() as int))
    }
}

/// The record written on `line`, or the first reason, in the order of the
/// checks, why it holds none.
pub open spec fn record_of_line(line: Seq<char>) -> Result<RecordView, ReaderError> {
    if line.len() == 0 || line[0] != ':' {
        Err(ReaderError::MissingStartCode)
    } else {
        let digits = line.drop_first();
        if !all_hex_digits(digits) {
            Err(ReaderError::ContainsInvalidCharacters)
        } else if digits.len() < SMALLEST_RECORD_DIGITS {
            Err(ReaderError::RecordTooShort)
        } else if digits.len() > LARGEST_RECORD_DIGITS {
            Err(ReaderError::RecordTooLong)
        } else if digits.len() % 2 != 0 {
            Err(ReaderError::RecordNotEvenLength)
        } else {
            record_of_bytes(hex_pairs(digits))
        }
    }
}

/// The value of a decoding result.
pub open spec fn result_view(r: Result<Record, ReaderError>) -> Result<RecordView, ReaderError> {
    match r {
        Ok(record) => Ok(record@),
        Err(e) => Err(e),
    }
}

/// A line that holds a character other than a hexadecimal digit after its
/// start code is reported as such, whatever its length.
pub proof fn lemma_invalid_characters_reported_before_length(line: Seq<char>, i: int)
    requires
        line.len() > 0,
        line[0] == ':',
        1 <= i < line.len(),
        !is_hex_digit(line[i]),
    ensures
        record_of_line(line) == Err::<RecordView, ReaderError>(
            ReaderError::ContainsInvalidCharacters,
        ),
{
    assert(line.drop_first()[i - 1] == line[i]);
}

/// The characters of `s`.
fn chars_of(s: &str) -> (v: Vec<char>)
    ensures
        v@ == s@,
{
    let mut v: Vec<char> = Vec::new();
    for c in it: s.chars()
        invariant
            v@ == it.seq().subrange(0, it.index() as int),
            it.seq() == s@,
    {
        v.push(c);
    }
    v
}

/// The 16-bit big-endian value of `hi`, `lo`.
fn read_be16(hi: u8, lo: u8) -> (r: u16)
    ensures
        r == be16(hi, lo),
{
    let r = ((hi as u16) << 8) | (lo as u16);
    assert(r == (hi as u16) * 256 + (lo as u16)) by (bit_vector)
        requires
            r == ((hi as u16) << 8) | (lo as u16),
    ;
    r
}

/// The 32-bit big-endian value of `b0` (most significant) to `b3`.
fn read_be32(b0: u8, b1: u8, b2: u8, b3: u8) -> (r: u32)
    ensures
        r == be32(b0, b1, b2, b3),
{
    let r = ((b0 as u32) << 24) | ((b1 as u32) << 16) | ((b2 as u32) << 8) | (b3 as u32);
    assert(r == (b0 as u32) * 0x100_0000 + (b1 as u32) * 0x1_0000 + (b2 as u32) * 0x100 + (
    b3 as u32)) by (bit_vector)
        requires
            r == ((b0 as u32) << 24) | ((b1 as u32) << 16) | ((b2 as u32) << 8) | (b3 as u32),
    ;
    r
}

/// Builds the record of type `tag` at `address` from `payload`.
fn record_from_parts(tag: u8, address: u16, payload: Vec<u8>) -> (r: Result<Record, ReaderError>)
    ensures
        result_view(r) == record_of(tag, address, payload@),
{
    let len = payload.len();
    if tag == types::DATA {
        Ok(Record::Data { offset: address, value: payload })
    } else if tag == types::END_OF_FILE {
        if len == 0 {
            Ok(Record::EndOfFile)
        } else {
            Err(ReaderError::InvalidLengthForType)
        }
    } else if tag == types::EXTENDED_SEGMENT_ADDRESS {
        if len == 2 {
            Ok(Record::ExtendedSegmentAddress(read_be16(payload[0], payload[1])))
        } else {
            Err(ReaderError::InvalidLengthForType)
        }
    } else if tag == types::START_SEGMENT_ADDRESS {
        if len == 4 {
            let cs = read_be16(payload[0], payload[1]);
            let ip = read_be16(payload[2], payload[3]);
            Ok(Record::StartSegmentAddress { cs, ip })
        } else {
            Err(ReaderError::InvalidLengthForType)
        }
    } else if tag == types::EXTENDED_LINEAR_ADDRESS {
        if len == 2 {
            Ok(Record::ExtendedLinearAddress(read_be16(payload[0], payload[1])))
        } else {
            Err(ReaderError::InvalidLengthForType)
        }
    } else if tag == types::START_LINEAR_ADDRESS {
        if len == 4 {
            Ok(
                Record::StartLinearAddress(
                    read_be32(payload[0], payload[1], payload[2], payload[3]),
                ),
            )
        } else {
            Err(ReaderError::InvalidLengthForType)
        }
    } else {
        Err(ReaderError::UnsupportedRecordType(tag))
    }
}

/// Checks the checksum and the byte count of the bytes of a line, then builds
/// its record.
fn record_from_bytes(bytes: Vec<u8>) -> (r: Result<Record, ReaderError>)
    requires
        bytes@.len() >= 5,
    ensures
        result_view(r) == record_of_bytes(bytes@),
{
    reveal(record_of_bytes);
    let ghost all = bytes@;
    let mut region = bytes;
    let expected = match region.pop() {
        Some(b) => b,
        None => 0,
    };
    assert(region@ == all.drop_last());
    let computed = checksum(region.as_slice());
    if computed != expected {
        return Err(ReaderError::ChecksumMismatch(computed, expected));
    }
    let length = region[0];
    let address = read_be16(region[1], region[2]);
    let tag = region[3];
    let payload = region.split_off(4);
    if payload.len() != length as usize {
        return Err(ReaderError::PayloadLengthMismatch);
    }
    record_from_parts(tag, address, payload)
}

/// Reads the record written on `line`.
fn record_from_chars(line: &Vec<char>) -> (r: Result<Record, ReaderError>)
    ensures
        result_view(r) == record_of_line(line@),
{
    if line.len() == 0 || line[0] != ':' {
        return Err(ReaderError::MissingStartCode);
    }
    let ghost digits = line@.drop_first();
    let n = line.len() - 1;
    // Every character is checked before the length, for the more accurate error.
    let mut i: usize = 1;
    while i < line.len()
        invariant
            1 <= i <= line@.len(),
            line@[0] == ':',
            digits == line@.drop_first(),
            forall|j: int| 0 <= j < i - 1 ==> #[trigger] is_hex_digit(digits[j]),
        decreases line@.len() - i,
    {
        if !is_hex_digit_char(line[i]) {
            assert(digits[i - 1] == line@[i as int]);
            assert(!is_hex_digit(digits[i - 1]));
            assert(!all_hex_digits(digits));
            return Err(ReaderError::ContainsInvalidCharacters);
        }
        assert(digits[i - 1] == line@[i as int]);
        i = i + 1;
    }
    assert(all_hex_digits(digits));
    if n < SMALLEST_RECORD_DIGITS {
        return Err(ReaderError::RecordTooShort);
    } else if n > LARGEST_RECORD_DIGITS {
        return Err(ReaderError::RecordTooLong);
    } else if n % 2 != 0 {
        return Err(ReaderError::RecordNotEvenLength);
    }
    let mut bytes: Vec<u8> = Vec::new();
    let mut k: usize = 0;
    while k < n / 2
        invariant
            n == digits.len(),
            n + 1 == line@.len(),
            line@[0] == ':',
            n <= LARGEST_RECORD_DIGITS,
            n % 2 == 0,
            k <= n / 2,
            digits == line@.drop_first(),
            all_hex_digits(digits),
            bytes@.len() == k,
            forall|j: int| 0 <= j < k ==> bytes@[j] == #[trigger] hex_pair_value(digits, j),
        decreases n / 2 - k,
    {
        assert(is_hex_digit(digits[2 * k as int]) && digits[2 * k as int] == line@[2 * k + 1]);
        assert(is_hex_digit(digits[2 * k + 1]) && digits[2 * k + 1] == line@[2 * k + 2]);
        let hi = digit_value(line[2 * k + 1]);
        let lo = digit_value(line[2 * k + 2]);
        bytes.push(hi * 16 + lo);
        k = k + 1;
    }
    assert(bytes@ =~= hex_pairs(digits));
    record_from_bytes(bytes)
}

impl Record {
    /// Constructs a new `Record` by parsing `string`.
    pub fn from_record_string(string: &str) -> (r: Result<Record, ReaderError>)
        ensures
            result_view(r) == record_of_line(string@),
    {
        let line = chars_of(string);
        record_from_chars(&line)
    }
}

impl std::str::FromStr for Record {
    type Err = ReaderError;

    fn from_str(input: &str) -> (r: Result<Record, ReaderError>)
        ensures
            result_view(r) == record_of_line(input@),
    {
        Record::from_record_string(input)
    }
}

/// When a [`Reader`] stops early.
#[derive(Copy, Clone, Eq, PartialEq, Structural, Hash, Debug)]
pub struct ReaderOptions {
    /// A flag indicating that iteration should stop on first failure.
    pub stop_after_first_error: bool,
    /// A flag indicating that iteration should stop on first EOF record encountered.
    pub stop_after_eof: bool,
}

impl Default for ReaderOptions {
    /// Stops at the first error and at the first End-Of-File record.
    fn default() -> (r: ReaderOptions)
        ensures
            r.stop_after_first_error,
            r.stop_after_eof,
    {
        ReaderOptions { stop_after_first_error: true, stop_after_eof: true }
    }
}

/// A line ending: lines may end in LF, CR LF or CR.
pub open spec fn is_line_break(c: char) -> bool {
    c == '\n' || c == '\r'
}

/// The index of the first character of `text` at or after `i` that is not a
/// line break, or the length of `text` if there is none: where the next
/// non-empty line starts.
pub open spec fn skip_line_breaks(text: Seq<char>, i: int) -> int
    decreases text.len() - i,
{
    if 0 <= i < text.len() && is_line_break(text[i]) {
        skip_line_breaks(text, i + 1)
    } else {
        i
    }
}

/// The index of the first line break of `text` at or after `i`, or the
/// length of `text` if there is none: where the line from `i` ends.
pub open spec fn line_end(text: Seq<char>, i: int) -> int
    decreases text.len() - i,
{
    if 0 <= i < text.len() && !is_line_break(text[i]) {
        line_end(text, i + 1)
    } else {
        i
    }
}

/// Whether a reader with `options` stops after yielding `result`.
pub open spec fn stops_after(options: ReaderOptions, result: Result<RecordView, ReaderError>) -> bool {
    (result is Err && options.stop_after_first_error) || (result == Ok::<RecordView, ReaderError>(
        RecordView::EndOfFile,
    ) && options.stop_after_eof)
}

/// The value of an item yielded by a reader.
pub open spec fn item_view(item: Option<Result<Record, ReaderError>>) -> Option<
    Result<RecordView, ReaderError>,
> {
    match item {
        Some(r) => Some(result_view(r)),
        None => None,
    }
}

/// Reads the records of an Intel HEX object one line at a time, skipping
/// empty lines.
pub struct Reader {
    /// The characters of the object.
    text: Vec<char>,
    /// Where the unread part of the object starts.
    position: usize,
    /// Reading may complete before the end of the object.
    finished: bool,
    /// Configuration options.
    options: ReaderOptions,
}

impl Reader {
    #[verifier::type_invariant]
    spec fn position_in_text(&self) -> bool {
        self.position <= self.text@.len()
    }

    /// The characters of the object being read.
    pub closed spec fn text(&self) -> Seq<char> {
        self.text@
    }

    /// Where the unread part of the object starts.
    pub closed spec fn position(&self) -> int {
        self.position as int
    }

    /// Whether the reader yields no more items.
    pub closed spec fn is_finished(&self) -> bool {
        self.finished
    }

    /// The options the reader was made with.
    pub closed spec fn options(&self) -> ReaderOptions {
        self.options
    }

    /// Creates a new IHEX reader over `string` with the specified
    /// configuration parameters. If `stop_after_first_error` is `true` then
    /// the first error will make all subsequent calls to `next()` return
    /// `None`. If `stop_after_eof` is `true` then the first EoF record will
    /// make all subsequent calls to `next()` return `None`.
    pub fn new_with_options(string: &str, options: ReaderOptions) -> (r: Reader)
        ensures
            r.text() == string@,
            r.position() == 0,
            !r.is_finished(),
            r.options() == options,
    {
        Reader { text: chars_of(string), position: 0, finished: false, options }
    }

    /// Creates a new IHEX reader over `string` with default configuration
    /// parameters: it stops at the first error and at the first End-Of-File
    /// record.
    pub fn new(string: &str) -> (r: Reader)
        ensures
            r.text() == string@,
            r.position() == 0,
            !r.is_finished(),
            r.options().stop_after_first_error,
            r.options().stop_after_eof,
    {
        Reader::new_with_options(string, ReaderOptions::default())
    }

    /// Finds the next non-empty line, from `position` on, and returns where
    /// it starts and ends; the start is the length of the text when no line
    /// is left. Does not look at the `finished` flag.
    fn next_record(&self) -> (r: (usize, usize))
        ensures
            r.0 == skip_line_breaks(self.text(), self.position()),
            r.0 < self.text().len() ==> r.1 == line_end(self.text(), r.0 as int),
            r.0 <= r.1 <= self.text().len(),
    {
        proof {
            use_type_invariant(self);
        }
        let len = self.text.len();
        let mut start = self.position;
        while start < len && (self.text[start] == '\n' || self.text[start] == '\r')
            invariant
                len == self.text@.len(),
                self.position <= start <= len,
                skip_line_breaks(self.text@, self.position as int) == skip_line_breaks(
                    self.text@,
                    start as int,
                ),
            decreases len - start,
        {
            start = start + 1;
        }
        let mut end = start;
        while end < len && self.text[end] != '\n' && self.text[end] != '\r'
            invariant
                len == self.text@.len(),
                start <= end <= len,
                line_end(self.text@, start as int) == line_end(self.text@, end as int),
            decreases len - end,
        {
            end = end + 1;
        }
        (start, end)
    }

    /// Reads the next non-empty line and returns the result of parsing it,
    /// or `None` when the reader is finished or no line is left.
    pub fn next(&mut self) -> (r: Option<Result<Record, ReaderError>>)
        ensures
            final(self).text() == old(self).text(),
            final(self).options() == old(self).options(),
            old(self).is_finished() ==> r is None && final(self).is_finished()
                && final(self).position() == old(self).position(),
            !old(self).is_finished() ==> {
                let text = old(self).text();
                let start = skip_line_breaks(text, old(self).position());
                if start >= text.len() {
                    &&& r is None
                    &&& final(self).is_finished()
                    &&& final(self).position() == text.len()
                } else {
                    let end = line_end(text, start);
                    let result = record_of_line(text.subrange(start, end));
                    &&& item_view(r) == Some(result)
                    &&& final(self).position() == end
                    &&& final(self).is_finished() == stops_after(old(self).options(), result)
                }
            },
    {
        proof {
            use_type_invariant(&*self);
        }
        if self.finished {
            return None;
        }
        let (start, end) = self.next_record();
        if start >= self.text.len() {
            self.position = start;
            self.finished = true;
            return None;
        }
        let mut line: Vec<char> = Vec::new();
        let mut i: usize = start;
        while i < end
            invariant
                start <= i <= end <= self.text@.len(),
                line@ == self.text@.subrange(start as int, i as int),
            decreases end - i,
        {
            line.push(self.text[i]);
            i = i + 1;
        }
        let result = record_from_chars(&line);
        self.position = end;
        if result.is_err() && self.options.stop_after_first_error {
            self.finished = true;
        }
        if let Ok(Record::EndOfFile) = result {
            if self.options.stop_after_eof {
                self.finished = true;
            }
        }
        Some(result)
    }
}

} // verus!
