//! Parsing and generation of Intel HEX (IHEX) objects.
//!
//! An Intel HEX object is a line-oriented text encoding of binary data, used
//! to load compiled program code and data into microcontrollers, flash memory
//! or ROM. Each line is a checksummed record of one of six kinds.
//!
//! Every function states what it returns over the spec functions exported
//! here: [`record_of_line`] is what reading a line gives, [`record_line`] what
//! writing a record gives, [`object_file_of`] what writing an object gives.
//! [`lemma_round_trip`] proves that reading a written record gives it back.

mod checksum;
mod hex;
mod reader;
mod record;
pub mod types;
mod writer;

pub use checksum::{byte_sum, checksum, checksum_of, lemma_checksum_closes_sum};
pub use hex::{
    all_hex_digits, hex_digit_char, hex_digit_value, hex_pair_value, hex_pairs, hex_string,
    is_hex_digit,
};
pub use reader::{
    is_line_break, item_view, lemma_invalid_characters_reported_before_length, line_end,
    record_of, record_of_bytes, record_of_line, result_view, skip_line_breaks, stops_after,
    Reader, ReaderError, ReaderOptions, LARGEST_RECORD_DIGITS, SMALLEST_RECORD_DIGITS,
};
pub use record::{
    address_of, be16, be32, bytes_of_u16, bytes_of_u32, payload_of, type_of, Record, RecordView,
};
pub use writer::{
    create_object_file_representation, eof_count, frame_of, lemma_round_trip, line_of,
    object_file_of, object_lines, record_line, text_view, views_of, WriterError,
    MAXIMUM_PAYLOAD_LENGTH,
};
