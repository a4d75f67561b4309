//! A streaming codec for JSON text sequences: JSON values framed inside a
//! byte stream by the ASCII record separator octet, each record followed by
//! a line feed on write.

use vstd::prelude::*;

mod json;
mod read;
mod records;
mod write;

pub use json::json_decoding;
pub use json::json_depth;
pub use json::json_encoding;
pub use read::classify_chunk;
pub use read::lemma_reader_from_spec;
pub use read::JsonSeqReader;
pub use read::ReadStep;
pub use records::after_first_record;
pub use records::find_rs;
pub use records::frame_all;
pub use records::framed;
pub use records::lemma_records_of_split;
pub use records::lemma_records_wf;
pub use records::lemma_separators_only;
pub use records::lemma_unterminated_tail;
pub use records::lemma_round_trip;
pub use records::records_of;
pub use records::rs_free;
pub use records::LF;
pub use records::RS;
pub use write::lemma_json_round_trip;
pub use write::lemma_value_round_trip;
pub use write::lemma_writer_from_spec;
pub use write::JsonSeqWriter;

verus! {

#[verifier::external_type_specification]
#[verifier::external_body]
pub struct ExIoError(std::io::Error);

/// An error when reading or writing a JSON text sequence.
#[derive(Debug)]
pub enum CodecError {
    /// An underlying I/O failure of the wrapped stream.
    IOError(std::io::Error),
    /// A record's bytes are not valid JSON, or a value could not be encoded.
    JsonError(serde_json::Error),
    /// A record's bytes are not valid UTF-8 text.
    Utf8Error,
}

} // verus!
