//! Streaming reader over the members of an archive container.
//!
//! The decoding engine hands over each member as a header (raw name bytes and
//! kind) and a content stream. This crate walks those members one at a time,
//! lets a caller decode names with a pluggable decoder, and reads content
//! either whole or in blocks of a configured size, each member at most once.

mod archive;
mod blocks;
mod engine;
mod entry;
mod error;
mod names;

pub use archive::{
    Archive, DEFAULT_BLOCK_SIZE, Source, find_path, lemma_absent_path_not_found, names_of,
};
pub use blocks::{BlockReader, blocks_of, concat_blocks, first_block_len, lemma_blocks_concat, lemma_blocks_split};
pub use engine::{EntryKind, RawEntry, lemma_directory_reads_empty, lemma_empty_file_reads_nothing};
pub use entry::{Entry, lemma_entry_directory_reads_empty, name_result};
pub use error::Error;
pub use names::{NameDecoder, Utf8Names};
