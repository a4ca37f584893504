//! A growable byte buffer with independent read and write cursors.
//!
//! Bytes are appended at the write cursor, consumed from the read cursor, and
//! stay in place until the buffer is cleared. The abstract state of a buffer is
//! a [`BufferView`]: the written bytes and the position of the read cursor.
//!
//! Requests beyond the written bytes are handled in one of three ways, each
//! stated in the contract of the method: moving the read cursor stops at the
//! write cursor ([`Buffer::seek`]); asking for the last bytes answers `None`
//! ([`Buffer::last`], [`Buffer::last_n`]); asking for the first bytes is
//! only allowed within the written ones ([`Buffer::first`],
//! [`Buffer::first_n`]).
mod buffer;
mod impls;
mod view;

pub use buffer::{growth, Buffer, ALLOC_SIZE, INITIAL_SIZE, MAX_CAPACITY};
pub use view::{
    lemma_clear_then_writes, lemma_fresh_writes, lemma_last_bytes, lemma_seek_clamps,
    lemma_seeded_round_trip, lemma_writes_concatenate, lemma_writes_keep_prefix, BufferView,
};
