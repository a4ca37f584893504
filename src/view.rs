//! The abstract state of a buffer and the laws that its operations obey.
use vstd::prelude::*;

verus! {

/// What a buffer holds, seen from outside: the bytes written since the last
/// clear, and how many of them have been consumed.
pub struct BufferView {
    pub written: Seq<u8>,
    pub read: nat,
}

impl BufferView {
    /// The state of a buffer that was just made, or just cleared.
    pub open spec fn empty() -> BufferView {
        BufferView { written: Seq::empty(), read: 0 }
    }

    /// A buffer seeded with `bytes`, none of them consumed yet.
    pub open spec fn seeded(bytes: Seq<u8>) -> BufferView {
        BufferView { written: bytes, read: 0 }
    }

    /// The read cursor never passes the write cursor.
    pub open spec fn wf(self) -> bool {
        self.read <= self.written.len()
    }

    /// The write cursor.
    pub open spec fn len(self) -> nat {
        self.written.len()
    }

    /// The bytes written but not consumed yet.
    pub open spec fn unread(self) -> Seq<u8> {
        self.written.subrange(self.read as int, self.written.len() as int)
    }

    /// The state after `bytes` were written at the write cursor.
    pub open spec fn appended(self, bytes: Seq<u8>) -> BufferView {
        BufferView { written: self.written + bytes, read: self.read }
    }

    /// The state after the read cursor moved forward by `n`, stopping at the
    /// write cursor.
    pub open spec fn seeked(self, n: nat) -> BufferView {
        BufferView {
            written: self.written,
            read: if self.read + n <= self.written.len() {
                self.read + n
            } else {
                self.written.len()
            },
        }
    }

    /// The state after each of `chunks` was written in turn.
    pub open spec fn appended_all(self, chunks: Seq<Seq<u8>>) -> BufferView
        decreases chunks.len(),
    {
        if chunks.len() == 0 {
            self
        } else {
            self.appended(chunks[0]).appended_all(chunks.drop_first())
        }
    }

    /// The state after a clear: nothing written, nothing consumed.
    pub open spec fn cleared(self) -> BufferView {
        BufferView::empty()
    }

    /// The last `n` written bytes, where there are that many.
    pub open spec fn last_bytes(self, n: nat) -> Option<Seq<u8>> {
        if n <= self.len() {
            Some(self.written.subrange(self.len() - n, self.len() as int))
        } else {
            None
        }
    }

    /// The state after every unread byte was consumed.
    pub open spec fn drained(self) -> BufferView {
        BufferView { written: self.written, read: self.written.len() }
    }
}

/// Writes in turn add up: after writing each of `chunks`, the written bytes
/// are the old ones followed by all the chunks in order, the read cursor has
/// not moved, and the length has grown by the total size of the chunks.
pub proof fn lemma_writes_concatenate(v: BufferView, chunks: Seq<Seq<u8>>)
    ensures
        v.appended_all(chunks).written == v.written + chunks.flatten(),
        v.appended_all(chunks).read == v.read,
        v.appended_all(chunks).len() == v.len() + chunks.flatten().len(),
    decreases chunks.len(),
{
    if chunks.len() > 0 {
        lemma_writes_concatenate(v.appended(chunks[0]), chunks.drop_first());
        assert(v.written + chunks[0] + chunks.drop_first().flatten() =~= v.written + (chunks[0]
            + chunks.drop_first().flatten()));
    } else {
        assert(v.written + chunks.flatten() =~= v.written);
    }
}

/// Writing to a buffer that was just made gives exactly the bytes written:
/// their count is the total size of the chunks, and the written bytes are
/// the chunks one after another.
pub proof fn lemma_fresh_writes(chunks: Seq<Seq<u8>>)
    ensures
        BufferView::empty().appended_all(chunks).written == chunks.flatten(),
        BufferView::empty().appended_all(chunks).len() == chunks.flatten().len(),
{
    lemma_writes_concatenate(BufferView::empty(), chunks);
    assert(Seq::<u8>::empty() + chunks.flatten() =~= chunks.flatten());
}

/// Clearing forgets the past: whatever a buffer held, writes after a clear
/// leave it in the same state as the same writes on a new buffer.
pub proof fn lemma_clear_then_writes(v: BufferView, chunks: Seq<Seq<u8>>)
    ensures
        v.cleared().appended_all(chunks) == BufferView::empty().appended_all(chunks),
{
}

/// Seeking past the unread bytes stops at the write cursor.
pub proof fn lemma_seek_clamps(v: BufferView, n: nat)
    requires
        v.wf(),
        n > v.len() - v.read,
    ensures
        v.seeked(n).read == v.len(),
        v.seeked(n).unread() == Seq::<u8>::empty(),
        v.seeked(n).written == v.written,
{
    assert(v.seeked(n).unread() =~= Seq::<u8>::empty());
}

/// A buffer seeded with some bytes shows exactly them, both as its written
/// bytes and as its unread bytes.
pub proof fn lemma_seeded_round_trip(bytes: Seq<u8>)
    ensures
        BufferView::seeded(bytes).written == bytes,
        BufferView::seeded(bytes).unread() == bytes,
        BufferView::seeded(bytes).wf(),
{
    assert(BufferView::seeded(bytes).unread() =~= bytes);
}

/// Later writes never change bytes written earlier, however much the storage
/// had to grow to take them.
pub proof fn lemma_writes_keep_prefix(v: BufferView, chunks: Seq<Seq<u8>>)
    ensures
        v.appended_all(chunks).written.subrange(0, v.len() as int) == v.written,
        v.appended_all(chunks).len() >= v.len(),
{
    lemma_writes_concatenate(v, chunks);
    assert((v.written + chunks.flatten()).subrange(0, v.len() as int) =~= v.written);
}

/// Asking for more of the last written bytes than there are gives nothing,
/// and asking for none gives an empty sequence.
pub proof fn lemma_last_bytes(v: BufferView, n: nat)
    ensures
        v.last_bytes(n) is None <==> n > v.len(),
        v.last_bytes(0) == Some(Seq::<u8>::empty()),
{
    assert(v.written.subrange(v.len() as int, v.len() as int) =~= Seq::<u8>::empty());
}

} // verus!
