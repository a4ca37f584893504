//! The buffer: a zero-padded byte store with a read and a write cursor.
use vstd::prelude::*;

use vstd::slice::{slice_subrange, SliceAdditionalExecFns};

use crate::view::BufferView;

verus! {

/// The capacity of a buffer made by [`Buffer::new`], in bytes.
pub const INITIAL_SIZE: usize = 8192;

/// The quantum by which storage grows when a write does not fit.
pub const ALLOC_SIZE: usize = 2048;

/// The largest capacity a buffer may reach: the largest length a `usize`
/// holds.
pub const MAX_CAPACITY: usize = usize::MAX;

/// How many bytes the storage grows by to take `additional` more: one
/// quantum, or the smallest multiple of the quantum that covers `additional`.
pub open spec fn growth(additional: nat) -> nat {
    if additional <= ALLOC_SIZE {
        ALLOC_SIZE as nat
    } else if additional % (ALLOC_SIZE as nat) == 0 {
        additional
    } else {
        (additional - additional % (ALLOC_SIZE as nat) + ALLOC_SIZE) as nat
    }
}

/// A byte store with a read marker and a write marker.
///
/// The storage is a vector whose length is the capacity, zero-filled where
/// it was allocated; the
/// bytes before the write marker are the written ones, and the bytes from the
/// read marker to the write marker are the unread ones. When a write does not
/// fit, the storage grows by whole quanta of [`ALLOC_SIZE`] zero bytes.
#[derive(Debug)]
pub struct Buffer {
    data: Vec<u8>,
    read: usize,
    write: usize,
}

impl View for Buffer {
    type V = BufferView;

    closed spec fn view(&self) -> BufferView {
        BufferView {
            written: self.data@.subrange(0, self.write as int),
            read: self.read as nat,
        }
    }
}

impl Clone for Buffer {
    /// A deep copy: its own storage, and the same cursors.
    fn clone(&self) -> (r: Self)
        ensures
            self.wf() ==> r.wf(),
            r@ == self@,
            r.allocated() == self.allocated(),
    {
        let data = self.data.clone();
        assert(data@ =~= self.data@);
        Buffer { data, read: self.read, write: self.write }
    }
}

impl Buffer {
    /// The cursors are in order and within the storage.
    pub closed spec fn wf(&self) -> bool {
        &&& self.read <= self.write
        &&& self.write <= self.data.len()
    }

    /// The number of bytes the storage holds before it has to grow.
    pub closed spec fn allocated(&self) -> nat {
        self.data.len() as nat
    }

    /// The whole storage, written bytes and padding alike.
    pub closed spec fn storage(&self) -> Seq<u8> {
        self.data@
    }

    /// Whether every stored byte from the write marker up to the capacity is
    /// zero.
    pub open spec fn zero_padded(&self) -> bool {
        forall|i: int| self@.len() <= i < self.allocated() ==> #[trigger] self.storage()[i] == 0
    }

    /// Whether `additional` more bytes can be written: they fit in the
    /// storage as it is, or the storage can grow to take them.
    pub open spec fn fits(&self, additional: nat) -> bool {
        self@.len() + additional <= self.allocated() || self.allocated() + growth(additional)
            <= MAX_CAPACITY
    }

    /// The capacity after `additional` more bytes were written: unchanged
    /// where they fit, else grown by [`growth`]`(additional)`.
    pub open spec fn grown(&self, additional: nat) -> nat {
        if self@.len() + additional <= self.allocated() {
            self.allocated()
        } else {
            self.allocated() + growth(additional)
        }
    }

    /// What a well-formed buffer shows of itself is well formed too.
    pub proof fn lemma_wf(&self)
        requires
            self.wf(),
        ensures
            self@.wf(),
            self@.len() <= self.allocated() <= MAX_CAPACITY,
    {
    }

    /// An empty buffer of [`INITIAL_SIZE`] zero bytes.
    pub fn new() -> (r: Self)
        ensures
            r.wf(),
            r@ == BufferView::empty(),
            r.allocated() == INITIAL_SIZE,
            r.zero_padded(),
    {
        let r = Buffer { data: vec![0u8; INITIAL_SIZE], read: 0, write: 0 };
        assert(r@.written =~= Seq::<u8>::empty());
        r
    }

    /// An empty buffer whose storage holds `capacity` zero bytes.
    pub fn with_capacity(capacity: usize) -> (r: Self)
        ensures
            r.wf(),
            r@ == BufferView::empty(),
            r.allocated() == capacity,
            r.zero_padded(),
    {
        let r = Buffer { data: vec![0u8; capacity], read: 0, write: 0 };
        assert(r@.written =~= Seq::<u8>::empty());
        r
    }

    /// The number of bytes the storage holds before it has to grow.
    pub fn capacity(&self) -> (r: usize)
        requires
            self.wf(),
        ensures
            r == self.allocated(),
            r <= MAX_CAPACITY,
            self@.len() <= r,
    {
        self.data.len()
    }

    /// Makes room for `dlen` more bytes at the write marker. Where they do not
    /// fit, the storage grows by [`growth`]`(dlen)` zero bytes.
    fn check_allocation(&mut self, dlen: usize)
        requires
            old(self).wf(),
            old(self).fits(dlen as nat),
        ensures
            final(self).wf(),
            final(self)@ == old(self)@,
            final(self)@.len() + dlen <= final(self).allocated(),
            final(self).allocated() == old(self).grown(dlen as nat),
            final(self).storage().subrange(0, old(self).allocated() as int) == old(self).storage(),
            forall|i: int|
                old(self).allocated() <= i < final(self).allocated() ==> #[trigger] final(self).storage()[i]
                    == 0,
    {
        if self.data.len() - self.write < dlen {
            let nalloc: usize = if dlen <= ALLOC_SIZE {
                ALLOC_SIZE
            } else if dlen % ALLOC_SIZE == 0 {
                dlen
            } else {
                dlen - dlen % ALLOC_SIZE + ALLOC_SIZE
            };
            let zeros: Vec<u8> = vec![0u8; nalloc];
            let ghost before = self.data@;
            self.data.extend_from_slice(zeros.as_slice());
            assert(self.data@.subrange(0, self.write as int) =~= before.subrange(0, self.write as int));
            assert(self.data@.subrange(0, before.len() as int) =~= before);
        }
    }

    /// Writes one byte at the write marker and moves the marker past it.
    pub fn push(&mut self, b: u8)
        requires
            old(self).wf(),
            old(self).fits(1),
        ensures
            final(self).wf(),
            final(self)@ == old(self)@.appended(seq![b]),
            final(self).allocated() == old(self).grown(1),
            old(self).zero_padded() ==> final(self).zero_padded(),
    {
        let ghost old_storage = self.data@;
        let ghost old_cap = self.allocated();
        self.check_allocation(1);
        let ghost before = self@;
        let ghost grown = self.data@;
        assert(forall|i: int| 0 <= i < old_cap ==> grown[i] == old_storage[i]) by {
            assert forall|i: int| 0 <= i < old_cap implies grown[i] == old_storage[i] by {
                assert(grown.subrange(0, old_cap as int)[i] == old_storage[i]);
            }
        }
        self.data.set(self.write, b);
        self.write = self.write + 1;
        assert(self@.written =~= before.written + seq![b]);
    }

    /// Writes `data` at the write marker and moves the marker past it.
    pub fn append(&mut self, data: &[u8])
        requires
            old(self).wf(),
            old(self).fits(data@.len()),
        ensures
            final(self).wf(),
            final(self)@ == old(self)@.appended(data@),
            final(self).allocated() == old(self).grown(data@.len()),
            old(self).zero_padded() ==> final(self).zero_padded(),
    {
        let ghost old_storage = self.data@;
        let ghost old_cap = self.allocated();
        self.check_allocation(data.len());
        let ghost before = self@;
        let ghost cap = self.allocated();
        let ghost grown = self.data@;
        assert(forall|i: int| 0 <= i < old_cap ==> grown[i] == old_storage[i]) by {
            assert forall|i: int| 0 <= i < old_cap implies grown[i] == old_storage[i] by {
                assert(grown.subrange(0, old_cap as int)[i] == old_storage[i]);
            }
        }
        let start = self.write;
        let mut i: usize = 0;
        while i < data.len()
            invariant
                self.wf(),
                self.read == before.read,
                self.write == start,
                self.allocated() == cap,
                start + data@.len() <= self.data@.len(),
                i <= data@.len(),
                self.data@.subrange(0, start as int) == before.written,
                forall|k: int| 0 <= k < i ==> #[trigger] self.data@[start + k] == data@[k],
                forall|k: int|
                    start + data@.len() <= k < cap ==> #[trigger] self.data@[k] == grown[k],
            decreases data@.len() - i,
        {
            self.data.set(start + i, data[i]);
            i = i + 1;
            assert(self.data@.subrange(0, start as int) =~= before.written);
        }
        self.write = start + data.len();
        assert(self@.written =~= before.written + data@) by {
            assert forall|k: int| 0 <= k < self.write implies #[trigger] self@.written[k] == (
            before.written + data@)[k] by {
                if k >= start {
                    assert(self.data@[start + (k - start)] == data@[k - start]);
                } else {
                    assert(self.data@.subrange(0, start as int)[k] == before.written[k]);
                }
            }
        }
    }

    /// Moves the read marker forward by `n`, stopping at the write marker.
    pub fn seek(&mut self, n: usize)
        requires
            old(self).wf(),
        ensures
            final(self).wf(),
            final(self)@ == old(self)@.seeked(n as nat),
            final(self).allocated() == old(self).allocated(),
    {
        if n >= self.write - self.read {
            self.read = self.write;
        } else {
            self.read = self.read + n;
        }
    }

    /// Resets both markers to the start. The storage keeps its capacity.
    pub fn clear(&mut self)
        requires
            old(self).wf(),
        ensures
            final(self).wf(),
            final(self)@ == old(self)@.cleared(),
            final(self).allocated() == old(self).allocated(),
    {
        self.read = 0;
        self.write = 0;
        assert(self@.written =~= Seq::<u8>::empty());
    }

    /// The write marker: how many bytes were written since the last clear,
    /// consumed or not.
    pub fn len(&self) -> (r: usize)
        requires
            self.wf(),
        ensures
            r == self@.len(),
    {
        self.write
    }

    /// Whether nothing was written since the last clear.
    pub fn is_empty(&self) -> (r: bool)
        requires
            self.wf(),
        ensures
            r == (self@.len() == 0),
    {
        self.write == 0
    }

    /// The first written byte.
    pub fn first(&self) -> (r: u8)
        requires
            self.wf(),
            self@.len() > 0,
        ensures
            r == self@.written[0],
    {
        self.data[0]
    }

    /// The first `n` written bytes.
    pub fn first_n(&self, n: usize) -> (r: &[u8])
        requires
            self.wf(),
            n <= self@.len(),
        ensures
            r@ == self@.written.subrange(0, n as int),
    {
        let r = slice_subrange(self.data.as_slice(), 0, n);
        assert(r@ =~= self@.written.subrange(0, n as int));
        r
    }

    /// The last written byte, or `None` when nothing was written.
    pub fn last(&self) -> (r: Option<u8>)
        requires
            self.wf(),
        ensures
            r == if self@.len() == 0 {
                None
            } else {
                Some(self@.written.last())
            },
    {
        if self.is_empty() {
            None
        } else {
            Some(self.data[self.write - 1])
        }
    }

    /// The last `n` written bytes, or `None` when fewer than `n` were written.
    pub fn last_n(&self, n: usize) -> (r: Option<&[u8]>)
        requires
            self.wf(),
        ensures
            n > self@.len() <==> r is None,
            r matches Some(s) ==> self@.last_bytes(n as nat) == Some(s@),
    {
        if n > self.write {
            None
        } else {
            let s = slice_subrange(self.data.as_slice(), self.write - n, self.write);
            assert(s@ =~= self@.written.subrange(self@.len() - n, self@.len() as int));
            Some(s)
        }
    }

    /// A buffer whose written bytes are a copy of `src`, none of them
    /// consumed, in storage of [`INITIAL_SIZE`] bytes or of `src`'s length,
    /// whichever is larger.
    pub fn from_slice_int(src: &[u8]) -> (r: Self)
        ensures
            r.wf(),
            r@ == BufferView::seeded(src@),
            r.allocated() == if src@.len() < INITIAL_SIZE {
                INITIAL_SIZE as nat
            } else {
                src@.len()
            },
            r.zero_padded(),
    {
        let len = if src.len() < INITIAL_SIZE {
            INITIAL_SIZE
        } else {
            src.len()
        };
        let mut r = Buffer::with_capacity(len);
        r.append(src);
        r
    }

    /// All written bytes, consumed or not.
    pub fn as_slice(&self) -> (r: &[u8])
        requires
            self.wf(),
        ensures
            r@ == self@.written,
    {
        let r = slice_subrange(self.data.as_slice(), 0, self.write);
        assert(r@ =~= self@.written);
        r
    }

    /// The unread bytes: from the read marker to the write marker.
    pub fn as_ref(&self) -> (r: &[u8])
        requires
            self.wf(),
        ensures
            r@ == self@.unread(),
    {
        let r = slice_subrange(self.data.as_slice(), self.read, self.write);
        assert(r@ =~= self@.unread());
        r
    }

    /// Whether the cursors are in order and within the storage.
    pub fn is_well_formed(&self) -> (r: bool)
        ensures
            r == self.wf(),
    {
        self.read <= self.write && self.write <= self.data.len()
    }

    /// Whether `additional` more bytes can be written.
    pub fn can_take(&self, additional: usize) -> (r: bool)
        requires
            self.wf(),
        ensures
            r == self.fits(additional as nat),
    {
        let cap = self.data.len();
        if additional <= cap - self.write {
            return true;
        }
        let room = MAX_CAPACITY - cap;
        if additional <= ALLOC_SIZE {
            ALLOC_SIZE <= room
        } else if additional % ALLOC_SIZE == 0 {
            additional <= room
        } else {
            let whole = additional - additional % ALLOC_SIZE;
            whole <= room && ALLOC_SIZE <= room - whole
        }
    }

    /// Whether the buffer is well formed and its unread bytes are `other`.
    pub fn unread_eq(&self, other: &[u8]) -> (r: bool)
        ensures
            r == (self.wf() && self@.unread() == other@),
    {
        if !self.is_well_formed() {
            return false;
        }
        if self.write - self.read != other.len() {
            assert(self@.unread().len() != other@.len());
            return false;
        }
        let mut i: usize = 0;
        while i < other.len()
            invariant
                self.wf(),
                self.write - self.read == other@.len(),
                i <= other@.len(),
                forall|k: int| 0 <= k < i ==> #[trigger] self@.unread()[k] == other@[k],
            decreases other@.len() - i,
        {
            if self.data[self.read + i] != other[i] {
                assert(self@.unread()[i as int] != other@[i as int]);
                return false;
            }
            i = i + 1;
        }
        assert(self@.unread() =~= other@);
        true
    }

    /// Hands the unread bytes to `sink`, which takes them all, and marks
    /// them consumed. Returns how many bytes were handed over.
    pub fn drain_into(&mut self, sink: &mut Vec<u8>) -> (r: usize)
        requires
            old(self).wf(),
        ensures
            final(self).wf(),
            final(self)@ == old(self)@.drained(),
            final(self).allocated() == old(self).allocated(),
            final(sink)@ == old(sink)@ + old(self)@.unread(),
            r == old(self)@.unread().len(),
    {
        sink.extend_from_slice(self.as_ref());
        self.consume_all()
    }

    /// Marks every unread byte consumed, as after the unread bytes were
    /// written out in full. Returns how many there were.
    pub fn consume_all(&mut self) -> (r: usize)
        requires
            old(self).wf(),
        ensures
            final(self).wf(),
            final(self)@ == old(self)@.drained(),
            final(self).allocated() == old(self).allocated(),
            r == old(self)@.unread().len(),
    {
        let n = self.write - self.read;
        self.read = self.write;
        n
    }

    /// How many bytes fit after the write marker before the storage has to
    /// grow.
    pub fn spare_capacity(&self) -> (r: usize)
        requires
            self.wf(),
        ensures
            r == self.allocated() - self@.len(),
    {
        self.data.len() - self.write
    }

    /// Takes bytes that a source delivered into the spare capacity after the
    /// write marker, without growing: as many of `chunk` as fit. Returns how
    /// many were taken.
    pub fn fill_from(&mut self, chunk: &[u8]) -> (r: usize)
        requires
            old(self).wf(),
        ensures
            final(self).wf(),
            r == if chunk@.len() <= old(self).allocated() - old(self)@.len() {
                chunk@.len()
            } else {
                (old(self).allocated() - old(self)@.len()) as nat
            },
            final(self)@ == old(self)@.appended(chunk@.subrange(0, r as int)),
            final(self).allocated() == old(self).allocated(),
    {
        let spare = self.data.len() - self.write;
        let n = if chunk.len() <= spare {
            chunk.len()
        } else {
            spare
        };
        let taken = slice_subrange(chunk, 0, n);
        self.append(taken);
        n
    }

    /// Copies unread bytes into `out`, as many as fit, and marks them
    /// consumed. Returns how many were copied.
    pub fn read_into(&mut self, out: &mut [u8]) -> (r: usize)
        requires
            old(self).wf(),
        ensures
            final(self).wf(),
            r == if old(self)@.unread().len() <= old(out)@.len() {
                old(self)@.unread().len()
            } else {
                old(out)@.len()
            },
            final(self)@ == old(self)@.seeked(r as nat),
            final(self).allocated() == old(self).allocated(),
            final(out)@ == old(self)@.unread().subrange(0, r as int) + old(out)@.subrange(
                r as int,
                old(out)@.len() as int,
            ),
    {
        let avail = self.write - self.read;
        let n = if avail <= out.len() {
            avail
        } else {
            out.len()
        };
        let ghost unread = self@.unread();
        let ghost before = out@;
        let mut i: usize = 0;
        while i < n
            invariant
                self.wf(),
                self@.unread() == unread,
                n <= unread.len(),
                n <= out@.len(),
                out@.len() == before.len(),
                i <= n,
                forall|k: int| 0 <= k < i ==> #[trigger] out@[k] == unread[k],
                forall|k: int| n <= k < out@.len() ==> #[trigger] out@[k] == before[k],
            decreases n - i,
        {
            out.set(i, self.data[self.read + i]);
            i = i + 1;
        }
        assert(out@ =~= unread.subrange(0, n as int) + before.subrange(n as int, before.len() as int));
        self.seek(n);
        n
    }
}

} // verus!
