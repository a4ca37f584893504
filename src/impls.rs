//! std's traits on [`Buffer`]: equality against bytes, conversions from
//! bytes, the default value, and the blocking byte-stream traits.
use vstd::prelude::*;

use crate::buffer::{Buffer, INITIAL_SIZE};
use crate::view::BufferView;

verus! {

impl Default for Buffer {
    /// The same as [`Buffer::new`].
    fn default() -> (r: Self)
        ensures
            r.wf(),
            r@ == BufferView::empty(),
            r.allocated() == INITIAL_SIZE,
            r.zero_padded(),
    {
        Buffer::new()
    }
}

impl PartialEq for Buffer {
    /// Two buffers are equal when their unread bytes are.
    fn eq(&self, other: &Buffer) -> (r: bool) {
        if other.is_well_formed() {
            self.unread_eq(other.as_ref())
        } else {
            false
        }
    }
}

impl vstd::std_specs::cmp::PartialEqSpecImpl for Buffer {
    open spec fn obeys_eq_spec() -> bool {
        true
    }

    open spec fn eq_spec(&self, other: &Buffer) -> bool {
        self.wf() && other.wf() && self@.unread() == other@.unread()
    }
}

impl Eq for Buffer {

}

impl PartialEq<[u8]> for Buffer {
    /// A buffer equals a byte slice when its unread bytes are that slice.
    fn eq(&self, other: &[u8]) -> (r: bool) {
        self.unread_eq(other)
    }
}

impl vstd::std_specs::cmp::PartialEqSpecImpl<[u8]> for Buffer {
    open spec fn obeys_eq_spec() -> bool {
        true
    }

    open spec fn eq_spec(&self, other: &[u8]) -> bool {
        self.wf() && self@.unread() == other@
    }
}

impl<const N: usize> PartialEq<[u8; N]> for Buffer {
    /// A buffer equals a byte array when its unread bytes are that array.
    fn eq(&self, other: &[u8; N]) -> (r: bool) {
        self.unread_eq(other.as_slice())
    }
}

impl<const N: usize> vstd::std_specs::cmp::PartialEqSpecImpl<[u8; N]> for Buffer {
    open spec fn obeys_eq_spec() -> bool {
        true
    }

    open spec fn eq_spec(&self, other: &[u8; N]) -> bool {
        self.wf() && self@.unread() == other@
    }
}

impl PartialEq<Vec<u8>> for Buffer {
    /// A buffer equals a byte vector when its unread bytes are that vector.
    fn eq(&self, other: &Vec<u8>) -> (r: bool) {
        self.unread_eq(other.as_slice())
    }
}

impl vstd::std_specs::cmp::PartialEqSpecImpl<Vec<u8>> for Buffer {
    open spec fn obeys_eq_spec() -> bool {
        true
    }

    open spec fn eq_spec(&self, other: &Vec<u8>) -> bool {
        self.wf() && self@.unread() == other@
    }
}

impl From<&[u8]> for Buffer {
    /// A buffer whose written bytes are a copy of `value`.
    fn from(value: &[u8]) -> (r: Buffer)
        ensures
            r.wf(),
            r@ == BufferView::seeded(value@),
            r.allocated() == if value@.len() < INITIAL_SIZE {
                INITIAL_SIZE as nat
            } else {
                value@.len()
            },
            r.zero_padded(),
    {
        Buffer::from_slice_int(value)
    }
}

impl vstd::std_specs::convert::FromSpecImpl<&[u8]> for Buffer {
    open spec fn obeys_from_spec() -> bool {
        false
    }

    open spec fn from_spec(v: &[u8]) -> Buffer {
        arbitrary()
    }
}

impl<const N: usize> From<[u8; N]> for Buffer {
    /// A buffer whose written bytes are a copy of `value`.
    fn from(value: [u8; N]) -> (r: Buffer)
        ensures
            r.wf(),
            r@ == BufferView::seeded(value@),
            r.allocated() == if value@.len() < INITIAL_SIZE {
                INITIAL_SIZE as nat
            } else {
                value@.len()
            },
            r.zero_padded(),
    {
        Buffer::from_slice_int(value.as_slice())
    }
}

impl<const N: usize> vstd::std_specs::convert::FromSpecImpl<[u8; N]> for Buffer {
    open spec fn obeys_from_spec() -> bool {
        false
    }

    open spec fn from_spec(v: [u8; N]) -> Buffer {
        arbitrary()
    }
}

impl From<Vec<u8>> for Buffer {
    /// A buffer whose written bytes are a copy of `value`.
    fn from(value: Vec<u8>) -> (r: Buffer)
        ensures
            r.wf(),
            r@ == BufferView::seeded(value@),
            r.allocated() == if value@.len() < INITIAL_SIZE {
                INITIAL_SIZE as nat
            } else {
                value@.len()
            },
            r.zero_padded(),
    {
        Buffer::from_slice_int(value.as_slice())
    }
}

impl vstd::std_specs::convert::FromSpecImpl<Vec<u8>> for Buffer {
    open spec fn obeys_from_spec() -> bool {
        false
    }

    open spec fn from_spec(v: Vec<u8>) -> Buffer {
        arbitrary()
    }
}

/// `std::io::Error`, carried through the results of the byte-stream traits.
#[verifier::external_type_specification]
#[verifier::external_body]
pub struct ExIoError(std::io::Error);

impl std::io::Write for Buffer {
    /// Appends all of `data` and reports its length. Where the storage
    /// cannot grow to take it, nothing is written and the count is zero.
    fn write(&mut self, data: &[u8]) -> (r: std::io::Result<usize>)
        ensures
            old(self).wf() && old(self).fits(data@.len()) ==> {
                &&& final(self).wf()
                &&& final(self)@ == old(self)@.appended(data@)
                &&& final(self).allocated() == old(self).grown(data@.len())
                &&& r == Ok::<usize, std::io::Error>(data@.len() as usize)
            },
            !(old(self).wf() && old(self).fits(data@.len())) ==> {
                &&& *final(self) == *old(self)
                &&& r == Ok::<usize, std::io::Error>(0)
            },
    {
        if self.is_well_formed() && self.can_take(data.len()) {
            self.append(data);
            Ok(data.len())
        } else {
            Ok(0)
        }
    }

    /// Nothing is held back: a no-op.
    fn flush(&mut self) -> (r: std::io::Result<()>)
        ensures
            r is Ok,
            *final(self) == *old(self),
    {
        Ok(())
    }
}

impl std::io::Read for Buffer {
    /// Copies unread bytes into `out`, as many as fit, and marks them
    /// consumed; see [`Buffer::read_into`].
    fn read(&mut self, out: &mut [u8]) -> (r: std::io::Result<usize>)
        ensures
            old(self).wf() ==> {
                let n = if old(self)@.unread().len() <= old(out)@.len() {
                    old(self)@.unread().len()
                } else {
                    old(out)@.len()
                };
                &&& final(self).wf()
                &&& r == Ok::<usize, std::io::Error>(n as usize)
                &&& final(self)@ == old(self)@.seeked(n)
                &&& final(out)@ == old(self)@.unread().subrange(0, n as int) + old(out)@.subrange(
                    n as int,
                    old(out)@.len() as int,
                )
            },
            !old(self).wf() ==> r == Ok::<usize, std::io::Error>(0),
    {
        if self.is_well_formed() {
            Ok(self.read_into(out))
        } else {
            Ok(0)
        }
    }
}

} // verus!
