use vstd::prelude::*;

use crate::read::Cursor;

verus! {

/// Why a value could not be written.
#[derive(Debug, Clone, Copy, PartialEq, Eq, Structural)]
pub enum WriteError {
    /// A string's UTF-8 form is longer than 32767 bytes.
    StringTooLong,
}

/// A type with a wire form.
///
/// `spec_read` gives what reading from a byte sequence yields (`None` when the
/// data is malformed or ends early) and how many bytes the cursor moves past,
/// failure included. `spec_write` gives the bytes written for a value and
/// whether the write succeeded; a failed write may leave a prefix behind.
pub trait Buffer: Sized + DeepView {
    /// What reading from `s` yields, and how far the cursor moves.
    spec fn spec_read(s: Seq<u8>) -> (Option<<Self as DeepView>::V>, nat);

    /// The bytes written for `v`, and whether the write succeeds.
    spec fn spec_write(v: <Self as DeepView>::V) -> (Seq<u8>, bool);

    /// Reads a value at the cursor.
    fn read_buf(buffer: &mut Cursor) -> (res: Option<Self>)
        ensures
            final(buffer).data() == old(buffer).data(),
            final(buffer).pos() == old(buffer).pos() + Self::spec_read(old(buffer).rest()).1,
            final(buffer).rest() == old(buffer).rest().skip(
                Self::spec_read(old(buffer).rest()).1 as int,
            ),
            match Self::spec_read(old(buffer).rest()).0 {
                Some(v) => res matches Some(r) && r.deep_view() == v,
                None => res is None,
            },
    ;

    /// Appends the value's wire form.
    fn write_buf(&self, buffer: &mut Vec<u8>) -> (res: Result<(), WriteError>)
        ensures
            final(buffer)@ == old(buffer)@ + Self::spec_write(self.deep_view()).0,
            res is Ok <==> Self::spec_write(self.deep_view()).1,
    ;
}

/// Appends `bytes` to `buffer`.
pub fn extend_bytes(buffer: &mut Vec<u8>, bytes: &[u8])
    ensures
        final(buffer)@ == old(buffer)@ + bytes@,
{
    buffer.extend_from_slice(bytes);
    assert(buffer@ =~= old(buffer)@ + bytes@);
}

} // verus!
