use vstd::prelude::*;

use crate::buffer::{Buffer, WriteError};
use crate::field::{read_flagged, read_flagged_value};
use crate::read::Cursor;
use crate::types::boolean::lemma_bool_roundtrip;

verus! {

impl<T: Buffer> Buffer for Option<T> {
    /// A `bool` flag, then the value when the flag is set.
    ///
    /// A cleared flag reads as an absent value; a set flag followed by a value
    /// that does not read, or a flag byte other than 0 or 1, fails the read.
    open spec fn spec_read(s: Seq<u8>) -> (Option<Option<<T as DeepView>::V>>, nat) {
        read_flagged(s, T::spec_read(s.skip(<bool as Buffer>::spec_read(s).1 as int)))
    }

    /// `1` and the value, or `0` alone.
    open spec fn spec_write(v: Option<<T as DeepView>::V>) -> (Seq<u8>, bool) {
        match v {
            Some(x) => (seq![1u8] + T::spec_write(x).0, T::spec_write(x).1),
            None => (seq![0u8], true),
        }
    }

    fn read_buf(buffer: &mut Cursor) -> (res: Option<Option<T>>) {
        read_flagged_value::<T>(buffer)
    }

    fn write_buf(&self, buffer: &mut Vec<u8>) -> (res: Result<(), WriteError>) {
        match self {
            Some(s) => {
                let _ = true.write_buf(buffer);
                let r = s.write_buf(buffer);
                assert(buffer@ =~= old(buffer)@ + (seq![1u8] + T::spec_write(s.deep_view()).0));
                r
            },
            None => false.write_buf(buffer),
        }
    }
}

/// An optional value that is written reads back as itself, consuming exactly
/// the bytes written, when a present value reads back as written.
pub proof fn lemma_option_roundtrip<T: Buffer>(o: Option<<T as DeepView>::V>, t: Seq<u8>)
    requires
        o matches Some(x) ==> T::spec_write(x).1 && T::spec_read(T::spec_write(x).0 + t) == (
            Some(x),
            T::spec_write(x).0.len(),
        ),
    ensures
        <Option<T> as Buffer>::spec_read(<Option<T> as Buffer>::spec_write(o).0 + t) == (
            Some(o),
            <Option<T> as Buffer>::spec_write(o).0.len(),
        ),
{
    match o {
        Some(x) => {
            let b = T::spec_write(x).0;
            let s = seq![1u8] + b + t;
            lemma_bool_roundtrip(true, b + t);
            assert(s =~= <bool as Buffer>::spec_write(true).0 + (b + t));
            assert(s.skip(1) =~= b + t);
            assert(<Option<T> as Buffer>::spec_write(o).0 + t =~= s);
        },
        None => {
            lemma_bool_roundtrip(false, t);
            assert(seq![0u8] + t =~= <bool as Buffer>::spec_write(false).0 + t);
        },
    }
}

} // verus!
