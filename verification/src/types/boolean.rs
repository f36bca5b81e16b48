use vstd::prelude::*;

use crate::buffer::{Buffer, WriteError};
use crate::read::{Cursor, spec_read_exact};

verus! {

impl Buffer for bool {
    /// One byte: 0 is `false`, 1 is `true`, anything else is refused.
    open spec fn spec_read(s: Seq<u8>) -> (Option<bool>, nat) {
        match spec_read_exact(s, 1) {
            (Some(b), n) => if b[0] > 1 {
                (None, n)
            } else {
                (Some(b[0] != 0), n)
            },
            (None, n) => (None, n),
        }
    }

    open spec fn spec_write(v: bool) -> (Seq<u8>, bool) {
        (seq![if v { 1u8 } else { 0u8 }], true)
    }

    fn read_buf(buffer: &mut Cursor) -> (res: Option<bool>) {
        let byte = match u8::read_buf(buffer) {
            Some(b) => b,
            None => return None,
        };
        if byte > 1 {
            return None;
        }
        Some(byte != 0)
    }

    fn write_buf(&self, buffer: &mut Vec<u8>) -> (res: Result<(), WriteError>) {
        let byte: u8 = if *self { 1 } else { 0 };
        byte.write_buf(buffer)
    }
}

/// A written `bool` reads back as itself, consuming its one byte.
pub proof fn lemma_bool_roundtrip(v: bool, t: Seq<u8>)
    ensures
        <bool as Buffer>::spec_read(<bool as Buffer>::spec_write(v).0 + t) == (Some(v), 1nat),
{
    assert((<bool as Buffer>::spec_write(v).0 + t).take(1) =~= <bool as Buffer>::spec_write(v).0);
}

} // verus!
