use vstd::prelude::*;

verus! {

/// A read position over a borrowed byte slice.
///
/// The position never passes the end of the data.
pub struct Cursor<'a> {
    data: &'a [u8],
    pos: usize,
}

impl<'a> Cursor<'a> {
    #[verifier::type_invariant]
    spec fn position_in_bounds(&self) -> bool {
        self.pos <= self.data@.len()
    }

    /// All bytes the cursor reads from.
    pub closed spec fn data(&self) -> Seq<u8> {
        self.data@
    }

    /// The current read position.
    pub closed spec fn pos(&self) -> nat {
        if self.pos <= self.data@.len() {
            self.pos as nat
        } else {
            self.data@.len()
        }
    }

    /// The bytes that are still to be read.
    pub open spec fn rest(&self) -> Seq<u8> {
        self.data().subrange(self.pos() as int, self.data().len() as int)
    }

    /// A cursor at the start of `data`.
    pub fn new(data: &'a [u8]) -> (c: Cursor<'a>)
        ensures
            c.data() == data@,
            c.pos() == 0,
    {
        Cursor { data, pos: 0 }
    }

    /// The current read position.
    pub fn position(&self) -> (p: usize)
        ensures
            p == self.pos(),
    {
        proof {
            use_type_invariant(self);
        }
        self.pos
    }

    /// Moves the read position; it must not pass the end of the data.
    pub fn set_position(&mut self, pos: usize)
        requires
            pos <= old(self).data().len(),
        ensures
            final(self).data() == old(self).data(),
            final(self).pos() == pos,
    {
        self.pos = pos;
    }

    /// The bytes the cursor reads from.
    pub fn get_ref(&self) -> (d: &'a [u8])
        ensures
            d@ == self.data(),
    {
        self.data
    }

    /// The number of bytes left to read.
    pub fn remaining(&self) -> (n: usize)
        ensures
            n == self.rest().len(),
    {
        proof {
            use_type_invariant(self);
        }
        self.data.len() - self.pos
    }
}

/// The read position of a cursor never passes the end of its data.
pub broadcast proof fn lemma_pos_in_bounds(c: &Cursor)
    ensures
        #[trigger] c.pos() <= c.data().len(),
{
}

/// Moving a cursor forward by `n` drops `n` bytes from the front of what is
/// left to read.
pub proof fn lemma_rest_advance(a: &Cursor, b: &Cursor, n: nat)
    requires
        a.data() == b.data(),
        b.pos() == a.pos() + n,
    ensures
        b.rest() == a.rest().skip(n as int),
{
    lemma_pos_in_bounds(a);
    lemma_pos_in_bounds(b);
    assert(b.rest() =~= a.rest().skip(n as int));
}

/// Reads one byte. At the end of the data nothing is read and `None` comes back.
pub fn read_byte(buffer: &mut Cursor) -> (res: Option<u8>)
    ensures
        final(buffer).data() == old(buffer).data(),
        old(buffer).rest().len() == 0 ==> res is None && final(buffer).pos() == old(buffer).pos(),
        old(buffer).rest().len() > 0 ==> res == Some(old(buffer).rest()[0]) && final(buffer).pos()
            == old(buffer).pos() + 1 && final(buffer).rest() == old(buffer).rest().drop_first(),
{
    proof {
        use_type_invariant(&*buffer);
    }
    if buffer.pos < buffer.data.len() {
        let b = buffer.data[buffer.pos];
        buffer.pos = buffer.pos + 1;
        Some(b)
    } else {
        None
    }
}

/// Reads `length` bytes. When fewer are left, nothing is read and `None` comes back.
pub fn read_bytes<'a>(buffer: &mut Cursor<'a>, length: usize) -> (res: Option<&'a [u8]>)
    ensures
        final(buffer).data() == old(buffer).data(),
        length > old(buffer).rest().len() ==> res is None && final(buffer).pos() == old(
            buffer,
        ).pos(),
        length <= old(buffer).rest().len() ==> (res matches Some(s) && s@ == old(buffer).rest().take(
            length as int,
        ) && final(buffer).pos() == old(buffer).pos() + length && final(buffer).rest() == old(
            buffer,
        ).rest().skip(length as int)),
{
    proof {
        use_type_invariant(&*buffer);
    }
    if length > buffer.data.len() - buffer.pos {
        return None;
    }
    let start = buffer.pos;
    buffer.pos = buffer.pos + length;
    let data = vstd::slice::slice_subrange(buffer.data, start, start + length);
    assert(data@ =~= old(buffer).rest().take(length as int));
    assert(buffer.rest() =~= old(buffer).rest().skip(length as int));
    Some(data)
}

/// What a read of exactly `n` bytes from `s` gives: the bytes, or `None` when
/// fewer are left; either way the number of bytes it moves past. A short read
/// moves to the end of the data.
pub open spec fn spec_read_exact(s: Seq<u8>, n: nat) -> (Option<Seq<u8>>, nat) {
    if n <= s.len() {
        (Some(s.take(n as int)), n)
    } else {
        (None, s.len())
    }
}

/// Reads exactly `n` bytes. When fewer are left, the cursor moves to the end of
/// the data and `None` comes back.
pub fn read_exact<'a>(buffer: &mut Cursor<'a>, n: usize) -> (res: Option<&'a [u8]>)
    ensures
        final(buffer).data() == old(buffer).data(),
        final(buffer).pos() == old(buffer).pos() + spec_read_exact(old(buffer).rest(), n as nat).1,
        final(buffer).rest() == old(buffer).rest().skip(
            spec_read_exact(old(buffer).rest(), n as nat).1 as int,
        ),
        match spec_read_exact(old(buffer).rest(), n as nat).0 {
            Some(b) => res matches Some(r) && r@ == b,
            None => res is None,
        },
{
    proof {
        use_type_invariant(&*buffer);
    }
    if n > buffer.data.len() - buffer.pos {
        buffer.pos = buffer.data.len();
        assert(buffer.rest() =~= old(buffer).rest().skip(old(buffer).rest().len() as int));
        return None;
    }
    read_bytes(buffer, n)
}

} // verus!
