use vstd::prelude::*;

use crate::buffer::{Buffer, WriteError};
use crate::read::{Cursor, lemma_pos_in_bounds, lemma_rest_advance};
use crate::varint::{VarI32, lemma_varint_roundtrip, spec_read_varint, spec_varint};

verus! {

/// Reads `count` values one after another: all of them, or `None` at the first
/// that fails; and how far the cursor moves.
pub open spec fn read_items<T: Buffer>(s: Seq<u8>, count: nat) -> (
    Option<Seq<<T as DeepView>::V>>,
    nat,
)
    decreases count,
{
    if count == 0 {
        (Some(Seq::empty()), 0)
    } else {
        let (r, n) = T::spec_read(s);
        match r {
            None => (None, n),
            Some(v) => {
                let (rs, m) = read_items::<T>(s.skip(n as int), (count - 1) as nat);
                match rs {
                    Some(vs) => (Some(seq![v] + vs), n + m),
                    None => (None, n + m),
                }
            },
        }
    }
}

/// Writes values one after another, stopping after the first that fails.
pub open spec fn write_items<T: Buffer>(vs: Seq<<T as DeepView>::V>) -> (Seq<u8>, bool)
    decreases vs.len(),
{
    if vs.len() == 0 {
        (Seq::empty(), true)
    } else {
        let (b, ok) = T::spec_write(vs[0]);
        if !ok {
            (b, false)
        } else {
            let (bs, oks) = write_items::<T>(vs.drop_first());
            (b + bs, oks)
        }
    }
}

/// Prepends already-read values and already-consumed bytes to a read result.
pub open spec fn after_items<V>(pre: Seq<V>, r: (Option<Seq<V>>, nat), k: nat) -> (
    Option<Seq<V>>,
    nat,
) {
    match r.0 {
        Some(vs) => (Some(pre + vs), k + r.1),
        None => (None, k + r.1),
    }
}

/// Writing one more value extends the written bytes, unless writing has
/// already stopped.
pub proof fn lemma_write_items_push<T: Buffer>(vs: Seq<<T as DeepView>::V>, x: <T as DeepView>::V)
    ensures
        write_items::<T>(vs.push(x)) == if write_items::<T>(vs).1 {
            (write_items::<T>(vs).0 + T::spec_write(x).0, T::spec_write(x).1)
        } else {
            write_items::<T>(vs)
        },
    decreases vs.len(),
{
    if vs.len() == 0 {
        assert(vs.push(x).drop_first() =~= Seq::<<T as DeepView>::V>::empty());
        assert(vs.push(x)[0] == x);
        let b = T::spec_write(x).0;
        assert(b + Seq::<u8>::empty() =~= b);
        assert(Seq::<u8>::empty() + b =~= b);
        assert(write_items::<T>(Seq::<<T as DeepView>::V>::empty()) == (Seq::<u8>::empty(), true));
    } else {
        assert(vs.push(x).drop_first() =~= vs.drop_first().push(x));
        assert(vs.push(x)[0] == vs[0]);
        lemma_write_items_push::<T>(vs.drop_first(), x);
        let (b, ok) = T::spec_write(vs[0]);
        if ok {
            let (bs, oks) = write_items::<T>(vs.drop_first());
            if oks {
                assert(b + (bs + T::spec_write(x).0) =~= (b + bs) + T::spec_write(x).0);
            }
        }
    }
}

impl<T: Buffer> Buffer for Vec<T> {
    /// A `VarInt` count, taken as a `usize` (a negative count wraps), then that
    /// many values.
    open spec fn spec_read(s: Seq<u8>) -> (Option<Seq<<T as DeepView>::V>>, nat) {
        let (r, n) = spec_read_varint(s);
        match r {
            None => (None, n),
            Some(l) => {
                let (rs, m) = read_items::<T>(s.skip(n as int), (l as usize) as nat);
                (rs, n + m)
            },
        }
    }

    /// The count, cut to an `i32`, as a `VarInt`, then each value.
    open spec fn spec_write(vs: Seq<<T as DeepView>::V>) -> (Seq<u8>, bool) {
        (spec_varint(vs.len() as i32) + write_items::<T>(vs).0, write_items::<T>(vs).1)
    }

    fn read_buf(buffer: &mut Cursor) -> (res: Option<Vec<T>>) {
        let ghost c0 = *buffer;
        let r = i32::read_var(buffer);
        proof {
            lemma_rest_advance(&c0, &*buffer, spec_read_varint(c0.rest()).1);
        }
        let length = match r {
            Some(l) => #[verifier::truncate] (l as usize),
            None => return None,
        };
        let ghost c1 = *buffer;
        let ghost s1 = buffer.rest();
        proof {
            lemma_pos_in_bounds(&c0);
        }
        let mut contents: Vec<T> = Vec::with_capacity(
            if length < 65536 {
                length
            } else {
                65536
            },
        );
        assert(after_items(contents.deep_view(), read_items::<T>(s1, length as nat), 0)
            == read_items::<T>(s1, length as nat)) by {
            let r = read_items::<T>(s1, length as nat);
            if r.0 is Some {
                assert(contents.deep_view() + r.0->0 =~= r.0->0);
            }
        }
        let mut i: usize = 0;
        while i < length
            invariant
                i <= length,
                c0 == *old(buffer),
                c1.data() == c0.data(),
                c1.pos() == c0.pos() + spec_read_varint(c0.rest()).1,
                s1 == c0.rest().skip(spec_read_varint(c0.rest()).1 as int),
                spec_read_varint(c0.rest()).0 matches Some(l) && (l as usize) == length,
                buffer.data() == c1.data(),
                c1.pos() <= buffer.pos(),
                read_items::<T>(s1, length as nat) == after_items(
                    contents.deep_view(),
                    read_items::<T>(buffer.rest(), (length - i) as nat),
                    (buffer.pos() - c1.pos()) as nat,
                ),
            decreases length - i,
        {
            let ghost ci = *buffer;
            let ghost pre = contents.deep_view();
            let ghost ri = buffer.rest();
            let item = T::read_buf(buffer);
            match item {
                Some(x) => {
                    contents.push(x);
                    assert(contents.deep_view() =~= pre.push(x.deep_view()));
                    proof {
                        let n = T::spec_read(ri).1;
                        let tail = read_items::<T>(ri.skip(n as int), (length - i - 1) as nat);
                        if tail.0 is Some {
                            assert(pre.push(x.deep_view()) + tail.0->0 =~= pre + (seq![
                                x.deep_view(),
                            ] + tail.0->0));
                        }
                    }
                },
                None => {
                    proof {
                        lemma_rest_advance(&c0, &*buffer, (buffer.pos() - c0.pos()) as nat);
                    }
                    return None;
                },
            }
            i = i + 1;
        }
        assert(contents.deep_view() + Seq::<<T as DeepView>::V>::empty() =~= contents.deep_view());
        proof {
            lemma_rest_advance(&c0, &*buffer, (buffer.pos() - c0.pos()) as nat);
        }
        Some(contents)
    }

    fn write_buf(&self, buffer: &mut Vec<u8>) -> (res: Result<(), WriteError>) {
        let ghost vs = self.deep_view();
        let _ = (self.len() as i32).write_var(buffer);
        let ghost head = buffer@;
        assert(vs.take(0) =~= Seq::<<T as DeepView>::V>::empty());
        let mut i: usize = 0;
        while i < self.len()
            invariant
                i <= self.len(),
                vs == self.deep_view(),
                vs.len() == self.len(),
                head == old(buffer)@ + spec_varint(self.len() as i32),
                buffer@ == head + write_items::<T>(vs.take(i as int)).0,
                write_items::<T>(vs.take(i as int)).1,
            decreases self.len() - i,
        {
            let ghost before = buffer@;
            proof {
                lemma_write_items_push::<T>(vs.take(i as int), vs[i as int]);
                assert(vs.take(i as int).push(vs[i as int]) =~= vs.take(i + 1));
            }
            let r = self[i].write_buf(buffer);
            assert(buffer@ =~= head + write_items::<T>(vs.take(i + 1)).0);
            if r.is_err() {
                proof {
                    lemma_write_items_stays_stopped::<T>(vs, (i + 1) as nat);
                }
                return r;
            }
            i = i + 1;
        }
        assert(vs.take(i as int) =~= vs);
        assert(buffer@ =~= old(buffer)@ + (spec_varint(vs.len() as i32) + write_items::<T>(vs).0));
        Ok(())
    }
}

/// Once writing stops at some value, the rest writes nothing more.
pub proof fn lemma_write_items_stays_stopped<T: Buffer>(vs: Seq<<T as DeepView>::V>, i: nat)
    requires
        i <= vs.len(),
        !write_items::<T>(vs.take(i as int)).1,
    ensures
        write_items::<T>(vs) == write_items::<T>(vs.take(i as int)),
    decreases vs.len() - i,
{
    if i < vs.len() {
        lemma_write_items_push::<T>(vs.take(i as int), vs[i as int]);
        assert(vs.take(i as int).push(vs[i as int]) =~= vs.take((i + 1) as int));
        lemma_write_items_stays_stopped::<T>(vs, i + 1);
    } else {
        assert(vs.take(i as int) =~= vs);
    }
}

/// Values written one after another read back as themselves, when each of
/// them reads back as written.
pub proof fn lemma_items_roundtrip<T: Buffer>(vs: Seq<<T as DeepView>::V>, t: Seq<u8>)
    requires
        write_items::<T>(vs).1,
        forall|x: <T as DeepView>::V, u: Seq<u8>|
            T::spec_write(x).1 ==> #[trigger] T::spec_read(T::spec_write(x).0 + u) == (
                Some(x),
                T::spec_write(x).0.len(),
            ),
    ensures
        read_items::<T>(write_items::<T>(vs).0 + t, vs.len()) == (
            Some(vs),
            write_items::<T>(vs).0.len(),
        ),
    decreases vs.len(),
{
    if vs.len() > 0 {
        let b = T::spec_write(vs[0]).0;
        let bs = write_items::<T>(vs.drop_first()).0;
        let s = b + bs + t;
        assert(write_items::<T>(vs).0 + t == s);
        assert(s =~= b + (bs + t));
        assert(T::spec_read(b + (bs + t)) == (Some(vs[0]), b.len()));
        assert(s.skip(b.len() as int) =~= bs + t);
        lemma_items_roundtrip::<T>(vs.drop_first(), t);
        assert(seq![vs[0]] + vs.drop_first() =~= vs);
    }
}

/// A written vector reads back as itself, consuming exactly the bytes written,
/// when it has at most `i32::MAX` values and each value reads back as written.
pub proof fn lemma_vec_roundtrip<T: Buffer>(vs: Seq<<T as DeepView>::V>, t: Seq<u8>)
    requires
        vs.len() <= i32::MAX,
        <Vec<T> as Buffer>::spec_write(vs).1,
        forall|x: <T as DeepView>::V, u: Seq<u8>|
            T::spec_write(x).1 ==> #[trigger] T::spec_read(T::spec_write(x).0 + u) == (
                Some(x),
                T::spec_write(x).0.len(),
            ),
    ensures
        <Vec<T> as Buffer>::spec_read(<Vec<T> as Buffer>::spec_write(vs).0 + t) == (
            Some(vs),
            <Vec<T> as Buffer>::spec_write(vs).0.len(),
        ),
{
    let l = vs.len() as i32;
    let items = write_items::<T>(vs).0;
    let s = spec_varint(l) + items + t;
    assert(s =~= spec_varint(l) + (items + t));
    lemma_varint_roundtrip(l, items + t);
    assert(s.skip(spec_varint(l).len() as int) =~= items + t);
    assert((l as usize) as nat == vs.len());
    lemma_items_roundtrip::<T>(vs, t);
}

} // verus!
