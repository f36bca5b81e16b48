use vstd::prelude::*;

use crate::buffer::{Buffer, WriteError};
use crate::read::{Cursor, lemma_pos_in_bounds, lemma_rest_advance};
use crate::types::string::lemma_string_roundtrip;

verus! {

/// A data pack both sides know: its namespace, its id and its version, each
/// a string.
#[derive(Clone, Debug, PartialEq)]
pub struct KnownPack {
    pub namespace: String,
    pub id: String,
    pub version: String,
}

impl DeepView for KnownPack {
    type V = (Seq<char>, Seq<char>, Seq<char>);

    open spec fn deep_view(&self) -> (Seq<char>, Seq<char>, Seq<char>) {
        (self.namespace.deep_view(), self.id.deep_view(), self.version.deep_view())
    }
}

impl Buffer for KnownPack {
    /// The three strings one after another; the read fails at the first that
    /// fails.
    open spec fn spec_read(s: Seq<u8>) -> (Option<(Seq<char>, Seq<char>, Seq<char>)>, nat) {
        let (a, n1) = <String as Buffer>::spec_read(s);
        match a {
            None => (None, n1),
            Some(x) => {
                let (b, n2) = <String as Buffer>::spec_read(s.skip(n1 as int));
                match b {
                    None => (None, n1 + n2),
                    Some(y) => {
                        let (c, n3) = <String as Buffer>::spec_read(s.skip((n1 + n2) as int));
                        match c {
                            None => (None, n1 + n2 + n3),
                            Some(z) => (Some((x, y, z)), n1 + n2 + n3),
                        }
                    },
                }
            },
        }
    }

    /// The three strings one after another, stopping after the first that
    /// fails.
    open spec fn spec_write(v: (Seq<char>, Seq<char>, Seq<char>)) -> (Seq<u8>, bool) {
        let (a, oka) = <String as Buffer>::spec_write(v.0);
        let (b, okb) = <String as Buffer>::spec_write(v.1);
        let (c, okc) = <String as Buffer>::spec_write(v.2);
        if !oka {
            (a, false)
        } else if !okb {
            (a + b, false)
        } else {
            (a + b + c, okc)
        }
    }

    fn read_buf(buffer: &mut Cursor) -> (res: Option<KnownPack>) {
        let ghost c0 = *buffer;
        let namespace = match String::read_buf(buffer) {
            Some(v) => v,
            None => return None,
        };
        let ghost c1 = *buffer;
        let id = match String::read_buf(buffer) {
            Some(v) => v,
            None => {
                proof {
                    lemma_pos_in_bounds(&c0);
                    lemma_rest_advance(&c0, &*buffer, (buffer.pos() - c0.pos()) as nat);
                }
                return None;
            },
        };
        let ghost c2 = *buffer;
        proof {
            lemma_pos_in_bounds(&c0);
            lemma_rest_advance(&c0, &c1, (c1.pos() - c0.pos()) as nat);
            lemma_rest_advance(&c0, &c2, (c2.pos() - c0.pos()) as nat);
            assert(c0.rest().skip((c1.pos() - c0.pos()) as int).skip((c2.pos() - c1.pos()) as int)
                =~= c0.rest().skip((c2.pos() - c0.pos()) as int));
        }
        let version = String::read_buf(buffer);
        proof {
            lemma_rest_advance(&c0, &*buffer, (buffer.pos() - c0.pos()) as nat);
            assert(c2.rest().skip((buffer.pos() - c2.pos()) as int) =~= c0.rest().skip(
                (buffer.pos() - c0.pos()) as int,
            ));
        }
        match version {
            Some(version) => Some(KnownPack { namespace, id, version }),
            None => None,
        }
    }

    fn write_buf(&self, buffer: &mut Vec<u8>) -> (res: Result<(), WriteError>) {
        let r = self.namespace.write_buf(buffer);
        if r.is_err() {
            return r;
        }
        let r = self.id.write_buf(buffer);
        if r.is_err() {
            assert(buffer@ =~= old(buffer)@ + Self::spec_write(self.deep_view()).0);
            return r;
        }
        let r = self.version.write_buf(buffer);
        assert(buffer@ =~= old(buffer)@ + Self::spec_write(self.deep_view()).0);
        r
    }
}

/// A written known pack reads back as itself, consuming exactly its bytes.
pub proof fn lemma_known_pack_roundtrip(v: (Seq<char>, Seq<char>, Seq<char>), t: Seq<u8>)
    requires
        <KnownPack as Buffer>::spec_write(v).1,
    ensures
        <KnownPack as Buffer>::spec_read(<KnownPack as Buffer>::spec_write(v).0 + t) == (
            Some(v),
            <KnownPack as Buffer>::spec_write(v).0.len(),
        ),
{
    let a = <String as Buffer>::spec_write(v.0).0;
    let b = <String as Buffer>::spec_write(v.1).0;
    let c = <String as Buffer>::spec_write(v.2).0;
    let s = a + b + c + t;
    assert(<KnownPack as Buffer>::spec_write(v).0 + t == s);
    assert(s =~= a + (b + c + t));
    lemma_string_roundtrip(v.0, b + c + t);
    assert(s.skip(a.len() as int) =~= b + (c + t));
    lemma_string_roundtrip(v.1, c + t);
    assert(s.skip((a.len() + b.len()) as int) =~= c + t);
    lemma_string_roundtrip(v.2, t);
}

/// Every known pack that is written reads back as itself.
pub proof fn lemma_known_pack_reads_back()
    ensures
        forall|x: (Seq<char>, Seq<char>, Seq<char>), u: Seq<u8>|
            <KnownPack as Buffer>::spec_write(x).1 ==> #[trigger] <KnownPack as Buffer>::spec_read(
                <KnownPack as Buffer>::spec_write(x).0 + u,
            ) == (Some(x), <KnownPack as Buffer>::spec_write(x).0.len()),
{
    assert forall|x: (Seq<char>, Seq<char>, Seq<char>), u: Seq<u8>|
        <KnownPack as Buffer>::spec_write(x).1 implies #[trigger] <KnownPack as Buffer>::spec_read(
        <KnownPack as Buffer>::spec_write(x).0 + u,
    ) == (Some(x), <KnownPack as Buffer>::spec_write(x).0.len()) by {
        lemma_known_pack_roundtrip(x, u);
    }
}

} // verus!
