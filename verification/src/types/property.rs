use vstd::prelude::*;

use crate::buffer::{Buffer, WriteError};
use crate::read::{Cursor, lemma_pos_in_bounds, lemma_rest_advance};
use crate::types::option::lemma_option_roundtrip;
use crate::types::string::lemma_string_roundtrip;

verus! {

/// A property of a player's profile: a name, a value and an optional
/// signature, each a string.
#[derive(Clone, Debug, PartialEq)]
pub struct Property {
    pub name: String,
    pub value: String,
    pub signature: Option<String>,
}

impl DeepView for Property {
    type V = (Seq<char>, Seq<char>, Option<Seq<char>>);

    open spec fn deep_view(&self) -> (Seq<char>, Seq<char>, Option<Seq<char>>) {
        (self.name.deep_view(), self.value.deep_view(), self.signature.deep_view())
    }
}

impl Buffer for Property {
    /// The name, the value, then the signature as a flagged optional string;
    /// the read fails at the first part that fails.
    open spec fn spec_read(s: Seq<u8>) -> (Option<(Seq<char>, Seq<char>, Option<Seq<char>>)>, nat) {
        let (a, n1) = <String as Buffer>::spec_read(s);
        match a {
            None => (None, n1),
            Some(x) => {
                let (b, n2) = <String as Buffer>::spec_read(s.skip(n1 as int));
                match b {
                    None => (None, n1 + n2),
                    Some(y) => {
                        let (c, n3) = <Option<String> as Buffer>::spec_read(s.skip((n1 + n2) as int));
                        match c {
                            None => (None, n1 + n2 + n3),
                            Some(z) => (Some((x, y, z)), n1 + n2 + n3),
                        }
                    },
                }
            },
        }
    }

    /// The three parts one after another, stopping after the first that
    /// fails.
    open spec fn spec_write(v: (Seq<char>, Seq<char>, Option<Seq<char>>)) -> (Seq<u8>, bool) {
        let (a, oka) = <String as Buffer>::spec_write(v.0);
        let (b, okb) = <String as Buffer>::spec_write(v.1);
        let (c, okc) = <Option<String> as Buffer>::spec_write(v.2);
        if !oka {
            (a, false)
        } else if !okb {
            (a + b, false)
        } else {
            (a + b + c, okc)
        }
    }

    fn read_buf(buffer: &mut Cursor) -> (res: Option<Property>) {
        let ghost c0 = *buffer;
        let name = match String::read_buf(buffer) {
            Some(v) => v,
            None => return None,
        };
        let ghost c1 = *buffer;
        let value = match String::read_buf(buffer) {
            Some(v) => v,
            None => {
                proof {
                    lemma_pos_in_bounds(&c0);
                    lemma_rest_advance(&c0, &*buffer, (buffer.pos() - c0.pos()) as nat);
                }
                return None;
            },
        };
        let ghost c2 = *buffer;
        proof {
            lemma_pos_in_bounds(&c0);
            lemma_rest_advance(&c0, &c1, (c1.pos() - c0.pos()) as nat);
            lemma_rest_advance(&c0, &c2, (c2.pos() - c0.pos()) as nat);
            assert(c0.rest().skip((c1.pos() - c0.pos()) as int).skip((c2.pos() - c1.pos()) as int)
                =~= c0.rest().skip((c2.pos() - c0.pos()) as int));
        }
        let signature = <Option<String> as Buffer>::read_buf(buffer);
        proof {
            lemma_rest_advance(&c0, &*buffer, (buffer.pos() - c0.pos()) as nat);
            assert(c2.rest().skip((buffer.pos() - c2.pos()) as int) =~= c0.rest().skip(
                (buffer.pos() - c0.pos()) as int,
            ));
        }
        match signature {
            Some(signature) => Some(Property { name, value, signature }),
            None => None,
        }
    }

    fn write_buf(&self, buffer: &mut Vec<u8>) -> (res: Result<(), WriteError>) {
        let r = self.name.write_buf(buffer);
        if r.is_err() {
            return r;
        }
        let r = self.value.write_buf(buffer);
        if r.is_err() {
            assert(buffer@ =~= old(buffer)@ + Self::spec_write(self.deep_view()).0);
            return r;
        }
        let r = self.signature.write_buf(buffer);
        assert(buffer@ =~= old(buffer)@ + Self::spec_write(self.deep_view()).0);
        r
    }
}

/// A written property reads back as itself, consuming exactly its bytes.
pub proof fn lemma_property_roundtrip(v: (Seq<char>, Seq<char>, Option<Seq<char>>), t: Seq<u8>)
    requires
        <Property as Buffer>::spec_write(v).1,
    ensures
        <Property as Buffer>::spec_read(<Property as Buffer>::spec_write(v).0 + t) == (
            Some(v),
            <Property as Buffer>::spec_write(v).0.len(),
        ),
{
    let a = <String as Buffer>::spec_write(v.0).0;
    let b = <String as Buffer>::spec_write(v.1).0;
    let c = <Option<String> as Buffer>::spec_write(v.2).0;
    let s = a + b + c + t;
    assert(<Property as Buffer>::spec_write(v).0 + t == s);
    assert(s =~= a + (b + c + t));
    lemma_string_roundtrip(v.0, b + c + t);
    assert(s.skip(a.len() as int) =~= b + (c + t));
    lemma_string_roundtrip(v.1, c + t);
    assert(s.skip((a.len() + b.len()) as int) =~= c + t);
    assert forall|x: Seq<char>, u: Seq<u8>|
        <String as Buffer>::spec_write(x).1 implies #[trigger] <String as Buffer>::spec_read(
        <String as Buffer>::spec_write(x).0 + u,
    ) == (Some(x), <String as Buffer>::spec_write(x).0.len()) by {
        lemma_string_roundtrip(x, u);
    }
    lemma_option_roundtrip::<String>(v.2, t);
}

/// Every property that is written reads back as itself.
pub proof fn lemma_property_reads_back()
    ensures
        forall|x: (Seq<char>, Seq<char>, Option<Seq<char>>), u: Seq<u8>|
            <Property as Buffer>::spec_write(x).1 ==> #[trigger] <Property as Buffer>::spec_read(
                <Property as Buffer>::spec_write(x).0 + u,
            ) == (Some(x), <Property as Buffer>::spec_write(x).0.len()),
{
    assert forall|x: (Seq<char>, Seq<char>, Option<Seq<char>>), u: Seq<u8>|
        <Property as Buffer>::spec_write(x).1 implies #[trigger] <Property as Buffer>::spec_read(
        <Property as Buffer>::spec_write(x).0 + u,
    ) == (Some(x), <Property as Buffer>::spec_write(x).0.len()) by {
        lemma_property_roundtrip(x, u);
    }
}

} // verus!
