use vstd::prelude::*;

use crate::buffer::{Buffer, WriteError};
use crate::read::Cursor;
use crate::varint::{VarI32, lemma_varint_roundtrip, spec_read_varint, spec_varint};

verus! {

/// What the client means to do after the handshake, sent as a `VarInt`.
#[derive(Clone, Copy, Debug, PartialEq, Eq, Structural)]
pub enum ClientIntention {
    /// Ask for the server status (1).
    Status,
    /// Log in (2).
    Login,
    /// Log in after a transfer from another server (3).
    Transfer,
}

impl DeepView for ClientIntention {
    type V = ClientIntention;

    open spec fn deep_view(&self) -> ClientIntention {
        *self
    }
}

impl ClientIntention {
    /// The number sent for the intention.
    pub open spec fn spec_id(self) -> i32 {
        match self {
            ClientIntention::Status => 1,
            ClientIntention::Login => 2,
            ClientIntention::Transfer => 3,
        }
    }

    /// The intention a number stands for, if any.
    pub open spec fn spec_from_id(id: i32) -> Option<ClientIntention> {
        if id == 1 {
            Some(ClientIntention::Status)
        } else if id == 2 {
            Some(ClientIntention::Login)
        } else if id == 3 {
            Some(ClientIntention::Transfer)
        } else {
            None
        }
    }

    /// The number sent for the intention.
    pub fn id(self) -> (r: i32)
        ensures
            r == self.spec_id(),
            self == ClientIntention::Status ==> r == 1,
            self == ClientIntention::Login ==> r == 2,
            self == ClientIntention::Transfer ==> r == 3,
    {
        match self {
            ClientIntention::Status => 1,
            ClientIntention::Login => 2,
            ClientIntention::Transfer => 3,
        }
    }
}

impl Buffer for ClientIntention {
    /// A `VarInt`: 1, 2 or 3; any other number fails the read.
    open spec fn spec_read(s: Seq<u8>) -> (Option<ClientIntention>, nat) {
        let (r, n) = spec_read_varint(s);
        match r {
            Some(id) => (ClientIntention::spec_from_id(id), n),
            None => (None, n),
        }
    }

    open spec fn spec_write(v: ClientIntention) -> (Seq<u8>, bool) {
        (spec_varint(v.spec_id()), true)
    }

    fn read_buf(buffer: &mut Cursor) -> (res: Option<ClientIntention>) {
        match i32::read_var(buffer) {
            Some(1) => Some(ClientIntention::Status),
            Some(2) => Some(ClientIntention::Login),
            Some(3) => Some(ClientIntention::Transfer),
            _ => None,
        }
    }

    fn write_buf(&self, buffer: &mut Vec<u8>) -> (res: Result<(), WriteError>) {
        self.id().write_var(buffer)
    }
}

/// The numbers of the intentions: status 1, login 2, transfer 3; no other
/// number reads as an intention.
pub proof fn lemma_intention_numbers(id: i32)
    ensures
        ClientIntention::spec_from_id(1i32) == Some(ClientIntention::Status),
        ClientIntention::spec_from_id(2i32) == Some(ClientIntention::Login),
        ClientIntention::spec_from_id(3i32) == Some(ClientIntention::Transfer),
        !(1 <= id <= 3) ==> ClientIntention::spec_from_id(id) is None,
{
}

/// A written intention reads back as itself, consuming exactly its bytes.
pub proof fn lemma_intention_roundtrip(v: ClientIntention, t: Seq<u8>)
    ensures
        <ClientIntention as Buffer>::spec_read(<ClientIntention as Buffer>::spec_write(v).0 + t) == (
            Some(v),
            <ClientIntention as Buffer>::spec_write(v).0.len(),
        ),
{
    lemma_varint_roundtrip(v.spec_id(), t);
}

} // verus!
