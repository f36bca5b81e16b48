//! Packets: fixed field layouts, and families of packets told apart by an id.

use vstd::prelude::*;

use crate::buffer::WriteError;
use crate::field::{Field, FieldKind, fits, layout_may_overflow, read_fields, write_fields};
use crate::read::Cursor;

verus! {

/// A packet whose body is a fixed sequence of fields.
pub trait Packet: Sized {
    /// The kinds of the fields, in wire order.
    spec fn layout() -> Seq<FieldKind>;

    /// The field values, in wire order.
    spec fn fields(&self) -> Seq<Field>;

    /// The field values match the layout.
    proof fn lemma_fields_fit(&self)
        ensures
            fits(Self::layout(), self.fields()),
    ;

    /// Reads the fields one after another: the packet, or `None` at the first
    /// field that fails.
    fn read(buffer: &mut Cursor) -> (res: Option<Self>)
        requires
            !layout_may_overflow(Self::layout(), old(buffer).rest(), 0),
        ensures
            final(buffer).data() == old(buffer).data(),
            final(buffer).pos() == old(buffer).pos() + read_fields(
                Self::layout(),
                old(buffer).rest(),
                0,
            ).1,
            match read_fields(Self::layout(), old(buffer).rest(), 0).0 {
                Some(fs) => res matches Some(p) && p.fields() == fs,
                None => res is None,
            },
    ;

    /// Writes the fields one after another, stopping at the first that fails.
    fn write(&self, buffer: &mut Vec<u8>) -> (res: Result<(), WriteError>)
        ensures
            final(buffer)@ == old(buffer)@ + write_fields(self.fields(), self.fields().len()).0,
            res is Ok <==> write_fields(self.fields(), self.fields().len()).1,
    ;
}

/// A family of packets, each told apart by its id and read by its layout.
pub trait ProtocolPacket: Sized {
    /// The id of this packet.
    spec fn spec_id(&self) -> u32;

    /// The field values of this packet, in wire order.
    spec fn spec_fields(&self) -> Seq<Field>;

    /// The layout of the packet with the given id, if the family has one.
    spec fn spec_layout(id: u32) -> Option<Seq<FieldKind>>;

    /// Every packet's fields match the layout of its id.
    proof fn lemma_layout(&self)
        ensures
            Self::spec_layout(self.spec_id()) matches Some(k) && fits(k, self.spec_fields()),
    ;

    /// The id of this packet.
    fn id(&self) -> (r: u32)
        ensures
            r == self.spec_id(),
    ;

    /// Reads the body of the packet with the given id. An id without a layout
    /// reads nothing and gives `None`.
    fn read(id: u32, buffer: &mut Cursor) -> (res: Option<Self>)
        requires
            Self::spec_layout(id) matches Some(k) ==> !layout_may_overflow(
                k,
                old(buffer).rest(),
                0,
            ),
        ensures
            final(buffer).data() == old(buffer).data(),
            match Self::spec_layout(id) {
                None => res is None && final(buffer).pos() == old(buffer).pos(),
                Some(k) => final(buffer).pos() == old(buffer).pos() + read_fields(
                    k,
                    old(buffer).rest(),
                    0,
                ).1 && match read_fields(k, old(buffer).rest(), 0).0 {
                    Some(fs) => res matches Some(p) && p.spec_id() == id && p.spec_fields() == fs,
                    None => res is None,
                },
            },
    ;

    /// Writes the body of the packet, stopping at the first field that fails.
    fn write(&self, buffer: &mut Vec<u8>) -> (res: Result<(), WriteError>)
        ensures
            final(buffer)@ == old(buffer)@ + write_fields(
                self.spec_fields(),
                self.spec_fields().len(),
            ).0,
            res is Ok <==> write_fields(self.spec_fields(), self.spec_fields().len()).1,
    ;
}

/// Wraps a packet into the family it belongs to.
pub trait IntoPacket<T> {
    /// The packet as a member of the family.
    fn into_packet(self) -> T;
}

} // verus!
