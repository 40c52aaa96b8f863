//! The part of a PDML packet dissection that the CMSIS-DAP adapter reads:
//! packets, their protocol layers, and the named fields of a layer.

use vstd::prelude::*;

verus! {

/// A dissection: the packets of one capture, in order.
#[derive(Debug, PartialEq, Eq)]
pub struct Pdml {
    pub packet: Vec<Packet>,
}

/// One packet: its protocol layers, outermost first.
#[derive(Debug, PartialEq, Eq)]
pub struct Packet {
    pub proto: Vec<Proto>,
}

/// One protocol layer of a packet.
#[derive(Debug, PartialEq, Eq)]
pub struct Proto {
    pub name: String,
    pub field: Vec<Field>,
}

/// One dissected field: its name, the value as shown, and the fields
/// nested in it.
#[derive(Debug, PartialEq, Eq)]
pub struct Field {
    pub name: String,
    pub show: String,
    pub field: Vec<Field>,
}

} // verus!
