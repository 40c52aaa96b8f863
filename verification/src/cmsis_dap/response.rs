//! The payloads of CMSIS-DAP responses.

use vstd::prelude::*;

verus! {

/// The status byte of a response to a control command: `0x00` or `0xFF`.
#[derive(Copy, Clone, Debug, PartialEq, Eq, Structural)]
pub enum DapResponseStatus {
    Okay,
    Error,
}

impl DapResponseStatus {
    /// The status that `value` stands for.
    pub open spec fn of_byte(value: u8) -> Result<DapResponseStatus, u8> {
        if value == 0x00 {
            Ok(DapResponseStatus::Okay)
        } else if value == 0xFF {
            Ok(DapResponseStatus::Error)
        } else {
            Err(value)
        }
    }

    /// Reads a status byte; any byte but `0x00` and `0xFF` comes back as
    /// the error.
    pub fn try_from(value: u8) -> (status: Result<DapResponseStatus, u8>)
        ensures
            status == DapResponseStatus::of_byte(value),
    {
        if value == 0x00 {
            Ok(DapResponseStatus::Okay)
        } else if value == 0xFF {
            Ok(DapResponseStatus::Error)
        } else {
            Err(value)
        }
    }
}

#[derive(Copy, Clone, Debug, PartialEq, Eq, Structural)]
pub struct DapConnect {
    pub swd_port: u8,
}

#[derive(Copy, Clone, Debug, PartialEq, Eq, Structural)]
pub struct DapDisconnect {
    pub status: DapResponseStatus,
}

#[derive(Copy, Clone, Debug, PartialEq, Eq, Structural)]
pub struct DapTransferConfigure {
    pub status: DapResponseStatus,
}

/// The acknowledgment of the last transfer: the 3-bit codes 1, 2, 4 and 7.
#[derive(Copy, Clone, Debug, PartialEq, Eq, Structural)]
pub enum DapTransferResponseAck {
    Okay,
    Wait,
    Fault,
    NoAck,
}

impl DapTransferResponseAck {
    /// The acknowledgment that the 3-bit `code` stands for.
    pub open spec fn of_code(code: u8) -> Option<DapTransferResponseAck> {
        if code == 1 {
            Some(DapTransferResponseAck::Okay)
        } else if code == 2 {
            Some(DapTransferResponseAck::Wait)
        } else if code == 4 {
            Some(DapTransferResponseAck::Fault)
        } else if code == 7 {
            Some(DapTransferResponseAck::NoAck)
        } else {
            None
        }
    }

    pub fn from_code(code: u8) -> (ack: Option<DapTransferResponseAck>)
        ensures
            ack == DapTransferResponseAck::of_code(code),
    {
        if code == 1 {
            Some(DapTransferResponseAck::Okay)
        } else if code == 2 {
            Some(DapTransferResponseAck::Wait)
        } else if code == 4 {
            Some(DapTransferResponseAck::Fault)
        } else if code == 7 {
            Some(DapTransferResponseAck::NoAck)
        } else {
            None
        }
    }
}

/// A byte that is no response byte: bits 2:0 hold no acknowledgment.
#[derive(Copy, Clone, Debug, PartialEq, Eq, Structural)]
pub struct BitsError;

/// The response byte of a `DapTransfer`: bits 2:0 the acknowledgment, bit 3
/// protocol error, bit 4 value mismatch.
#[derive(Copy, Clone, Debug, PartialEq, Eq, Structural)]
pub struct DapTransferResponse {
    pub value: u8,
}

impl DapTransferResponse {
    /// Bits 2:0 hold an acknowledgment.
    pub open spec fn wf(&self) -> bool {
        DapTransferResponseAck::of_code(self.value & 0x07) is Some
    }

    pub open spec fn spec_ack(&self) -> DapTransferResponseAck {
        DapTransferResponseAck::of_code(self.value & 0x07)->0
    }

    pub open spec fn spec_protocol_error(&self) -> bool {
        self.value & 0x08 != 0
    }

    pub open spec fn spec_value_mismatch(&self) -> bool {
        self.value & 0x10 != 0
    }

    /// Whether bits 2:0 hold an acknowledgment.
    pub fn is_wf(&self) -> (ok: bool)
        ensures
            ok == self.wf(),
    {
        DapTransferResponseAck::from_code(self.value & 0x07).is_some()
    }

    /// Reads a response byte, if its low bits hold an acknowledgment.
    pub fn try_from(value: u8) -> (response: Result<DapTransferResponse, BitsError>)
        ensures
            response == if (DapTransferResponse { value }).wf() {
                Ok::<DapTransferResponse, BitsError>(DapTransferResponse { value })
            } else {
                Err::<DapTransferResponse, BitsError>(BitsError)
            },
    {
        match DapTransferResponseAck::from_code(value & 0x07) {
            Some(_) => Ok(DapTransferResponse { value }),
            None => Err(BitsError),
        }
    }

    #[verifier::when_used_as_spec(spec_ack)]
    pub fn ack(&self) -> (ack: DapTransferResponseAck)
        requires
            self.wf(),
        ensures
            ack == self.spec_ack(),
    {
        match DapTransferResponseAck::from_code(self.value & 0x07) {
            Some(ack) => ack,
            None => vstd::pervasive::unreached(),
        }
    }

    #[verifier::when_used_as_spec(spec_protocol_error)]
    pub fn protocol_error(&self) -> (bit: bool)
        ensures
            bit == self.spec_protocol_error(),
    {
        self.value & 0x08 != 0
    }

    #[verifier::when_used_as_spec(spec_value_mismatch)]
    pub fn value_mismatch(&self) -> (bit: bool)
        ensures
            bit == self.spec_value_mismatch(),
    {
        self.value & 0x10 != 0
    }
}

#[derive(Debug, PartialEq, Eq)]
pub struct DapTransfer {
    pub transfer_count: u8,
    pub response: DapTransferResponse,
    pub data: Vec<u32>,
}

pub struct DapTransferView {
    pub transfer_count: u8,
    pub response: DapTransferResponse,
    pub data: Seq<u32>,
}

impl View for DapTransfer {
    type V = DapTransferView;

    open spec fn view(&self) -> DapTransferView {
        DapTransferView {
            transfer_count: self.transfer_count,
            response: self.response,
            data: self.data@,
        }
    }
}

/// The response byte of a `DapTransferBlock`: bits 2:0 the acknowledgment,
/// bit 3 protocol error.
#[derive(Copy, Clone, Debug, PartialEq, Eq, Structural)]
pub struct DapTransferBlockResponse {
    pub value: u8,
}

impl DapTransferBlockResponse {
    /// Bits 2:0 hold an acknowledgment.
    pub open spec fn wf(&self) -> bool {
        DapTransferResponseAck::of_code(self.value & 0x07) is Some
    }

    pub open spec fn spec_ack(&self) -> DapTransferResponseAck {
        DapTransferResponseAck::of_code(self.value & 0x07)->0
    }

    pub open spec fn spec_protocol_error(&self) -> bool {
        self.value & 0x08 != 0
    }

    /// Whether bits 2:0 hold an acknowledgment.
    pub fn is_wf(&self) -> (ok: bool)
        ensures
            ok == self.wf(),
    {
        DapTransferResponseAck::from_code(self.value & 0x07).is_some()
    }

    /// Reads a response byte, if its low bits hold an acknowledgment.
    pub fn try_from(value: u8) -> (response: Result<DapTransferBlockResponse, BitsError>)
        ensures
            response == if (DapTransferBlockResponse { value }).wf() {
                Ok::<DapTransferBlockResponse, BitsError>(DapTransferBlockResponse { value })
            } else {
                Err::<DapTransferBlockResponse, BitsError>(BitsError)
            },
    {
        match DapTransferResponseAck::from_code(value & 0x07) {
            Some(_) => Ok(DapTransferBlockResponse { value }),
            None => Err(BitsError),
        }
    }

    #[verifier::when_used_as_spec(spec_ack)]
    pub fn ack(&self) -> (ack: DapTransferResponseAck)
        requires
            self.wf(),
        ensures
            ack == self.spec_ack(),
    {
        match DapTransferResponseAck::from_code(self.value & 0x07) {
            Some(ack) => ack,
            None => vstd::pervasive::unreached(),
        }
    }

    #[verifier::when_used_as_spec(spec_protocol_error)]
    pub fn protocol_error(&self) -> (bit: bool)
        ensures
            bit == self.spec_protocol_error(),
    {
        self.value & 0x08 != 0
    }
}

#[derive(Debug, PartialEq, Eq)]
pub struct DapTransferBlock {
    pub transfer_count: u8,
    pub response: DapTransferBlockResponse,
    pub data: Vec<u32>,
}

pub struct DapTransferBlockView {
    pub transfer_count: u8,
    pub response: DapTransferBlockResponse,
    pub data: Seq<u32>,
}

impl View for DapTransferBlock {
    type V = DapTransferBlockView;

    open spec fn view(&self) -> DapTransferBlockView {
        DapTransferBlockView {
            transfer_count: self.transfer_count,
            response: self.response,
            data: self.data@,
        }
    }
}

#[derive(Copy, Clone, Debug, PartialEq, Eq, Structural)]
pub struct DapWriteAbort {
    pub status: DapResponseStatus,
}

#[derive(Copy, Clone, Debug, PartialEq, Eq, Structural)]
pub struct DapSwjClock {
    pub status: DapResponseStatus,
}

#[derive(Copy, Clone, Debug, PartialEq, Eq, Structural)]
pub struct DapSwjSequence {
    pub status: DapResponseStatus,
}

#[derive(Copy, Clone, Debug, PartialEq, Eq, Structural)]
pub struct DapSwdConfigure {
    pub status: DapResponseStatus,
}

} // verus!
