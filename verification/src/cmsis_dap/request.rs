//! The payloads of CMSIS-DAP requests.

use vstd::prelude::*;

verus! {

#[derive(Copy, Clone, Debug, PartialEq, Eq, Structural)]
pub struct DapConnect {
    pub swd_port: u8,
}

#[derive(Copy, Clone, Debug, PartialEq, Eq, Structural)]
pub struct DapDisconnect;

#[derive(Copy, Clone, Debug, PartialEq, Eq, Structural)]
pub struct DapTransferConfigure {
    pub idle_cycles: u8,
    pub wait_retry: u16,
    pub match_retry: u16,
}

/// The request byte of one transfer: bit 0 APnDP, bit 1 RnW, bits 2 and 3
/// the address bits A2 and A3, bit 4 value match, bit 5 match mask, bit 7
/// timestamp request.
#[derive(Copy, Clone, Debug, PartialEq, Eq, Structural)]
pub struct DapTransferRequest {
    pub value: u8,
}

impl DapTransferRequest {
    pub open spec fn spec_apndp(&self) -> bool {
        self.value & 0x01 != 0
    }

    pub open spec fn spec_rnw(&self) -> bool {
        self.value & 0x02 != 0
    }

    pub open spec fn spec_a2(&self) -> bool {
        self.value & 0x04 != 0
    }

    pub open spec fn spec_a3(&self) -> bool {
        self.value & 0x08 != 0
    }

    pub open spec fn spec_value_match(&self) -> bool {
        self.value & 0x10 != 0
    }

    pub open spec fn spec_match_mask(&self) -> bool {
        self.value & 0x20 != 0
    }

    pub open spec fn spec_reserved(&self) -> bool {
        self.value & 0x40 != 0
    }

    pub open spec fn spec_timestamp_request(&self) -> bool {
        self.value & 0x80 != 0
    }

    #[verifier::when_used_as_spec(spec_apndp)]
    pub fn apndp(&self) -> (bit: bool)
        ensures
            bit == self.spec_apndp(),
    {
        self.value & 0x01 != 0
    }

    #[verifier::when_used_as_spec(spec_rnw)]
    pub fn rnw(&self) -> (bit: bool)
        ensures
            bit == self.spec_rnw(),
    {
        self.value & 0x02 != 0
    }

    #[verifier::when_used_as_spec(spec_a2)]
    pub fn a2(&self) -> (bit: bool)
        ensures
            bit == self.spec_a2(),
    {
        self.value & 0x04 != 0
    }

    #[verifier::when_used_as_spec(spec_a3)]
    pub fn a3(&self) -> (bit: bool)
        ensures
            bit == self.spec_a3(),
    {
        self.value & 0x08 != 0
    }

    #[verifier::when_used_as_spec(spec_value_match)]
    pub fn value_match(&self) -> (bit: bool)
        ensures
            bit == self.spec_value_match(),
    {
        self.value & 0x10 != 0
    }

    #[verifier::when_used_as_spec(spec_match_mask)]
    pub fn match_mask(&self) -> (bit: bool)
        ensures
            bit == self.spec_match_mask(),
    {
        self.value & 0x20 != 0
    }

    #[verifier::when_used_as_spec(spec_reserved)]
    pub fn reserved(&self) -> (bit: bool)
        ensures
            bit == self.spec_reserved(),
    {
        self.value & 0x40 != 0
    }

    #[verifier::when_used_as_spec(spec_timestamp_request)]
    pub fn timestamp_request(&self) -> (bit: bool)
        ensures
            bit == self.spec_timestamp_request(),
    {
        self.value & 0x80 != 0
    }

    /// Whether a transfer with this request byte may carry a data word in
    /// the request: a write, or a read that matches a value or sets the mask.
    pub open spec fn spec_takes_data(&self) -> bool {
        !self.spec_rnw() || self.spec_match_mask() || self.spec_value_match()
    }

    #[verifier::when_used_as_spec(spec_takes_data)]
    pub fn takes_data(&self) -> (allowed: bool)
        ensures
            allowed == self.spec_takes_data(),
    {
        !self.rnw() || self.match_mask() || self.value_match()
    }
}

/// The 2-bit address field of a command for address bits A3 and A2.
pub open spec fn spec_address_bits(a3: bool, a2: bool) -> u8 {
    ((if a3 {
        2int
    } else {
        0int
    }) + (if a2 {
        1int
    } else {
        0int
    })) as u8
}

#[verifier::when_used_as_spec(spec_address_bits)]
pub fn address_bits(a3: bool, a2: bool) -> (a: u8)
    ensures
        a == spec_address_bits(a3, a2),
        a < 4,
{
    let high: u8 = if a3 {
        2
    } else {
        0
    };
    let low: u8 = if a2 {
        1
    } else {
        0
    };
    high + low
}

/// One transfer of a `DapTransfer` request: its request byte, and the data
/// word that goes with it, if any.
#[derive(Copy, Clone, Debug, PartialEq, Eq, Structural)]
pub struct DapSingleTransfer {
    pub request: DapTransferRequest,
    pub data: Option<u32>,
}

#[derive(Debug, PartialEq, Eq)]
pub struct DapTransfer {
    pub dap_index: u8,
    /// Never zero.
    pub transfer_count: u8,
    pub transfers: Vec<DapSingleTransfer>,
}

pub struct DapTransferView {
    pub dap_index: u8,
    pub transfer_count: u8,
    pub transfers: Seq<DapSingleTransfer>,
}

impl View for DapTransfer {
    type V = DapTransferView;

    open spec fn view(&self) -> DapTransferView {
        DapTransferView {
            dap_index: self.dap_index,
            transfer_count: self.transfer_count,
            transfers: self.transfers@,
        }
    }
}

/// The request byte of a block transfer: bit 0 APnDP, bit 1 RnW, bits 2 and
/// 3 the address bits A2 and A3.
#[derive(Copy, Clone, Debug, PartialEq, Eq, Structural)]
pub struct DapTransferBlockRequest {
    pub value: u8,
}

impl DapTransferBlockRequest {
    pub open spec fn spec_apndp(&self) -> bool {
        self.value & 0x01 != 0
    }

    pub open spec fn spec_rnw(&self) -> bool {
        self.value & 0x02 != 0
    }

    pub open spec fn spec_a2(&self) -> bool {
        self.value & 0x04 != 0
    }

    pub open spec fn spec_a3(&self) -> bool {
        self.value & 0x08 != 0
    }

    #[verifier::when_used_as_spec(spec_apndp)]
    pub fn apndp(&self) -> (bit: bool)
        ensures
            bit == self.spec_apndp(),
    {
        self.value & 0x01 != 0
    }

    #[verifier::when_used_as_spec(spec_rnw)]
    pub fn rnw(&self) -> (bit: bool)
        ensures
            bit == self.spec_rnw(),
    {
        self.value & 0x02 != 0
    }

    #[verifier::when_used_as_spec(spec_a2)]
    pub fn a2(&self) -> (bit: bool)
        ensures
            bit == self.spec_a2(),
    {
        self.value & 0x04 != 0
    }

    #[verifier::when_used_as_spec(spec_a3)]
    pub fn a3(&self) -> (bit: bool)
        ensures
            bit == self.spec_a3(),
    {
        self.value & 0x08 != 0
    }
}

#[derive(Debug, PartialEq, Eq)]
pub struct DapTransferBlock {
    pub dap_index: u8,
    /// Never zero.
    pub transfer_count: u16,
    pub request: DapTransferBlockRequest,
    pub data: Vec<u32>,
}

pub struct DapTransferBlockView {
    pub dap_index: u8,
    pub transfer_count: u16,
    pub request: DapTransferBlockRequest,
    pub data: Seq<u32>,
}

impl View for DapTransferBlock {
    type V = DapTransferBlockView;

    open spec fn view(&self) -> DapTransferBlockView {
        DapTransferBlockView {
            dap_index: self.dap_index,
            transfer_count: self.transfer_count,
            request: self.request,
            data: self.data@,
        }
    }
}

#[derive(Copy, Clone, Debug, PartialEq, Eq, Structural)]
pub struct DapWriteAbort {
    pub dap_index: u8,
    pub abort: u32,
}

#[derive(Copy, Clone, Debug, PartialEq, Eq, Structural)]
pub struct DapSwjClock {
    pub clock: u32,
}

#[derive(Debug, PartialEq, Eq)]
pub struct DapSwjSequence {
    /// Number of bits in the sequence, 1 to 256.
    pub bit_count: usize,
    /// The bits, eight to a byte: at most `ceil(bit_count / 8)` bytes.
    pub bit_data: Vec<u8>,
}

pub struct DapSwjSequenceView {
    pub bit_count: usize,
    pub bit_data: Seq<u8>,
}

impl View for DapSwjSequence {
    type V = DapSwjSequenceView;

    open spec fn view(&self) -> DapSwjSequenceView {
        DapSwjSequenceView { bit_count: self.bit_count, bit_data: self.bit_data@ }
    }
}

/// The SWD configuration: bits 1:0 the turnaround clock period, bit 2 the
/// data phase. The value is below 8.
#[derive(Copy, Clone, Debug, PartialEq, Eq, Structural)]
pub struct DapSwdConfigure {
    pub value: u8,
}

impl DapSwdConfigure {
    pub open spec fn spec_turnaround_clock_period(&self) -> u8 {
        self.value & 0x03
    }

    pub open spec fn spec_data_phase(&self) -> bool {
        self.value & 0x04 != 0
    }

    #[verifier::when_used_as_spec(spec_turnaround_clock_period)]
    pub fn turnaround_clock_period(&self) -> (period: u8)
        ensures
            period == self.spec_turnaround_clock_period(),
    {
        self.value & 0x03
    }

    #[verifier::when_used_as_spec(spec_data_phase)]
    pub fn data_phase(&self) -> (bit: bool)
        ensures
            bit == self.spec_data_phase(),
    {
        self.value & 0x04 != 0
    }
}

} // verus!
