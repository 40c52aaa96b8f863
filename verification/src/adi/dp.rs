//! Debug-port registers that the machine keeps.

use vstd::prelude::*;

verus! {

/// The DP SELECT register: which AP, and which register bank of the AP and
/// of the DP, the accesses that follow address.
///
/// Bits 3:0 are DPBANKSEL, bits 7:4 APBANKSEL, bits 23:8 reserved and bits
/// 31:24 APSEL.
#[derive(Copy, Clone, Debug, PartialEq, Eq, Structural)]
pub struct Select {
    pub value: u32,
}

impl Select {
    pub open spec fn spec_dpbanksel(&self) -> u8 {
        (self.value & 0xF) as u8
    }

    pub open spec fn spec_apbanksel(&self) -> u8 {
        ((self.value >> 4) & 0xF) as u8
    }

    pub open spec fn spec_reserved(&self) -> u16 {
        ((self.value >> 8) & 0xFFFF) as u16
    }

    pub open spec fn spec_apsel(&self) -> u8 {
        (self.value >> 24) as u8
    }

    /// The register as its 32-bit word.
    pub fn from(value: u32) -> (select: Select)
        ensures
            select.value == value,
    {
        Select { value }
    }

    #[verifier::when_used_as_spec(spec_dpbanksel)]
    pub fn dpbanksel(&self) -> (bank: u8)
        ensures
            bank == self.spec_dpbanksel(),
            bank < 16,
    {
        proof {
            lemma_select_ranges(self.value);
        }
        (self.value & 0xF) as u8
    }

    #[verifier::when_used_as_spec(spec_apbanksel)]
    pub fn apbanksel(&self) -> (bank: u8)
        ensures
            bank == self.spec_apbanksel(),
            bank < 16,
    {
        proof {
            lemma_select_ranges(self.value);
        }
        ((self.value >> 4) & 0xF) as u8
    }

    #[verifier::when_used_as_spec(spec_reserved)]
    pub fn reserved(&self) -> (bits: u16)
        ensures
            bits == self.spec_reserved(),
    {
        proof {
            lemma_select_ranges(self.value);
        }
        ((self.value >> 8) & 0xFFFF) as u16
    }

    #[verifier::when_used_as_spec(spec_apsel)]
    pub fn apsel(&self) -> (ap: u8)
        ensures
            ap == self.spec_apsel(),
    {
        proof {
            lemma_select_ranges(self.value);
        }
        (self.value >> 24) as u8
    }
}

/// Each field of SELECT fits the type it is handed out in.
pub proof fn lemma_select_ranges(value: u32)
    ensures
        value & 0xF < 16,
        (value >> 4) & 0xF < 16,
        (value >> 8) & 0xFFFF < 0x10000,
        value >> 24 < 256,
{
    assert({
        &&& value & 0xF < 16
        &&& (value >> 4) & 0xF < 16
        &&& (value >> 8) & 0xFFFF < 0x10000
        &&& value >> 24 < 256
    }) by (bit_vector);
}

impl Default for Select {
    fn default() -> (select: Select)
        ensures
            select.value == 0,
    {
        Select { value: 0 }
    }
}

} // verus!
