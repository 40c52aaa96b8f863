//! Access-port registers that the machine keeps: CSW and IDR.

use vstd::prelude::*;
use crate::regdoctor_adios_ext::CswType;

verus! {

/// Each field of CSW and IDR fits the type it is handed out in.
pub proof fn lemma_word_ranges(value: u32)
    ensures
        (value >> 24) & 0x7F < 128,
        value & 0xF < 16,
        (value >> 4) & 0xF < 16,
        (value >> 8) & 0x1F < 32,
        (value >> 13) & 0xF < 16,
        (value >> 17) & 0x7FF < 2048,
        value >> 28 < 16,
{
    assert({
        &&& (value >> 24) & 0x7F < 128
        &&& value & 0xF < 16
        &&& (value >> 4) & 0xF < 16
        &&& (value >> 8) & 0x1F < 32
        &&& (value >> 13) & 0xF < 16
        &&& (value >> 17) & 0x7FF < 2048
        &&& value >> 28 < 16
    }) by (bit_vector);
}

/// Width of one MEM-AP transfer.
#[derive(Copy, Clone, Debug, PartialEq, Eq, Structural)]
pub enum CswSize {
    Byte,
    Halfword,
    Word,
}

impl CswSize {
    /// Bytes moved by one transfer of this size.
    pub open spec fn spec_bytes(&self) -> u32 {
        match self {
            CswSize::Byte => 1,
            CswSize::Halfword => 2,
            CswSize::Word => 4,
        }
    }

    #[verifier::when_used_as_spec(spec_bytes)]
    pub fn bytes(&self) -> (n: u32)
        ensures
            n == self.spec_bytes(),
    {
        match self {
            CswSize::Byte => 1,
            CswSize::Halfword => 2,
            CswSize::Word => 4,
        }
    }
}

impl Default for CswSize {
    fn default() -> (size: CswSize)
        ensures
            size == CswSize::Byte,
    {
        CswSize::Byte
    }
}

/// Whether TAR moves on after a transfer through DRW.
#[derive(Copy, Clone, Debug, PartialEq, Eq, Structural)]
pub enum CswAddrInc {
    Disabled,
    Single,
}

impl Default for CswAddrInc {
    fn default() -> (inc: CswAddrInc)
        ensures
            inc == CswAddrInc::Disabled,
    {
        CswAddrInc::Disabled
    }
}

/// A word that is no CSW this machine supports: its size code is above
/// `0b010`, or its address-increment code above `0b01`.
#[derive(Copy, Clone, Debug, PartialEq, Eq, Structural)]
pub struct BitsError;

/// Mask of the CSW bits that a write changes: size, address increment,
/// transfer in progress and protection.
pub const CSW_RW_MASK: u32 = 0x7F00_00B7;

/// Whether `value` carries a supported size code and address-increment code.
pub open spec fn csw_supported(value: u32) -> bool {
    value & 0x7 <= 2 && (value >> 4) & 0x3 <= 1
}

/// The MEM-AP Control/Status Word.
///
/// Bits 2:0 hold the size, bits 5:4 the address increment, bit 6 device
/// enable, bit 7 transfer in progress, bit 23 secure debug, bits 30:24
/// protection and bit 31 debug software enable. The rest is reserved and kept
/// as it came.
#[derive(Copy, Clone, Debug, PartialEq, Eq, Structural)]
pub struct Csw {
    pub value: u32,
}

impl Csw {
    /// The word holds a supported size and address increment.
    pub open spec fn wf(&self) -> bool {
        csw_supported(self.value)
    }

    pub open spec fn spec_size(&self) -> CswSize {
        if self.value & 0x7 == 0 {
            CswSize::Byte
        } else if self.value & 0x7 == 1 {
            CswSize::Halfword
        } else {
            CswSize::Word
        }
    }

    pub open spec fn spec_addr_inc(&self) -> CswAddrInc {
        if (self.value >> 4) & 0x3 == 0 {
            CswAddrInc::Disabled
        } else {
            CswAddrInc::Single
        }
    }

    pub open spec fn spec_device_en(&self) -> bool {
        (self.value >> 6) & 1 == 1
    }

    pub open spec fn spec_transfer_in_progress(&self) -> bool {
        (self.value >> 7) & 1 == 1
    }

    pub open spec fn spec_secure_debug(&self) -> bool {
        (self.value >> 23) & 1 == 1
    }

    pub open spec fn spec_protection(&self) -> u8 {
        ((self.value >> 24) & 0x7F) as u8
    }

    pub open spec fn spec_dbg_sw_enable(&self) -> bool {
        (self.value >> 31) & 1 == 1
    }

    /// Whether the word holds a supported size and address increment.
    pub fn is_wf(&self) -> (ok: bool)
        ensures
            ok == self.wf(),
    {
        self.value & 0x7 <= 2 && (self.value >> 4) & 0x3 <= 1
    }

    /// Reads `value` as a CSW, if its size and address increment are supported.
    pub fn try_from(value: u32) -> (result: Result<Csw, BitsError>)
        ensures
            csw_supported(value) ==> result == Ok::<Csw, BitsError>(Csw { value }),
            !csw_supported(value) ==> result == Err::<Csw, BitsError>(BitsError),
    {
        if value & 0x7 <= 2 && (value >> 4) & 0x3 <= 1 {
            Ok(Csw { value })
        } else {
            Err(BitsError)
        }
    }

    #[verifier::when_used_as_spec(spec_size)]
    pub fn size(&self) -> (size: CswSize)
        ensures
            size == self.spec_size(),
    {
        let code: u32 = self.value & 0x7;
        if code == 0 {
            CswSize::Byte
        } else if code == 1 {
            CswSize::Halfword
        } else {
            CswSize::Word
        }
    }

    #[verifier::when_used_as_spec(spec_addr_inc)]
    pub fn addr_inc(&self) -> (inc: CswAddrInc)
        ensures
            inc == self.spec_addr_inc(),
    {
        if (self.value >> 4) & 0x3 == 0 {
            CswAddrInc::Disabled
        } else {
            CswAddrInc::Single
        }
    }

    #[verifier::when_used_as_spec(spec_device_en)]
    pub fn device_en(&self) -> (bit: bool)
        ensures
            bit == self.spec_device_en(),
    {
        (self.value >> 6) & 1 == 1
    }

    #[verifier::when_used_as_spec(spec_transfer_in_progress)]
    pub fn transfer_in_progress(&self) -> (bit: bool)
        ensures
            bit == self.spec_transfer_in_progress(),
    {
        (self.value >> 7) & 1 == 1
    }

    #[verifier::when_used_as_spec(spec_secure_debug)]
    pub fn secure_debug(&self) -> (bit: bool)
        ensures
            bit == self.spec_secure_debug(),
    {
        (self.value >> 23) & 1 == 1
    }

    #[verifier::when_used_as_spec(spec_protection)]
    pub fn protection(&self) -> (bits: u8)
        ensures
            bits == self.spec_protection(),
            bits < 128,
    {
        proof {
            lemma_word_ranges(self.value);
        }
        ((self.value >> 24) & 0x7F) as u8
    }

    #[verifier::when_used_as_spec(spec_dbg_sw_enable)]
    pub fn dbg_sw_enable(&self) -> (bit: bool)
        ensures
            bit == self.spec_dbg_sw_enable(),
    {
        (self.value >> 31) & 1 == 1
    }

    /// The word after a write of `other` to a CSW that held `self`: the
    /// read-write fields come from `other`, every other bit stays.
    pub open spec fn overwritten(self, other: Csw) -> Csw {
        Csw { value: (self.value & !CSW_RW_MASK) | (other.value & CSW_RW_MASK) }
    }

    /// Takes size, address increment, transfer in progress and protection
    /// from `other` and keeps the rest.
    pub fn overwrite_rw_fields(&mut self, other: &Csw)
        ensures
            *final(self) == old(self).overwritten(*other),
    {
        self.value = (self.value & !CSW_RW_MASK) | (other.value & CSW_RW_MASK);
    }
}

impl Default for Csw {
    fn default() -> (csw: Csw)
        ensures
            csw.value == 0,
    {
        Csw { value: 0 }
    }
}

/// A write changes exactly the four read-write fields, and what it leaves is
/// again a supported CSW.
pub proof fn lemma_overwritten_fields(old_csw: Csw, new_csw: Csw)
    requires
        new_csw.wf(),
    ensures
        ({
            let csw = old_csw.overwritten(new_csw);
            &&& csw.wf()
            &&& csw.spec_size() == new_csw.spec_size()
            &&& csw.spec_addr_inc() == new_csw.spec_addr_inc()
            &&& csw.spec_transfer_in_progress() == new_csw.spec_transfer_in_progress()
            &&& csw.spec_protection() == new_csw.spec_protection()
            &&& csw.spec_device_en() == old_csw.spec_device_en()
            &&& csw.spec_secure_debug() == old_csw.spec_secure_debug()
            &&& csw.spec_dbg_sw_enable() == old_csw.spec_dbg_sw_enable()
            &&& csw.value & !CSW_RW_MASK == old_csw.value & !CSW_RW_MASK
        }),
{
    let o: u32 = old_csw.value;
    let n: u32 = new_csw.value;
    let c: u32 = (o & !0x7F00_00B7u32) | (n & 0x7F00_00B7u32);
    assert({
        &&& c & 0x7 == n & 0x7
        &&& (c >> 4) & 0x3 == (n >> 4) & 0x3
        &&& (c >> 7) & 1 == (n >> 7) & 1
        &&& (c >> 24) & 0x7F == (n >> 24) & 0x7F
        &&& (c >> 6) & 1 == (o >> 6) & 1
        &&& (c >> 23) & 1 == (o >> 23) & 1
        &&& (c >> 31) & 1 == (o >> 31) & 1
        &&& c & !0x7F00_00B7u32 == o & !0x7F00_00B7u32
    }) by (bit_vector)
        requires
            c == (o & !0x7F00_00B7u32) | (n & 0x7F00_00B7u32),
    ;
}

/// What kind of bus or port an AP is, from bits 3:0 of its IDR.
#[derive(Copy, Clone, Debug, PartialEq, Eq, Structural)]
pub enum IdrType {
    JtagConnectionOrComAp,
    AmbaAhb3Bus,
    AmbaApb2OrApb3Bus,
    AmbaAxi3OrAxi4BusWithOptionalAceLiteSupport,
    AmbaAhb5Bus,
    AmbaApb4AndApb5Bus,
    AmbaAxi5Bus,
    AmbaAhb5WithEnhancedHprot,
    /// A code without a meaning of its own.
    Reserved(u8),
}

impl IdrType {
    /// The type that the 4-bit `code` stands for.
    pub open spec fn of_code(code: u8) -> IdrType {
        if code == 0x0 {
            IdrType::JtagConnectionOrComAp
        } else if code == 0x1 {
            IdrType::AmbaAhb3Bus
        } else if code == 0x2 {
            IdrType::AmbaApb2OrApb3Bus
        } else if code == 0x4 {
            IdrType::AmbaAxi3OrAxi4BusWithOptionalAceLiteSupport
        } else if code == 0x5 {
            IdrType::AmbaAhb5Bus
        } else if code == 0x6 {
            IdrType::AmbaApb4AndApb5Bus
        } else if code == 0x7 {
            IdrType::AmbaAxi5Bus
        } else if code == 0x8 {
            IdrType::AmbaAhb5WithEnhancedHprot
        } else {
            IdrType::Reserved(code)
        }
    }

    pub open spec fn spec_is_unknown(&self) -> bool {
        *self == IdrType::Reserved(0)
    }

    /// Whether this is the value that stands for "no type known".
    #[verifier::when_used_as_spec(spec_is_unknown)]
    pub fn is_unknown(&self) -> (unknown: bool)
        ensures
            unknown == self.spec_is_unknown(),
    {
        match self {
            IdrType::Reserved(code) => *code == 0,
            _ => false,
        }
    }

    pub open spec fn spec_csw_type(&self) -> CswType {
        match self {
            IdrType::AmbaAhb3Bus => CswType::AmbaAhb3,
            _ => CswType::Generic,
        }
    }

    /// The CSW layout that an AP of this type uses.
    #[verifier::when_used_as_spec(spec_csw_type)]
    pub fn csw_type(&self) -> (csw_type: CswType)
        ensures
            csw_type == self.spec_csw_type(),
    {
        match self {
            IdrType::AmbaAhb3Bus => CswType::AmbaAhb3,
            _ => CswType::Generic,
        }
    }
}

impl Default for IdrType {
    fn default() -> (idr_type: IdrType)
        ensures
            idr_type == IdrType::Reserved(0),
    {
        IdrType::Reserved(0)
    }
}

/// The class of an AP, from bits 16:13 of its IDR.
#[derive(Copy, Clone, Debug, PartialEq, Eq, Structural)]
pub enum IdrClass {
    Undefined,
    ComAccessPort,
    MemoryAccessPort,
}

impl IdrClass {
    /// The class that the 4-bit `code` stands for; codes without a meaning
    /// are `Undefined`.
    pub open spec fn of_code(code: u8) -> IdrClass {
        if code == 0b0001 {
            IdrClass::ComAccessPort
        } else if code == 0b1000 {
            IdrClass::MemoryAccessPort
        } else {
            IdrClass::Undefined
        }
    }
}

impl Default for IdrClass {
    fn default() -> (class: IdrClass)
        ensures
            class == IdrClass::Undefined,
    {
        IdrClass::Undefined
    }
}

/// The AP Identification Register.
///
/// Bits 3:0 hold the type, bits 7:4 the variant, bits 16:13 the class, bits
/// 27:17 the designer and bits 31:28 the revision.
#[derive(Copy, Clone, Debug, PartialEq, Eq, Structural)]
pub struct Idr {
    pub value: u32,
}

impl Idr {
    pub open spec fn spec_type_(&self) -> IdrType {
        IdrType::of_code((self.value & 0xF) as u8)
    }

    pub open spec fn spec_variant(&self) -> u8 {
        ((self.value >> 4) & 0xF) as u8
    }

    pub open spec fn spec_res0(&self) -> u8 {
        ((self.value >> 8) & 0x1F) as u8
    }

    pub open spec fn spec_class(&self) -> IdrClass {
        IdrClass::of_code(((self.value >> 13) & 0xF) as u8)
    }

    pub open spec fn spec_designed(&self) -> u16 {
        ((self.value >> 17) & 0x7FF) as u16
    }

    pub open spec fn spec_revision(&self) -> u8 {
        (self.value >> 28) as u8
    }

    /// The register as its 32-bit word.
    pub fn from(value: u32) -> (idr: Idr)
        ensures
            idr.value == value,
    {
        Idr { value }
    }

    #[verifier::when_used_as_spec(spec_type_)]
    pub fn type_(&self) -> (idr_type: IdrType)
        ensures
            idr_type == self.spec_type_(),
    {
        proof {
            lemma_word_ranges(self.value);
        }
        let code: u8 = (self.value & 0xF) as u8;
        if code == 0x0 {
            IdrType::JtagConnectionOrComAp
        } else if code == 0x1 {
            IdrType::AmbaAhb3Bus
        } else if code == 0x2 {
            IdrType::AmbaApb2OrApb3Bus
        } else if code == 0x4 {
            IdrType::AmbaAxi3OrAxi4BusWithOptionalAceLiteSupport
        } else if code == 0x5 {
            IdrType::AmbaAhb5Bus
        } else if code == 0x6 {
            IdrType::AmbaApb4AndApb5Bus
        } else if code == 0x7 {
            IdrType::AmbaAxi5Bus
        } else if code == 0x8 {
            IdrType::AmbaAhb5WithEnhancedHprot
        } else {
            IdrType::Reserved(code)
        }
    }

    #[verifier::when_used_as_spec(spec_variant)]
    pub fn variant(&self) -> (bits: u8)
        ensures
            bits == self.spec_variant(),
            bits < 16,
    {
        proof {
            lemma_word_ranges(self.value);
        }
        ((self.value >> 4) & 0xF) as u8
    }

    #[verifier::when_used_as_spec(spec_res0)]
    pub fn res0(&self) -> (bits: u8)
        ensures
            bits == self.spec_res0(),
            bits < 32,
    {
        proof {
            lemma_word_ranges(self.value);
        }
        ((self.value >> 8) & 0x1F) as u8
    }

    #[verifier::when_used_as_spec(spec_class)]
    pub fn class(&self) -> (class: IdrClass)
        ensures
            class == self.spec_class(),
    {
        proof {
            lemma_word_ranges(self.value);
        }
        let code: u8 = ((self.value >> 13) & 0xF) as u8;
        if code == 0b0001 {
            IdrClass::ComAccessPort
        } else if code == 0b1000 {
            IdrClass::MemoryAccessPort
        } else {
            IdrClass::Undefined
        }
    }

    #[verifier::when_used_as_spec(spec_designed)]
    pub fn designed(&self) -> (bits: u16)
        ensures
            bits == self.spec_designed(),
            bits < 2048,
    {
        proof {
            lemma_word_ranges(self.value);
        }
        ((self.value >> 17) & 0x7FF) as u16
    }

    #[verifier::when_used_as_spec(spec_revision)]
    pub fn revision(&self) -> (bits: u8)
        ensures
            bits == self.spec_revision(),
            bits < 16,
    {
        proof {
            lemma_word_ranges(self.value);
        }
        (self.value >> 28) as u8
    }
}

impl Default for Idr {
    fn default() -> (idr: Idr)
        ensures
            idr.value == 0,
    {
        Idr { value: 0 }
    }
}

} // verus!
