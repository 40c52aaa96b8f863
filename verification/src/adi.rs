//! The ADIv5 virtual machine: a DP with its SELECT register, 256 APs with
//! CSW, TAR, IDR and a sparse memory each, and the step that moves them.

pub mod ap;
pub mod dp;

use std::collections::HashMap;
use vstd::prelude::*;
use vstd::std_specs::iter::IteratorSpec;
use crate::adi::ap::{csw_supported, lemma_overwritten_fields, Csw, CswAddrInc, CswSize, Idr};
use crate::adi::dp::Select;
use crate::common::{Command, Input, InputView, Landmark, LandmarkView, Timestamp};

verus! {

broadcast use vstd::std_specs::hash::group_hash_axioms;

/// Number of access ports that SELECT can address.
pub const AP_COUNT: usize = 256;

/// The debug port.
#[derive(Copy, Clone, Debug, PartialEq, Eq, Structural)]
pub struct Dp {
    pub select: Select,
}

impl Default for Dp {
    fn default() -> (dp: Dp)
        ensures
            dp.select.value == 0,
    {
        Dp { select: Select { value: 0 } }
    }
}

/// One access port: what the trace has shown of its registers, and the
/// memory seen through it, in 32-bit cells keyed by their address.
#[derive(Debug, PartialEq, Eq)]
pub struct Ap {
    pub memory: HashMap<u32, u32>,
    pub tar: Option<u32>,
    pub csw: Option<Csw>,
    pub idr: Option<Idr>,
}

pub struct ApView {
    pub memory: Map<u32, u32>,
    pub tar: Option<u32>,
    pub csw: Option<Csw>,
    pub idr: Option<Idr>,
}

impl ApView {
    /// An access port of which nothing is known yet.
    pub open spec fn empty() -> ApView {
        ApView { memory: Map::empty(), tar: None, csw: None, idr: None }
    }

    /// The cell at `key`; a cell never written reads as zero.
    pub open spec fn cell(&self, key: u32) -> u32 {
        if self.memory.contains_key(key) {
            self.memory[key]
        } else {
            0
        }
    }
}

impl View for Ap {
    type V = ApView;

    open spec fn view(&self) -> ApView {
        ApView { memory: self.memory@, tar: self.tar, csw: self.csw, idr: self.idr }
    }
}

impl Clone for Ap {
    fn clone(&self) -> (ap: Ap)
        ensures
            ap@ == self@,
    {
        Ap { memory: self.memory.clone(), tar: self.tar, csw: self.csw, idr: self.idr }
    }
}

impl Default for Ap {
    fn default() -> (ap: Ap)
        ensures
            ap@ == ApView::empty(),
    {
        Ap { memory: HashMap::new(), tar: None, csw: None, idr: None }
    }
}

/// How a memory cell seen through an AP differs between two states.
#[derive(Copy, Clone, Debug, PartialEq, Eq, Structural)]
pub enum MemoryChange {
    /// A cell that the earlier state did not have.
    New { address: u32, value: u32 },
    /// A cell that holds another value than it did.
    Updated { address: u32, old: u32, new: u32 },
}

impl MemoryChange {
    pub open spec fn spec_address(&self) -> u32 {
        match self {
            MemoryChange::New { address, .. } => *address,
            MemoryChange::Updated { address, .. } => *address,
        }
    }

    /// The address of the cell.
    #[verifier::when_used_as_spec(spec_address)]
    pub fn address(&self) -> (address: u32)
        ensures
            address == self.spec_address(),
    {
        match self {
            MemoryChange::New { address, .. } => *address,
            MemoryChange::Updated { address, .. } => *address,
        }
    }
}

/// How the cell at `address` differs between the memory `previous` and the
/// memory `current`, if `current` has it and it differs.
pub open spec fn memory_change_at(
    previous: Map<u32, u32>,
    current: Map<u32, u32>,
    address: u32,
) -> Option<MemoryChange> {
    if !current.contains_key(address) {
        None
    } else if !previous.contains_key(address) {
        Some(MemoryChange::New { address, value: current[address] })
    } else if previous[address] != current[address] {
        Some(MemoryChange::Updated { address, old: previous[address], new: current[address] })
    } else {
        None
    }
}

/// How the CSW of an AP differs between two states.
#[derive(Copy, Clone, Debug, PartialEq, Eq, Structural)]
pub enum CswChange {
    /// The earlier state did not know the CSW.
    Appeared(Csw),
    /// The CSW holds another word than it did.
    Changed { old: Csw, new: Csw },
}

/// How a CSW that was `previous` and is `current` differs, if it does.
pub open spec fn csw_change_of(previous: Option<Csw>, current: Option<Csw>) -> Option<CswChange> {
    match (previous, current) {
        (None, Some(new)) => Some(CswChange::Appeared(new)),
        (Some(old), Some(new)) => if old.value != new.value {
            Some(CswChange::Changed { old, new })
        } else {
            None
        },
        _ => None,
    }
}

impl Ap {
    /// The memory cells of this state that `previous` did not have or that
    /// hold another value than in `previous`: each once, in no order.
    pub fn memory_changes(&self, previous: &Ap) -> (changes: Vec<MemoryChange>)
        ensures
            forall|i: int|
                0 <= i < changes.len() ==> memory_change_at(
                    previous@.memory,
                    self@.memory,
                    (#[trigger] changes[i]).spec_address(),
                ) == Some(changes[i]),
            forall|address: u32|
                memory_change_at(previous@.memory, self@.memory, address) is Some ==> exists|i: int|
                    0 <= i < changes.len() && (#[trigger] changes[i]).spec_address() == address,
            forall|i: int, j: int|
                0 <= i < j < changes.len() ==> (#[trigger] changes[i]).spec_address() != (
                #[trigger] changes[j]).spec_address(),
    {
        let mut changes: Vec<MemoryChange> = Vec::new();
        let keys = self.memory.keys();
        let ghost addresses = keys.remaining().unref();
        // Where among the addresses each change comes from.
        let ghost mut origin: Seq<int> = Seq::empty();
        assert(addresses.to_set() == self.memory@.dom());
        assert(addresses.no_duplicates());
        for key in iter: keys
            invariant
                addresses == iter.seq().unref(),
                addresses.to_set() == self.memory@.dom(),
                addresses.no_duplicates(),
                origin.len() == changes.len(),
                forall|i: int|
                    0 <= i < changes.len() ==> 0 <= (#[trigger] origin[i]) < iter.index()
                        && addresses[origin[i]] == changes[i].spec_address(),
                forall|i: int|
                    0 <= i < changes.len() ==> memory_change_at(
                        previous@.memory,
                        self@.memory,
                        (#[trigger] changes[i]).spec_address(),
                    ) == Some(changes[i]),
                forall|k: int|
                    0 <= k < iter.index() && memory_change_at(
                        previous@.memory,
                        self@.memory,
                        #[trigger] addresses[k],
                    ) is Some ==> exists|i: int|
                        0 <= i < changes.len() && (#[trigger] changes[i]).spec_address()
                            == addresses[k],
                forall|i: int, j: int|
                    0 <= i < j < changes.len() ==> (#[trigger] changes[i]).spec_address() != (
                    #[trigger] changes[j]).spec_address(),
        {
            let address: u32 = *key;
            let ghost at = iter.index() as int;
            assert(addresses[at] == address);
            assert(addresses.to_set().contains(address));
            let ghost before = changes@;
            let new: u32 = match self.memory.get(&address) {
                Some(new) => *new,
                None => 0,
            };
            let change: Option<MemoryChange> = match previous.memory.get(&address) {
                Some(old) => if *old != new {
                    Some(MemoryChange::Updated { address, old: *old, new })
                } else {
                    None
                },
                None => Some(MemoryChange::New { address, value: new }),
            };
            assert(change == memory_change_at(previous@.memory, self@.memory, address));
            match change {
                Some(change) => {
                    changes.push(change);
                    proof {
                        origin = origin.push(at);
                    }
                    assert forall|i: int, j: int| 0 <= i < j < changes.len() implies (
                    #[trigger] changes[i]).spec_address() != (
                    #[trigger] changes[j]).spec_address() by {
                        if j == before.len() {
                            assert(addresses[origin[i]] != addresses[at]);
                        }
                    }
                    assert forall|k: int|
                        0 <= k < at + 1 && memory_change_at(
                            previous@.memory,
                            self@.memory,
                            #[trigger] addresses[k],
                        ) is Some implies exists|i: int|
                        0 <= i < changes.len() && (#[trigger] changes[i]).spec_address()
                            == addresses[k] by {
                        if k < at {
                            let i = choose|i: int|
                                0 <= i < before.len() && (#[trigger] before[i]).spec_address()
                                    == addresses[k];
                            assert(changes[i].spec_address() == addresses[k]);
                        } else {
                            assert(changes[before.len() as int].spec_address() == addresses[k]);
                        }
                    }
                },
                None => {},
            }
        }
        assert forall|address: u32|
            memory_change_at(previous@.memory, self@.memory, address) is Some implies exists|i: int|
            0 <= i < changes.len() && (#[trigger] changes[i]).spec_address() == address by {
            assert(addresses.to_set().contains(address));
            let k = choose|k: int| 0 <= k < addresses.len() && addresses[k] == address;
            assert(memory_change_at(previous@.memory, self@.memory, addresses[k]) is Some);
        }
        changes
    }

    /// How the CSW of this state differs from that of `previous`, if it
    /// does.
    pub fn csw_change(&self, previous: &Ap) -> (change: Option<CswChange>)
        ensures
            change == csw_change_of(previous@.csw, self@.csw),
    {
        match (previous.csw, self.csw) {
            (None, Some(new)) => Some(CswChange::Appeared(new)),
            (Some(old), Some(new)) => if old.value != new.value {
                Some(CswChange::Changed { old, new })
            } else {
                None
            },
            _ => None,
        }
    }
}

/// Direction of an access.
#[derive(Copy, Clone, Debug, PartialEq, Eq, Structural)]
pub enum RoW {
    R,
    W,
}

impl RoW {
    /// The direction that a command's `rnw` bit stands for.
    pub open spec fn spec_of_rnw(rnw: bool) -> RoW {
        if rnw {
            RoW::R
        } else {
            RoW::W
        }
    }

    #[verifier::when_used_as_spec(spec_of_rnw)]
    pub fn of_rnw(rnw: bool) -> (rw: RoW)
        ensures
            rw == RoW::spec_of_rnw(rnw),
    {
        if rnw {
            RoW::R
        } else {
            RoW::W
        }
    }

    pub open spec fn spec_arrow(&self) -> Seq<char> {
        match self {
            RoW::R => "→"@,
            RoW::W => "←"@,
        }
    }

    /// The arrow that points the way the data went.
    pub fn arrow(&self) -> (arrow: &'static str)
        ensures
            arrow@ == self.spec_arrow(),
    {
        match self {
            RoW::R => "→",
            RoW::W => "←",
        }
    }

    pub open spec fn spec_letter(&self) -> Seq<char> {
        match self {
            RoW::R => "R"@,
            RoW::W => "W"@,
        }
    }

    /// `R` or `W`.
    pub fn letter(&self) -> (letter: &'static str)
        ensures
            letter@ == self.spec_letter(),
    {
        match self {
            RoW::R => "R",
            RoW::W => "W",
        }
    }
}

/// The datum of one MEM-AP transfer, in the width it was made with.
#[derive(Copy, Clone, Debug, PartialEq, Eq, Structural)]
pub enum MemApValue {
    Word(u32),
    Halfword(u16),
    Byte(u8),
}

impl MemApValue {
    pub open spec fn spec_as_(&self) -> u32 {
        match *self {
            MemApValue::Word(v) => v,
            MemApValue::Halfword(v) => v as u32,
            MemApValue::Byte(v) => v as u32,
        }
    }

    /// The datum, zero-extended to a word.
    #[verifier::when_used_as_spec(spec_as_)]
    pub fn as_(&self) -> (word: u32)
        ensures
            word == self.spec_as_(),
    {
        match *self {
            MemApValue::Word(v) => v,
            MemApValue::Halfword(v) => v as u32,
            MemApValue::Byte(v) => v as u32,
        }
    }

    /// The surfaced word `value` as a datum of `size`.
    pub open spec fn spec_of_size(size: CswSize, value: u32) -> MemApValue {
        match size {
            CswSize::Word => MemApValue::Word(value),
            CswSize::Halfword => MemApValue::Halfword(value as u16),
            CswSize::Byte => MemApValue::Byte(value as u8),
        }
    }

    #[verifier::when_used_as_spec(spec_of_size)]
    pub fn of_size(size: CswSize, value: u32) -> (datum: MemApValue)
        ensures
            datum == MemApValue::spec_of_size(size, value),
    {
        match size {
            CswSize::Word => MemApValue::Word(value),
            CswSize::Halfword => MemApValue::Halfword(#[verifier::truncate] (value as u16)),
            CswSize::Byte => MemApValue::Byte(#[verifier::truncate] (value as u8)),
        }
    }
}

/// What one command did, seen from above the wire.
#[allow(inconsistent_fields)]
#[derive(Debug, PartialEq, Eq)]
pub enum Operation {
    Landmark { metadata: Landmark },
    DpRegisterAccess { ts: Option<Timestamp>, rw: RoW, name: &'static str, value: u32 },
    ApRegisterAccess { ts: Option<Timestamp>, apsel: u8, rw: RoW, name: &'static str, value: u32 },
    MemAp { ts: Option<Timestamp>, apsel: u8, rw: RoW, address: u32, value: MemApValue },
}

#[allow(inconsistent_fields)]
pub enum OperationView {
    Landmark { metadata: LandmarkView },
    DpRegisterAccess { ts: Option<Timestamp>, rw: RoW, name: Seq<char>, value: u32 },
    ApRegisterAccess { ts: Option<Timestamp>, apsel: u8, rw: RoW, name: Seq<char>, value: u32 },
    MemAp { ts: Option<Timestamp>, apsel: u8, rw: RoW, address: u32, value: MemApValue },
}

impl View for Operation {
    type V = OperationView;

    open spec fn view(&self) -> OperationView {
        match self {
            Operation::Landmark { metadata } => OperationView::Landmark { metadata: metadata@ },
            Operation::DpRegisterAccess { ts, rw, name, value } => OperationView::DpRegisterAccess {
                ts: *ts,
                rw: *rw,
                name: name@,
                value: *value,
            },
            Operation::ApRegisterAccess {
                ts,
                apsel,
                rw,
                name,
                value,
            } => OperationView::ApRegisterAccess {
                ts: *ts,
                apsel: *apsel,
                rw: *rw,
                name: name@,
                value: *value,
            },
            Operation::MemAp { ts, apsel, rw, address, value } => OperationView::MemAp {
                ts: *ts,
                apsel: *apsel,
                rw: *rw,
                address: *address,
                value: *value,
            },
        }
    }
}

/// The views of a list of operations, element by element.
pub open spec fn operations_view(operations: Seq<Operation>) -> Seq<OperationView> {
    operations.map_values(|operation: Operation| operation@)
}

/// The name of the DP register at address `addr` (`0x0`, `0x4`, `0x8` or
/// `0xC`) for an access in direction `rw` while DPBANKSEL is `dpbanksel`;
/// `None` where the DP has no such register.
pub open spec fn dp_register_name(dpbanksel: u8, addr: u8, rw: RoW) -> Option<Seq<char>> {
    if addr == 0x0 {
        Some(
            if rw == RoW::R {
                "DPIDR"@
            } else {
                "ABORT"@
            },
        )
    } else if addr == 0x4 {
        if dpbanksel == 0x0 {
            Some("CTRL/STAT"@)
        } else if dpbanksel == 0x1 {
            Some("DLCR"@)
        } else if dpbanksel == 0x2 && rw == RoW::R {
            Some("TARGETID"@)
        } else if dpbanksel == 0x3 && rw == RoW::R {
            Some("DLPIDR"@)
        } else if dpbanksel == 0x4 && rw == RoW::R {
            Some("EVENTSTAT"@)
        } else {
            None
        }
    } else if addr == 0x8 {
        Some(
            if rw == RoW::R {
                "RESEND"@
            } else {
                "SELECT"@
            },
        )
    } else if addr == 0xC {
        Some(
            if rw == RoW::R {
                "RDBUFF"@
            } else {
                "TARGETSEL"@
            },
        )
    } else {
        None
    }
}

/// Looks the DP register up that an access addresses.
pub fn dp_register(dpbanksel: u8, addr: u8, rw: RoW) -> (name: Option<&'static str>)
    ensures
        name is Some <==> dp_register_name(dpbanksel, addr, rw) is Some,
        name is Some ==> name->0@ == dp_register_name(dpbanksel, addr, rw)->0,
{
    let read: bool = match rw {
        RoW::R => true,
        RoW::W => false,
    };
    if addr == 0x0 {
        Some(
            if read {
                "DPIDR"
            } else {
                "ABORT"
            },
        )
    } else if addr == 0x4 {
        if dpbanksel == 0x0 {
            Some("CTRL/STAT")
        } else if dpbanksel == 0x1 {
            Some("DLCR")
        } else if dpbanksel == 0x2 && read {
            Some("TARGETID")
        } else if dpbanksel == 0x3 && read {
            Some("DLPIDR")
        } else if dpbanksel == 0x4 && read {
            Some("EVENTSTAT")
        } else {
            None
        }
    } else if addr == 0x8 {
        Some(
            if read {
                "RESEND"
            } else {
                "SELECT"
            },
        )
    } else if addr == 0xC {
        Some(
            if read {
                "RDBUFF"
            } else {
                "TARGETSEL"
            },
        )
    } else {
        None
    }
}

/// The name of the AP register at `ap_addr`; `None` where the machine knows
/// no register.
pub open spec fn ap_register_name(ap_addr: int) -> Option<Seq<char>> {
    if ap_addr == 0x00 {
        Some("CSW"@)
    } else if ap_addr == 0x04 {
        Some("TAR"@)
    } else if ap_addr == 0x0C {
        Some("DRW"@)
    } else if ap_addr == 0x10 {
        Some("BD0"@)
    } else if ap_addr == 0x14 {
        Some("BD1"@)
    } else if ap_addr == 0x18 {
        Some("BD2"@)
    } else if ap_addr == 0x1C {
        Some("BD3"@)
    } else if ap_addr == 0xF4 {
        Some("CFG"@)
    } else if ap_addr == 0xF8 {
        Some("BASE"@)
    } else if ap_addr == 0xFC {
        Some("IDR"@)
    } else {
        None
    }
}

/// Looks the AP register up that an access addresses.
pub fn ap_register(ap_addr: u8) -> (name: Option<&'static str>)
    ensures
        name is Some <==> ap_register_name(ap_addr as int) is Some,
        name is Some ==> name->0@ == ap_register_name(ap_addr as int)->0,
{
    if ap_addr == 0x00 {
        Some("CSW")
    } else if ap_addr == 0x04 {
        Some("TAR")
    } else if ap_addr == 0x0C {
        Some("DRW")
    } else if ap_addr == 0x10 {
        Some("BD0")
    } else if ap_addr == 0x14 {
        Some("BD1")
    } else if ap_addr == 0x18 {
        Some("BD2")
    } else if ap_addr == 0x1C {
        Some("BD3")
    } else if ap_addr == 0xF4 {
        Some("CFG")
    } else if ap_addr == 0xF8 {
        Some("BASE")
    } else if ap_addr == 0xFC {
        Some("IDR")
    } else {
        None
    }
}

/// The AP register address that a command with address bits `a` reaches
/// while APBANKSEL is `apbanksel`: the bank in bits 7:4, `a` in bits 3:2.
pub open spec fn ap_address(apbanksel: u8, a: u8) -> int {
    apbanksel * 16 + a * 4
}

/// Whether a transfer of `size` may start at an address whose two low bits
/// are `tar_lo`.
pub open spec fn lane_valid(tar_lo: u32, size: CswSize) -> bool {
    match size {
        CswSize::Word => tar_lo == 0,
        CswSize::Halfword => tar_lo == 0 || tar_lo == 2,
        CswSize::Byte => tar_lo < 4,
    }
}

/// The memory cell after a transfer of `data` in `size` at byte lane
/// `tar_lo`, given that it held `cell`.
pub open spec fn lane_cell(cell: u32, data: u32, tar_lo: u32, size: CswSize) -> u32 {
    match size {
        CswSize::Word => data,
        CswSize::Halfword => if tar_lo == 0 {
            (cell & 0xFFFF_0000) | (data & 0x0000_FFFF)
        } else {
            (cell & 0x0000_FFFF) | (data & 0xFFFF_0000)
        },
        CswSize::Byte => if tar_lo == 0 {
            (cell & 0xFFFF_FF00) | (data & 0x0000_00FF)
        } else if tar_lo == 1 {
            (cell & 0xFFFF_00FF) | (data & 0x0000_FF00)
        } else if tar_lo == 2 {
            (cell & 0xFF00_FFFF) | (data & 0x00FF_0000)
        } else {
            (cell & 0x00FF_FFFF) | (data & 0xFF00_0000)
        },
    }
}

/// The value that a transfer of `data` in `size` at byte lane `tar_lo`
/// surfaces: the lane of `data`, moved down to bit 0.
pub open spec fn lane_value(data: u32, tar_lo: u32, size: CswSize) -> u32 {
    match size {
        CswSize::Word => data,
        CswSize::Halfword => if tar_lo == 0 {
            data & 0x0000_FFFF
        } else {
            (data & 0xFFFF_0000) >> 16
        },
        CswSize::Byte => if tar_lo == 0 {
            data & 0x0000_00FF
        } else if tar_lo == 1 {
            (data & 0x0000_FF00) >> 8
        } else if tar_lo == 2 {
            (data & 0x00FF_0000) >> 16
        } else {
            (data & 0xFF00_0000) >> 24
        },
    }
}

/// Mask of a datum of `size`, at bit 0.
pub open spec fn size_mask(size: CswSize) -> u32 {
    match size {
        CswSize::Word => 0xFFFF_FFFF,
        CswSize::Halfword => 0xFFFF,
        CswSize::Byte => 0xFF,
    }
}

/// In every supported combination of lane and size, the cell after the
/// transfer holds the data's lane and, outside it, what it held before, and
/// the surfaced value is the data's lane at bit 0.
pub proof fn lemma_lane_replaced(cell: u32, data: u32, tar_lo: u32, size: CswSize)
    requires
        lane_valid(tar_lo, size),
    ensures
        ({
            let shift = (8 * tar_lo) as u32;
            let mask = size_mask(size) << shift;
            let after = lane_cell(cell, data, tar_lo, size);
            &&& after & mask == data & mask
            &&& after & !mask == cell & !mask
            &&& lane_value(data, tar_lo, size) == (data >> shift) & size_mask(size)
            &&& lane_value(data, tar_lo, size) <= size_mask(size)
        }),
{
    assert({
        &&& 0xFFFF_FFFFu32 << 0u32 == 0xFFFF_FFFFu32
        &&& 0xFFFFu32 << 0u32 == 0x0000_FFFFu32
        &&& 0xFFFFu32 << 16u32 == 0xFFFF_0000u32
        &&& 0xFFu32 << 0u32 == 0x0000_00FFu32
        &&& 0xFFu32 << 8u32 == 0x0000_FF00u32
        &&& 0xFFu32 << 16u32 == 0x00FF_0000u32
        &&& 0xFFu32 << 24u32 == 0xFF00_0000u32
        &&& data & 0xFFFF_FFFFu32 == data
        &&& cell & !0xFFFF_FFFFu32 == data & !0xFFFF_FFFFu32
        &&& data >> 0u32 == data
        &&& ((cell & 0xFFFF_0000u32) | (data & 0x0000_FFFFu32)) & 0x0000_FFFFu32 == data
            & 0x0000_FFFFu32
        &&& ((cell & 0xFFFF_0000u32) | (data & 0x0000_FFFFu32)) & !0x0000_FFFFu32 == cell
            & !0x0000_FFFFu32
        &&& ((cell & 0x0000_FFFFu32) | (data & 0xFFFF_0000u32)) & 0xFFFF_0000u32 == data
            & 0xFFFF_0000u32
        &&& ((cell & 0x0000_FFFFu32) | (data & 0xFFFF_0000u32)) & !0xFFFF_0000u32 == cell
            & !0xFFFF_0000u32
        &&& (data & 0xFFFF_0000u32) >> 16u32 == (data >> 16u32) & 0xFFFFu32
        &&& ((cell & 0xFFFF_FF00u32) | (data & 0x0000_00FFu32)) & 0x0000_00FFu32 == data
            & 0x0000_00FFu32
        &&& ((cell & 0xFFFF_FF00u32) | (data & 0x0000_00FFu32)) & !0x0000_00FFu32 == cell
            & !0x0000_00FFu32
        &&& ((cell & 0xFFFF_00FFu32) | (data & 0x0000_FF00u32)) & 0x0000_FF00u32 == data
            & 0x0000_FF00u32
        &&& ((cell & 0xFFFF_00FFu32) | (data & 0x0000_FF00u32)) & !0x0000_FF00u32 == cell
            & !0x0000_FF00u32
        &&& (data & 0x0000_FF00u32) >> 8u32 == (data >> 8u32) & 0xFFu32
        &&& ((cell & 0xFF00_FFFFu32) | (data & 0x00FF_0000u32)) & 0x00FF_0000u32 == data
            & 0x00FF_0000u32
        &&& ((cell & 0xFF00_FFFFu32) | (data & 0x00FF_0000u32)) & !0x00FF_0000u32 == cell
            & !0x00FF_0000u32
        &&& (data & 0x00FF_0000u32) >> 16u32 == (data >> 16u32) & 0xFFu32
        &&& ((cell & 0x00FF_FFFFu32) | (data & 0xFF00_0000u32)) & 0xFF00_0000u32 == data
            & 0xFF00_0000u32
        &&& ((cell & 0x00FF_FFFFu32) | (data & 0xFF00_0000u32)) & !0xFF00_0000u32 == cell
            & !0xFF00_0000u32
        &&& (data & 0xFF00_0000u32) >> 24u32 == (data >> 24u32) & 0xFFu32
        &&& (data >> 16u32) & 0xFFFFu32 <= 0xFFFFu32
        &&& data & 0xFFFFu32 <= 0xFFFFu32
        &&& data & 0xFFu32 <= 0xFFu32
        &&& (data >> 8u32) & 0xFFu32 <= 0xFFu32
        &&& (data >> 16u32) & 0xFFu32 <= 0xFFu32
        &&& (data >> 24u32) & 0xFFu32 <= 0xFFu32
    }) by (bit_vector);
}

/// `tar` moved on by `step` bytes, wrapping at 32 bits.
pub open spec fn tar_advanced(tar: u32, step: u32) -> u32 {
    ((tar + step) % 0x1_0000_0000) as u32
}

/// TAR after a transfer through DRW at `tar` under `csw`.
pub open spec fn tar_after_transfer(tar: u32, csw: Csw) -> u32 {
    match csw.spec_addr_inc() {
        CswAddrInc::Single => tar_advanced(tar, csw.spec_size().spec_bytes()),
        CswAddrInc::Disabled => tar,
    }
}

/// What a transfer through DRW does: the address it goes to, the datum it
/// surfaces, and the access port afterwards.
pub struct DrwTransfer {
    pub address: u32,
    pub value: MemApValue,
    pub ap: ApView,
}

/// The transfer that an access of `data` to DRW makes on `ap`; `None` where
/// TAR or CSW is not known or the byte lane does not fit the size.
pub open spec fn drw_transfer(ap: ApView, data: u32) -> Option<DrwTransfer> {
    if ap.tar is Some && ap.csw is Some && lane_valid(ap.tar->0 & 0b11, ap.csw->0.spec_size()) {
        let address = ap.tar->0;
        let csw = ap.csw->0;
        let size = csw.spec_size();
        let tar_lo = address & 0b11;
        let key = address & 0xFFFF_FFFC;
        Some(
            DrwTransfer {
                address,
                value: MemApValue::spec_of_size(size, lane_value(data, tar_lo, size)),
                ap: ApView {
                    memory: ap.memory.insert(key, lane_cell(ap.cell(key), data, tar_lo, size)),
                    tar: Some(tar_after_transfer(address, csw)),
                    ..ap
                },
            },
        )
    } else {
        None
    }
}

/// The memory address behind banked data register `index` (0 to 3) while TAR
/// holds `tar`.
pub open spec fn bd_address(tar: u32, index: u32) -> u32 {
    (tar & 0xFFFF_FFF0) | (index * 4) as u32
}

/// Why the machine passes over a command and leaves its state as it is.
#[derive(Copy, Clone, Debug, PartialEq, Eq, Structural)]
pub enum Anomaly {
    /// The DP has no register at the address in the bank selected, or none
    /// for the direction of the access.
    UnknownDpRegister,
    /// The AP has no register that the machine knows at the address.
    UnknownApRegister,
    /// A CSW whose size or address increment is not supported.
    UnsupportedCsw,
    /// An access to DRW or to a banked data register while TAR is not
    /// known.
    TarUnknown,
    /// An access to DRW while CSW is not known.
    CswUnknown,
    /// A transfer through DRW at a byte lane that does not fit its size.
    UnsupportedLane,
}

/// The state of the machine as contracts speak of it.
pub struct VmStateView {
    pub select: Select,
    pub aps: Seq<ApView>,
}

/// A state together with the operations that led to it.
pub struct Outcome {
    pub state: VmStateView,
    pub operations: Seq<OperationView>,
}

impl VmStateView {
    /// There are 256 access ports, and each CSW held is a supported one.
    pub open spec fn wf(&self) -> bool {
        &&& self.aps.len() == AP_COUNT
        &&& forall|i: int|
            0 <= i < self.aps.len() && (#[trigger] self.aps[i]).csw is Some
                ==> self.aps[i].csw->0.wf()
    }

    /// The state that a new machine starts from.
    pub open spec fn initial() -> VmStateView {
        VmStateView {
            select: Select { value: 0 },
            aps: Seq::new(AP_COUNT as nat, |i: int| ApView::empty()),
        }
    }

    /// The access port that SELECT addresses.
    pub open spec fn current_ap(&self) -> ApView {
        self.aps[self.select.spec_apsel() as int]
    }

    /// This state with the addressed access port replaced by `ap`.
    pub open spec fn with_current_ap(self, ap: ApView) -> VmStateView {
        VmStateView { aps: self.aps.update(self.select.spec_apsel() as int, ap), ..self }
    }

    /// Whether the machine can take `input`: a command's `a` is a 2-bit
    /// quantity, and a read of TAR shows the TAR that the machine holds.
    pub open spec fn accepts(&self, input: InputView) -> bool {
        match input {
            InputView::Landmark { .. } => true,
            InputView::Command(command) => {
                &&& command.wf()
                &&& command.apndp && command.rnw && ap_address(
                    self.select.spec_apbanksel(),
                    command.a,
                ) == 0x04 ==> self.current_ap().tar == Some(command.data)
            },
        }
    }

    /// Why the machine passes over `input`, if it does.
    pub open spec fn anomaly(&self, input: InputView) -> Option<Anomaly> {
        match input {
            InputView::Landmark { .. } => None,
            InputView::Command(command) => if !command.apndp {
                if dp_register_name(
                    self.select.spec_dpbanksel(),
                    (command.a * 4) as u8,
                    RoW::spec_of_rnw(command.rnw),
                ) is None {
                    Some(Anomaly::UnknownDpRegister)
                } else {
                    None
                }
            } else {
                let ap = self.current_ap();
                let ap_addr = ap_address(self.select.spec_apbanksel(), command.a);
                if ap_register_name(ap_addr) is None {
                    Some(Anomaly::UnknownApRegister)
                } else if ap_addr == 0x00 {
                    if csw_supported(command.data) {
                        None
                    } else {
                        Some(Anomaly::UnsupportedCsw)
                    }
                } else if ap_addr == 0x0C {
                    if ap.tar is None {
                        Some(Anomaly::TarUnknown)
                    } else if ap.csw is None {
                        Some(Anomaly::CswUnknown)
                    } else if !lane_valid(ap.tar->0 & 0b11, ap.csw->0.spec_size()) {
                        Some(Anomaly::UnsupportedLane)
                    } else {
                        None
                    }
                } else if ap_addr == 0x10 || ap_addr == 0x14 || ap_addr == 0x18 || ap_addr == 0x1C {
                    if ap.tar is None {
                        Some(Anomaly::TarUnknown)
                    } else {
                        None
                    }
                } else {
                    None
                }
            },
        }
    }

    /// What a DP access does.
    pub open spec fn dp_step(self, command: Command) -> Outcome {
        let rw = RoW::spec_of_rnw(command.rnw);
        let addr = (command.a * 4) as u8;
        match dp_register_name(self.select.spec_dpbanksel(), addr, rw) {
            Some(name) => Outcome {
                state: if addr == 0x8 && rw == RoW::W {
                    VmStateView { select: Select { value: command.data }, ..self }
                } else {
                    self
                },
                operations: seq![
                    OperationView::DpRegisterAccess {
                        ts: command.ts,
                        rw,
                        name,
                        value: command.data,
                    },
                ],
            },
            None => Outcome { state: self, operations: seq![] },
        }
    }

    /// What an AP access does.
    pub open spec fn ap_step(self, command: Command) -> Outcome {
        let rw = RoW::spec_of_rnw(command.rnw);
        let apsel = self.select.spec_apsel();
        let ap = self.current_ap();
        let ap_addr = ap_address(self.select.spec_apbanksel(), command.a);
        let data = command.data;
        let mem_ap = |address: u32, value: MemApValue|
            OperationView::MemAp { ts: command.ts, apsel, rw, address, value };
        match ap_register_name(ap_addr) {
            None => Outcome { state: self, operations: seq![] },
            Some(name) => {
                let access = OperationView::ApRegisterAccess {
                    ts: command.ts,
                    apsel,
                    rw,
                    name,
                    value: data,
                };
                if ap_addr == 0x00 {
                    if csw_supported(data) {
                        let written = Csw { value: data };
                        let csw = if rw == RoW::W && ap.csw is Some {
                            ap.csw->0.overwritten(written)
                        } else {
                            written
                        };
                        Outcome {
                            state: self.with_current_ap(ApView { csw: Some(csw), ..ap }),
                            operations: seq![access],
                        }
                    } else {
                        Outcome { state: self, operations: seq![] }
                    }
                } else if ap_addr == 0x04 {
                    Outcome {
                        state: if rw == RoW::W {
                            self.with_current_ap(ApView { tar: Some(data), ..ap })
                        } else {
                            self
                        },
                        operations: seq![access],
                    }
                } else if ap_addr == 0x0C {
                    match drw_transfer(ap, data) {
                        Some(transfer) => Outcome {
                            state: self.with_current_ap(transfer.ap),
                            operations: seq![access, mem_ap(transfer.address, transfer.value)],
                        },
                        None => Outcome { state: self, operations: seq![access] },
                    }
                } else if ap_addr == 0x10 || ap_addr == 0x14 || ap_addr == 0x18 || ap_addr == 0x1C {
                    match ap.tar {
                        Some(tar) => {
                            let address = bd_address(tar, ((ap_addr - 0x10) / 4) as u32);
                            Outcome {
                                state: self.with_current_ap(
                                    ApView { memory: ap.memory.insert(address, data), ..ap },
                                ),
                                operations: seq![access, mem_ap(address, MemApValue::Word(data))],
                            }
                        },
                        None => Outcome { state: self, operations: seq![access] },
                    }
                } else if ap_addr == 0xFC {
                    Outcome {
                        state: self.with_current_ap(ApView { idr: Some(Idr { value: data }), ..ap }),
                        operations: seq![access],
                    }
                } else {
                    Outcome { state: self, operations: seq![access] }
                }
            },
        }
    }

    /// What one element of the stream does.
    pub open spec fn step(self, input: InputView) -> Outcome {
        match input {
            InputView::Landmark { metadata } => Outcome {
                state: self,
                operations: seq![OperationView::Landmark { metadata }],
            },
            InputView::Command(command) => if command.apndp {
                self.ap_step(command)
            } else {
                self.dp_step(command)
            },
        }
    }

    /// The state after the first `n` of `inputs`, starting from this one.
    pub open spec fn run(self, inputs: Seq<InputView>, n: nat) -> VmStateView
        decreases n,
    {
        if n == 0 {
            self
        } else {
            self.run(inputs, (n - 1) as nat).step(inputs[n - 1]).state
        }
    }

    /// Whether the machine can take each of the first `n` of `inputs` in
    /// turn, starting from this state.
    pub open spec fn run_accepts(self, inputs: Seq<InputView>, n: nat) -> bool {
        forall|i: nat| i < n ==> (#[trigger] self.run(inputs, i)).accepts(inputs[i as int])
    }
}

/// A step keeps a well-formed state well-formed.
pub proof fn lemma_step_wf(state: VmStateView, input: InputView)
    requires
        state.wf(),
    ensures
        state.step(input).state.wf(),
{
    match input {
        InputView::Landmark { .. } => {},
        InputView::Command(command) => {
            if command.apndp {
                let ap = state.current_ap();
                let after = state.ap_step(command).state;
                if csw_supported(command.data) && ap.csw is Some {
                    lemma_overwritten_fields(ap.csw->0, Csw { value: command.data });
                }
                assert forall|i: int|
                    0 <= i < after.aps.len() && (#[trigger] after.aps[i]).csw is Some implies after.aps[i].csw->0.wf() by {
                    if i != state.select.spec_apsel() as int {
                        assert(after.aps[i] == state.aps[i]);
                    }
                }
            }
        },
    }
}

/// A command that the machine passes over leaves the state as it is and
/// surfaces no memory access; a command that it does not pass over
/// surfaces its register access.
pub proof fn lemma_anomaly_skips(state: VmStateView, command: Command)
    ensures
        ({
            let input = InputView::Command(command);
            let outcome = state.step(input);
            &&& state.anomaly(input) is Some ==> {
                &&& outcome.state == state
                &&& forall|i: int|
                    0 <= i < outcome.operations.len() ==> !((#[trigger] outcome.operations[i]) is MemAp)
            }
            &&& state.anomaly(input) is None ==> outcome.operations.len() > 0
                && !(outcome.operations[0] is MemAp) && !(outcome.operations[0] is Landmark)
        }),
{
}

/// An AP's CSW, once known, stays known.
pub proof fn lemma_csw_stays_known(state: VmStateView, input: InputView, i: int)
    requires
        state.wf(),
        0 <= i < state.aps.len(),
        state.aps[i].csw is Some,
    ensures
        state.step(input).state.aps[i].csw is Some,
{
    match input {
        InputView::Landmark { .. } => {},
        InputView::Command(command) => {
            if command.apndp {
                let after = state.ap_step(command).state;
                if i != state.select.spec_apsel() as int {
                    assert(after.aps[i] == state.aps[i]);
                }
            }
        },
    }
}

/// A run keeps a well-formed state well-formed.
pub proof fn lemma_run_wf(state: VmStateView, inputs: Seq<InputView>, n: nat)
    requires
        state.wf(),
    ensures
        state.run(inputs, n).wf(),
    decreases n,
{
    if n > 0 {
        lemma_run_wf(state, inputs, (n - 1) as nat);
        lemma_step_wf(state.run(inputs, (n - 1) as nat), inputs[n - 1]);
    }
}

/// The state of the machine: the DP and its 256 APs.
#[derive(Debug, PartialEq, Eq)]
pub struct VmState {
    pub dp: Dp,
    pub aps: Vec<Ap>,
}

impl View for VmState {
    type V = VmStateView;

    open spec fn view(&self) -> VmStateView {
        VmStateView { select: self.dp.select, aps: self.aps@.map_values(|ap: Ap| ap@) }
    }
}

impl Clone for VmState {
    fn clone(&self) -> (state: VmState)
        ensures
            state@ == self@,
    {
        let mut aps: Vec<Ap> = Vec::new();
        let mut i: usize = 0;
        while i < self.aps.len()
            invariant
                i <= self.aps.len(),
                aps.len() == i,
                forall|j: int| 0 <= j < i ==> aps[j]@ == self.aps[j]@,
            decreases self.aps.len() - i,
        {
            aps.push(self.aps[i].clone());
            i += 1;
        }
        let state = VmState { dp: self.dp, aps };
        assert(state@.aps =~= self@.aps);
        state
    }
}

impl Default for VmState {
    fn default() -> (state: VmState)
        ensures
            state@ == VmStateView::initial(),
            state.wf(),
    {
        let mut aps: Vec<Ap> = Vec::new();
        let mut i: usize = 0;
        while i < AP_COUNT
            invariant
                i <= AP_COUNT,
                aps.len() == i,
                forall|j: int| 0 <= j < i ==> aps[j]@ == ApView::empty(),
            decreases AP_COUNT - i,
        {
            aps.push(Ap::default());
            i += 1;
        }
        let state = VmState { dp: Dp::default(), aps };
        assert(state@.aps =~= VmStateView::initial().aps);
        state
    }
}

impl VmState {
    /// There are 256 access ports, and each CSW held is a supported one.
    pub open spec fn wf(&self) -> bool {
        self@.wf()
    }

    /// Whether there are 256 access ports and each CSW held is a supported
    /// one.
    pub fn is_wf(&self) -> (ok: bool)
        ensures
            ok == self.wf(),
    {
        if self.aps.len() != AP_COUNT {
            return false;
        }
        let mut i: usize = 0;
        while i < self.aps.len()
            invariant
                i <= self.aps.len(),
                self.aps.len() == AP_COUNT,
                forall|j: int|
                    0 <= j < i && (#[trigger] self@.aps[j]).csw is Some ==> self@.aps[j].csw->0.wf(),
            decreases self.aps.len() - i,
        {
            assert(self@.aps[i as int] == self.aps[i as int]@);
            match self.aps[i].csw {
                Some(csw) => {
                    if !csw.is_wf() {
                        return false;
                    }
                },
                None => {},
            }
            i += 1;
        }
        true
    }

    /// Back to the state that a new machine starts from.
    pub fn reset(&mut self)
        ensures
            final(self)@ == VmStateView::initial(),
            final(self).wf(),
    {
        *self = VmState::default();
    }

    /// The access port that SELECT addresses.
    pub fn current_ap(&self) -> (ap: &Ap)
        requires
            self.wf(),
        ensures
            ap@ == self@.current_ap(),
    {
        &self.aps[self.dp.select.apsel() as usize]
    }

    /// Whether the machine can take `input`.
    pub fn accepts(&self, input: &Input) -> (accepted: bool)
        requires
            self.wf(),
        ensures
            accepted == self@.accepts(input@),
    {
        match input {
            Input::Landmark { .. } => true,
            Input::Command(command) => {
                if command.a >= 4 {
                    false
                } else if command.apndp && command.rnw && self.dp.select.apbanksel() == 0
                    && command.a == 1 {
                    match self.current_ap().tar {
                        Some(tar) => tar == command.data,
                        None => false,
                    }
                } else {
                    true
                }
            },
        }
    }

    /// Why the machine passes over `input`, if it does.
    pub fn anomaly(&self, input: &Input) -> (anomaly: Option<Anomaly>)
        requires
            self.wf(),
            input@.wf(),
        ensures
            anomaly == self@.anomaly(input@),
    {
        let command: Command = match input {
            Input::Landmark { .. } => {
                return None;
            },
            Input::Command(command) => *command,
        };
        let a: u8 = command.a * 4;
        if !command.apndp {
            return match dp_register(self.dp.select.dpbanksel(), a, RoW::of_rnw(command.rnw)) {
                Some(_) => None,
                None => Some(Anomaly::UnknownDpRegister),
            };
        }
        let ap_addr: u8 = self.dp.select.apbanksel() * 16 + a;
        if ap_register(ap_addr).is_none() {
            return Some(Anomaly::UnknownApRegister);
        }
        let ap = self.current_ap();
        if ap_addr == 0x00 {
            match Csw::try_from(command.data) {
                Ok(_) => None,
                Err(_) => Some(Anomaly::UnsupportedCsw),
            }
        } else if ap_addr == 0x0C {
            match (ap.tar, ap.csw) {
                (None, _) => Some(Anomaly::TarUnknown),
                (Some(_), None) => Some(Anomaly::CswUnknown),
                (Some(tar), Some(csw)) => {
                    let tar_lo: u32 = tar & 0b11;
                    assert(tar_lo < 4) by (bit_vector)
                        requires
                            tar_lo == tar & 0b11,
                    ;
                    let fits: bool = match csw.size() {
                        CswSize::Word => tar_lo == 0,
                        CswSize::Halfword => tar_lo == 0 || tar_lo == 2,
                        CswSize::Byte => true,
                    };
                    if fits {
                        None
                    } else {
                        Some(Anomaly::UnsupportedLane)
                    }
                },
            }
        } else if ap_addr == 0x10 || ap_addr == 0x14 || ap_addr == 0x18 || ap_addr == 0x1C {
            match ap.tar {
                Some(_) => None,
                None => Some(Anomaly::TarUnknown),
            }
        } else {
            None
        }
    }

    /// Takes one element of the stream: moves the state as the element says
    /// and returns what it did, the register access first and the memory
    /// access that follows from it, if any, second.
    pub fn step(&mut self, input: &Input) -> (operations: Vec<Operation>)
        requires
            old(self).wf(),
            old(self)@.accepts(input@),
        ensures
            final(self).wf(),
            final(self)@ == old(self)@.step(input@).state,
            operations_view(operations@) == old(self)@.step(input@).operations,
    {
        proof {
            lemma_step_wf(self@, input@);
        }
        let mut operations: Vec<Operation> = Vec::new();
        let command: Command = match input {
            Input::Landmark { metadata } => {
                operations.push(Operation::Landmark { metadata: metadata.clone() });
                assert(operations_view(operations@) =~= self@.step(input@).operations);
                return operations;
            },
            Input::Command(command) => *command,
        };
        let ts: Option<Timestamp> = command.ts;
        let rw: RoW = RoW::of_rnw(command.rnw);
        let a: u8 = command.a * 4;
        let data: u32 = command.data;
        if !command.apndp {
            match dp_register(self.dp.select.dpbanksel(), a, rw) {
                Some(name) => {
                    operations.push(Operation::DpRegisterAccess { ts, rw, name, value: data });
                    if a == 0x8 && !command.rnw {
                        self.dp.select = Select::from(data);
                    }
                    assert(operations_view(operations@) =~= old(self)@.step(input@).operations);
                    assert(self@.aps =~= old(self)@.step(input@).state.aps);
                },
                None => {
                    assert(operations_view(operations@) =~= old(self)@.step(input@).operations);
                },
            }
            return operations;
        }
        let apsel: u8 = self.dp.select.apsel();
        let index: usize = apsel as usize;
        let ap_addr: u8 = self.dp.select.apbanksel() * 16 + a;
        assert(ap_addr == ap_address(self@.select.spec_apbanksel(), command.a));
        let ghost before = self@;
        let ghost expected = before.step(input@);
        assert(expected == before.ap_step(command));
        let name: &'static str = match ap_register(ap_addr) {
            Some(name) => name,
            None => {
                assert(operations_view(operations@) =~= expected.operations);
                return operations;
            },
        };
        let access = Operation::ApRegisterAccess { ts, apsel, rw, name, value: data };
        if ap_addr == 0x00 {
            match Csw::try_from(data) {
                Ok(written) => {
                    operations.push(access);
                    match rw {
                        RoW::R => {
                            self.aps[index].csw = Some(written);
                        },
                        RoW::W => {
                            let csw: Csw = match self.aps[index].csw {
                                Some(held) => {
                                    let mut held: Csw = held;
                                    held.overwrite_rw_fields(&written);
                                    held
                                },
                                None => written,
                            };
                            self.aps[index].csw = Some(csw);
                        },
                    }
                },
                Err(_) => {},
            }
        } else if ap_addr == 0x04 {
            operations.push(access);
            if !command.rnw {
                self.aps[index].tar = Some(data);
            }
        } else if ap_addr == 0x0C {
            operations.push(access);
            assert(operations_view(operations@) =~= expected.operations.take(1));
            match self.aps[index].tar {
                Some(address) => {
                    self.drw_access(&mut operations, ts, rw, address, data);
                },
                None => {},
            }
        } else if ap_addr == 0x10 || ap_addr == 0x14 || ap_addr == 0x18 || ap_addr == 0x1C {
            operations.push(access);
            assert(operations_view(operations@) =~= expected.operations.take(1));
            match self.aps[index].tar {
                Some(tar) => {
                    let address: u32 = (tar & 0xFFFF_FFF0) | (ap_addr - 0x10) as u32;
                    assert(address == bd_address(tar, ((ap_addr - 0x10) / 4) as u32));
                    self.bd_access(&mut operations, ts, rw, address, data);
                },
                None => {},
            }
        } else if ap_addr == 0xFC {
            self.aps[index].idr = Some(Idr::from(data));
            operations.push(access);
        } else {
            operations.push(access);
        }
        assert(operations_view(operations@) =~= expected.operations);
        assert(self@.aps =~= expected.state.aps);
        operations
    }

    /// A transfer through DRW at `address`, the TAR of the addressed access
    /// port: writes the data's byte lane into the memory cell, surfaces the
    /// datum as one more operation, and moves TAR on if CSW says so. Where
    /// CSW is not known or the lane does not fit the size, nothing happens.
    pub fn drw_access(
        &mut self,
        operations: &mut Vec<Operation>,
        ts: Option<Timestamp>,
        rw: RoW,
        address: u32,
        value: u32,
    )
        requires
            old(self).wf(),
            old(self)@.current_ap().tar == Some(address),
        ensures
            match drw_transfer(old(self)@.current_ap(), value) {
                Some(transfer) => {
                    &&& final(self)@ == old(self)@.with_current_ap(transfer.ap)
                    &&& operations_view(final(operations)@) == operations_view(old(operations)@).push(
                        OperationView::MemAp {
                            ts,
                            apsel: old(self)@.select.spec_apsel(),
                            rw,
                            address,
                            value: transfer.value,
                        },
                    )
                },
                None => {
                    &&& final(self)@ == old(self)@
                    &&& final(operations)@ == old(operations)@
                },
            },
    {
        let apsel: u8 = self.dp.select.apsel();
        let index: usize = apsel as usize;
        let csw: Csw = match self.aps[index].csw {
            Some(csw) => csw,
            None => {
                return ;
            },
        };
        let size: CswSize = csw.size();
        let tar_lo: u32 = address & 0b11;
        let key: u32 = address & 0xFFFF_FFFC;
        assert(tar_lo < 4) by (bit_vector)
            requires
                tar_lo == address & 0b11,
        ;
        let cell: u32 = match self.aps[index].memory.get(&key) {
            Some(cell) => *cell,
            None => 0,
        };
        let (cell, surfaced): (u32, u32) = match size {
            CswSize::Word => {
                if tar_lo != 0 {
                    return ;
                }
                (value, value)
            },
            CswSize::Halfword => {
                if tar_lo == 0 {
                    ((cell & 0xFFFF_0000) | (value & 0x0000_FFFF), value & 0x0000_FFFF)
                } else if tar_lo == 2 {
                    ((cell & 0x0000_FFFF) | (value & 0xFFFF_0000), (value & 0xFFFF_0000) >> 16)
                } else {
                    return ;
                }
            },
            CswSize::Byte => {
                if tar_lo == 0 {
                    ((cell & 0xFFFF_FF00) | (value & 0x0000_00FF), value & 0x0000_00FF)
                } else if tar_lo == 1 {
                    ((cell & 0xFFFF_00FF) | (value & 0x0000_FF00), (value & 0x0000_FF00) >> 8)
                } else if tar_lo == 2 {
                    ((cell & 0xFF00_FFFF) | (value & 0x00FF_0000), (value & 0x00FF_0000) >> 16)
                } else {
                    ((cell & 0x00FF_FFFF) | (value & 0xFF00_0000), (value & 0xFF00_0000) >> 24)
                }
            },
        };
        self.aps[index].memory.insert(key, cell);
        operations.push(
            Operation::MemAp { ts, apsel, rw, address, value: MemApValue::of_size(size, surfaced) },
        );
        let step: u32 = match csw.addr_inc() {
            CswAddrInc::Single => size.bytes(),
            CswAddrInc::Disabled => 0,
        };
        let tar: u32 = if address > u32::MAX - step {
            address - (u32::MAX - step) - 1
        } else {
            address + step
        };
        self.aps[index].tar = Some(tar);
        proof {
            let transfer = drw_transfer(old(self)@.current_ap(), value)->0;
            assert(self@.aps =~= old(self)@.with_current_ap(transfer.ap).aps);
            assert(operations_view(operations@) =~= operations_view(old(operations)@).push(
                OperationView::MemAp { ts, apsel, rw, address, value: transfer.value },
            ));
        }
    }

    /// A transfer of one word through a banked data register, to `address`:
    /// stores the word and surfaces it as one more operation.
    pub fn bd_access(
        &mut self,
        operations: &mut Vec<Operation>,
        ts: Option<Timestamp>,
        rw: RoW,
        address: u32,
        value: u32,
    )
        requires
            old(self).wf(),
        ensures
            ({
                let ap = old(self)@.current_ap();
                final(self)@ == old(self)@.with_current_ap(
                    ApView { memory: ap.memory.insert(address, value), ..ap },
                )
            }),
            operations_view(final(operations)@) == operations_view(old(operations)@).push(
                OperationView::MemAp {
                    ts,
                    apsel: old(self)@.select.spec_apsel(),
                    rw,
                    address,
                    value: MemApValue::Word(value),
                },
            ),
    {
        let apsel: u8 = self.dp.select.apsel();
        self.aps[apsel as usize].memory.insert(address, value);
        operations.push(
            Operation::MemAp { ts, apsel, rw, address, value: MemApValue::Word(value) },
        );
        proof {
            let ap = old(self)@.current_ap();
            assert(self@.aps =~= old(self)@.with_current_ap(
                ApView { memory: ap.memory.insert(address, value), ..ap },
            ).aps);
            assert(operations_view(operations@) =~= operations_view(old(operations)@).push(
                OperationView::MemAp { ts, apsel, rw, address, value: MemApValue::Word(value) },
            ));
        }
    }
}

/// What one call of [`Vm::step_forward`] or [`Vm::step_back`] did: the
/// operations, and the state and cursor before and after.
#[derive(Debug, PartialEq, Eq)]
pub struct VmStateStep {
    /// Empty after [`Vm::step_back`].
    pub operations: Vec<Operation>,
    pub previous: (VmState, usize),
    pub current: (VmState, usize),
}

/// The machine together with its place in the stream.
#[derive(Debug)]
pub struct Vm {
    command_cursor: usize,
    state: VmState,
}

impl View for Vm {
    type V = VmStateView;

    closed spec fn view(&self) -> VmStateView {
        self.state@
    }
}

impl Vm {
    /// Index of the element that the next step forward takes.
    pub closed spec fn cursor(&self) -> usize {
        self.command_cursor
    }

    /// The state held is well-formed.
    pub closed spec fn wf(&self) -> bool {
        self.state.wf()
    }

    /// A machine in its initial state, before the first element.
    pub fn new() -> (vm: Vm)
        ensures
            vm.wf(),
            vm.cursor() == 0,
            vm@ == VmStateView::initial(),
    {
        Vm { command_cursor: 0, state: VmState::default() }
    }

    /// Whether [`Vm::step_forward`] may be called with `commands`: the
    /// cursor is past the last element, or the machine can take the element
    /// under it.
    pub fn accepts_next(&self, commands: &Vec<Input>) -> (accepted: bool)
        requires
            self.wf(),
        ensures
            accepted == (self.cursor() < commands.len() ==> self@.accepts(
                commands[self.cursor() as int]@,
            )),
    {
        if self.command_cursor < commands.len() {
            self.state.accepts(&commands[self.command_cursor])
        } else {
            true
        }
    }

    /// Why the machine will pass over the element under the cursor, if it
    /// will.
    pub fn next_anomaly(&self, commands: &Vec<Input>) -> (anomaly: Option<Anomaly>)
        requires
            self.wf(),
        ensures
            anomaly == if self.cursor() < commands.len() && commands[self.cursor() as int]@.wf() {
                self@.anomaly(commands[self.cursor() as int]@)
            } else {
                None
            },
    {
        if self.command_cursor < commands.len() {
            let input = &commands[self.command_cursor];
            let wf: bool = match input {
                Input::Landmark { .. } => true,
                Input::Command(command) => command.a < 4,
            };
            if wf {
                self.state.anomaly(input)
            } else {
                None
            }
        } else {
            None
        }
    }

    /// Takes the element under the cursor and moves the cursor on. Returns
    /// `None`, and leaves the machine as it is, when the cursor is past the
    /// last element.
    pub fn step_forward(&mut self, commands: &Vec<Input>) -> (step: Option<VmStateStep>)
        requires
            old(self).wf(),
            old(self).cursor() < commands.len() ==> old(self)@.accepts(
                commands[old(self).cursor() as int]@,
            ),
        ensures
            final(self).wf(),
            old(self).cursor() >= commands.len() ==> {
                &&& step is None
                &&& final(self)@ == old(self)@
                &&& final(self).cursor() == old(self).cursor()
            },
            old(self).cursor() < commands.len() ==> {
                let outcome = old(self)@.step(commands[old(self).cursor() as int]@);
                &&& step is Some
                &&& final(self)@ == outcome.state
                &&& final(self).cursor() == old(self).cursor() + 1
                &&& operations_view(step->0.operations@) == outcome.operations
                &&& step->0.previous.0@ == old(self)@
                &&& step->0.previous.1 == old(self).cursor()
                &&& step->0.current.0@ == outcome.state
                &&& step->0.current.1 == old(self).cursor() + 1
            },
    {
        if self.command_cursor >= commands.len() {
            return None;
        }
        let previous_state: VmState = self.state.clone();
        let operations: Vec<Operation> = self.state.step(&commands[self.command_cursor]);
        let current_state: VmState = self.state.clone();
        self.command_cursor += 1;
        Some(
            VmStateStep {
                operations,
                previous: (previous_state, self.command_cursor - 1),
                current: (current_state, self.command_cursor),
            },
        )
    }

    /// How many elements [`Vm::step_back`] replays: all before the one that
    /// was taken last, as far as `commands` has them.
    pub open spec fn replay_len(&self, commands: Seq<Input>) -> nat {
        if self.cursor() == 0 {
            0
        } else if self.cursor() - 1 <= commands.len() {
            (self.cursor() - 1) as nat
        } else {
            commands.len()
        }
    }

    /// Whether [`Vm::step_back`] may be called with `commands`: a machine
    /// that starts anew can take each element of the replay in turn.
    pub fn accepts_replay(&self, commands: &Vec<Input>) -> (accepted: bool)
        ensures
            accepted == VmStateView::initial().run_accepts(
                crate::common::inputs_view(commands@),
                self.replay_len(commands@),
            ),
    {
        let ghost inputs = crate::common::inputs_view(commands@);
        let ghost initial = VmStateView::initial();
        let end: usize = if self.command_cursor == 0 {
            0
        } else if self.command_cursor - 1 <= commands.len() {
            self.command_cursor - 1
        } else {
            commands.len()
        };
        let mut state: VmState = VmState::default();
        let mut i: usize = 0;
        while i < end
            invariant
                i <= end <= commands.len(),
                end == self.replay_len(commands@),
                inputs == crate::common::inputs_view(commands@),
                initial == VmStateView::initial(),
                state.wf(),
                state@ == initial.run(inputs, i as nat),
                initial.run_accepts(inputs, i as nat),
            decreases end - i,
        {
            if !state.accepts(&commands[i]) {
                return false;
            }
            let _ = state.step(&commands[i]);
            i += 1;
        }
        true
    }

    /// Goes back one element: resets the state and replays the stream up to,
    /// and not including, the element that was taken last. Returns `None`,
    /// and leaves the machine as it is, at the start of the stream.
    pub fn step_back(&mut self, commands: &Vec<Input>) -> (step: Option<VmStateStep>)
        requires
            old(self).wf(),
            VmStateView::initial().run_accepts(
                crate::common::inputs_view(commands@),
                old(self).replay_len(commands@),
            ),
        ensures
            final(self).wf(),
            old(self).cursor() == 0 ==> {
                &&& step is None
                &&& final(self)@ == old(self)@
                &&& final(self).cursor() == 0
            },
            old(self).cursor() > 0 ==> {
                let replayed = VmStateView::initial().run(
                    crate::common::inputs_view(commands@),
                    old(self).replay_len(commands@),
                );
                &&& step is Some
                &&& final(self)@ == replayed
                &&& final(self).cursor() == old(self).cursor() - 1
                &&& step->0.operations@.len() == 0
                &&& step->0.previous.0@ == old(self)@
                &&& step->0.previous.1 == old(self).cursor()
                &&& step->0.current.0@ == replayed
                &&& step->0.current.1 == old(self).cursor() - 1
            },
    {
        if self.command_cursor == 0 {
            return None;
        }
        let ghost inputs = crate::common::inputs_view(commands@);
        let ghost initial = VmStateView::initial();
        let previous_state: VmState = self.state.clone();
        let command_cursor: usize = self.command_cursor - 1;
        let end: usize = if command_cursor <= commands.len() {
            command_cursor
        } else {
            commands.len()
        };
        self.state.reset();
        let mut i: usize = 0;
        while i < end
            invariant
                i <= end <= commands.len(),
                inputs == crate::common::inputs_view(commands@),
                initial == VmStateView::initial(),
                initial.run_accepts(inputs, end as nat),
                self.state.wf(),
                self.state@ == initial.run(inputs, i as nat),
                self.command_cursor == old(self).command_cursor,
            decreases end - i,
        {
            assert(initial.run(inputs, i as nat).accepts(inputs[i as int]));
            let _ = self.state.step(&commands[i]);
            i += 1;
        }
        self.command_cursor = command_cursor;
        let current_state: VmState = self.state.clone();
        Some(
            VmStateStep {
                operations: Vec::new(),
                previous: (previous_state, command_cursor + 1),
                current: (current_state, command_cursor),
            },
        )
    }
}

/// A write to DP.SELECT makes the word written the new SELECT, whatever
/// bank was selected before, and leaves the access ports as they are.
pub proof fn lemma_select_write(state: VmStateView, ts: Option<Timestamp>, data: u32)
    ensures
        ({
            let command = Command { ts, apndp: false, rnw: false, a: 2, data };
            let outcome = state.step(InputView::Command(command));
            &&& outcome.state.select == Select { value: data }
            &&& outcome.state.aps == state.aps
            &&& outcome.operations == seq![
                OperationView::DpRegisterAccess { ts, rw: RoW::W, name: "SELECT"@, value: data },
            ]
        }),
{
}

/// After a write of `data` to DP.SELECT, an access to the DP at address
/// `0x4` names the register of the bank in bits 3:0 of `data`, `CTRL/STAT`
/// in bank 0 and `DLCR` in bank 1, and an access to the AP goes to the AP
/// in bits 31:24, at the address made of bits 7:4 and the command's `a`.
pub proof fn lemma_select_steers(state: VmStateView, data: u32, next: Command)
    requires
        next.wf(),
    ensures
        ({
            let write = Command { ts: None, apndp: false, rnw: false, a: 2, data };
            let selected = state.step(InputView::Command(write)).state;
            let select = Select { value: data };
            let rw = RoW::spec_of_rnw(next.rnw);
            let operations = selected.step(InputView::Command(next)).operations;
            &&& !next.apndp && next.a == 1 ==> operations == match dp_register_name(
                select.spec_dpbanksel(),
                0x4,
                rw,
            ) {
                Some(name) => seq![
                    OperationView::DpRegisterAccess { ts: next.ts, rw, name, value: next.data },
                ],
                None => seq![],
            }
            &&& select.spec_dpbanksel() == 0 ==> dp_register_name(select.spec_dpbanksel(), 0x4, rw)
                == Some("CTRL/STAT"@)
            &&& select.spec_dpbanksel() == 1 ==> dp_register_name(select.spec_dpbanksel(), 0x4, rw)
                == Some("DLCR"@)
            &&& next.apndp && operations.len() > 0 ==> operations[0]
                == (OperationView::ApRegisterAccess {
                ts: next.ts,
                apsel: select.spec_apsel(),
                rw,
                name: ap_register_name(ap_address(select.spec_apbanksel(), next.a))->0,
                value: next.data,
            })
        }),
{
}

/// The state after `n` transfers through DRW of a fixed size, starting at a
/// TAR that fits that size: with single increment TAR has moved on by `n`
/// times the size in bytes, wrapping at 32 bits; with the increment disabled
/// it has not moved. SELECT and CSW stay as they were.
pub proof fn lemma_drw_advances_tar(state: VmStateView, inputs: Seq<InputView>, n: nat)
    requires
        state.wf(),
        state.select.spec_apbanksel() == 0,
        state.current_ap().tar is Some,
        state.current_ap().csw is Some,
        lane_valid(state.current_ap().tar->0 & 0b11, state.current_ap().csw->0.spec_size()),
        n <= inputs.len(),
        forall|i: int|
            0 <= i < n ==> (#[trigger] inputs[i]) is Command && inputs[i]->Command_0.apndp
                && inputs[i]->Command_0.a == 3,
    ensures
        ({
            let tar = state.current_ap().tar->0;
            let csw = state.current_ap().csw->0;
            let after = state.run(inputs, n);
            &&& after.select == state.select
            &&& after.current_ap().csw == Some(csw)
            &&& csw.spec_addr_inc() == CswAddrInc::Single ==> after.current_ap().tar == Some(
                ((tar + n * csw.spec_size().spec_bytes()) % 0x1_0000_0000) as u32,
            )
            &&& csw.spec_addr_inc() == CswAddrInc::Disabled ==> after.current_ap().tar == Some(tar)
        }),
    decreases n,
{
    let tar = state.current_ap().tar->0;
    let csw = state.current_ap().csw->0;
    let size = csw.spec_size();
    let bytes = size.spec_bytes();
    if n > 0 {
        let m = (n - 1) as nat;
        lemma_drw_advances_tar(state, inputs, m);
        lemma_run_wf(state, inputs, m);
        let before = state.run(inputs, m);
        let t = before.current_ap().tar->0;
        let command = inputs[n - 1]->Command_0;
        assert(ap_address(before.select.spec_apbanksel(), command.a) == 0x0C);
        if csw.spec_addr_inc() == CswAddrInc::Single {
            assert(t == ((tar + m * bytes) % 0x1_0000_0000) as u32);
            lemma_lane_kept(tar, m, size);
            assert(lane_valid(t & 0b11, size));
            assert(tar_advanced(t, bytes) == ((tar + n * bytes) % 0x1_0000_0000) as u32) by {
                assert(m * bytes + bytes == n * bytes) by (nonlinear_arith)
                    requires
                        m + 1 == n,
                ;
                vstd::arithmetic::div_mod::lemma_add_mod_noop(
                    tar + m * bytes,
                    bytes as int,
                    0x1_0000_0000,
                );
                vstd::arithmetic::div_mod::lemma_small_mod(bytes as nat, 0x1_0000_0000);
                vstd::arithmetic::div_mod::lemma_mod_twice(tar + m * bytes, 0x1_0000_0000);
            }
        }
    }
}

/// A TAR that fits a transfer size still fits it after any number of
/// increments by that size.
pub proof fn lemma_lane_kept(tar: u32, n: nat, size: CswSize)
    requires
        lane_valid(tar & 0b11, size),
    ensures
        lane_valid((((tar + n * size.spec_bytes()) % 0x1_0000_0000) as u32) & 0b11, size),
    decreases n,
{
    let bytes = size.spec_bytes();
    if n == 0 {
        vstd::arithmetic::div_mod::lemma_small_mod(tar as nat, 0x1_0000_0000);
    } else {
        let m = (n - 1) as nat;
        lemma_lane_kept(tar, m, size);
        let t = ((tar + m * bytes) % 0x1_0000_0000) as u32;
        let u = ((tar + n * bytes) % 0x1_0000_0000) as u32;
        assert(u == ((t + bytes) % 0x1_0000_0000) as u32) by {
            assert(m * bytes + bytes == n * bytes) by (nonlinear_arith)
                requires
                    m + 1 == n,
            ;
            vstd::arithmetic::div_mod::lemma_add_mod_noop(
                tar + m * bytes,
                bytes as int,
                0x1_0000_0000,
            );
            vstd::arithmetic::div_mod::lemma_small_mod(bytes as nat, 0x1_0000_0000);
        }
        assert({
            &&& u & 0b11 < 4
            &&& t & 0b11 == 0 && bytes == 4 ==> u & 0b11 == 0
            &&& (t & 0b11 == 0 || t & 0b11 == 2) && bytes == 2 ==> (u & 0b11 == 0 || u & 0b11 == 2)
        }) by (bit_vector)
            requires
                u == ((t + bytes) % 0x1_0000_0000) as u32,
        ;
    }
}

} // verus!
