use adios::adi::ap::{BitsError, Csw, CswAddrInc, CswSize, Idr, IdrClass, IdrType};
use adios::adi::dp::Select;
use adios::adi::{ap_register, dp_register, Anomaly, Ap, CswChange, MemApValue, MemoryChange};
use adios::adi::{Operation, RoW, Vm, VmState};
use adios::common::{Command, Input, Landmark, Timestamp};
use adios::regdoctor_adios_ext::CswType;

fn dp_write(a: u8, data: u32) -> Input {
    Input::Command(Command { ts: None, apndp: false, rnw: false, a, data })
}

fn dp_read(a: u8, data: u32) -> Input {
    Input::Command(Command { ts: None, apndp: false, rnw: true, a, data })
}

fn ap_write(a: u8, data: u32) -> Input {
    Input::Command(Command { ts: None, apndp: true, rnw: false, a, data })
}

fn ap_read(a: u8, data: u32) -> Input {
    Input::Command(Command { ts: None, apndp: true, rnw: true, a, data })
}

fn run(state: &mut VmState, inputs: &[Input]) -> Vec<Operation> {
    let mut operations = Vec::new();
    for input in inputs {
        assert!(state.accepts(input));
        operations.extend(state.step(input));
    }
    operations
}

const CSW_HALFWORD_SINGLE: u32 = 0x11;
const CSW_WORD_SINGLE: u32 = 0x12;
const CSW_BYTE_SINGLE: u32 = 0x10;
const CSW_WORD_DISABLED: u32 = 0x02;

#[test]
fn vm_drw_halfword_at_upper_lane() {
    let mut state = VmState::default();
    state.aps[0].tar = Some(0x2000_0002);
    state.aps[0].csw = Some(Csw::try_from(CSW_HALFWORD_SINGLE).unwrap());
    state.aps[0].memory.insert(0x2000_0000, 0);
    let ts = Some(Timestamp { start: 5, end: 6 });
    let input = Input::Command(Command { ts, apndp: true, rnw: false, a: 3, data: 0xDEAD_0000 });
    let operations = state.step(&input);
    assert_eq!(state.aps[0].memory.get(&0x2000_0000), Some(&0xDEAD_0000));
    assert_eq!(state.aps[0].memory.len(), 1);
    assert_eq!(state.aps[0].tar, Some(0x2000_0004));
    assert_eq!(
        operations,
        vec![
            Operation::ApRegisterAccess { ts, apsel: 0, rw: RoW::W, name: "DRW", value: 0xDEAD_0000 },
            Operation::MemAp {
                ts,
                apsel: 0,
                rw: RoW::W,
                address: 0x2000_0002,
                value: MemApValue::Halfword(0xDEAD),
            },
        ]
    );
}

#[test]
fn vm_byte_lanes_follow_the_table() {
    // (tar, csw, data, cell after a cell of 0x11223344, surfaced)
    let cases = [
        (0x100u32, CSW_WORD_SINGLE, 0xAABBCCDDu32, 0xAABBCCDDu32, MemApValue::Word(0xAABBCCDD)),
        (0x100, CSW_HALFWORD_SINGLE, 0xAABBCCDD, 0x1122CCDD, MemApValue::Halfword(0xCCDD)),
        (0x102, CSW_HALFWORD_SINGLE, 0xAABBCCDD, 0xAABB3344, MemApValue::Halfword(0xAABB)),
        (0x100, CSW_BYTE_SINGLE, 0xAABBCCDD, 0x112233DD, MemApValue::Byte(0xDD)),
        (0x101, CSW_BYTE_SINGLE, 0xAABBCCDD, 0x1122CC44, MemApValue::Byte(0xCC)),
        (0x102, CSW_BYTE_SINGLE, 0xAABBCCDD, 0x11BB3344, MemApValue::Byte(0xBB)),
        (0x103, CSW_BYTE_SINGLE, 0xAABBCCDD, 0xAA223344, MemApValue::Byte(0xAA)),
    ];
    for (tar, csw, data, cell, surfaced) in cases {
        for rnw in [false, true] {
            let mut state = VmState::default();
            state.aps[0].tar = Some(tar);
            state.aps[0].csw = Some(Csw::try_from(csw).unwrap());
            state.aps[0].memory.insert(0x100, 0x11223344);
            let input = Input::Command(Command { ts: None, apndp: true, rnw, a: 3, data });
            let operations = state.step(&input);
            assert_eq!(state.aps[0].memory.get(&0x100), Some(&cell));
            assert_eq!(operations.len(), 2);
            match &operations[1] {
                Operation::MemAp { address, value, apsel, .. } => {
                    assert_eq!(*address, tar);
                    assert_eq!(*value, surfaced);
                    assert_eq!(*apsel, 0);
                }
                other => panic!("not a memory access: {:?}", other),
            }
        }
    }
}

#[test]
fn vm_unsupported_byte_lanes_change_nothing() {
    for (tar, csw) in [
        (0x101u32, CSW_WORD_SINGLE),
        (0x102, CSW_WORD_SINGLE),
        (0x103, CSW_WORD_SINGLE),
        (0x101, CSW_HALFWORD_SINGLE),
        (0x103, CSW_HALFWORD_SINGLE),
    ] {
        let mut state = VmState::default();
        state.aps[0].tar = Some(tar);
        state.aps[0].csw = Some(Csw::try_from(csw).unwrap());
        let before = state.clone();
        let operations = state.step(&ap_write(3, 0xAABBCCDD));
        assert_eq!(state, before);
        assert_eq!(
            operations,
            vec![Operation::ApRegisterAccess {
                ts: None,
                apsel: 0,
                rw: RoW::W,
                name: "DRW",
                value: 0xAABBCCDD,
            }]
        );
    }
}

#[test]
fn vm_drw_without_tar_or_csw_changes_nothing() {
    let mut state = VmState::default();
    let before = state.clone();
    let operations = state.step(&ap_write(3, 1));
    assert_eq!(state, before);
    assert_eq!(operations.len(), 1);
    state.aps[0].tar = Some(0x100);
    let before = state.clone();
    let operations = state.step(&ap_write(3, 1));
    assert_eq!(state, before);
    assert_eq!(operations.len(), 1);
}

#[test]
fn vm_address_increment() {
    for (csw, bytes) in [(CSW_WORD_SINGLE, 4u32), (CSW_HALFWORD_SINGLE, 2), (CSW_BYTE_SINGLE, 1)] {
        let mut state = VmState::default();
        state.aps[0].tar = Some(0x2000_0000);
        state.aps[0].csw = Some(Csw::try_from(csw).unwrap());
        for n in 1..=9u32 {
            state.step(&ap_write(3, n));
            assert_eq!(state.aps[0].tar, Some(0x2000_0000 + n * bytes));
        }
    }
    let mut state = VmState::default();
    state.aps[0].tar = Some(0x2000_0000);
    state.aps[0].csw = Some(Csw::try_from(CSW_WORD_DISABLED).unwrap());
    for n in 1..=9u32 {
        state.step(&ap_write(3, n));
        assert_eq!(state.aps[0].tar, Some(0x2000_0000));
    }
    assert_eq!(state.aps[0].memory.get(&0x2000_0000), Some(&9));
}

#[test]
fn vm_address_increment_wraps() {
    let mut state = VmState::default();
    state.aps[0].tar = Some(0xFFFF_FFFC);
    state.aps[0].csw = Some(Csw::try_from(CSW_WORD_SINGLE).unwrap());
    state.step(&ap_write(3, 1));
    assert_eq!(state.aps[0].tar, Some(0));
    assert_eq!(state.aps[0].memory.get(&0xFFFF_FFFC), Some(&1));
}

#[test]
fn vm_select_banking() {
    let mut state = VmState::default();
    let operations = state.step(&dp_write(2, 0xBBAA_BBAA));
    assert_eq!(
        operations,
        vec![Operation::DpRegisterAccess { ts: None, rw: RoW::W, name: "SELECT", value: 0xBBAA_BBAA }]
    );
    assert_eq!(state.dp.select, Select::from(0xBBAA_BBAA));
    assert_eq!(state.dp.select.dpbanksel(), 0xA);
    assert_eq!(state.dp.select.apbanksel(), 0xA);
    assert_eq!(state.dp.select.reserved(), 0xAABB);
    assert_eq!(state.dp.select.apsel(), 0xBB);
    // An AP access now goes to AP 0xBB, bank 0xA.
    let operations = state.step(&ap_write(1, 7));
    assert_eq!(operations, vec![]);
    state.step(&dp_write(2, 0xBB00_0000));
    let operations = state.step(&ap_write(1, 7));
    assert_eq!(
        operations,
        vec![Operation::ApRegisterAccess { ts: None, apsel: 0xBB, rw: RoW::W, name: "TAR", value: 7 }]
    );
    assert_eq!(state.aps[0xBB].tar, Some(7));
    assert_eq!(state.aps[0].tar, None);
}

#[test]
fn vm_dp_registers_by_bank() {
    fn name_of(operations: &[Operation]) -> Option<&'static str> {
        match operations {
            [] => None,
            [Operation::DpRegisterAccess { name, .. }] => Some(*name),
            other => panic!("unexpected operations: {:?}", other),
        }
    }
    let table: [(u32, u8, bool, Option<&str>); 20] = [
        (0, 0, true, Some("DPIDR")),
        (7, 0, true, Some("DPIDR")),
        (0, 0, false, Some("ABORT")),
        (0, 1, true, Some("CTRL/STAT")),
        (0, 1, false, Some("CTRL/STAT")),
        (1, 1, true, Some("DLCR")),
        (1, 1, false, Some("DLCR")),
        (2, 1, true, Some("TARGETID")),
        (2, 1, false, None),
        (3, 1, true, Some("DLPIDR")),
        (3, 1, false, None),
        (4, 1, true, Some("EVENTSTAT")),
        (4, 1, false, None),
        (5, 1, true, None),
        (15, 1, false, None),
        (9, 2, true, Some("RESEND")),
        (9, 2, false, Some("SELECT")),
        (9, 3, true, Some("RDBUFF")),
        (9, 3, false, Some("TARGETSEL")),
        (0, 3, false, Some("TARGETSEL")),
    ];
    for (bank, a, rnw, name) in table {
        let mut state = VmState::default();
        state.dp.select = Select::from(bank);
        let before = state.clone();
        let input = Input::Command(Command { ts: None, apndp: false, rnw, a, data: bank });
        let operations = state.step(&input);
        assert_eq!(name_of(&operations), name);
        assert_eq!(state, before);
        let rw = if rnw { RoW::R } else { RoW::W };
        assert_eq!(dp_register(bank as u8, a << 2, rw), name);
    }
}

#[test]
fn vm_ap_registers_by_address() {
    for (addr, name) in [
        (0x00u8, Some("CSW")),
        (0x04, Some("TAR")),
        (0x08, None),
        (0x0C, Some("DRW")),
        (0x10, Some("BD0")),
        (0x14, Some("BD1")),
        (0x18, Some("BD2")),
        (0x1C, Some("BD3")),
        (0x20, None),
        (0xF0, None),
        (0xF4, Some("CFG")),
        (0xF8, Some("BASE")),
        (0xFC, Some("IDR")),
    ] {
        assert_eq!(ap_register(addr), name);
    }
}

#[test]
fn vm_csw_read_overwrites_and_write_keeps_read_only_bits() {
    let mut state = VmState::default();
    // The first write initializes.
    state.step(&ap_write(0, 0x8000_0042));
    assert_eq!(state.aps[0].csw, Some(Csw { value: 0x8000_0042 }));
    // A later write changes size, increment, transfer in progress and
    // protection only.
    state.step(&ap_write(0, 0x7FFF_FF91));
    assert_eq!(state.aps[0].csw, Some(Csw { value: 0xFF00_00D1 }));
    let csw = state.aps[0].csw.unwrap();
    assert_eq!(csw.size(), CswSize::Halfword);
    assert_eq!(csw.addr_inc(), CswAddrInc::Single);
    assert!(csw.transfer_in_progress());
    assert!(csw.device_en());
    assert!(!csw.secure_debug());
    assert!(csw.dbg_sw_enable());
    assert_eq!(csw.protection(), 0x7F);
    // A read overwrites all of it.
    state.step(&ap_read(0, 0x0000_0002));
    assert_eq!(state.aps[0].csw, Some(Csw { value: 0x0000_0002 }));
}

#[test]
fn vm_unsupported_csw_is_skipped() {
    for data in [0x3u32, 0x4, 0x5, 0x6, 0x7, 0x20, 0x30, 0x23] {
        assert_eq!(Csw::try_from(data), Err(BitsError));
        for rnw in [false, true] {
            let mut state = VmState::default();
            state.aps[0].csw = Some(Csw { value: 0x12 });
            let before = state.clone();
            let input = Input::Command(Command { ts: None, apndp: true, rnw, a: 0, data });
            assert_eq!(state.step(&input), vec![]);
            assert_eq!(state, before);
        }
    }
    assert_eq!(Csw::try_from(0xFFFF_FF92), Ok(Csw { value: 0xFFFF_FF92 }));
}

#[test]
fn vm_tar_is_written_and_reads_are_checked() {
    let mut state = VmState::default();
    assert!(!state.accepts(&ap_read(1, 0x100)));
    state.step(&ap_write(1, 0x100));
    assert_eq!(state.aps[0].tar, Some(0x100));
    assert!(state.accepts(&ap_read(1, 0x100)));
    assert!(!state.accepts(&ap_read(1, 0x104)));
    let before = state.clone();
    let operations = state.step(&ap_read(1, 0x100));
    assert_eq!(state, before);
    assert_eq!(
        operations,
        vec![Operation::ApRegisterAccess { ts: None, apsel: 0, rw: RoW::R, name: "TAR", value: 0x100 }]
    );
    // A command whose `a` is no 2-bit quantity is not accepted.
    assert!(!state.accepts(&Input::Command(Command {
        ts: None,
        apndp: false,
        rnw: true,
        a: 4,
        data: 0,
    })));
}

#[test]
fn vm_banked_data_registers() {
    let mut state = VmState::default();
    state.step(&dp_write(2, 0x0000_0010));
    // Without TAR only the register access shows.
    let operations = state.step(&ap_write(0, 1));
    assert_eq!(
        operations,
        vec![Operation::ApRegisterAccess { ts: None, apsel: 0, rw: RoW::W, name: "BD0", value: 1 }]
    );
    assert!(state.aps[0].memory.is_empty());
    state.aps[0].tar = Some(0x2000_0123);
    for (a, name, address) in [
        (0u8, "BD0", 0x2000_0120u32),
        (1, "BD1", 0x2000_0124),
        (2, "BD2", 0x2000_0128),
        (3, "BD3", 0x2000_012C),
    ] {
        let data = 0xA0 + a as u32;
        let operations = state.step(&ap_read(a, data));
        assert_eq!(
            operations,
            vec![
                Operation::ApRegisterAccess { ts: None, apsel: 0, rw: RoW::R, name, value: data },
                Operation::MemAp {
                    ts: None,
                    apsel: 0,
                    rw: RoW::R,
                    address,
                    value: MemApValue::Word(data),
                },
            ]
        );
        assert_eq!(state.aps[0].memory.get(&address), Some(&data));
    }
    assert_eq!(state.aps[0].tar, Some(0x2000_0123));
}

#[test]
fn vm_idr_cfg_base() {
    let mut state = VmState::default();
    state.step(&dp_write(2, 0x0000_00F0));
    let before = state.clone();
    assert_eq!(
        state.step(&ap_read(1, 5)),
        vec![Operation::ApRegisterAccess { ts: None, apsel: 0, rw: RoW::R, name: "CFG", value: 5 }]
    );
    assert_eq!(
        state.step(&ap_read(2, 6)),
        vec![Operation::ApRegisterAccess { ts: None, apsel: 0, rw: RoW::R, name: "BASE", value: 6 }]
    );
    assert_eq!(state.step(&ap_read(0, 6)), vec![]);
    assert_eq!(state, before);
    let operations = state.step(&ap_read(3, 0x2477_0011));
    assert_eq!(
        operations,
        vec![Operation::ApRegisterAccess {
            ts: None,
            apsel: 0,
            rw: RoW::R,
            name: "IDR",
            value: 0x2477_0011,
        }]
    );
    let idr = state.aps[0].idr.unwrap();
    assert_eq!(idr, Idr::from(0x2477_0011));
    assert_eq!(idr.type_(), IdrType::AmbaAhb3Bus);
    assert_eq!(idr.variant(), 1);
    assert_eq!(idr.res0(), 0);
    assert_eq!(idr.class(), IdrClass::MemoryAccessPort);
    assert_eq!(idr.designed(), 0x23B);
    assert_eq!(idr.revision(), 2);
    assert_eq!(idr.type_().csw_type(), CswType::AmbaAhb3);
}

#[test]
fn vm_idr_types_and_classes() {
    let types = [
        (0x0u32, IdrType::JtagConnectionOrComAp),
        (0x1, IdrType::AmbaAhb3Bus),
        (0x2, IdrType::AmbaApb2OrApb3Bus),
        (0x3, IdrType::Reserved(3)),
        (0x4, IdrType::AmbaAxi3OrAxi4BusWithOptionalAceLiteSupport),
        (0x5, IdrType::AmbaAhb5Bus),
        (0x6, IdrType::AmbaApb4AndApb5Bus),
        (0x7, IdrType::AmbaAxi5Bus),
        (0x8, IdrType::AmbaAhb5WithEnhancedHprot),
        (0xF, IdrType::Reserved(0xF)),
    ];
    for (code, idr_type) in types {
        assert_eq!(Idr::from(0xFFFF_FFF0 | code).type_(), idr_type);
        assert!(!idr_type.is_unknown());
        if code != 1 {
            assert_eq!(idr_type.csw_type(), CswType::Generic);
        }
    }
    assert!(IdrType::default().is_unknown());
    assert_eq!(Idr::from(0x1 << 13).class(), IdrClass::ComAccessPort);
    assert_eq!(Idr::from(0x8 << 13).class(), IdrClass::MemoryAccessPort);
    assert_eq!(Idr::from(0x0).class(), IdrClass::Undefined);
    assert_eq!(Idr::from(0x5 << 13).class(), IdrClass::Undefined);
    assert_eq!(IdrClass::default(), IdrClass::Undefined);
}

#[test]
fn vm_landmark_passes_through() {
    let mut state = VmState::default();
    let before = state.clone();
    let operations = state.step(&Input::simple_landmark("something odd"));
    assert_eq!(
        operations,
        vec![Operation::Landmark { metadata: Landmark::Text(String::from("something odd")) }]
    );
    assert_eq!(state, before);
}

#[test]
fn vm_new_machine_knows_nothing() {
    let state = VmState::default();
    assert_eq!(state.aps.len(), 256);
    assert_eq!(state.dp.select, Select::from(0));
    for ap in state.aps.iter() {
        assert!(ap.memory.is_empty());
        assert_eq!(ap.tar, None);
        assert_eq!(ap.csw, None);
        assert_eq!(ap.idr, None);
    }
}

#[test]
fn vm_steps_forward_to_the_end() {
    let inputs = vec![
        ap_write(0, CSW_WORD_SINGLE),
        ap_write(1, 0x1000),
        Input::simple_landmark("mark"),
        ap_write(3, 0xCAFE),
        dp_read(0, 0x2BA0_1477),
    ];
    let mut vm = Vm::new();
    let mut cursor = 0usize;
    let mut all = Vec::new();
    loop {
        assert!(vm.accepts_next(&inputs));
        let Some(step) = vm.step_forward(&inputs) else {
            break;
        };
        assert_eq!(step.previous.1, cursor);
        assert_eq!(step.current.1, cursor + 1);
        cursor += 1;
        if cursor == 4 {
            assert_eq!(step.previous.0.aps[0].memory.get(&0x1000), None);
            assert_eq!(step.current.0.aps[0].memory.get(&0x1000), Some(&0xCAFE));
            assert_eq!(step.previous.0.aps[0].tar, Some(0x1000));
            assert_eq!(step.current.0.aps[0].tar, Some(0x1004));
        }
        all.extend(step.operations);
    }
    assert_eq!(cursor, 5);
    assert_eq!(all.len(), 6);
    assert!(vm.step_forward(&inputs).is_none());
    assert!(matches!(all[2], Operation::Landmark { .. }));
    assert_eq!(
        all[5],
        Operation::DpRegisterAccess { ts: None, rw: RoW::R, name: "DPIDR", value: 0x2BA0_1477 }
    );
}

#[test]
fn vm_steps_back_by_replay() {
    let inputs = vec![ap_write(0, CSW_WORD_SINGLE), ap_write(1, 0x1000), ap_write(3, 1), ap_write(3, 2)];
    let mut vm = Vm::new();
    assert!(vm.accepts_replay(&inputs));
    assert!(vm.step_back(&inputs).is_none());
    let mut states = vec![VmState::default()];
    while let Some(step) = vm.step_forward(&inputs) {
        states.push(step.current.0);
    }
    assert_eq!(states.len(), 5);
    let mut cursor = 4usize;
    loop {
        assert!(vm.accepts_replay(&inputs));
        let Some(step) = vm.step_back(&inputs) else {
            break;
        };
        assert!(step.operations.is_empty());
        assert_eq!(step.previous.1, cursor);
        assert_eq!(step.current.1, cursor - 1);
        assert_eq!(step.previous.0, states[cursor]);
        assert_eq!(step.current.0, states[cursor - 1]);
        cursor -= 1;
    }
    assert_eq!(cursor, 0);
    // A replay that meets a read of TAR which does not match is refused.
    let inputs = vec![ap_write(1, 0x1000), ap_read(1, 0x2000), ap_write(3, 1)];
    let mut vm = Vm::new();
    assert!(vm.step_forward(&inputs).is_some());
    assert!(!vm.accepts_next(&inputs));
}

#[test]
fn vm_row_and_values() {
    assert_eq!(RoW::R.arrow(), "→");
    assert_eq!(RoW::W.arrow(), "←");
    assert_eq!(RoW::R.letter(), "R");
    assert_eq!(RoW::W.letter(), "W");
    assert_eq!(RoW::of_rnw(true), RoW::R);
    assert_eq!(RoW::of_rnw(false), RoW::W);
    assert_eq!(MemApValue::Word(0x1234_5678).as_(), 0x1234_5678);
    assert_eq!(MemApValue::Halfword(0x5678).as_(), 0x5678);
    assert_eq!(MemApValue::Byte(0x78).as_(), 0x78);
    assert_eq!(MemApValue::of_size(CswSize::Halfword, 0xBEEF), MemApValue::Halfword(0xBEEF));
    assert_eq!(CswSize::Word.bytes(), 4);
    assert_eq!(CswSize::Halfword.bytes(), 2);
    assert_eq!(CswSize::Byte.bytes(), 1);
}

#[test]
fn vm_csw_overwrite_rw_fields() {
    let mut csw = Csw::try_from(0x8080_0040).unwrap();
    let other = Csw::try_from(0x7F7F_FFB2 & !0x28).unwrap();
    csw.overwrite_rw_fields(&other);
    assert_eq!(csw.value, 0xFF80_00D2);
    assert_eq!(csw.size(), CswSize::Word);
    assert_eq!(csw.addr_inc(), CswAddrInc::Single);
    assert!(csw.secure_debug());
    assert_eq!(Csw::default().value, 0);
    assert_eq!(CswSize::default(), CswSize::Byte);
    assert_eq!(CswAddrInc::default(), CswAddrInc::Disabled);
}

#[test]
fn vm_changes_between_states() {
    let mut previous = Ap::default();
    previous.memory.insert(0x10, 1);
    previous.memory.insert(0x14, 2);
    previous.memory.insert(0x18, 3);
    let mut current = previous.clone();
    assert_eq!(current.memory_changes(&previous), vec![]);
    assert_eq!(current.csw_change(&previous), None);
    current.memory.insert(0x14, 20);
    current.memory.insert(0x1C, 4);
    current.memory.insert(0x20, 0);
    current.memory.remove(&0x18);
    let mut changes = current.memory_changes(&previous);
    changes.sort_by_key(|change| change.address());
    assert_eq!(
        changes,
        vec![
            MemoryChange::Updated { address: 0x14, old: 2, new: 20 },
            MemoryChange::New { address: 0x1C, value: 4 },
            MemoryChange::New { address: 0x20, value: 0 },
        ]
    );
    let first = Csw::try_from(0x12).unwrap();
    let second = Csw::try_from(0x11).unwrap();
    current.csw = Some(first);
    assert_eq!(current.csw_change(&previous), Some(CswChange::Appeared(first)));
    previous.csw = Some(first);
    assert_eq!(current.csw_change(&previous), None);
    current.csw = Some(second);
    assert_eq!(
        current.csw_change(&previous),
        Some(CswChange::Changed { old: first, new: second })
    );
    current.csw = None;
    assert_eq!(current.csw_change(&previous), None);
}

#[test]
fn vm_tells_why_it_passes_over_a_command() {
    let mut state = VmState::default();
    assert_eq!(state.anomaly(&Input::simple_landmark("mark")), None);
    assert_eq!(state.anomaly(&dp_read(0, 0)), None);
    assert_eq!(state.anomaly(&ap_write(0, 0x12)), None);
    assert_eq!(state.anomaly(&ap_write(0, 0x13)), Some(Anomaly::UnsupportedCsw));
    assert_eq!(state.anomaly(&ap_write(0, 0x22)), Some(Anomaly::UnsupportedCsw));
    assert_eq!(state.anomaly(&ap_write(2, 0)), Some(Anomaly::UnknownApRegister));
    assert_eq!(state.anomaly(&ap_write(3, 0)), Some(Anomaly::TarUnknown));
    state.aps[0].tar = Some(0x101);
    assert_eq!(state.anomaly(&ap_write(3, 0)), Some(Anomaly::CswUnknown));
    state.aps[0].csw = Some(Csw::try_from(CSW_HALFWORD_SINGLE).unwrap());
    assert_eq!(state.anomaly(&ap_write(3, 0)), Some(Anomaly::UnsupportedLane));
    state.aps[0].csw = Some(Csw::try_from(CSW_BYTE_SINGLE).unwrap());
    assert_eq!(state.anomaly(&ap_write(3, 0)), None);
    state.dp.select = Select::from(0x12);
    assert_eq!(state.anomaly(&dp_write(1, 0)), Some(Anomaly::UnknownDpRegister));
    assert_eq!(state.anomaly(&dp_read(1, 0)), None);
    assert_eq!(state.anomaly(&ap_read(0, 0)), None);
    state.aps[0].tar = None;
    for a in 0..4 {
        assert_eq!(state.anomaly(&ap_read(a, 0)), Some(Anomaly::TarUnknown));
    }
    // Whatever the machine passes over leaves the state as it is.
    let before = state.clone();
    for input in [ap_read(2, 0), dp_write(1, 0)] {
        assert!(state.anomaly(&input).is_some());
        state.step(&input);
        assert_eq!(state, before);
    }
    let inputs = vec![ap_write(3, 1), ap_write(1, 0x100)];
    let mut vm = Vm::new();
    assert_eq!(vm.next_anomaly(&inputs), Some(Anomaly::TarUnknown));
    vm.step_forward(&inputs);
    assert_eq!(vm.next_anomaly(&inputs), None);
    vm.step_forward(&inputs);
    assert_eq!(vm.next_anomaly(&inputs), None);
    assert!(state.is_wf());
    state.aps.pop();
    assert!(!state.is_wf());
}
