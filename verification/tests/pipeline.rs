use adios::adi::{MemApValue, Operation, RoW, Vm};
use adios::common::{Input, Timestamp};
use adios::from_cmsis_dap_ws_pdml::generate_vm_input;
use adios::from_sigrok_swd::generate_vm_commands;
use adios::pdml::{Field, Packet, Pdml, Proto};

fn replay(inputs: &Vec<Input>) -> (Vm, Vec<Operation>) {
    let mut vm = Vm::new();
    let mut operations = Vec::new();
    loop {
        assert!(vm.accepts_next(inputs));
        match vm.step_forward(inputs) {
            Some(step) => operations.extend(step.operations),
            None => break,
        }
    }
    (vm, operations)
}

#[test]
fn swd_capture_replays_into_memory() {
    let text = "\
1-2 swd-1: LINERESET
3-4 swd-1: JTAG->SWD
5-6 swd-1: IDCODE
7-8 swd-1: OK
9-10 swd-1: 0x2ba01477
11-12 swd-1: W SELECT
13-14 swd-1: OK
15-16 swd-1: 0x00000000
17-18 swd-1: W AP0
19-20 swd-1: OK
21-22 swd-1: 0x23000012
23-24 swd-1: W AP4
25-26 swd-1: WAIT
27-28 swd-1: W AP4
29-30 swd-1: OK
31-32 swd-1: 0xe000ed00
33-34 swd-1: R APc
35-36 swd-1: OK
37-38 swd-1: 0x00000000
39-40 swd-1: R APc
41-42 swd-1: OK
43-44 swd-1: 0x410fc241
45-46 swd-1: RDBUFF
47-48 swd-1: OK
49-50 swd-1: 0x00000000
51-52 swd-1: W APc
53-54 swd-1: FAULT
";
    let inputs = generate_vm_commands(text).unwrap();
    assert_eq!(inputs.len(), 7);
    let (mut vm, operations) = replay(&inputs);
    let names: Vec<String> = operations
        .iter()
        .map(|operation| match operation {
            Operation::Landmark { .. } => String::from("!"),
            Operation::DpRegisterAccess { rw, name, .. } => format!("{}:DP.{}", rw.letter(), name),
            Operation::ApRegisterAccess { rw, name, apsel, .. } => {
                format!("{}:AP[{}].{}", rw.letter(), apsel, name)
            }
            Operation::MemAp { rw, address, value, .. } => {
                format!("{}:{:#010x}={:#x}", rw.letter(), address, value.as_())
            }
        })
        .collect();
    assert_eq!(
        names,
        [
            "R:DP.DPIDR",
            "W:DP.SELECT",
            "W:AP[0].CSW",
            "W:AP[0].TAR",
            "R:AP[0].DRW",
            "R:0xe000ed00=0x410fc241",
            "R:AP[0].DRW",
            "R:0xe000ed04=0x0",
            "!",
        ]
    );
    assert_eq!(
        operations[5],
        Operation::MemAp {
            ts: Some(Timestamp { start: 33, end: 44 }),
            apsel: 0,
            rw: RoW::R,
            address: 0xE000_ED00,
            value: MemApValue::Word(0x410F_C241),
        }
    );
    // Going back one step replays all but the landmark.
    let step = vm.step_back(&inputs).unwrap();
    assert_eq!(step.current.1, 6);
    assert_eq!(step.current.0.aps[0].tar, Some(0xE000_ED08));
    assert_eq!(step.current.0.aps[0].memory.get(&0xE000_ED00), Some(&0x410F_C241));
    assert_eq!(step.current.0.aps[0].memory.get(&0xE000_ED04), Some(&0));
    assert_eq!(step.current.0, step.previous.0);
    let step = vm.step_back(&inputs).unwrap();
    assert_eq!(step.current.0.aps[0].tar, Some(0xE000_ED04));
    assert_eq!(step.current.0.aps[0].memory.get(&0xE000_ED04), None);
}

fn field(name: &str, show: &str) -> Field {
    Field { name: String::from(name), show: String::from(show), field: Vec::new() }
}

fn packet(number: usize, fields: Vec<Field>) -> Packet {
    Packet {
        proto: vec![
            Proto {
                name: String::from("frame"),
                field: vec![
                    field("frame.number", &number.to_string()),
                    field("frame.time_epoch", "0.0"),
                ],
            },
            Proto { name: String::from("usbdap"), field: fields },
        ],
    }
}

#[test]
fn cmsis_dap_capture_replays_into_memory() {
    let request = packet(
        1,
        vec![
            field("cmsis_dap.response", "2"),
            field("cmsis_dap.command", "0x05"),
            field("cmsis_dap.dap_index", "0"),
            field("cmsis_dap.transfer.count", "4"),
            Field {
                name: String::from("cmsis_dap.transfer"),
                show: String::new(),
                field: vec![
                    field("cmsis_dap.transfer.request", "0x08"),
                    field("cmsis_dap.transfer.write.data", "0"),
                    field("cmsis_dap.transfer.request", "0x01"),
                    field("cmsis_dap.transfer.write.data", "16"),
                    field("cmsis_dap.transfer.request", "0x05"),
                    field("cmsis_dap.transfer.write.data", "536870913"),
                    field("cmsis_dap.transfer.request", "0x0d"),
                    field("cmsis_dap.transfer.write.data", "43775"),
                ],
            },
        ],
    );
    let response = packet(
        2,
        vec![
            field("cmsis_dap.request", "1"),
            field("cmsis_dap.command", "0x05"),
            field("cmsis_dap.transfer.count", "4"),
            field("cmsis_dap.transfer.response", "0x01"),
        ],
    );
    let inputs = generate_vm_input(&Pdml { packet: vec![request, response] }).unwrap();
    assert_eq!(inputs.len(), 4);
    let (_, operations) = replay(&inputs);
    assert_eq!(operations.len(), 5);
    // A byte goes to lane 1 of the cell at 0x20000000.
    assert_eq!(
        operations[4],
        Operation::MemAp {
            ts: None,
            apsel: 0,
            rw: RoW::W,
            address: 0x2000_0001,
            value: MemApValue::Byte(0xAA),
        }
    );
}
