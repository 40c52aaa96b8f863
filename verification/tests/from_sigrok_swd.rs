use adios::common::{Command, Input, Landmark, Timestamp};
use adios::from_sigrok_swd::{generate_vm_commands, AccessId, Ap, Dp, InnerAp, ParseError};
use adios::from_sigrok_swd::{ReadDp, WriteDp};

fn landmark_text(input: &Input) -> String {
    match input {
        Input::Landmark { metadata: Landmark::Text(text) } => text.clone(),
        other => panic!("not a text landmark: {:?}", other),
    }
}

#[test]
fn simple_command_with_ok() {
    let text_sample = "17-1337 swd-1: IDCODE
1337-1337 swd-1: OK
1337-71 swd-1: 0x5ba02477
";
    let commands = generate_vm_commands(text_sample).unwrap();
    let expected_commands = [Input::Command(Command {
        ts: Some(Timestamp { start: 17, end: 71 }),
        apndp: false,
        rnw: true,
        a: 0,
        data: 0x5ba02477,
    })];
    assert_eq!(commands, expected_commands);
}

#[test]
fn simple_command_with_wait_with_ok() {
    let text_sample = "17-1337 swd-1: IDCODE
1337-1337 swd-1: WAIT
1337-1337 swd-1: IDCODE
1337-1337 swd-1: WAIT
1337-1337 swd-1: IDCODE
1337-1337 swd-1: WAIT
1337-1337 swd-1: IDCODE
1337-1337 swd-1: WAIT
1337-1337 swd-1: IDCODE
1337-1337 swd-1: WAIT
1337-1337 swd-1: IDCODE
1337-1337 swd-1: OK
1337-71 swd-1: 0x5ba02477
";
    let commands = generate_vm_commands(text_sample).unwrap();
    let expected_commands = [Input::Command(Command {
        ts: Some(Timestamp { start: 17, end: 71 }),
        apndp: false,
        rnw: true,
        a: 0,
        data: 0x5ba02477,
    })];
    assert_eq!(commands, expected_commands);
}

#[test]
fn simple_command_following_unresolved_wait_spam() {
    let text_sample = "1337-1337 swd-1: IDCODE
1337-1337 swd-1: WAIT
1337-1337 swd-1: IDCODE
1337-1337 swd-1: WAIT
1337-1337 swd-1: IDCODE
1337-1337 swd-1: WAIT
1337-1337 swd-1: IDCODE
1337-1337 swd-1: WAIT
1337-1337 swd-1: LINERESET
1337-1337 swd-1: JTAG->SWD
1337-1337 swd-1: LINERESET
17-1337 swd-1: IDCODE
1337-1337 swd-1: WAIT
1337-1337 swd-1: IDCODE
1337-1337 swd-1: OK
1337-71 swd-1: 0x5ba02477
";
    let commands = generate_vm_commands(text_sample).unwrap();
    let expected_commands = [Input::Command(Command {
        ts: Some(Timestamp { start: 17, end: 71 }),
        apndp: false,
        rnw: true,
        a: 0,
        data: 0x5ba02477,
    })];
    // First is the landmark, second is the correct command
    assert_eq!(&commands[1..], expected_commands);
    assert!(matches!(commands[0], Input::Landmark { .. }));
}

#[test]
fn ignore_unsolicited_rdbuffs() {
    let text_sample = "1337-1337 swd-1: LINERESET
1337-1337 swd-1: JTAG->SWD
1337-1337 swd-1: LINERESET
17-1337 swd-1: IDCODE
1337-1337 swd-1: OK
1337-71 swd-1: 0x1
1337-1337 swd-1: RDBUFF
1337-1337 swd-1: OK
1337-1337 swd-1: 0x01100001";
    let commands = generate_vm_commands(text_sample).unwrap();
    let expected_commands = [Input::Command(Command {
        ts: Some(Timestamp { start: 17, end: 71 }),
        apndp: false,
        rnw: true,
        a: 0,
        data: 0x1,
    })];
    assert_eq!(commands, expected_commands);
}

#[test]
fn ignore_faults() {
    let text_sample = "1337-1337 swd-1: LINERESET
1337-1337 swd-1: JTAG->SWD
1337-1337 swd-1: LINERESET
17-1337 swd-1: IDCODE
1337-1337 swd-1: OK
1337-71 swd-1: 0x1
1337-1337 swd-1: R APc
1337-1337 swd-1: FAULT";
    let commands = generate_vm_commands(text_sample).unwrap();
    let expected_commands = [Input::Command(Command {
        ts: Some(Timestamp { start: 17, end: 71 }),
        apndp: false,
        rnw: true,
        a: 0,
        data: 0x1,
    })];
    // First is the command, second is the landmark with the fault
    assert_eq!(&commands[..1], expected_commands);
    assert!(matches!(commands[1], Input::Landmark { .. }));
}

#[test]
fn chained_ap_reads() {
    let text_sample = "12-1337 swd-1: R AP0
1337-1337 swd-1: OK
1337-1337 swd-1: 0x00000000
13-1337 swd-1: R AP4
1337-1337 swd-1: OK
1337-21 swd-1: 0x00000001
14-1337 swd-1: R AP8
1337-1337 swd-1: OK
1337-31 swd-1: 0x00000002
15-1337 swd-1: R APc
1337-1337 swd-1: OK
1337-41 swd-1: 0x00000003
1337-1337 swd-1: RDBUFF
1337-1337 swd-1: OK
1337-51 swd-1: 0x00000004";
    let commands = generate_vm_commands(text_sample).unwrap();
    let expected_commands = [
        Input::Command(Command {
            ts: Some(Timestamp { start: 12, end: 21 }),
            apndp: true,
            rnw: true,
            a: 0,
            data: 0x1,
        }),
        Input::Command(Command {
            ts: Some(Timestamp { start: 13, end: 31 }),
            apndp: true,
            rnw: true,
            a: 1,
            data: 0x2,
        }),
        Input::Command(Command {
            ts: Some(Timestamp { start: 14, end: 41 }),
            apndp: true,
            rnw: true,
            a: 2,
            data: 0x3,
        }),
        Input::Command(Command {
            ts: Some(Timestamp { start: 15, end: 51 }),
            apndp: true,
            rnw: true,
            a: 3,
            data: 0x4,
        }),
    ];
    assert_eq!(commands, expected_commands);
}

#[test]
fn single_ap_reads() {
    let text_sample = "12-1337 swd-1: R AP0
1337-1337 swd-1: OK
1337-1337 swd-1: 0xFFFFFFFF
1337-1337 swd-1: RDBUFF
1337-1337 swd-1: OK
1337-21 swd-1: 0x00000000
13-1337 swd-1: R AP4
1337-1337 swd-1: OK
1337-1337 swd-1: 0xFFFFFFFF
1337-1337 swd-1: RDBUFF
1337-1337 swd-1: OK
1337-31 swd-1: 0x00000001
14-1337 swd-1: R AP8
1337-1337 swd-1: OK
1337-1337 swd-1: 0xFFFFFFFF
1337-1337 swd-1: RDBUFF
1337-1337 swd-1: OK
1337-41 swd-1: 0x00000002
15-1337 swd-1: R APc
1337-1337 swd-1: OK
1337-1337 swd-1: 0xFFFFFFFF
1337-1337 swd-1: RDBUFF
1337-1337 swd-1: OK
1337-51 swd-1: 0x00000003
";
    let commands = generate_vm_commands(text_sample).unwrap();
    let expected_commands = [
        Input::Command(Command {
            ts: Some(Timestamp { start: 12, end: 21 }),
            apndp: true,
            rnw: true,
            a: 0,
            data: 0x0,
        }),
        Input::Command(Command {
            ts: Some(Timestamp { start: 13, end: 31 }),
            apndp: true,
            rnw: true,
            a: 1,
            data: 0x1,
        }),
        Input::Command(Command {
            ts: Some(Timestamp { start: 14, end: 41 }),
            apndp: true,
            rnw: true,
            a: 2,
            data: 0x2,
        }),
        Input::Command(Command {
            ts: Some(Timestamp { start: 15, end: 51 }),
            apndp: true,
            rnw: true,
            a: 3,
            data: 0x3,
        }),
    ];
    assert_eq!(commands, expected_commands);
}

#[test]
fn swd_every_simple_access_is_named() {
    let cases = [
        ("IDCODE", false, true, 0u8),
        ("R CTRL/STAT", false, true, 1),
        ("RESEND", false, true, 2),
        ("W ABORT", false, false, 0),
        ("W CTRL/STAT", false, false, 1),
        ("W SELECT", false, false, 2),
        ("W AP0", true, false, 0),
        ("W AP4", true, false, 1),
        ("W AP8", true, false, 2),
        ("W APc", true, false, 3),
    ];
    for (tag, apndp, rnw, a) in cases {
        let text = format!("1-2 swd-1: {}\n3-4 swd-1: OK\n5-6 swd-1: 0xdeadbeef\n", tag);
        let commands = generate_vm_commands(&text).unwrap();
        assert_eq!(
            commands,
            [Input::Command(Command {
                ts: Some(Timestamp { start: 1, end: 6 }),
                apndp,
                rnw,
                a,
                data: 0xdeadbeef,
            })]
        );
    }
}

#[test]
fn swd_fault_landmark_names_the_access() {
    let commands = generate_vm_commands("1-2 swd-1: W SELECT\n3-4 swd-1: FAULT\n").unwrap();
    assert_eq!(commands.len(), 1);
    assert_eq!(landmark_text(&commands[0]), "FAULT occurred when trying to Dp(W(Select))");
}

#[test]
fn swd_unresolved_wait_landmark_names_the_access() {
    let text = "1-2 swd-1: W AP4\n3-4 swd-1: WAIT\n5-6 swd-1: W AP4\n7-8 swd-1: WAIT";
    let commands = generate_vm_commands(text).unwrap();
    assert_eq!(commands.len(), 1);
    assert_eq!(
        landmark_text(&commands[0]),
        "WAIT spam with no resolution occurred when trying to Ap(W(Two))"
    );
}

#[test]
fn swd_wait_resolved_by_fault() {
    let text = "1-2 swd-1: IDCODE\n3-4 swd-1: WAIT\n5-6 swd-1: IDCODE\n7-8 swd-1: FAULT\n";
    let commands = generate_vm_commands(text).unwrap();
    assert_eq!(commands.len(), 1);
    assert_eq!(landmark_text(&commands[0]), "FAULT occurred when trying to Dp(R(IdCode))");
}

#[test]
fn swd_chain_with_fault_takes_rdbuff_along() {
    let text = "1-2 swd-1: R AP0\n3-4 swd-1: OK\n5-6 swd-1: 0x1\n\
7-8 swd-1: R AP4\n9-10 swd-1: FAULT\n\
11-12 swd-1: RDBUFF\n13-14 swd-1: OK\n15-16 swd-1: 0x2\n\
17-18 swd-1: IDCODE\n19-20 swd-1: OK\n21-22 swd-1: 0x3\n";
    let commands = generate_vm_commands(text).unwrap();
    assert_eq!(commands.len(), 2);
    assert_eq!(
        landmark_text(&commands[0]),
        "FAULT occurred among R APx, unclear how to generate a command, result is presumably incomplete."
    );
    assert_eq!(
        commands[1],
        Input::Command(Command {
            ts: Some(Timestamp { start: 17, end: 22 }),
            apndp: false,
            rnw: true,
            a: 0,
            data: 3,
        })
    );
}

#[test]
fn swd_chain_with_fault_takes_every_rdbuff_along() {
    let text = "1-2 swd-1: R AP0\n3-4 swd-1: FAULT\n\
5-6 swd-1: RDBUFF\n7-8 swd-1: OK\n9-10 swd-1: 0x2\n\
11-12 swd-1: RDBUFF\n13-14 swd-1: FAULT\n\
15-16 swd-1: RDBUFF\n17-18 swd-1: WAIT\n\
19-20 swd-1: LINERESET\n";
    let commands = generate_vm_commands(text).unwrap();
    assert_eq!(commands.len(), 1);
    assert!(landmark_text(&commands[0]).starts_with("FAULT occurred among R APx"));
}

#[test]
fn swd_chain_closed_by_failed_rdbuff() {
    let text = "1-2 swd-1: R AP0\n3-4 swd-1: OK\n5-6 swd-1: 0x1\n7-8 swd-1: RDBUFF\n9-10 swd-1: FAULT\n";
    let commands = generate_vm_commands(text).unwrap();
    assert_eq!(commands.len(), 1);
    assert_eq!(landmark_text(&commands[0]), "FAULT occurred when trying to Dp(R(Rdbuff))");
}

#[test]
fn swd_chain_without_rdbuff_is_an_error() {
    let text = "1-2 swd-1: IDCODE\n3-4 swd-1: OK\n5-6 swd-1: 0x1\n7-8 swd-1: R AP0\n9-10 swd-1: OK\n11-12 swd-1: 0x1\n";
    let first = "1-2 swd-1: IDCODE\n3-4 swd-1: OK\n5-6 swd-1: 0x1\n".len();
    assert_eq!(generate_vm_commands(text), Err(ParseError { offset: first }));
}

#[test]
fn swd_empty_text_is_an_error() {
    assert_eq!(generate_vm_commands(""), Err(ParseError { offset: 0 }));
}

#[test]
fn swd_error_tells_where_the_commands_stopped() {
    let good = "1-2 swd-1: LINERESET\n";
    let text = format!("{}garbage\n", good);
    assert_eq!(generate_vm_commands(&text), Err(ParseError { offset: good.len() }));
    assert_eq!(generate_vm_commands("1-2 swd-1: NOPE\n"), Err(ParseError { offset: 0 }));
}

#[test]
fn swd_numbers_must_fit() {
    // A value of 33 bits.
    let text = "1-2 swd-1: IDCODE\n3-4 swd-1: OK\n5-6 swd-1: 0x100000000\n";
    assert_eq!(generate_vm_commands(text), Err(ParseError { offset: 0 }));
    // Leading zeros do not count.
    let text = "1-2 swd-1: IDCODE\n3-4 swd-1: OK\n5-6 swd-1: 0x0000000000ffffffff\n";
    assert_eq!(
        generate_vm_commands(text).unwrap(),
        [Input::Command(Command {
            ts: Some(Timestamp { start: 1, end: 6 }),
            apndp: false,
            rnw: true,
            a: 0,
            data: 0xffff_ffff,
        })]
    );
    // A timestamp of 64 bits fits, one beyond does not.
    let text = "18446744073709551615-2 swd-1: LINERESET\n";
    assert_eq!(generate_vm_commands(text).unwrap(), []);
    let text = "18446744073709551616-2 swd-1: LINERESET\n";
    assert_eq!(generate_vm_commands(text), Err(ParseError { offset: 0 }));
}

#[test]
fn swd_carriage_returns_end_lines_too() {
    let text = "17-1337 swd-1: IDCODE\r\n1337-1337 swd-1: OK\r\n1337-71 swd-1: 0x5BA02477\r\n";
    assert_eq!(
        generate_vm_commands(text).unwrap(),
        [Input::Command(Command {
            ts: Some(Timestamp { start: 17, end: 71 }),
            apndp: false,
            rnw: true,
            a: 0,
            data: 0x5ba02477,
        })]
    );
}

#[test]
fn swd_last_access_line_needs_its_line_ending() {
    // Only a value or a FAULT may end the text without a line ending.
    assert_eq!(
        generate_vm_commands("1-2 swd-1: IDCODE\n3-4 swd-1: OK"),
        Err(ParseError { offset: 0 })
    );
    assert_eq!(generate_vm_commands("1-2 swd-1: LINERESET"), Err(ParseError { offset: 0 }));
}

#[test]
fn swd_access_id_makes_the_command() {
    let ts = Timestamp { start: 3, end: 9 };
    let command = AccessId::Ap(Ap::R(InnerAp::Four)).command(7, ts);
    assert_eq!(command, Command { ts: Some(ts), apndp: true, rnw: true, a: 3, data: 7 });
    let command = AccessId::Dp(Dp::W(WriteDp::Select)).command(8, ts);
    assert_eq!(command, Command { ts: Some(ts), apndp: false, rnw: false, a: 2, data: 8 });
    let command = AccessId::Dp(Dp::R(ReadDp::Rdbuff)).command(9, ts);
    assert_eq!(command, Command { ts: Some(ts), apndp: false, rnw: true, a: 3, data: 9 });
    assert_eq!(AccessId::Ap(Ap::W(InnerAp::Three)).tag(), "W AP8");
}
