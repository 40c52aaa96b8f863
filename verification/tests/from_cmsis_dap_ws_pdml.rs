use adios::cmsis_dap::request::{DapSingleTransfer, DapTransferBlockRequest, DapTransferRequest};
use adios::cmsis_dap::response::{DapResponseStatus, DapTransferResponse, DapTransferResponseAck};
use adios::cmsis_dap::{request, response, Content, Frame, PdmlError, PdmlFailure, Request};
use adios::cmsis_dap::Response;
use adios::common::{Command, Input, Landmark, UnknownCommandLandmark};
use adios::from_cmsis_dap_ws_pdml::{expand_transfer, expand_transfer_block, generate_vm_input};
use adios::pdml::{Field, Packet, Pdml, Proto};
use adios::text::{parse_decimal, parse_prefixed_hex};

fn field(name: &str, show: &str) -> Field {
    Field { name: String::from(name), show: String::from(show), field: Vec::new() }
}

fn nested(name: &str, fields: Vec<Field>) -> Field {
    Field { name: String::from(name), show: String::new(), field: fields }
}

fn proto(name: &str, fields: Vec<Field>) -> Proto {
    Proto { name: String::from(name), field: fields }
}

fn frame_proto(number: usize) -> Proto {
    proto(
        "frame",
        vec![
            field("frame.time_epoch", "1700000000.000000000"),
            field("frame.number", &number.to_string()),
        ],
    )
}

fn request_packet(number: usize, answered_by: usize, command: &str, mut fields: Vec<Field>) -> Packet {
    let mut all = vec![field("cmsis_dap.command", command)];
    all.append(&mut fields);
    all.push(field("cmsis_dap.response", &answered_by.to_string()));
    Packet { proto: vec![frame_proto(number), proto("usb", vec![]), proto("usbdap", all)] }
}

fn response_packet(number: usize, asked_by: usize, command: &str, mut fields: Vec<Field>) -> Packet {
    let mut all = vec![field("cmsis_dap.request", &asked_by.to_string())];
    all.push(field("cmsis_dap.command", command));
    all.append(&mut fields);
    Packet { proto: vec![frame_proto(number), proto("usbdap", all)] }
}

fn transfer_request(count: u8, transfers: &[(&str, Option<u32>)]) -> Vec<Field> {
    let mut inner = Vec::new();
    for (byte, data) in transfers {
        inner.push(field("cmsis_dap.transfer.request", byte));
        if let Some(data) = data {
            inner.push(field("cmsis_dap.transfer.write.data", &data.to_string()));
        }
    }
    vec![
        field("cmsis_dap.dap_index", "0"),
        field("cmsis_dap.transfer.count", &count.to_string()),
        nested("cmsis_dap.transfer", inner),
    ]
}

fn transfer_response(count: u8, byte: &str, data: &[u32]) -> Vec<Field> {
    let mut fields = vec![
        field("cmsis_dap.transfer.count", &count.to_string()),
        field("cmsis_dap.transfer.response", byte),
    ];
    for word in data {
        fields.push(field("cmsis_dap.transfer.read.data", &word.to_string()));
    }
    fields
}

fn generate(packets: Vec<Packet>) -> Result<Vec<Input>, PdmlFailure> {
    generate_vm_input(&Pdml { packet: packets })
}

fn failure(packet: usize, error: PdmlError) -> Result<Vec<Input>, PdmlFailure> {
    Err(PdmlFailure { packet, error })
}

fn command(apndp: bool, rnw: bool, a: u8, data: u32) -> Input {
    Input::Command(Command { ts: None, apndp, rnw, a, data })
}

// The five transfers used below: W DP.SELECT, W AP.TAR, R AP.DRW, W AP.CSW,
// R DP.RDBUFF.
fn five_transfers() -> Vec<Field> {
    transfer_request(
        5,
        &[
            ("0x08", Some(0x0100_0000)),
            ("0x05", Some(0x2000_0000)),
            ("0x0f", None),
            ("0x01", Some(0x12)),
            ("0x0e", None),
        ],
    )
}

#[test]
fn cmsis_dap_write_abort_ok() {
    let inputs = generate(vec![
        request_packet(
            1,
            2,
            "0x08",
            vec![field("cmsis_dap.dap_index", "0"), field("cmsis_dap.write_abort", "3735928559")],
        ),
        response_packet(2, 1, "0x08", vec![field("cmsis_dap.status", "0x00")]),
    ])
    .unwrap();
    assert_eq!(inputs, [command(false, false, 0, 0xDEADBEEF)]);
}

#[test]
fn cmsis_dap_write_abort_err_gives_nothing() {
    let inputs = generate(vec![
        request_packet(
            1,
            2,
            "0x08",
            vec![field("cmsis_dap.dap_index", "0"), field("cmsis_dap.write_abort", "1")],
        ),
        response_packet(2, 1, "0x08", vec![field("cmsis_dap.status", "0xff")]),
    ])
    .unwrap();
    assert_eq!(inputs, []);
}

#[test]
fn cmsis_dap_wait_truncates_the_transfers() {
    let inputs = generate(vec![
        request_packet(10, 11, "0x05", five_transfers()),
        response_packet(11, 10, "0x05", transfer_response(3, "0x02", &[0xAAAA])),
    ])
    .unwrap();
    assert_eq!(
        inputs,
        [command(false, false, 2, 0x0100_0000), command(true, false, 1, 0x2000_0000)]
    );
}

#[test]
fn cmsis_dap_ok_gives_every_transfer_counted() {
    let inputs = generate(vec![
        request_packet(10, 11, "0x05", five_transfers()),
        response_packet(11, 10, "0x05", transfer_response(5, "0x01", &[0xAAAA, 0xBBBB])),
    ])
    .unwrap();
    assert_eq!(
        inputs,
        [
            command(false, false, 2, 0x0100_0000),
            command(true, false, 1, 0x2000_0000),
            command(true, true, 3, 0xAAAA),
            command(true, false, 0, 0x12),
            command(false, true, 3, 0xBBBB),
        ]
    );
    let inputs = generate(vec![
        request_packet(10, 11, "0x05", five_transfers()),
        response_packet(11, 10, "0x05", transfer_response(3, "0x01", &[0xAAAA, 0xBBBB])),
    ])
    .unwrap();
    assert_eq!(inputs.len(), 3);
    assert_eq!(inputs[2], command(true, true, 3, 0xAAAA));
}

#[test]
fn cmsis_dap_failed_transfer_gives_nothing() {
    for byte in ["0x04", "0x07", "0x09", "0x11", "0x0a"] {
        let inputs = generate(vec![
            request_packet(10, 11, "0x05", five_transfers()),
            response_packet(11, 10, "0x05", transfer_response(5, byte, &[0xAAAA, 0xBBBB])),
        ])
        .unwrap();
        assert_eq!(inputs, [], "response byte {}", byte);
    }
    // WAIT on the first transfer vouches for none.
    for count in [0u8, 1] {
        let inputs = generate(vec![
            request_packet(10, 11, "0x05", five_transfers()),
            response_packet(11, 10, "0x05", transfer_response(count, "0x02", &[])),
        ])
        .unwrap();
        assert_eq!(inputs, []);
    }
}

#[test]
fn cmsis_dap_transfer_beyond_the_request_is_an_error() {
    assert_eq!(
        generate(vec![
            request_packet(10, 11, "0x05", five_transfers()),
            response_packet(11, 10, "0x05", transfer_response(6, "0x01", &[0xAAAA, 0xBBBB])),
        ]),
        failure(1, PdmlError::InvalidTransfer)
    );
    // A read without its word.
    assert_eq!(
        generate(vec![
            request_packet(10, 11, "0x05", five_transfers()),
            response_packet(11, 10, "0x05", transfer_response(5, "0x01", &[0xAAAA])),
        ]),
        failure(1, PdmlError::InvalidTransfer)
    );
    // A write without its word.
    assert_eq!(
        generate(vec![
            request_packet(10, 11, "0x05", transfer_request(1, &[("0x05", None)])),
            response_packet(11, 10, "0x05", transfer_response(1, "0x01", &[])),
        ]),
        failure(1, PdmlError::InvalidTransfer)
    );
}

#[test]
fn cmsis_dap_transfer_block() {
    let block_request = |byte: &str, data: &[u32]| {
        let mut fields = vec![
            field("cmsis_dap.dap_index", "0"),
            field("cmsis_dap.transfer_block.count", "3"),
            field("cmsis_dap.transfer.request", byte),
        ];
        for word in data {
            fields.push(field("cmsis_dap.transfer.write.data", &word.to_string()));
        }
        fields
    };
    let block_response = |count: u8, byte: &str, data: &[u32]| {
        let mut fields = vec![
            field("cmsis_dap.transfer_block.count", &count.to_string()),
            field("cmsis_dap.transfer.response", byte),
        ];
        for word in data {
            fields.push(field("cmsis_dap.transfer.read.data", &word.to_string()));
        }
        fields
    };
    // A block write to AP.DRW.
    let inputs = generate(vec![
        request_packet(1, 2, "0x06", block_request("0x0d", &[1, 2, 3])),
        response_packet(2, 1, "0x06", block_response(3, "0x01", &[])),
    ])
    .unwrap();
    assert_eq!(
        inputs,
        [command(true, false, 3, 1), command(true, false, 3, 2), command(true, false, 3, 3)]
    );
    // A block read, cut short by WAIT.
    let inputs = generate(vec![
        request_packet(1, 2, "0x06", block_request("0x0f", &[])),
        response_packet(2, 1, "0x06", block_response(3, "0x02", &[7, 8, 9])),
    ])
    .unwrap();
    assert_eq!(inputs, [command(true, true, 3, 7), command(true, true, 3, 8)]);
    // Fewer words than the response counts.
    let inputs = generate(vec![
        request_packet(1, 2, "0x06", block_request("0x0f", &[])),
        response_packet(2, 1, "0x06", block_response(3, "0x01", &[7])),
    ])
    .unwrap();
    assert_eq!(inputs, [command(true, true, 3, 7)]);
    // A fault or a protocol error gives nothing.
    for byte in ["0x04", "0x07", "0x09"] {
        let inputs = generate(vec![
            request_packet(1, 2, "0x06", block_request("0x0f", &[])),
            response_packet(2, 1, "0x06", block_response(3, byte, &[7, 8, 9])),
        ])
        .unwrap();
        assert_eq!(inputs, []);
    }
    // Data words in a block read are out of place.
    assert_eq!(
        generate(vec![request_packet(1, 2, "0x06", block_request("0x0f", &[1]))]),
        failure(0, PdmlError::UnexpectedField)
    );
}

#[test]
fn cmsis_dap_unknown_command_leaves_a_landmark() {
    let inputs = generate(vec![
        request_packet(1, 2, "0x80", vec![field("cmsis_dap.unknown", "80:01:0a:ff")]),
        response_packet(2, 1, "0x80", vec![field("cmsis_dap.unknown", "80:00")]),
    ])
    .unwrap();
    assert_eq!(
        inputs,
        [Input::Landmark {
            metadata: Landmark::UnknownCommand(UnknownCommandLandmark {
                header_byte: 0x80,
                request_data: vec![0x80, 0x01, 0x0a, 0xff],
                response_data: vec![0x80, 0x00],
            }),
        }]
    );
}

#[test]
fn cmsis_dap_control_commands_give_nothing() {
    let status = || vec![field("cmsis_dap.status", "0x00")];
    let inputs = generate(vec![
        request_packet(1, 2, "0x02", vec![field("cmsis_dap.connect.port", "0x01")]),
        response_packet(2, 1, "0x02", vec![field("cmsis_dap.connect.port", "0x01")]),
        request_packet(3, 4, "0x03", vec![]),
        response_packet(4, 3, "0x03", status()),
        request_packet(
            5,
            6,
            "0x04",
            vec![
                field("cmsis_dap.transfer_config.idle_cycles", "2"),
                field("cmsis_dap.transfer_config.wait_retry", "80"),
                field("cmsis_dap.transfer_config.match_retry", "65535"),
            ],
        ),
        response_packet(6, 5, "0x04", status()),
        request_packet(7, 8, "0x11", vec![field("cmsis_dap.swj_clock", "1000000")]),
        response_packet(8, 7, "0x11", status()),
        request_packet(
            9,
            10,
            "0x12",
            vec![
                field("cmsis_dap.swj_sequence.count", "51"),
                field("cmsis_dap.swj_sequence.data", "ff:ff:ff:ff:ff:ff:ff:zz"),
            ],
        ),
        response_packet(10, 9, "0x12", status()),
        request_packet(11, 12, "0x13", vec![field("cmsis_dap.swd_config", "0x05")]),
        response_packet(12, 11, "0x13", status()),
    ])
    .unwrap();
    assert_eq!(inputs, []);
}

#[test]
fn cmsis_dap_requests_are_read_from_their_fields() {
    let read = |command: &str, fields: Vec<Field>| {
        let mut all = vec![field("cmsis_dap.command", command)];
        all.extend(fields);
        Request::from_pdml_proto(&proto("usbdap", all))
    };
    assert_eq!(
        read("0x02", vec![field("cmsis_dap.connect.port", "0x01")]),
        Ok(Request::DapConnect(request::DapConnect { swd_port: 1 }))
    );
    assert_eq!(read("0x03", vec![]), Ok(Request::DapDisconnect(request::DapDisconnect)));
    assert_eq!(
        read(
            "0x04",
            vec![
                field("cmsis_dap.transfer_config.match_retry", "3"),
                field("cmsis_dap.transfer_config.idle_cycles", "1"),
                field("cmsis_dap.transfer_config.wait_retry", "2"),
            ]
        ),
        Ok(Request::DapTransferConfigure(request::DapTransferConfigure {
            idle_cycles: 1,
            wait_retry: 2,
            match_retry: 3,
        }))
    );
    assert_eq!(
        read("0x05", transfer_request(2, &[("0x05", Some(7)), ("0x0f", None)])),
        Ok(Request::DapTransfer(request::DapTransfer {
            dap_index: 0,
            transfer_count: 2,
            transfers: vec![
                DapSingleTransfer { request: DapTransferRequest { value: 0x05 }, data: Some(7) },
                DapSingleTransfer { request: DapTransferRequest { value: 0x0f }, data: None },
            ],
        }))
    );
    assert_eq!(
        read(
            "0x06",
            vec![
                field("cmsis_dap.dap_index", "1"),
                field("cmsis_dap.transfer_block.count", "300"),
                field("cmsis_dap.transfer.request", "0x0d"),
                field("cmsis_dap.transfer.write.data", "4294967295"),
            ]
        ),
        Ok(Request::DapTransferBlock(request::DapTransferBlock {
            dap_index: 1,
            transfer_count: 300,
            request: DapTransferBlockRequest { value: 0x0d },
            data: vec![u32::MAX],
        }))
    );
    assert_eq!(
        read("0x11", vec![field("cmsis_dap.swj_clock", "4000000")]),
        Ok(Request::DapSwjClock(request::DapSwjClock { clock: 4_000_000 }))
    );
    assert_eq!(
        read(
            "0x12",
            vec![
                field("cmsis_dap.swj_sequence.count", "17"),
                field("cmsis_dap.swj_sequence.data", "9e:e7:01:ff"),
            ]
        ),
        Ok(Request::DapSwjSequence(request::DapSwjSequence {
            bit_count: 17,
            bit_data: vec![0x9e, 0xe7, 0x01],
        }))
    );
    assert_eq!(
        read(
            "0x12",
            vec![
                field("cmsis_dap.swj_sequence.count", "0"),
                field("cmsis_dap.swj_sequence.data", "9e:e7"),
            ]
        ),
        Ok(Request::DapSwjSequence(request::DapSwjSequence {
            bit_count: 256,
            bit_data: vec![0x9e, 0xe7],
        }))
    );
    let configure = match read("0x13", vec![field("cmsis_dap.swd_config", "0x06")]) {
        Ok(Request::DapSwdConfigure(configure)) => configure,
        other => panic!("not an SWD configuration: {:?}", other),
    };
    assert_eq!(configure.turnaround_clock_period(), 2);
    assert!(configure.data_phase());
    assert_eq!(
        read("0x13", vec![field("cmsis_dap.swd_config", "0x08")]),
        Err(PdmlError::InvalidValue)
    );
    assert_eq!(
        read("0x00", vec![field("cmsis_dap.unknown", "0:f0")]),
        Ok(Request::Unknown { header_byte: 0, raw_data: vec![0x00, 0xf0] })
    );
}

#[test]
fn cmsis_dap_responses_are_read_from_their_fields() {
    let read = |command: &str, fields: Vec<Field>| {
        let mut all = vec![field("cmsis_dap.command", command)];
        all.extend(fields);
        Response::from_pdml_proto(&proto("usbdap", all))
    };
    assert_eq!(
        read("0x03", vec![field("cmsis_dap.status", "0xFF")]),
        Ok(Response::DapDisconnect(response::DapDisconnect { status: DapResponseStatus::Error }))
    );
    assert_eq!(
        read("0x08", vec![field("cmsis_dap.status", "0")]),
        Ok(Response::DapWriteAbort(response::DapWriteAbort { status: DapResponseStatus::Okay }))
    );
    assert_eq!(
        read("0x08", vec![field("cmsis_dap.status", "0x01")]),
        Err(PdmlError::InvalidValue)
    );
    assert_eq!(read("0x08", vec![]), Err(PdmlError::MissingField));
    let transfer = match read("0x05", transfer_response(2, "0x1a", &[5, 6])) {
        Ok(Response::DapTransfer(transfer)) => transfer,
        other => panic!("not a transfer: {:?}", other),
    };
    assert_eq!(transfer.transfer_count, 2);
    assert_eq!(transfer.data, [5, 6]);
    assert_eq!(transfer.response.ack(), DapTransferResponseAck::Wait);
    assert!(transfer.response.protocol_error());
    assert!(transfer.response.value_mismatch());
    for byte in ["0x00", "0x03", "0x05", "0x06"] {
        assert_eq!(read("0x05", transfer_response(2, byte, &[])), Err(PdmlError::InvalidValue));
    }
    assert_eq!(DapTransferResponse::try_from(0x0F).unwrap().ack(), DapTransferResponseAck::NoAck);
    assert_eq!(DapTransferResponse::try_from(0x04).unwrap().ack(), DapTransferResponseAck::Fault);
    assert_eq!(DapTransferResponse::try_from(0x01).unwrap().ack(), DapTransferResponseAck::Okay);
    assert_eq!(DapResponseStatus::try_from(0x7F), Err(0x7F));
}

#[test]
fn cmsis_dap_frames_must_pair() {
    let abort = || vec![field("cmsis_dap.dap_index", "0"), field("cmsis_dap.write_abort", "1")];
    let status = || vec![field("cmsis_dap.status", "0x00")];
    // A response whose numbers do not match drops the request.
    let inputs = generate(vec![
        request_packet(1, 2, "0x08", abort()),
        response_packet(2, 7, "0x08", status()),
        request_packet(3, 4, "0x08", abort()),
        response_packet(5, 3, "0x08", status()),
        request_packet(6, 7, "0x08", abort()),
        response_packet(7, 6, "0x08", status()),
    ])
    .unwrap();
    assert_eq!(inputs, [command(false, false, 0, 1)]);
    // A response with nothing waiting.
    assert_eq!(
        generate(vec![response_packet(2, 1, "0x08", status())]),
        failure(0, PdmlError::InvalidState)
    );
    // A request while another waits.
    assert_eq!(
        generate(vec![request_packet(1, 2, "0x08", abort()), request_packet(3, 4, "0x08", abort())]),
        failure(1, PdmlError::InvalidState)
    );
    // A request that stays without a response gives nothing.
    assert_eq!(generate(vec![request_packet(1, 2, "0x08", abort())]), Ok(vec![]));
    assert_eq!(generate(vec![]), Ok(vec![]));
    // A request answered by another command gives nothing.
    let inputs = generate(vec![
        request_packet(1, 2, "0x08", abort()),
        response_packet(2, 1, "0x11", status()),
    ])
    .unwrap();
    assert_eq!(inputs, []);
}

#[test]
fn cmsis_dap_error_tells_its_packet() {
    let good = || Packet { proto: vec![frame_proto(1)] };
    let bad = || Packet { proto: vec![proto("usb", vec![])] };
    assert_eq!(generate(vec![good(), good(), bad(), bad()]), failure(2, PdmlError::MissingField));
    assert_eq!(generate(vec![bad()]), failure(0, PdmlError::MissingField));
}

#[test]
fn cmsis_dap_packets_without_traffic_are_passed_over() {
    let other = Packet { proto: vec![frame_proto(1), proto("usb", vec![field("usb.src", "host")])] };
    assert_eq!(Frame::from_pdml_packet(&other), Ok(None));
    let inputs = generate(vec![
        other,
        request_packet(
            2,
            4,
            "0x08",
            vec![field("cmsis_dap.dap_index", "0"), field("cmsis_dap.write_abort", "30")],
        ),
        Packet { proto: vec![frame_proto(3)] },
        response_packet(4, 2, "0x08", vec![field("cmsis_dap.status", "0x00")]),
    ])
    .unwrap();
    assert_eq!(inputs, [command(false, false, 0, 30)]);
}

#[test]
fn cmsis_dap_frame_is_read_from_its_packet() {
    let packet =
        request_packet(12, 13, "0x11", vec![field("cmsis_dap.swj_clock", "1000")]);
    assert_eq!(
        Frame::from_pdml_packet(&packet),
        Ok(Some(Frame {
            number: 12,
            time_epoch: String::from("1700000000.000000000"),
            content: Content::CmsisDapRequest {
                content: Request::DapSwjClock(request::DapSwjClock { clock: 1000 }),
                corresponding_response: 13,
            },
        }))
    );
    let packet = response_packet(13, 12, "0x11", vec![field("cmsis_dap.status", "0x00")]);
    assert_eq!(
        Frame::from_pdml_packet(&packet),
        Ok(Some(Frame {
            number: 13,
            time_epoch: String::from("1700000000.000000000"),
            content: Content::CmsisDapResponse {
                content: Response::DapSwjClock(response::DapSwjClock {
                    status: DapResponseStatus::Okay,
                }),
                corresponding_request: 12,
            },
        }))
    );
}

#[test]
fn cmsis_dap_malformed_packets_are_errors() {
    let usbdap = |fields: Vec<Field>| proto("usbdap", fields);
    let abort_request = || {
        vec![
            field("cmsis_dap.command", "0x08"),
            field("cmsis_dap.dap_index", "0"),
            field("cmsis_dap.write_abort", "1"),
            field("cmsis_dap.response", "2"),
        ]
    };
    let read = |protos: Vec<Proto>| Frame::from_pdml_packet(&Packet { proto: protos });
    assert!(read(vec![frame_proto(1), usbdap(abort_request())]).is_ok());
    // No frame layer, or two.
    assert_eq!(read(vec![usbdap(abort_request())]), Err(PdmlError::MissingField));
    assert_eq!(read(vec![frame_proto(1), frame_proto(1)]), Err(PdmlError::RepeatedField));
    // A frame layer without its number or time, or with two.
    assert_eq!(
        read(vec![proto("frame", vec![field("frame.time_epoch", "1.0")])]),
        Err(PdmlError::MissingField)
    );
    assert_eq!(
        read(vec![proto("frame", vec![field("frame.number", "1")])]),
        Err(PdmlError::MissingField)
    );
    assert_eq!(
        read(vec![proto(
            "frame",
            vec![
                field("frame.number", "1"),
                field("frame.number", "1"),
                field("frame.time_epoch", "1.0"),
            ]
        )]),
        Err(PdmlError::RepeatedField)
    );
    assert_eq!(
        read(vec![proto(
            "frame",
            vec![field("frame.number", "one"), field("frame.time_epoch", "1.0")]
        )]),
        Err(PdmlError::InvalidValue)
    );
    // Two CMSIS-DAP layers.
    assert_eq!(
        read(vec![frame_proto(1), usbdap(abort_request()), usbdap(abort_request())]),
        Err(PdmlError::RepeatedField)
    );
    // Neither request nor response, or both.
    let mut fields = abort_request();
    fields.pop();
    assert_eq!(read(vec![frame_proto(1), usbdap(fields)]), Err(PdmlError::MissingField));
    let mut fields = abort_request();
    fields.push(field("cmsis_dap.request", "2"));
    assert_eq!(read(vec![frame_proto(1), usbdap(fields)]), Err(PdmlError::RepeatedField));
    let mut fields = abort_request();
    fields.push(field("cmsis_dap.response", "2"));
    assert_eq!(read(vec![frame_proto(1), usbdap(fields)]), Err(PdmlError::RepeatedField));
    // No command byte.
    let mut fields = abort_request();
    fields.remove(0);
    assert_eq!(read(vec![frame_proto(1), usbdap(fields)]), Err(PdmlError::MissingField));
    // A value out of range.
    let mut fields = abort_request();
    fields[1] = field("cmsis_dap.dap_index", "256");
    assert_eq!(read(vec![frame_proto(1), usbdap(fields)]), Err(PdmlError::InvalidValue));
    let mut fields = abort_request();
    fields[2] = field("cmsis_dap.write_abort", "4294967296");
    assert_eq!(read(vec![frame_proto(1), usbdap(fields)]), Err(PdmlError::InvalidValue));
}

#[test]
fn cmsis_dap_transfer_fields_must_be_in_place() {
    let read = |fields: Vec<Field>| {
        let mut all = vec![field("cmsis_dap.command", "0x05")];
        all.extend(fields);
        Request::from_pdml_proto(&proto("usbdap", all))
    };
    let with_nested = |inner: Vec<Field>| {
        vec![
            field("cmsis_dap.dap_index", "0"),
            field("cmsis_dap.transfer.count", "1"),
            nested("cmsis_dap.transfer", inner),
        ]
    };
    // A data word before any request byte.
    assert_eq!(
        read(with_nested(vec![field("cmsis_dap.transfer.write.data", "1")])),
        Err(PdmlError::UnexpectedField)
    );
    // A data word for a plain read.
    assert_eq!(
        read(with_nested(vec![
            field("cmsis_dap.transfer.request", "0x0f"),
            field("cmsis_dap.transfer.write.data", "1"),
        ])),
        Err(PdmlError::UnexpectedField)
    );
    // A read with value match takes one.
    assert!(read(with_nested(vec![
        field("cmsis_dap.transfer.request", "0x1f"),
        field("cmsis_dap.transfer.write.data", "1"),
    ]))
    .is_ok());
    // Two data words for one transfer.
    assert_eq!(
        read(with_nested(vec![
            field("cmsis_dap.transfer.request", "0x05"),
            field("cmsis_dap.transfer.write.data", "1"),
            field("cmsis_dap.transfer.write.data", "2"),
        ])),
        Err(PdmlError::RepeatedField)
    );
    // A count of zero.
    assert_eq!(
        read(vec![
            field("cmsis_dap.dap_index", "0"),
            field("cmsis_dap.transfer.count", "0"),
            nested("cmsis_dap.transfer", vec![]),
        ]),
        Err(PdmlError::InvalidValue)
    );
    // Other nested fields are passed over.
    assert!(read(with_nested(vec![
        field("cmsis_dap.transfer.request", "0x05"),
        field("cmsis_dap.transfer.request.apndp", "1"),
        field("cmsis_dap.transfer.write.data", "1"),
    ]))
    .is_ok());
}

#[test]
fn cmsis_dap_expansions_on_their_own() {
    let request = request::DapTransfer {
        dap_index: 0,
        transfer_count: 3,
        transfers: vec![
            DapSingleTransfer { request: DapTransferRequest { value: 0x03 }, data: None },
            DapSingleTransfer { request: DapTransferRequest { value: 0x09 }, data: Some(9) },
            DapSingleTransfer { request: DapTransferRequest { value: 0x07 }, data: None },
        ],
    };
    let response = response::DapTransfer {
        transfer_count: 3,
        response: DapTransferResponse::try_from(0x01).unwrap(),
        data: vec![10, 20],
    };
    assert_eq!(
        expand_transfer(&request, &response),
        Ok(vec![
            Command { ts: None, apndp: true, rnw: true, a: 0, data: 10 },
            Command { ts: None, apndp: true, rnw: false, a: 2, data: 9 },
            Command { ts: None, apndp: true, rnw: true, a: 1, data: 20 },
        ])
    );
    let block = request::DapTransferBlock {
        dap_index: 0,
        transfer_count: 2,
        request: DapTransferBlockRequest { value: 0x0a },
        data: vec![],
    };
    let answer = response::DapTransferBlock {
        transfer_count: 2,
        response: response::DapTransferBlockResponse::try_from(0x01).unwrap(),
        data: vec![5, 6],
    };
    assert_eq!(
        expand_transfer_block(&block, &answer),
        vec![
            Command { ts: None, apndp: false, rnw: true, a: 2, data: 5 },
            Command { ts: None, apndp: false, rnw: true, a: 2, data: 6 },
        ]
    );
}

#[test]
fn shown_numbers_are_read_as_the_dissector_writes_them() {
    assert_eq!(parse_decimal("0", 255), Some(0));
    assert_eq!(parse_decimal("255", 255), Some(255));
    assert_eq!(parse_decimal("256", 255), None);
    assert_eq!(parse_decimal("+7", 255), Some(7));
    assert_eq!(parse_decimal("+", 255), None);
    assert_eq!(parse_decimal("-7", 255), None);
    assert_eq!(parse_decimal("", 255), None);
    assert_eq!(parse_decimal("0007", 255), Some(7));
    assert_eq!(parse_decimal("7 ", 255), None);
    assert_eq!(parse_decimal("7f", 255), None);
    assert_eq!(parse_decimal("18446744073709551615", u64::MAX), Some(u64::MAX));
    assert_eq!(parse_decimal("18446744073709551616", u64::MAX), None);
    assert_eq!(parse_decimal("99999999999999999999999999", u64::MAX), None);
    assert_eq!(parse_prefixed_hex("0x05", 255), Some(5));
    assert_eq!(parse_prefixed_hex("05", 255), Some(5));
    assert_eq!(parse_prefixed_hex("0x0xfF", 255), Some(255));
    assert_eq!(parse_prefixed_hex("0x", 255), None);
    assert_eq!(parse_prefixed_hex("0x+a", 255), Some(10));
    assert_eq!(parse_prefixed_hex("0X05", 255), None);
    assert_eq!(parse_prefixed_hex("0x100", 255), None);
    assert_eq!(parse_prefixed_hex("0xg", 255), None);
    assert_eq!(parse_prefixed_hex("ffffffffffffffff", u64::MAX), Some(u64::MAX));
    assert_eq!(parse_prefixed_hex("10000000000000000", u64::MAX), None);
}
