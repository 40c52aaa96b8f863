//! Reading CMSIS-DAP frames out of a packet dissection.
//!
//! A layer's fields are looked up by name. A field that a command needs
//! and the layer lacks, that stands there more than once where once is
//! meant, or whose shown value is not the number it should be, is an error.

use vstd::prelude::*;
use crate::cmsis_dap::request;
use crate::cmsis_dap::request::{DapSingleTransfer, DapTransferBlockRequest, DapTransferRequest};
use crate::cmsis_dap::response;
use crate::cmsis_dap::response::{DapResponseStatus, DapTransferBlockResponse, DapTransferResponse};
use crate::cmsis_dap::{Content, ContentView, Frame, FrameView, PdmlError};
use crate::cmsis_dap::{Request, RequestView, Response, ResponseView};
use crate::pdml::{Field, Packet, Proto};
use crate::text::{decimal_of, number_of, parse_decimal, parse_number, parse_prefixed_hex};
use crate::text::{prefixed_hex_of, skip_sign, str_eq, text_bytes, unsigned_part};

verus! {

/// Index of the first of `fields`, at or after `from`, that bears `name`.
pub open spec fn named_from(fields: Seq<Field>, name: Seq<char>, from: int) -> Option<int>
    decreases fields.len() - from,
{
    if from < 0 || from >= fields.len() {
        None
    } else if fields[from].name@ == name {
        Some(from)
    } else {
        named_from(fields, name, from + 1)
    }
}

/// Index of the one of `fields` that bears `name`.
pub open spec fn unique_named(fields: Seq<Field>, name: Seq<char>) -> Result<int, PdmlError> {
    match named_from(fields, name, 0) {
        None => Err(PdmlError::MissingField),
        Some(at) => if named_from(fields, name, at + 1) is Some {
            Err(PdmlError::RepeatedField)
        } else {
            Ok(at)
        },
    }
}

/// What [`named_from`] finds bears the name and is the first at or after
/// `from` to do so; it finds nothing only where none does.
pub proof fn lemma_named_from(fields: Seq<Field>, name: Seq<char>, from: int)
    requires
        0 <= from,
    ensures
        match named_from(fields, name, from) {
            Some(at) => from <= at < fields.len() && fields[at].name@ == name && forall|j: int|
                from <= j < at ==> (#[trigger] fields[j]).name@ != name,
            None => forall|j: int| from <= j < fields.len() ==> (#[trigger] fields[j]).name@ != name,
        },
    decreases fields.len() - from,
{
    if from < fields.len() && fields[from].name@ != name {
        lemma_named_from(fields, name, from + 1);
    }
}

/// The number that a field shows in base 10, at most `max`.
pub open spec fn shown_decimal(field: Field, max: u64) -> Result<u64, PdmlError> {
    match decimal_of(text_bytes(field.show@), max) {
        Some(value) => Ok(value),
        None => Err(PdmlError::InvalidValue),
    }
}

/// The number that a field shows in base 16, behind any `0x`, at most `max`.
pub open spec fn shown_hex(field: Field, max: u64) -> Result<u64, PdmlError> {
    match prefixed_hex_of(text_bytes(field.show@), max) {
        Some(value) => Ok(value),
        None => Err(PdmlError::InvalidValue),
    }
}

/// The decimal number of the one field that bears `name`.
pub open spec fn unique_decimal(fields: Seq<Field>, name: Seq<char>, max: u64) -> Result<
    u64,
    PdmlError,
> {
    match unique_named(fields, name) {
        Ok(at) => shown_decimal(fields[at], max),
        Err(error) => Err(error),
    }
}

/// The hexadecimal number of the one field that bears `name`.
pub open spec fn unique_hex(fields: Seq<Field>, name: Seq<char>, max: u64) -> Result<
    u64,
    PdmlError,
> {
    match unique_named(fields, name) {
        Ok(at) => shown_hex(fields[at], max),
        Err(error) => Err(error),
    }
}

/// The decimal number of the first field that bears `name`.
pub open spec fn first_decimal(fields: Seq<Field>, name: Seq<char>, max: u64) -> Result<
    u64,
    PdmlError,
> {
    match named_from(fields, name, 0) {
        Some(at) => shown_decimal(fields[at], max),
        None => Err(PdmlError::MissingField),
    }
}

/// The hexadecimal number of the first field that bears `name`.
pub open spec fn first_hex(fields: Seq<Field>, name: Seq<char>, max: u64) -> Result<
    u64,
    PdmlError,
> {
    match named_from(fields, name, 0) {
        Some(at) => shown_hex(fields[at], max),
        None => Err(PdmlError::MissingField),
    }
}

/// The 32-bit decimal numbers of those of the first `n` fields that bear
/// `name`, in order.
pub open spec fn all_decimal(fields: Seq<Field>, name: Seq<char>, n: nat) -> Result<
    Seq<u32>,
    PdmlError,
>
    decreases n,
{
    if n == 0 {
        Ok(Seq::empty())
    } else {
        match all_decimal(fields, name, (n - 1) as nat) {
            Err(error) => Err(error),
            Ok(values) => if fields[n - 1].name@ == name {
                match shown_decimal(fields[n - 1], u32::MAX as u64) {
                    Ok(value) => Ok(values.push(value as u32)),
                    Err(error) => Err(error),
                }
            } else {
                Ok(values)
            },
        }
    }
}

/// End of the run of bytes from `from` that holds no colon.
pub open spec fn segment_end(s: Seq<u8>, from: int) -> int
    decreases s.len() - from,
{
    if from < 0 || from >= s.len() || s[from] == 0x3A {
        from
    } else {
        segment_end(s, from + 1)
    }
}

/// The bytes that the colon-separated hexadecimal numbers of `s` from
/// `from` on write: all of them, or up to `limit` of them where there is
/// one.
pub open spec fn hex_bytes_from(s: Seq<u8>, from: int, limit: Option<nat>) -> Result<
    Seq<u8>,
    PdmlError,
>
    decreases s.len() - from,
{
    if limit == Some(0nat) || from < 0 || from > s.len() {
        Ok(Seq::empty())
    } else {
        let end = segment_end(s, from);
        match number_of(unsigned_part(s.subrange(from, end)), true, 0xFF) {
            None => Err(PdmlError::InvalidValue),
            Some(byte) => if end >= s.len() || end < from {
                Ok(seq![byte as u8])
            } else {
                let left = match limit {
                    Some(limit) => Some((limit - 1) as nat),
                    None => None,
                };
                match hex_bytes_from(s, end + 1, left) {
                    Ok(rest) => Ok(seq![byte as u8] + rest),
                    Err(error) => Err(error),
                }
            },
        }
    }
}

/// The bytes that a colon-separated list of hexadecimal numbers writes, up
/// to `limit` of them.
pub open spec fn hex_bytes(text: Seq<char>, limit: nat) -> Result<Seq<u8>, PdmlError> {
    hex_bytes_from(text_bytes(text), 0, Some(limit))
}

/// The bytes that a colon-separated list of hexadecimal numbers writes.
pub open spec fn all_hex_bytes(text: Seq<char>) -> Result<Seq<u8>, PdmlError> {
    hex_bytes_from(text_bytes(text), 0, None)
}

/// The transfers that the first `n` fields nested in a `cmsis_dap.transfer`
/// field describe: a request byte opens a transfer, and a data word goes to
/// the transfer opened last, which must take one and have none yet.
pub open spec fn transfers_of(nested: Seq<Field>, n: nat) -> Result<
    Seq<DapSingleTransfer>,
    PdmlError,
>
    decreases n,
{
    if n == 0 {
        Ok(Seq::empty())
    } else {
        match transfers_of(nested, (n - 1) as nat) {
            Err(error) => Err(error),
            Ok(transfers) => {
                let field = nested[n - 1];
                if field.name@ == "cmsis_dap.transfer.request"@ {
                    match shown_hex(field, 0xFF) {
                        Ok(value) => Ok(
                            transfers.push(
                                DapSingleTransfer {
                                    request: DapTransferRequest { value: value as u8 },
                                    data: None,
                                },
                            ),
                        ),
                        Err(error) => Err(error),
                    }
                } else if field.name@ == "cmsis_dap.transfer.write.data"@ {
                    match shown_decimal(field, u32::MAX as u64) {
                        Err(error) => Err(error),
                        Ok(data) => if transfers.len() == 0
                            || !transfers.last().request.spec_takes_data() {
                            Err(PdmlError::UnexpectedField)
                        } else if transfers.last().data is Some {
                            Err(PdmlError::RepeatedField)
                        } else {
                            Ok(
                                transfers.update(
                                    transfers.len() - 1,
                                    DapSingleTransfer {
                                        request: transfers.last().request,
                                        data: Some(data as u32),
                                    },
                                ),
                            )
                        },
                    }
                } else {
                    Ok(transfers)
                }
            },
        }
    }
}

/// The `DapConnect` payload, of a request or of a response, that `fields`
/// describe.
pub open spec fn connect_port_of(fields: Seq<Field>) -> Result<u8, PdmlError> {
    match first_hex(fields, "cmsis_dap.connect.port"@, 0xFF) {
        Ok(port) => Ok(port as u8),
        Err(error) => Err(error),
    }
}

/// The `DapTransferConfigure` request that `fields` describe.
pub open spec fn transfer_configure_of(fields: Seq<Field>) -> Result<
    request::DapTransferConfigure,
    PdmlError,
> {
    let idle_cycles = unique_decimal(fields, "cmsis_dap.transfer_config.idle_cycles"@, 0xFF);
    let wait_retry = unique_decimal(fields, "cmsis_dap.transfer_config.wait_retry"@, 0xFFFF);
    let match_retry = unique_decimal(fields, "cmsis_dap.transfer_config.match_retry"@, 0xFFFF);
    if idle_cycles is Err {
        Err(idle_cycles->Err_0)
    } else if wait_retry is Err {
        Err(wait_retry->Err_0)
    } else if match_retry is Err {
        Err(match_retry->Err_0)
    } else {
        Ok(
            request::DapTransferConfigure {
                idle_cycles: idle_cycles->Ok_0 as u8,
                wait_retry: wait_retry->Ok_0 as u16,
                match_retry: match_retry->Ok_0 as u16,
            },
        )
    }
}

/// The `DapTransfer` request that `fields` describe.
pub open spec fn transfer_request_of(fields: Seq<Field>) -> Result<
    request::DapTransferView,
    PdmlError,
> {
    let dap_index = unique_decimal(fields, "cmsis_dap.dap_index"@, 0xFF);
    let transfer_count = unique_decimal(fields, "cmsis_dap.transfer.count"@, 0xFF);
    let at = unique_named(fields, "cmsis_dap.transfer"@);
    if dap_index is Err {
        Err(dap_index->Err_0)
    } else if transfer_count is Err {
        Err(transfer_count->Err_0)
    } else if transfer_count->Ok_0 == 0 {
        Err(PdmlError::InvalidValue)
    } else if at is Err {
        Err(at->Err_0)
    } else {
        let nested = fields[at->Ok_0].field@;
        match transfers_of(nested, nested.len()) {
            Ok(transfers) => Ok(
                request::DapTransferView {
                    dap_index: dap_index->Ok_0 as u8,
                    transfer_count: transfer_count->Ok_0 as u8,
                    transfers,
                },
            ),
            Err(error) => Err(error),
        }
    }
}

/// The `DapTransferBlock` request that `fields` describe. Its data words
/// must follow the request byte, which must be that of a write.
pub open spec fn transfer_block_request_of(fields: Seq<Field>) -> Result<
    request::DapTransferBlockView,
    PdmlError,
> {
    let dap_index = unique_decimal(fields, "cmsis_dap.dap_index"@, 0xFF);
    let transfer_count = unique_decimal(fields, "cmsis_dap.transfer_block.count"@, 0xFFFF);
    let at = unique_named(fields, "cmsis_dap.transfer.request"@);
    if dap_index is Err {
        Err(dap_index->Err_0)
    } else if transfer_count is Err {
        Err(transfer_count->Err_0)
    } else if transfer_count->Ok_0 == 0 {
        Err(PdmlError::InvalidValue)
    } else if at is Err {
        Err(at->Err_0)
    } else {
        match shown_hex(fields[at->Ok_0], 0xFF) {
            Err(error) => Err(error),
            Ok(value) => {
                let request = DapTransferBlockRequest { value: value as u8 };
                let first_data = named_from(fields, "cmsis_dap.transfer.write.data"@, 0);
                if first_data is Some && (first_data->0 < at->Ok_0 || request.spec_rnw()) {
                    Err(PdmlError::UnexpectedField)
                } else {
                    match all_decimal(fields, "cmsis_dap.transfer.write.data"@, fields.len()) {
                        Ok(data) => Ok(
                            request::DapTransferBlockView {
                                dap_index: dap_index->Ok_0 as u8,
                                transfer_count: transfer_count->Ok_0 as u16,
                                request,
                                data,
                            },
                        ),
                        Err(error) => Err(error),
                    }
                }
            },
        }
    }
}

/// The `DapWriteAbort` request that `fields` describe.
pub open spec fn write_abort_of(fields: Seq<Field>) -> Result<request::DapWriteAbort, PdmlError> {
    let dap_index = unique_decimal(fields, "cmsis_dap.dap_index"@, 0xFF);
    let abort = unique_decimal(fields, "cmsis_dap.write_abort"@, u32::MAX as u64);
    if dap_index is Err {
        Err(dap_index->Err_0)
    } else if abort is Err {
        Err(abort->Err_0)
    } else {
        Ok(request::DapWriteAbort { dap_index: dap_index->Ok_0 as u8, abort: abort->Ok_0 as u32 })
    }
}

/// The `DapSwjClock` request that `fields` describe.
pub open spec fn swj_clock_of(fields: Seq<Field>) -> Result<request::DapSwjClock, PdmlError> {
    match first_decimal(fields, "cmsis_dap.swj_clock"@, u32::MAX as u64) {
        Ok(clock) => Ok(request::DapSwjClock { clock: clock as u32 }),
        Err(error) => Err(error),
    }
}

/// The number of bits that a count byte of a `DapSwjSequence` stands for:
/// zero stands for 256.
pub open spec fn swj_bit_count(count: u64) -> usize {
    if count == 0 {
        256
    } else {
        count as usize
    }
}

/// The `DapSwjSequence` request that `fields` describe: the bit count and
/// the first `ceil(count / 8)` bytes of the data shown.
pub open spec fn swj_sequence_of(fields: Seq<Field>) -> Result<
    request::DapSwjSequenceView,
    PdmlError,
> {
    let count = unique_decimal(fields, "cmsis_dap.swj_sequence.count"@, 0xFF);
    let at = unique_named(fields, "cmsis_dap.swj_sequence.data"@);
    if count is Err {
        Err(count->Err_0)
    } else if at is Err {
        Err(at->Err_0)
    } else {
        let bit_count = swj_bit_count(count->Ok_0);
        match hex_bytes(fields[at->Ok_0].show@, ((bit_count + 7) / 8) as nat) {
            Ok(bit_data) => Ok(request::DapSwjSequenceView { bit_count, bit_data }),
            Err(error) => Err(error),
        }
    }
}

/// The `DapSwdConfigure` request that `fields` describe.
pub open spec fn swd_configure_of(fields: Seq<Field>) -> Result<
    request::DapSwdConfigure,
    PdmlError,
> {
    match first_hex(fields, "cmsis_dap.swd_config"@, 0xFF) {
        Ok(value) => if value < 8 {
            Ok(request::DapSwdConfigure { value: value as u8 })
        } else {
            Err(PdmlError::InvalidValue)
        },
        Err(error) => Err(error),
    }
}

/// The bytes of a command outside the supported set.
pub open spec fn raw_data_of(fields: Seq<Field>) -> Result<Seq<u8>, PdmlError> {
    match unique_named(fields, "cmsis_dap.unknown"@) {
        Ok(at) => all_hex_bytes(fields[at].show@),
        Err(error) => Err(error),
    }
}

/// The command byte that `fields` show.
pub open spec fn command_byte_of(fields: Seq<Field>) -> Result<u8, PdmlError> {
    match first_hex(fields, "cmsis_dap.command"@, 0xFF) {
        Ok(value) => Ok(value as u8),
        Err(error) => Err(error),
    }
}

/// Applies `wrap` to what `payload` holds.
pub open spec fn wrapped<A, B>(payload: Result<A, PdmlError>, wrap: spec_fn(A) -> B) -> Result<
    B,
    PdmlError,
> {
    match payload {
        Ok(payload) => Ok(wrap(payload)),
        Err(error) => Err(error),
    }
}

/// The request that the fields of a CMSIS-DAP layer describe.
pub open spec fn request_of(fields: Seq<Field>) -> Result<RequestView, PdmlError> {
    match command_byte_of(fields) {
        Err(error) => Err(error),
        Ok(command) => if command == 0x02 {
            wrapped(
                connect_port_of(fields),
                |swd_port: u8| RequestView::DapConnect(request::DapConnect { swd_port }),
            )
        } else if command == 0x03 {
            Ok(RequestView::DapDisconnect(request::DapDisconnect))
        } else if command == 0x04 {
            wrapped(
                transfer_configure_of(fields),
                |payload: request::DapTransferConfigure| RequestView::DapTransferConfigure(payload),
            )
        } else if command == 0x05 {
            wrapped(
                transfer_request_of(fields),
                |payload: request::DapTransferView| RequestView::DapTransfer(payload),
            )
        } else if command == 0x06 {
            wrapped(
                transfer_block_request_of(fields),
                |payload: request::DapTransferBlockView| RequestView::DapTransferBlock(payload),
            )
        } else if command == 0x08 {
            wrapped(
                write_abort_of(fields),
                |payload: request::DapWriteAbort| RequestView::DapWriteAbort(payload),
            )
        } else if command == 0x11 {
            wrapped(
                swj_clock_of(fields),
                |payload: request::DapSwjClock| RequestView::DapSwjClock(payload),
            )
        } else if command == 0x12 {
            wrapped(
                swj_sequence_of(fields),
                |payload: request::DapSwjSequenceView| RequestView::DapSwjSequence(payload),
            )
        } else if command == 0x13 {
            wrapped(
                swd_configure_of(fields),
                |payload: request::DapSwdConfigure| RequestView::DapSwdConfigure(payload),
            )
        } else {
            wrapped(
                raw_data_of(fields),
                |raw_data: Seq<u8>| RequestView::Unknown { header_byte: command, raw_data },
            )
        },
    }
}

/// The status that `fields` show.
pub open spec fn status_of(fields: Seq<Field>) -> Result<DapResponseStatus, PdmlError> {
    match first_hex(fields, "cmsis_dap.status"@, 0xFF) {
        Ok(value) => match DapResponseStatus::of_byte(value as u8) {
            Ok(status) => Ok(status),
            Err(_) => Err(PdmlError::InvalidValue),
        },
        Err(error) => Err(error),
    }
}

/// The `DapTransfer` response that `fields` describe.
pub open spec fn transfer_response_of(fields: Seq<Field>) -> Result<
    response::DapTransferView,
    PdmlError,
> {
    let transfer_count = unique_decimal(fields, "cmsis_dap.transfer.count"@, 0xFF);
    let value = unique_hex(fields, "cmsis_dap.transfer.response"@, 0xFF);
    if transfer_count is Err {
        Err(transfer_count->Err_0)
    } else if value is Err {
        Err(value->Err_0)
    } else if !(DapTransferResponse { value: value->Ok_0 as u8 }).wf() {
        Err(PdmlError::InvalidValue)
    } else {
        match all_decimal(fields, "cmsis_dap.transfer.read.data"@, fields.len()) {
            Ok(data) => Ok(
                response::DapTransferView {
                    transfer_count: transfer_count->Ok_0 as u8,
                    response: DapTransferResponse { value: value->Ok_0 as u8 },
                    data,
                },
            ),
            Err(error) => Err(error),
        }
    }
}

/// The `DapTransferBlock` response that `fields` describe.
pub open spec fn transfer_block_response_of(fields: Seq<Field>) -> Result<
    response::DapTransferBlockView,
    PdmlError,
> {
    let transfer_count = unique_decimal(fields, "cmsis_dap.transfer_block.count"@, 0xFF);
    let value = unique_hex(fields, "cmsis_dap.transfer.response"@, 0xFF);
    if transfer_count is Err {
        Err(transfer_count->Err_0)
    } else if value is Err {
        Err(value->Err_0)
    } else if !(DapTransferBlockResponse { value: value->Ok_0 as u8 }).wf() {
        Err(PdmlError::InvalidValue)
    } else {
        match all_decimal(fields, "cmsis_dap.transfer.read.data"@, fields.len()) {
            Ok(data) => Ok(
                response::DapTransferBlockView {
                    transfer_count: transfer_count->Ok_0 as u8,
                    response: DapTransferBlockResponse { value: value->Ok_0 as u8 },
                    data,
                },
            ),
            Err(error) => Err(error),
        }
    }
}

/// The response that the fields of a CMSIS-DAP layer describe.
pub open spec fn response_of(fields: Seq<Field>) -> Result<ResponseView, PdmlError> {
    match command_byte_of(fields) {
        Err(error) => Err(error),
        Ok(command) => if command == 0x02 {
            wrapped(
                connect_port_of(fields),
                |swd_port: u8| ResponseView::DapConnect(response::DapConnect { swd_port }),
            )
        } else if command == 0x03 {
            wrapped(
                status_of(fields),
                |status: DapResponseStatus|
                    ResponseView::DapDisconnect(response::DapDisconnect { status }),
            )
        } else if command == 0x04 {
            wrapped(
                status_of(fields),
                |status: DapResponseStatus|
                    ResponseView::DapTransferConfigure(response::DapTransferConfigure { status }),
            )
        } else if command == 0x05 {
            wrapped(
                transfer_response_of(fields),
                |payload: response::DapTransferView| ResponseView::DapTransfer(payload),
            )
        } else if command == 0x06 {
            wrapped(
                transfer_block_response_of(fields),
                |payload: response::DapTransferBlockView| ResponseView::DapTransferBlock(payload),
            )
        } else if command == 0x08 {
            wrapped(
                status_of(fields),
                |status: DapResponseStatus|
                    ResponseView::DapWriteAbort(response::DapWriteAbort { status }),
            )
        } else if command == 0x11 {
            wrapped(
                status_of(fields),
                |status: DapResponseStatus|
                    ResponseView::DapSwjClock(response::DapSwjClock { status }),
            )
        } else if command == 0x12 {
            wrapped(
                status_of(fields),
                |status: DapResponseStatus|
                    ResponseView::DapSwjSequence(response::DapSwjSequence { status }),
            )
        } else if command == 0x13 {
            wrapped(
                status_of(fields),
                |status: DapResponseStatus|
                    ResponseView::DapSwdConfigure(response::DapSwdConfigure { status }),
            )
        } else {
            wrapped(
                raw_data_of(fields),
                |raw_data: Seq<u8>| ResponseView::Unknown { header_byte: command, raw_data },
            )
        },
    }
}

/// What the fields of a CMSIS-DAP layer carry. A layer with a field
/// `cmsis_dap.response`, which names the frame that answers, is a request;
/// one with a field `cmsis_dap.request` is a response. The layer must have
/// one such field and no more.
pub open spec fn content_of(fields: Seq<Field>) -> Result<ContentView, PdmlError> {
    let answered_by = named_from(fields, "cmsis_dap.response"@, 0);
    let asked_by = named_from(fields, "cmsis_dap.request"@, 0);
    if answered_by is None && asked_by is None {
        Err(PdmlError::MissingField)
    } else if answered_by is Some && asked_by is Some {
        Err(PdmlError::RepeatedField)
    } else if answered_by is Some {
        match unique_decimal(fields, "cmsis_dap.response"@, usize::MAX as u64) {
            Err(error) => Err(error),
            Ok(number) => match request_of(fields) {
                Ok(content) => Ok(
                    ContentView::CmsisDapRequest {
                        content,
                        corresponding_response: number as usize,
                    },
                ),
                Err(error) => Err(error),
            },
        }
    } else {
        match unique_decimal(fields, "cmsis_dap.request"@, usize::MAX as u64) {
            Err(error) => Err(error),
            Ok(number) => match response_of(fields) {
                Ok(content) => Ok(
                    ContentView::CmsisDapResponse {
                        content,
                        corresponding_request: number as usize,
                    },
                ),
                Err(error) => Err(error),
            },
        }
    }
}

/// Index of the first of `protos`, at or after `from`, that bears `name`.
pub open spec fn proto_from(protos: Seq<Proto>, name: Seq<char>, from: int) -> Option<int>
    decreases protos.len() - from,
{
    if from < 0 || from >= protos.len() {
        None
    } else if protos[from].name@ == name {
        Some(from)
    } else {
        proto_from(protos, name, from + 1)
    }
}

/// The frame that a packet carries: `None` for a packet without a `usbdap`
/// layer. The packet must have one `frame` layer with one `frame.number`
/// and one `frame.time_epoch`, and at most one `usbdap` layer.
pub open spec fn frame_of(packet: Packet) -> Result<Option<FrameView>, PdmlError> {
    let protos = packet.proto@;
    match proto_from(protos, "frame"@, 0) {
        None => Err(PdmlError::MissingField),
        Some(frame) => if proto_from(protos, "frame"@, frame + 1) is Some {
            Err(PdmlError::RepeatedField)
        } else {
            let fields = protos[frame].field@;
            let number = unique_decimal(fields, "frame.number"@, usize::MAX as u64);
            let time_epoch = unique_named(fields, "frame.time_epoch"@);
            if number is Err {
                Err(number->Err_0)
            } else if time_epoch is Err {
                Err(time_epoch->Err_0)
            } else {
                match proto_from(protos, "usbdap"@, 0) {
                    None => Ok(None),
                    Some(usbdap) => if proto_from(protos, "usbdap"@, usbdap + 1) is Some {
                        Err(PdmlError::RepeatedField)
                    } else {
                        match content_of(protos[usbdap].field@) {
                            Ok(content) => Ok(
                                Some(
                                    FrameView {
                                        number: number->Ok_0 as usize,
                                        time_epoch: fields[time_epoch->Ok_0].show@,
                                        content,
                                    },
                                ),
                            ),
                            Err(error) => Err(error),
                        }
                    },
                }
            }
        },
    }
}

/// Whether the response byte of a response that has one holds an
/// acknowledgment.
pub open spec fn response_wf(response: ResponseView) -> bool {
    match response {
        ResponseView::DapTransfer(response) => response.response.wf(),
        ResponseView::DapTransferBlock(response) => response.response.wf(),
        _ => true,
    }
}

/// Whether the response byte of a frame that has one holds an
/// acknowledgment.
pub open spec fn frame_wf(frame: FrameView) -> bool {
    match frame.content {
        ContentView::CmsisDapResponse { content, .. } => response_wf(content),
        _ => true,
    }
}

impl Response {
    /// Whether the response byte, if the response has one, holds an
    /// acknowledgment.
    pub fn is_wf(&self) -> (ok: bool)
        ensures
            ok == response_wf(self@),
    {
        match self {
            Response::DapTransfer(response) => response.response.is_wf(),
            Response::DapTransferBlock(response) => response.response.is_wf(),
            _ => true,
        }
    }
}

impl Frame {
    /// Whether the response byte, if the frame has one, holds an
    /// acknowledgment.
    pub fn is_wf(&self) -> (ok: bool)
        ensures
            ok == frame_wf(self@),
    {
        match &self.content {
            Content::CmsisDapResponse { content, .. } => content.is_wf(),
            _ => true,
        }
    }
}

/// A response that was read has an acknowledgment in its response byte.
pub proof fn lemma_response_wf(fields: Seq<Field>)
    ensures
        response_of(fields) is Ok ==> response_wf(response_of(fields)->Ok_0),
{
}

/// A frame that was read has an acknowledgment in its response byte.
pub proof fn lemma_frame_wf(packet: Packet)
    ensures
        frame_of(packet) is Ok && frame_of(packet)->Ok_0 is Some ==> frame_wf(
            frame_of(packet)->Ok_0->0,
        ),
{
    let protos = packet.proto@;
    let usbdap = proto_from(protos, "usbdap"@, 0);
    if frame_of(packet) is Ok && frame_of(packet)->Ok_0 is Some {
        let fields = protos[usbdap->0].field@;
        lemma_response_wf(fields);
    }
}

/// The view of what reading a request gave.
pub open spec fn request_result_view(result: Result<Request, PdmlError>) -> Result<
    RequestView,
    PdmlError,
> {
    match result {
        Ok(request) => Ok(request@),
        Err(error) => Err(error),
    }
}

/// The view of what reading a response gave.
pub open spec fn response_result_view(result: Result<Response, PdmlError>) -> Result<
    ResponseView,
    PdmlError,
> {
    match result {
        Ok(response) => Ok(response@),
        Err(error) => Err(error),
    }
}

/// The view of what reading a layer gave.
pub open spec fn content_result_view(result: Result<Content, PdmlError>) -> Result<
    ContentView,
    PdmlError,
> {
    match result {
        Ok(content) => Ok(content@),
        Err(error) => Err(error),
    }
}

/// The view of what reading a packet gave.
pub open spec fn frame_result_view(result: Result<Option<Frame>, PdmlError>) -> Result<
    Option<FrameView>,
    PdmlError,
> {
    match result {
        Ok(Some(frame)) => Ok(Some(frame@)),
        Ok(None) => Ok(None),
        Err(error) => Err(error),
    }
}

/// Finds the first of `fields`, at or after `from`, that bears `name`.
pub fn find_named(fields: &Vec<Field>, name: &str, from: usize) -> (at: Option<usize>)
    ensures
        match at {
            Some(index) => from <= index < fields.len() && named_from(
                fields@,
                name@,
                from as int,
            ) == Some(index as int),
            None => named_from(fields@, name@, from as int) is None,
        },
{
    let mut i: usize = from;
    while i < fields.len()
        invariant
            from <= i,
            named_from(fields@, name@, from as int) == named_from(fields@, name@, i as int),
        decreases fields.len() - i,
    {
        if str_eq(fields[i].name.as_str(), name) {
            return Some(i);
        }
        i += 1;
    }
    None
}

/// Finds the one of `fields` that bears `name`.
pub fn find_unique(fields: &Vec<Field>, name: &str) -> (at: Result<usize, PdmlError>)
    ensures
        match at {
            Ok(index) => index < fields.len() && unique_named(fields@, name@) == Ok::<
                int,
                PdmlError,
            >(index as int),
            Err(error) => unique_named(fields@, name@) == Err::<int, PdmlError>(error),
        },
{
    match find_named(fields, name, 0) {
        None => Err(PdmlError::MissingField),
        Some(at) => match find_named(fields, name, at + 1) {
            Some(_) => Err(PdmlError::RepeatedField),
            None => Ok(at),
        },
    }
}

/// Reads the number that a field shows in base 10.
pub fn read_decimal(field: &Field, max: u64) -> (value: Result<u64, PdmlError>)
    ensures
        value == shown_decimal(*field, max),
        value is Ok ==> value->Ok_0 <= max,
{
    match parse_decimal(field.show.as_str(), max) {
        Some(value) => Ok(value),
        None => Err(PdmlError::InvalidValue),
    }
}

/// Reads the number that a field shows in base 16.
pub fn read_hex(field: &Field, max: u64) -> (value: Result<u64, PdmlError>)
    ensures
        value == shown_hex(*field, max),
        value is Ok ==> value->Ok_0 <= max,
{
    match parse_prefixed_hex(field.show.as_str(), max) {
        Some(value) => Ok(value),
        None => Err(PdmlError::InvalidValue),
    }
}

/// Reads the decimal number of the one field that bears `name`.
pub fn read_unique_decimal(fields: &Vec<Field>, name: &str, max: u64) -> (value: Result<
    u64,
    PdmlError,
>)
    ensures
        value == unique_decimal(fields@, name@, max),
        value is Ok ==> value->Ok_0 <= max,
{
    let at = find_unique(fields, name)?;
    read_decimal(&fields[at], max)
}

/// Reads the hexadecimal number of the one field that bears `name`.
pub fn read_unique_hex(fields: &Vec<Field>, name: &str, max: u64) -> (value: Result<
    u64,
    PdmlError,
>)
    ensures
        value == unique_hex(fields@, name@, max),
        value is Ok ==> value->Ok_0 <= max,
{
    let at = find_unique(fields, name)?;
    read_hex(&fields[at], max)
}

/// Reads the decimal number of the first field that bears `name`.
pub fn read_first_decimal(fields: &Vec<Field>, name: &str, max: u64) -> (value: Result<
    u64,
    PdmlError,
>)
    ensures
        value == first_decimal(fields@, name@, max),
        value is Ok ==> value->Ok_0 <= max,
{
    match find_named(fields, name, 0) {
        Some(at) => read_decimal(&fields[at], max),
        None => Err(PdmlError::MissingField),
    }
}

/// Reads the hexadecimal number of the first field that bears `name`.
pub fn read_first_hex(fields: &Vec<Field>, name: &str, max: u64) -> (value: Result<u64, PdmlError>)
    ensures
        value == first_hex(fields@, name@, max),
        value is Ok ==> value->Ok_0 <= max,
{
    match find_named(fields, name, 0) {
        Some(at) => read_hex(&fields[at], max),
        None => Err(PdmlError::MissingField),
    }
}

/// Reads the 32-bit decimal numbers of all fields that bear `name`.
pub fn read_all_decimal(fields: &Vec<Field>, name: &str) -> (values: Result<Vec<u32>, PdmlError>)
    ensures
        match all_decimal(fields@, name@, fields.len() as nat) {
            Ok(expected) => values is Ok && values->Ok_0@ == expected,
            Err(error) => values == Err::<Vec<u32>, PdmlError>(error),
        },
{
    let mut values: Vec<u32> = Vec::new();
    let mut i: usize = 0;
    while i < fields.len()
        invariant
            i <= fields.len(),
            all_decimal(fields@, name@, i as nat) == Ok::<Seq<u32>, PdmlError>(values@),
        decreases fields.len() - i,
    {
        if str_eq(fields[i].name.as_str(), name) {
            match read_decimal(&fields[i], u32::MAX as u64) {
                Ok(value) => {
                    values.push(value as u32);
                },
                Err(error) => {
                    proof {
                        lemma_all_decimal_error(fields@, name@, i as nat + 1, fields.len() as nat);
                    }
                    return Err(error);
                },
            }
        }
        i += 1;
    }
    Ok(values)
}

/// An error among the first `n` fields is the error of any longer prefix.
pub proof fn lemma_all_decimal_error(fields: Seq<Field>, name: Seq<char>, n: nat, m: nat)
    requires
        n <= m,
        all_decimal(fields, name, n) is Err,
    ensures
        all_decimal(fields, name, m) == all_decimal(fields, name, n),
    decreases m - n,
{
    if n < m {
        lemma_all_decimal_error(fields, name, n, (m - 1) as nat);
    }
}

/// The limit as contracts speak of it.
pub open spec fn limit_view(limit: Option<usize>) -> Option<nat> {
    match limit {
        Some(limit) => Some(limit as nat),
        None => None,
    }
}

/// Reads a colon-separated list of hexadecimal numbers as bytes: all of
/// them, or up to `limit` of them where there is one.
pub fn read_hex_list(text: &str, limit: Option<usize>) -> (bytes: Result<Vec<u8>, PdmlError>)
    ensures
        match hex_bytes_from(text_bytes(text@), 0, limit_view(limit)) {
            Ok(expected) => bytes is Ok && bytes->Ok_0@ == expected,
            Err(error) => bytes == Err::<Vec<u8>, PdmlError>(error),
        },
{
    let s = text.as_bytes();
    let ghost all = hex_bytes_from(s@, 0, limit_view(limit));
    let mut bytes: Vec<u8> = Vec::new();
    let mut from: usize = 0;
    let mut left: Option<usize> = limit;
    loop
        invariant_except_break
            all == match hex_bytes_from(s@, from as int, limit_view(left)) {
                Ok(rest) => Ok::<Seq<u8>, PdmlError>(bytes@ + rest),
                Err(error) => Err::<Seq<u8>, PdmlError>(error),
            },
        invariant
            from <= s.len(),
            s@ == text_bytes(text@),
            all == hex_bytes_from(s@, 0, limit_view(limit)),
        ensures
            all == Ok::<Seq<u8>, PdmlError>(bytes@),
        decreases s.len() - from,
    {
        match left {
            Some(left) => {
                if left == 0 {
                    assert(bytes@ + Seq::<u8>::empty() =~= bytes@);
                    break ;
                }
            },
            None => {},
        }
        let mut end: usize = from;
        while end < s.len() && s[end] != 0x3A
            invariant
                from <= end <= s.len(),
                segment_end(s@, from as int) == segment_end(s@, end as int),
            decreases s.len() - end,
        {
            end += 1;
        }
        assert(segment_end(s@, end as int) == end);
        let start = skip_sign(s, from, end);
        let byte: u8 = match parse_number(s, start, end, true, 0xFF) {
            Some(byte) => byte as u8,
            None => {
                return Err(PdmlError::InvalidValue);
            },
        };
        let next: Option<usize> = match left {
            Some(left) => Some((left - 1) as usize),
            None => None,
        };
        proof {
            let rest = hex_bytes_from(s@, end + 1, limit_view(next));
            if end < s.len() && rest is Ok {
                assert(bytes@.push(byte) + rest->Ok_0 =~= bytes@ + (seq![byte] + rest->Ok_0));
            }
            assert(bytes@.push(byte) =~= bytes@ + seq![byte]);
        }
        bytes.push(byte);
        if end >= s.len() {
            break ;
        }
        from = end + 1;
        left = next;
    }
    Ok(bytes)
}

/// Reads the bytes of a command outside the supported set.
pub fn raw_data_from_pdml_proto(proto: &Proto) -> (raw_data: Result<Vec<u8>, PdmlError>)
    ensures
        match raw_data_of(proto.field@) {
            Ok(expected) => raw_data is Ok && raw_data->Ok_0@ == expected,
            Err(error) => raw_data == Err::<Vec<u8>, PdmlError>(error),
        },
{
    let at = find_unique(&proto.field, "cmsis_dap.unknown")?;
    read_hex_list(proto.field[at].show.as_str(), None)
}

/// Reads the command byte of a layer.
pub fn command_byte(proto: &Proto) -> (command: Result<u8, PdmlError>)
    ensures
        command == command_byte_of(proto.field@),
{
    let value = read_first_hex(&proto.field, "cmsis_dap.command", 0xFF)?;
    Ok(value as u8)
}

impl request::DapConnect {
    pub fn from_pdml_proto(proto: &Proto) -> (payload: Result<request::DapConnect, PdmlError>)
        ensures
            payload == wrapped(
                connect_port_of(proto.field@),
                |swd_port: u8| request::DapConnect { swd_port },
            ),
    {
        let swd_port = read_first_hex(&proto.field, "cmsis_dap.connect.port", 0xFF)?;
        Ok(request::DapConnect { swd_port: swd_port as u8 })
    }
}

impl request::DapDisconnect {
    pub fn from_pdml_proto(_proto: &Proto) -> (payload: request::DapDisconnect)
        ensures
            payload == request::DapDisconnect,
    {
        request::DapDisconnect
    }
}

impl request::DapTransferConfigure {
    pub fn from_pdml_proto(proto: &Proto) -> (payload: Result<
        request::DapTransferConfigure,
        PdmlError,
    >)
        ensures
            payload == transfer_configure_of(proto.field@),
    {
        let fields = &proto.field;
        let idle_cycles = read_unique_decimal(fields, "cmsis_dap.transfer_config.idle_cycles", 0xFF)?;
        let wait_retry = read_unique_decimal(fields, "cmsis_dap.transfer_config.wait_retry", 0xFFFF)?;
        let match_retry = read_unique_decimal(
            fields,
            "cmsis_dap.transfer_config.match_retry",
            0xFFFF,
        )?;
        Ok(
            request::DapTransferConfigure {
                idle_cycles: idle_cycles as u8,
                wait_retry: wait_retry as u16,
                match_retry: match_retry as u16,
            },
        )
    }
}

/// Reads the transfers that the fields nested in a `cmsis_dap.transfer`
/// field describe.
pub fn read_transfers(nested: &Vec<Field>) -> (transfers: Result<Vec<DapSingleTransfer>, PdmlError>)
    ensures
        match transfers_of(nested@, nested.len() as nat) {
            Ok(expected) => transfers is Ok && transfers->Ok_0@ == expected,
            Err(error) => transfers == Err::<Vec<DapSingleTransfer>, PdmlError>(error),
        },
{
    let mut transfers: Vec<DapSingleTransfer> = Vec::new();
    let mut i: usize = 0;
    while i < nested.len()
        invariant
            i <= nested.len(),
            transfers_of(nested@, i as nat) == Ok::<Seq<DapSingleTransfer>, PdmlError>(transfers@),
        decreases nested.len() - i,
    {
        let field = &nested[i];
        proof {
            if transfers_of(nested@, i as nat + 1) is Err {
                lemma_transfers_error(nested@, i as nat + 1, nested.len() as nat);
            }
        }
        if str_eq(field.name.as_str(), "cmsis_dap.transfer.request") {
            let value = read_hex(field, 0xFF)?;
            transfers.push(
                DapSingleTransfer { request: DapTransferRequest { value: value as u8 }, data: None },
            );
        } else if str_eq(field.name.as_str(), "cmsis_dap.transfer.write.data") {
            let data = read_decimal(field, u32::MAX as u64)?;
            let count = transfers.len();
            if count == 0 {
                return Err(PdmlError::UnexpectedField);
            }
            let last: DapSingleTransfer = transfers[count - 1];
            if !last.request.takes_data() {
                return Err(PdmlError::UnexpectedField);
            }
            if last.data.is_some() {
                return Err(PdmlError::RepeatedField);
            }
            transfers.set(
                count - 1,
                DapSingleTransfer { request: last.request, data: Some(data as u32) },
            );
        }
        i += 1;
    }
    Ok(transfers)
}

/// An error among the first `n` nested fields is the error of any longer
/// prefix.
pub proof fn lemma_transfers_error(nested: Seq<Field>, n: nat, m: nat)
    requires
        n <= m,
        transfers_of(nested, n) is Err,
    ensures
        transfers_of(nested, m) == transfers_of(nested, n),
    decreases m - n,
{
    if n < m {
        lemma_transfers_error(nested, n, (m - 1) as nat);
    }
}

impl request::DapTransfer {
    pub fn from_pdml_proto(proto: &Proto) -> (payload: Result<request::DapTransfer, PdmlError>)
        ensures
            match transfer_request_of(proto.field@) {
                Ok(expected) => payload is Ok && payload->Ok_0@ == expected,
                Err(error) => payload == Err::<request::DapTransfer, PdmlError>(error),
            },
    {
        let fields = &proto.field;
        let dap_index = read_unique_decimal(fields, "cmsis_dap.dap_index", 0xFF)?;
        let transfer_count = read_unique_decimal(fields, "cmsis_dap.transfer.count", 0xFF)?;
        if transfer_count == 0 {
            return Err(PdmlError::InvalidValue);
        }
        let at = find_unique(fields, "cmsis_dap.transfer")?;
        let transfers = read_transfers(&fields[at].field)?;
        Ok(
            request::DapTransfer {
                dap_index: dap_index as u8,
                transfer_count: transfer_count as u8,
                transfers,
            },
        )
    }
}

impl request::DapTransferBlock {
    pub fn from_pdml_proto(proto: &Proto) -> (payload: Result<request::DapTransferBlock, PdmlError>)
        ensures
            match transfer_block_request_of(proto.field@) {
                Ok(expected) => payload is Ok && payload->Ok_0@ == expected,
                Err(error) => payload == Err::<request::DapTransferBlock, PdmlError>(error),
            },
    {
        let fields = &proto.field;
        let dap_index = read_unique_decimal(fields, "cmsis_dap.dap_index", 0xFF)?;
        let transfer_count = read_unique_decimal(fields, "cmsis_dap.transfer_block.count", 0xFFFF)?;
        if transfer_count == 0 {
            return Err(PdmlError::InvalidValue);
        }
        let at = find_unique(fields, "cmsis_dap.transfer.request")?;
        let value = read_hex(&fields[at], 0xFF)?;
        let request = DapTransferBlockRequest { value: value as u8 };
        match find_named(fields, "cmsis_dap.transfer.write.data", 0) {
            Some(first_data) => {
                if first_data < at || request.rnw() {
                    return Err(PdmlError::UnexpectedField);
                }
            },
            None => {},
        }
        let data = read_all_decimal(fields, "cmsis_dap.transfer.write.data")?;
        Ok(
            request::DapTransferBlock {
                dap_index: dap_index as u8,
                transfer_count: transfer_count as u16,
                request,
                data,
            },
        )
    }
}

impl request::DapWriteAbort {
    pub fn from_pdml_proto(proto: &Proto) -> (payload: Result<request::DapWriteAbort, PdmlError>)
        ensures
            payload == write_abort_of(proto.field@),
    {
        let fields = &proto.field;
        let dap_index = read_unique_decimal(fields, "cmsis_dap.dap_index", 0xFF)?;
        let abort = read_unique_decimal(fields, "cmsis_dap.write_abort", u32::MAX as u64)?;
        Ok(request::DapWriteAbort { dap_index: dap_index as u8, abort: abort as u32 })
    }
}

impl request::DapSwjClock {
    pub fn from_pdml_proto(proto: &Proto) -> (payload: Result<request::DapSwjClock, PdmlError>)
        ensures
            payload == swj_clock_of(proto.field@),
    {
        let clock = read_first_decimal(&proto.field, "cmsis_dap.swj_clock", u32::MAX as u64)?;
        Ok(request::DapSwjClock { clock: clock as u32 })
    }
}

impl request::DapSwjSequence {
    pub fn from_pdml_proto(proto: &Proto) -> (payload: Result<request::DapSwjSequence, PdmlError>)
        ensures
            match swj_sequence_of(proto.field@) {
                Ok(expected) => payload is Ok && payload->Ok_0@ == expected,
                Err(error) => payload == Err::<request::DapSwjSequence, PdmlError>(error),
            },
    {
        let fields = &proto.field;
        let count = read_unique_decimal(fields, "cmsis_dap.swj_sequence.count", 0xFF)?;
        let at = find_unique(fields, "cmsis_dap.swj_sequence.data")?;
        let bit_count: usize = if count == 0 {
            256
        } else {
            count as usize
        };
        let bit_data = read_hex_list(fields[at].show.as_str(), Some((bit_count + 7) / 8))?;
        Ok(request::DapSwjSequence { bit_count, bit_data })
    }
}

impl request::DapSwdConfigure {
    pub fn from_pdml_proto(proto: &Proto) -> (payload: Result<request::DapSwdConfigure, PdmlError>)
        ensures
            payload == swd_configure_of(proto.field@),
    {
        let value = read_first_hex(&proto.field, "cmsis_dap.swd_config", 0xFF)?;
        if value < 8 {
            Ok(request::DapSwdConfigure { value: value as u8 })
        } else {
            Err(PdmlError::InvalidValue)
        }
    }
}

impl Request {
    /// Reads the request that a CMSIS-DAP layer describes.
    pub fn from_pdml_proto(proto: &Proto) -> (request: Result<Request, PdmlError>)
        ensures
            request_result_view(request) == request_of(proto.field@),
    {
        let command = command_byte(proto)?;
        if command == 0x02 {
            Ok(Request::DapConnect(request::DapConnect::from_pdml_proto(proto)?))
        } else if command == 0x03 {
            Ok(Request::DapDisconnect(request::DapDisconnect::from_pdml_proto(proto)))
        } else if command == 0x04 {
            Ok(Request::DapTransferConfigure(request::DapTransferConfigure::from_pdml_proto(proto)?))
        } else if command == 0x05 {
            Ok(Request::DapTransfer(request::DapTransfer::from_pdml_proto(proto)?))
        } else if command == 0x06 {
            Ok(Request::DapTransferBlock(request::DapTransferBlock::from_pdml_proto(proto)?))
        } else if command == 0x08 {
            Ok(Request::DapWriteAbort(request::DapWriteAbort::from_pdml_proto(proto)?))
        } else if command == 0x11 {
            Ok(Request::DapSwjClock(request::DapSwjClock::from_pdml_proto(proto)?))
        } else if command == 0x12 {
            Ok(Request::DapSwjSequence(request::DapSwjSequence::from_pdml_proto(proto)?))
        } else if command == 0x13 {
            Ok(Request::DapSwdConfigure(request::DapSwdConfigure::from_pdml_proto(proto)?))
        } else {
            Ok(Request::Unknown { header_byte: command, raw_data: raw_data_from_pdml_proto(proto)? })
        }
    }
}

impl DapResponseStatus {
    pub fn from_pdml_proto(proto: &Proto) -> (status: Result<DapResponseStatus, PdmlError>)
        ensures
            status == status_of(proto.field@),
    {
        let value = read_first_hex(&proto.field, "cmsis_dap.status", 0xFF)?;
        match DapResponseStatus::try_from(value as u8) {
            Ok(status) => Ok(status),
            Err(_) => Err(PdmlError::InvalidValue),
        }
    }
}

impl response::DapConnect {
    pub fn from_pdml_proto(proto: &Proto) -> (payload: Result<response::DapConnect, PdmlError>)
        ensures
            payload == wrapped(
                connect_port_of(proto.field@),
                |swd_port: u8| response::DapConnect { swd_port },
            ),
    {
        let swd_port = read_first_hex(&proto.field, "cmsis_dap.connect.port", 0xFF)?;
        Ok(response::DapConnect { swd_port: swd_port as u8 })
    }
}

impl response::DapDisconnect {
    pub fn from_pdml_proto(proto: &Proto) -> (payload: Result<response::DapDisconnect, PdmlError>)
        ensures
            payload == wrapped(
                status_of(proto.field@),
                |status: DapResponseStatus| response::DapDisconnect { status },
            ),
    {
        let status = DapResponseStatus::from_pdml_proto(proto)?;
        Ok(response::DapDisconnect { status })
    }
}

impl response::DapTransferConfigure {
    pub fn from_pdml_proto(proto: &Proto) -> (payload: Result<
        response::DapTransferConfigure,
        PdmlError,
    >)
        ensures
            payload == wrapped(
                status_of(proto.field@),
                |status: DapResponseStatus| response::DapTransferConfigure { status },
            ),
    {
        let status = DapResponseStatus::from_pdml_proto(proto)?;
        Ok(response::DapTransferConfigure { status })
    }
}

impl response::DapTransfer {
    pub fn from_pdml_proto(proto: &Proto) -> (payload: Result<response::DapTransfer, PdmlError>)
        ensures
            match transfer_response_of(proto.field@) {
                Ok(expected) => payload is Ok && payload->Ok_0@ == expected,
                Err(error) => payload == Err::<response::DapTransfer, PdmlError>(error),
            },
    {
        let fields = &proto.field;
        let transfer_count = read_unique_decimal(fields, "cmsis_dap.transfer.count", 0xFF)?;
        let value = read_unique_hex(fields, "cmsis_dap.transfer.response", 0xFF)?;
        let response = match DapTransferResponse::try_from(value as u8) {
            Ok(response) => response,
            Err(_) => {
                return Err(PdmlError::InvalidValue);
            },
        };
        let data = read_all_decimal(fields, "cmsis_dap.transfer.read.data")?;
        Ok(response::DapTransfer { transfer_count: transfer_count as u8, response, data })
    }
}

impl response::DapTransferBlock {
    pub fn from_pdml_proto(proto: &Proto) -> (payload: Result<response::DapTransferBlock, PdmlError>)
        ensures
            match transfer_block_response_of(proto.field@) {
                Ok(expected) => payload is Ok && payload->Ok_0@ == expected,
                Err(error) => payload == Err::<response::DapTransferBlock, PdmlError>(error),
            },
    {
        let fields = &proto.field;
        let transfer_count = read_unique_decimal(fields, "cmsis_dap.transfer_block.count", 0xFF)?;
        let value = read_unique_hex(fields, "cmsis_dap.transfer.response", 0xFF)?;
        let response = match DapTransferBlockResponse::try_from(value as u8) {
            Ok(response) => response,
            Err(_) => {
                return Err(PdmlError::InvalidValue);
            },
        };
        let data = read_all_decimal(fields, "cmsis_dap.transfer.read.data")?;
        Ok(response::DapTransferBlock { transfer_count: transfer_count as u8, response, data })
    }
}

impl response::DapWriteAbort {
    pub fn from_pdml_proto(proto: &Proto) -> (payload: Result<response::DapWriteAbort, PdmlError>)
        ensures
            payload == wrapped(
                status_of(proto.field@),
                |status: DapResponseStatus| response::DapWriteAbort { status },
            ),
    {
        let status = DapResponseStatus::from_pdml_proto(proto)?;
        Ok(response::DapWriteAbort { status })
    }
}

impl response::DapSwjClock {
    pub fn from_pdml_proto(proto: &Proto) -> (payload: Result<response::DapSwjClock, PdmlError>)
        ensures
            payload == wrapped(
                status_of(proto.field@),
                |status: DapResponseStatus| response::DapSwjClock { status },
            ),
    {
        let status = DapResponseStatus::from_pdml_proto(proto)?;
        Ok(response::DapSwjClock { status })
    }
}

impl response::DapSwjSequence {
    pub fn from_pdml_proto(proto: &Proto) -> (payload: Result<response::DapSwjSequence, PdmlError>)
        ensures
            payload == wrapped(
                status_of(proto.field@),
                |status: DapResponseStatus| response::DapSwjSequence { status },
            ),
    {
        let status = DapResponseStatus::from_pdml_proto(proto)?;
        Ok(response::DapSwjSequence { status })
    }
}

impl response::DapSwdConfigure {
    pub fn from_pdml_proto(proto: &Proto) -> (payload: Result<response::DapSwdConfigure, PdmlError>)
        ensures
            payload == wrapped(
                status_of(proto.field@),
                |status: DapResponseStatus| response::DapSwdConfigure { status },
            ),
    {
        let status = DapResponseStatus::from_pdml_proto(proto)?;
        Ok(response::DapSwdConfigure { status })
    }
}

impl Response {
    /// Reads the response that a CMSIS-DAP layer describes.
    pub fn from_pdml_proto(proto: &Proto) -> (response: Result<Response, PdmlError>)
        ensures
            response_result_view(response) == response_of(proto.field@),
    {
        let command = command_byte(proto)?;
        if command == 0x02 {
            Ok(Response::DapConnect(response::DapConnect::from_pdml_proto(proto)?))
        } else if command == 0x03 {
            Ok(Response::DapDisconnect(response::DapDisconnect::from_pdml_proto(proto)?))
        } else if command == 0x04 {
            Ok(
                Response::DapTransferConfigure(
                    response::DapTransferConfigure::from_pdml_proto(proto)?,
                ),
            )
        } else if command == 0x05 {
            Ok(Response::DapTransfer(response::DapTransfer::from_pdml_proto(proto)?))
        } else if command == 0x06 {
            Ok(Response::DapTransferBlock(response::DapTransferBlock::from_pdml_proto(proto)?))
        } else if command == 0x08 {
            Ok(Response::DapWriteAbort(response::DapWriteAbort::from_pdml_proto(proto)?))
        } else if command == 0x11 {
            Ok(Response::DapSwjClock(response::DapSwjClock::from_pdml_proto(proto)?))
        } else if command == 0x12 {
            Ok(Response::DapSwjSequence(response::DapSwjSequence::from_pdml_proto(proto)?))
        } else if command == 0x13 {
            Ok(Response::DapSwdConfigure(response::DapSwdConfigure::from_pdml_proto(proto)?))
        } else {
            Ok(
                Response::Unknown {
                    header_byte: command,
                    raw_data: raw_data_from_pdml_proto(proto)?,
                },
            )
        }
    }
}

impl Content {
    /// Reads what a CMSIS-DAP layer carries.
    pub fn from_pdml_proto(proto: &Proto) -> (content: Result<Content, PdmlError>)
        ensures
            content_result_view(content) == content_of(proto.field@),
    {
        let fields = &proto.field;
        let answered_by = find_named(fields, "cmsis_dap.response", 0);
        let asked_by = find_named(fields, "cmsis_dap.request", 0);
        match (answered_by, asked_by) {
            (None, None) => Err(PdmlError::MissingField),
            (Some(_), Some(_)) => Err(PdmlError::RepeatedField),
            (Some(_), None) => {
                let number = read_unique_decimal(fields, "cmsis_dap.response", usize::MAX as u64)?;
                let content = Request::from_pdml_proto(proto)?;
                Ok(Content::CmsisDapRequest { content, corresponding_response: number as usize })
            },
            (None, Some(_)) => {
                let number = read_unique_decimal(fields, "cmsis_dap.request", usize::MAX as u64)?;
                let content = Response::from_pdml_proto(proto)?;
                Ok(Content::CmsisDapResponse { content, corresponding_request: number as usize })
            },
        }
    }
}

/// Finds the first of `protos`, at or after `from`, that bears `name`.
pub fn find_proto(protos: &Vec<Proto>, name: &str, from: usize) -> (at: Option<usize>)
    ensures
        match at {
            Some(index) => from <= index < protos.len() && proto_from(
                protos@,
                name@,
                from as int,
            ) == Some(index as int),
            None => proto_from(protos@, name@, from as int) is None,
        },
{
    let mut i: usize = from;
    while i < protos.len()
        invariant
            from <= i,
            proto_from(protos@, name@, from as int) == proto_from(protos@, name@, i as int),
        decreases protos.len() - i,
    {
        if str_eq(protos[i].name.as_str(), name) {
            return Some(i);
        }
        i += 1;
    }
    None
}

impl Frame {
    /// Reads the frame that a packet carries, if it carries CMSIS-DAP
    /// traffic.
    pub fn from_pdml_packet(packet: &Packet) -> (frame: Result<Option<Frame>, PdmlError>)
        ensures
            frame_result_view(frame) == frame_of(*packet),
    {
        let protos = &packet.proto;
        let at = match find_proto(protos, "frame", 0) {
            Some(at) => at,
            None => {
                return Err(PdmlError::MissingField);
            },
        };
        if find_proto(protos, "frame", at + 1).is_some() {
            return Err(PdmlError::RepeatedField);
        }
        let fields = &protos[at].field;
        let number = read_unique_decimal(fields, "frame.number", usize::MAX as u64)?;
        let time_at = find_unique(fields, "frame.time_epoch")?;
        let usbdap = match find_proto(protos, "usbdap", 0) {
            Some(usbdap) => usbdap,
            None => {
                return Ok(None);
            },
        };
        if find_proto(protos, "usbdap", usbdap + 1).is_some() {
            return Err(PdmlError::RepeatedField);
        }
        let content = Content::from_pdml_proto(&protos[usbdap])?;
        Ok(
            Some(
                Frame {
                    number: number as usize,
                    time_epoch: fields[time_at].show.clone(),
                    content,
                },
            ),
        )
    }
}

} // verus!
