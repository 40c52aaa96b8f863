//! From a packet dissection of CMSIS-DAP traffic to the stream of ADI
//! commands: requests are paired with their responses, and each pair is
//! expanded into the accesses that it made.

use vstd::prelude::*;
use crate::cmsis_dap::from_pdml::{frame_of, frame_wf, lemma_frame_wf};
use crate::cmsis_dap::from_pdml::response_wf;
use crate::cmsis_dap::request;
use crate::cmsis_dap::request::{address_bits, spec_address_bits, DapSingleTransfer};
use crate::cmsis_dap::response;
use crate::cmsis_dap::response::{DapResponseStatus, DapTransferResponseAck};
use crate::cmsis_dap::{Content, ContentView, Frame, FrameView, PdmlError, PdmlFailure};
use crate::cmsis_dap::{Request, RequestView, Response, ResponseView};
use crate::common::{all_wf, inputs_view, Command, Input, InputView, Landmark, LandmarkView};
use crate::common::{UnknownCommandLandmark, UnknownCommandLandmarkView};
use crate::pdml::{Packet, Pdml};

verus! {

/// How many transfers of a request a response vouches for: all that it
/// counts where the last was acknowledged with OK, all but the last where
/// it was acknowledged with WAIT.
pub open spec fn valid_transfers(ack: DapTransferResponseAck, transfer_count: u8) -> nat {
    match ack {
        DapTransferResponseAck::Okay => transfer_count as nat,
        DapTransferResponseAck::Wait => if transfer_count == 0 {
            0
        } else {
            (transfer_count - 1) as nat
        },
        _ => 0,
    }
}

/// Counts the transfers that a response vouches for.
pub fn count_valid_transfers(ack: DapTransferResponseAck, transfer_count: u8) -> (count: usize)
    ensures
        count == valid_transfers(ack, transfer_count),
{
    match ack {
        DapTransferResponseAck::Okay => transfer_count as usize,
        DapTransferResponseAck::Wait => if transfer_count == 0 {
            0
        } else {
            (transfer_count - 1) as usize
        },
        _ => 0,
    }
}

/// How many of the first `n` transfers are reads.
pub open spec fn reads_before(transfers: Seq<DapSingleTransfer>, n: nat) -> nat
    decreases n,
{
    if n == 0 {
        0
    } else {
        reads_before(transfers, (n - 1) as nat) + if transfers[n - 1].request.spec_rnw() {
            1nat
        } else {
            0nat
        }
    }
}

/// The word that transfer `i` of a request moved: for a read, the next
/// word of the response that no earlier read took; for a write, the word
/// that the request carries. `None` where that word is not there.
pub open spec fn transfer_data(
    request: request::DapTransferView,
    response: response::DapTransferView,
    i: int,
) -> Option<u32> {
    let transfer = request.transfers[i];
    if transfer.request.spec_rnw() {
        let read = reads_before(request.transfers, i as nat);
        if read < response.data.len() {
            Some(response.data[read as int])
        } else {
            None
        }
    } else {
        transfer.data
    }
}

/// The command that a transfer with request byte bits `apndp`, `rnw`, `a3`
/// and `a2` made with `data`.
pub open spec fn command_of(apndp: bool, rnw: bool, a3: bool, a2: bool, data: u32) -> Command {
    Command { ts: None, apndp, rnw, a: spec_address_bits(a3, a2), data }
}

/// Whether a `DapTransfer` response reports a failure that leaves none of
/// its transfers to rely on.
pub open spec fn transfer_failed(response: response::DapTransferView) -> bool {
    response.response.spec_ack() == DapTransferResponseAck::Fault || response.response.spec_ack()
        == DapTransferResponseAck::NoAck || response.response.spec_protocol_error()
        || response.response.spec_value_mismatch()
}

/// Command `i` of a `DapTransfer` exchange.
pub open spec fn transfer_command(
    request: request::DapTransferView,
    response: response::DapTransferView,
    i: int,
) -> Command {
    let byte = request.transfers[i].request;
    command_of(
        byte.spec_apndp(),
        byte.spec_rnw(),
        byte.spec_a3(),
        byte.spec_a2(),
        transfer_data(request, response, i)->0,
    )
}

/// The commands of a `DapTransfer` exchange: none where the response
/// reports a failure; else one for each transfer that the response vouches
/// for, in order. It is an error where the response vouches for a transfer
/// that the request does not have, or whose word is not there.
pub open spec fn transfer_commands(
    request: request::DapTransferView,
    response: response::DapTransferView,
) -> Result<Seq<Command>, PdmlError> {
    if transfer_failed(response) {
        Ok(Seq::empty())
    } else {
        let valid = valid_transfers(response.response.spec_ack(), response.transfer_count);
        if valid > request.transfers.len() || exists|i: int|
            0 <= i < valid && (#[trigger] transfer_data(request, response, i)) is None {
            Err(PdmlError::InvalidTransfer)
        } else {
            Ok(Seq::new(valid, |i: int| transfer_command(request, response, i)))
        }
    }
}

/// A `DapTransfer` exchange gives as many commands as the response vouches
/// for, command `i` with the access of transfer `i` of the request.
pub proof fn lemma_transfer_commands(
    request: request::DapTransferView,
    response: response::DapTransferView,
)
    requires
        !transfer_failed(response),
        transfer_commands(request, response) is Ok,
    ensures
        ({
            let commands = transfer_commands(request, response)->Ok_0;
            let valid = valid_transfers(response.response.spec_ack(), response.transfer_count);
            &&& commands.len() == valid
            &&& valid <= request.transfers.len()
            &&& response.response.spec_ack() == DapTransferResponseAck::Okay ==> commands.len()
                == response.transfer_count
            &&& response.response.spec_ack() == DapTransferResponseAck::Wait
                && response.transfer_count > 0 ==> commands.len() == response.transfer_count - 1
            &&& forall|i: int|
                0 <= i < commands.len() ==> {
                    let byte = request.transfers[i].request;
                    &&& (#[trigger] commands[i]).ts is None
                    &&& commands[i].apndp == byte.spec_apndp()
                    &&& commands[i].rnw == byte.spec_rnw()
                    &&& commands[i].a == spec_address_bits(byte.spec_a3(), byte.spec_a2())
                    &&& Some(commands[i].data) == transfer_data(request, response, i)
                }
        }),
{
    let commands = transfer_commands(request, response)->Ok_0;
    assert forall|i: int| 0 <= i < commands.len() implies Some((#[trigger] commands[i]).data)
        == transfer_data(request, response, i) by {
        assert(transfer_data(request, response, i) is Some);
    }
}

/// Expands a `DapTransfer` exchange into its commands.
pub fn expand_transfer(request: &request::DapTransfer, response: &response::DapTransfer) -> (commands:
    Result<Vec<Command>, PdmlError>)
    requires
        response.response.wf(),
    ensures
        match transfer_commands(request@, response@) {
            Ok(expected) => commands is Ok && commands->Ok_0@ == expected,
            Err(error) => commands == Err::<Vec<Command>, PdmlError>(error),
        },
{
    let mut commands: Vec<Command> = Vec::new();
    let ack = response.response.ack();
    let failed: bool = match ack {
        DapTransferResponseAck::Fault => true,
        DapTransferResponseAck::NoAck => true,
        _ => false,
    };
    if failed || response.response.protocol_error() || response.response.value_mismatch() {
        return Ok(commands);
    }
    let valid: usize = count_valid_transfers(ack, response.transfer_count);
    if valid > request.transfers.len() {
        return Err(PdmlError::InvalidTransfer);
    }
    let mut read: usize = 0;
    let mut i: usize = 0;
    while i < valid
        invariant
            i <= valid <= request.transfers.len(),
            !transfer_failed(response@),
            valid == valid_transfers(response@.response.spec_ack(), response@.transfer_count),
            read == reads_before(request@.transfers, i as nat),
            read <= i,
            commands.len() == i,
            forall|j: int| 0 <= j < i ==> transfer_data(request@, response@, j) is Some,
            forall|j: int|
                0 <= j < i ==> (#[trigger] commands[j]) == transfer_command(request@, response@, j),
        decreases valid - i,
    {
        let transfer: DapSingleTransfer = request.transfers[i];
        let data: u32 = if transfer.request.rnw() {
            if read >= response.data.len() {
                assert(transfer_data(request@, response@, i as int) is None);
                return Err(PdmlError::InvalidTransfer);
            }
            let data: u32 = response.data[read];
            read += 1;
            data
        } else {
            match transfer.data {
                Some(data) => data,
                None => {
                    assert(transfer_data(request@, response@, i as int) is None);
                    return Err(PdmlError::InvalidTransfer);
                },
            }
        };
        commands.push(
            Command {
                ts: None,
                apndp: transfer.request.apndp(),
                rnw: transfer.request.rnw(),
                a: address_bits(transfer.request.a3(), transfer.request.a2()),
                data,
            },
        );
        i += 1;
    }
    assert(commands@ =~= Seq::new(
        valid as nat,
        |i: int| transfer_command(request@, response@, i),
    ));
    Ok(commands)
}

/// Whether a `DapTransferBlock` response reports a failure that leaves none
/// of its transfers to rely on.
pub open spec fn block_failed(response: response::DapTransferBlockView) -> bool {
    response.response.spec_ack() == DapTransferResponseAck::Fault || response.response.spec_ack()
        == DapTransferResponseAck::NoAck || response.response.spec_protocol_error()
}

/// The words that a block transfer moved: those of the response for a
/// read, those of the request for a write.
pub open spec fn block_words(
    request: request::DapTransferBlockView,
    response: response::DapTransferBlockView,
) -> Seq<u32> {
    if request.request.spec_rnw() {
        response.data
    } else {
        request.data
    }
}

/// The commands of a `DapTransferBlock` exchange: none where the response
/// reports a failure; else one for each word that the response vouches
/// for, as far as the words are there, all with the access of the request
/// byte.
pub open spec fn block_commands(
    request: request::DapTransferBlockView,
    response: response::DapTransferBlockView,
) -> Seq<Command> {
    if block_failed(response) {
        Seq::empty()
    } else {
        let valid = valid_transfers(response.response.spec_ack(), response.transfer_count);
        let words = block_words(request, response);
        let byte = request.request;
        Seq::new(
            if valid <= words.len() {
                valid
            } else {
                words.len()
            },
            |i: int|
                command_of(
                    byte.spec_apndp(),
                    byte.spec_rnw(),
                    byte.spec_a3(),
                    byte.spec_a2(),
                    words[i],
                ),
        )
    }
}

/// Expands a `DapTransferBlock` exchange into its commands.
pub fn expand_transfer_block(
    request: &request::DapTransferBlock,
    response: &response::DapTransferBlock,
) -> (commands: Vec<Command>)
    requires
        response.response.wf(),
    ensures
        commands@ == block_commands(request@, response@),
{
    let mut commands: Vec<Command> = Vec::new();
    let ack = response.response.ack();
    let failed: bool = match ack {
        DapTransferResponseAck::Fault => true,
        DapTransferResponseAck::NoAck => true,
        _ => false,
    };
    if failed || response.response.protocol_error() {
        assert(commands@ =~= block_commands(request@, response@));
        return commands;
    }
    let valid: usize = count_valid_transfers(ack, response.transfer_count);
    let rnw: bool = request.request.rnw();
    let words: &Vec<u32> = if rnw {
        &response.data
    } else {
        &request.data
    };
    let end: usize = if valid <= words.len() {
        valid
    } else {
        words.len()
    };
    let a: u8 = address_bits(request.request.a3(), request.request.a2());
    let mut i: usize = 0;
    while i < end
        invariant
            i <= end <= words.len(),
            words@ == block_words(request@, response@),
            rnw == request.request.spec_rnw(),
            a == spec_address_bits(request.request.spec_a3(), request.request.spec_a2()),
            commands.len() == i,
            forall|j: int|
                0 <= j < i ==> (#[trigger] commands[j]) == command_of(
                    request.request.spec_apndp(),
                    rnw,
                    request.request.spec_a3(),
                    request.request.spec_a2(),
                    words[j],
                ),
        decreases end - i,
    {
        commands.push(
            Command { ts: None, apndp: request.request.apndp(), rnw, a, data: words[i] },
        );
        i += 1;
    }
    assert(commands@ =~= block_commands(request@, response@));
    commands
}

/// The stream elements that carry `commands`, one each.
pub open spec fn as_inputs(commands: Seq<Command>) -> Seq<InputView> {
    commands.map_values(|command: Command| InputView::Command(command))
}

/// What a request and the response that answers it give to the stream.
pub open spec fn pair_inputs(request: RequestView, response: ResponseView) -> Result<
    Seq<InputView>,
    PdmlError,
> {
    match (request, response) {
        (RequestView::DapTransfer(request), ResponseView::DapTransfer(response)) => {
            match transfer_commands(request, response) {
                Ok(commands) => Ok(as_inputs(commands)),
                Err(error) => Err(error),
            }
        },
        (RequestView::DapTransferBlock(request), ResponseView::DapTransferBlock(response)) => Ok(
            as_inputs(block_commands(request, response)),
        ),
        (RequestView::DapWriteAbort(request), ResponseView::DapWriteAbort(response)) => Ok(
            if response.status == DapResponseStatus::Okay {
                seq![
                    InputView::Command(
                        Command { ts: None, apndp: false, rnw: false, a: 0, data: request.abort },
                    ),
                ]
            } else {
                Seq::empty()
            },
        ),
        (
            RequestView::Unknown { header_byte, raw_data: request_data },
            ResponseView::Unknown { raw_data: response_data, .. },
        ) => Ok(
            seq![
                InputView::Landmark {
                    metadata: LandmarkView::UnknownCommand(
                        UnknownCommandLandmarkView { header_byte, request_data, response_data },
                    ),
                },
            ],
        ),
        _ => Ok(Seq::empty()),
    }
}

/// Adds to `inputs` the commands of `commands`, one stream element each.
fn push_commands(inputs: &mut Vec<Input>, commands: &Vec<Command>)
    ensures
        inputs_view(final(inputs)@) == inputs_view(old(inputs)@) + as_inputs(commands@),
{
    let mut i: usize = 0;
    while i < commands.len()
        invariant
            i <= commands.len(),
            inputs_view(inputs@) == inputs_view(old(inputs)@) + as_inputs(commands@.take(i as int)),
        decreases commands.len() - i,
    {
        assert(commands@.take(i + 1) =~= commands@.take(i as int).push(commands[i as int]));
        assert(as_inputs(commands@.take(i + 1)) =~= as_inputs(commands@.take(i as int)).push(
            InputView::Command(commands[i as int]),
        ));
        assert(inputs_view(inputs@.push(Input::Command(commands[i as int]))) =~= inputs_view(
            inputs@,
        ).push(InputView::Command(commands[i as int])));
        assert(inputs_view(inputs@.push(Input::Command(commands[i as int]))) =~= inputs_view(
            old(inputs)@,
        ) + as_inputs(commands@.take(i + 1)));
        inputs.push(Input::Command(commands[i]));
        i += 1;
    }
    assert(commands@.take(commands.len() as int) =~= commands@);
}

/// Adds to `inputs` what `request` and the `response` that answers it give
/// to the stream.
pub fn push_pair(inputs: &mut Vec<Input>, request: Request, response: Response) -> (result: Result<
    (),
    PdmlError,
>)
    requires
        response_wf(response@),
    ensures
        match pair_inputs(request@, response@) {
            Ok(more) => result is Ok && inputs_view(final(inputs)@) == inputs_view(old(inputs)@)
                + more,
            Err(error) => result == Err::<(), PdmlError>(error),
        },
{
    match (request, response) {
        (Request::DapTransfer(request), Response::DapTransfer(response)) => {
            let commands = expand_transfer(&request, &response)?;
            push_commands(inputs, &commands);
        },
        (Request::DapTransferBlock(request), Response::DapTransferBlock(response)) => {
            let commands = expand_transfer_block(&request, &response);
            push_commands(inputs, &commands);
        },
        (Request::DapWriteAbort(request), Response::DapWriteAbort(response)) => {
            match response.status {
                DapResponseStatus::Okay => {
                    let command = Command {
                        ts: None,
                        apndp: false,
                        rnw: false,
                        a: 0,
                        data: request.abort,
                    };
                    assert(inputs_view(inputs@.push(Input::Command(command))) =~= inputs_view(
                        inputs@,
                    ) + seq![InputView::Command(command)]);
                    inputs.push(Input::Command(command));
                },
                DapResponseStatus::Error => {
                    assert(inputs_view(inputs@) + Seq::<InputView>::empty() =~= inputs_view(
                        inputs@,
                    ));
                },
            }
        },
        (
            Request::Unknown { header_byte, raw_data: request_data },
            Response::Unknown { raw_data: response_data, .. },
        ) => {
            let input = Input::Landmark {
                metadata: Landmark::UnknownCommand(
                    UnknownCommandLandmark { header_byte, request_data, response_data },
                ),
            };
            assert(inputs_view(inputs@.push(input)) =~= inputs_view(inputs@) + seq![input@]);
            inputs.push(input);
        },
        _ => {
            assert(inputs_view(inputs@) + Seq::<InputView>::empty() =~= inputs_view(inputs@));
        },
    }
    Ok(())
}

/// A request that waits for its response.
#[derive(Debug)]
pub struct AwaitingRequest {
    pub number: usize,
    pub content: Request,
    pub corresponding_response: usize,
}

pub struct AwaitingRequestView {
    pub number: usize,
    pub content: RequestView,
    pub corresponding_response: usize,
}

impl View for AwaitingRequest {
    type V = AwaitingRequestView;

    open spec fn view(&self) -> AwaitingRequestView {
        AwaitingRequestView {
            number: self.number,
            content: self.content@,
            corresponding_response: self.corresponding_response,
        }
    }
}

/// The view of a request that may wait.
pub open spec fn awaiting_view(pending: Option<AwaitingRequest>) -> Option<AwaitingRequestView> {
    match pending {
        Some(pending) => Some(pending@),
        None => None,
    }
}

/// How far the pairing has come: the request that waits, if one does, and
/// the stream so far.
pub struct Progress {
    pub pending: Option<AwaitingRequestView>,
    pub inputs: Seq<InputView>,
}

/// The pairing after one more frame. With no request waiting, a request
/// waits from now on. With a request waiting, a response whose frame
/// numbers match the request's answers it, gives the pair's elements to
/// the stream and leaves nothing waiting; one whose numbers do not match
/// only drops the waiting request. A response with nothing waiting, and a
/// request while another waits, are an error.
pub open spec fn paired(progress: Progress, frame: FrameView) -> Result<Progress, PdmlError> {
    match (progress.pending, frame.content) {
        (Some(request), ContentView::CmsisDapResponse { content, corresponding_request }) => {
            if request.number != corresponding_request || frame.number
                != request.corresponding_response {
                Ok(Progress { pending: None, inputs: progress.inputs })
            } else {
                match pair_inputs(request.content, content) {
                    Ok(more) => Ok(Progress { pending: None, inputs: progress.inputs + more }),
                    Err(error) => Err(error),
                }
            }
        },
        (None, ContentView::CmsisDapRequest { content, corresponding_response }) => Ok(
            Progress {
                pending: Some(
                    AwaitingRequestView { number: frame.number, content, corresponding_response },
                ),
                inputs: progress.inputs,
            },
        ),
        _ => Err(PdmlError::InvalidState),
    }
}

/// The pairing after the first `n` packets, from the start of a capture.
/// A packet that carries no CMSIS-DAP traffic changes nothing. An error
/// comes with the index of the first packet that cannot be read or paired.
pub open spec fn progress_after(packets: Seq<Packet>, n: nat) -> Result<Progress, PdmlFailure>
    decreases n,
{
    if n == 0 {
        Ok(Progress { pending: None, inputs: Seq::empty() })
    } else {
        match progress_after(packets, (n - 1) as nat) {
            Err(failure) => Err(failure),
            Ok(progress) => match frame_of(packets[n - 1]) {
                Err(error) => Err(PdmlFailure { packet: (n - 1) as usize, error }),
                Ok(None) => Ok(progress),
                Ok(Some(frame)) => match paired(progress, frame) {
                    Ok(progress) => Ok(progress),
                    Err(error) => Err(PdmlFailure { packet: (n - 1) as usize, error }),
                },
            },
        }
    }
}

/// The stream that a dissection gives.
pub open spec fn vm_input_of(pdml: Pdml) -> Result<Seq<InputView>, PdmlFailure> {
    match progress_after(pdml.packet@, pdml.packet@.len()) {
        Ok(progress) => Ok(progress.inputs),
        Err(failure) => Err(failure),
    }
}

/// An error after the first `n` packets is the error of the capture.
pub proof fn lemma_progress_error(packets: Seq<Packet>, n: nat, m: nat)
    requires
        n <= m,
        progress_after(packets, n) is Err,
    ensures
        progress_after(packets, m) == progress_after(packets, n),
    decreases m - n,
{
    if n < m {
        lemma_progress_error(packets, n, (m - 1) as nat);
    }
}

/// Takes one frame into the pairing.
pub fn pair_frame(pending: Option<AwaitingRequest>, frame: Frame, inputs: &mut Vec<Input>) -> (next:
    Result<Option<AwaitingRequest>, PdmlError>)
    requires
        frame_wf(frame@),
    ensures
        match paired(
            Progress { pending: awaiting_view(pending), inputs: inputs_view(old(inputs)@) },
            frame@,
        ) {
            Ok(progress) => next is Ok && awaiting_view(next->Ok_0) == progress.pending
                && inputs_view(final(inputs)@) == progress.inputs,
            Err(error) => next == Err::<Option<AwaitingRequest>, PdmlError>(error),
        },
{
    let Frame { number, time_epoch: _, content } = frame;
    match (pending, content) {
        (Some(request), Content::CmsisDapResponse { content, corresponding_request }) => {
            if request.number != corresponding_request || number != request.corresponding_response {
                return Ok(None);
            }
            push_pair(inputs, request.content, content)?;
            Ok(None)
        },
        (None, Content::CmsisDapRequest { content, corresponding_response }) => Ok(
            Some(AwaitingRequest { number, content, corresponding_response }),
        ),
        _ => Err(PdmlError::InvalidState),
    }
}

/// The view of what [`generate_vm_input`] gave.
pub open spec fn vm_input_view(result: Result<Vec<Input>, PdmlFailure>) -> Result<
    Seq<InputView>,
    PdmlFailure,
> {
    match result {
        Ok(inputs) => Ok(inputs_view(inputs@)),
        Err(failure) => Err(failure),
    }
}

/// Every command that a request and its response give carries a 2-bit `a`.
pub proof fn lemma_pair_wf(request: RequestView, response: ResponseView)
    ensures
        pair_inputs(request, response) is Ok ==> all_wf(pair_inputs(request, response)->Ok_0),
{
}

/// Every command of the stream after the first `n` packets carries a 2-bit
/// `a`.
pub proof fn lemma_progress_wf(packets: Seq<Packet>, n: nat)
    ensures
        progress_after(packets, n) is Ok ==> all_wf(progress_after(packets, n)->Ok_0.inputs),
    decreases n,
{
    if n > 0 {
        lemma_progress_wf(packets, (n - 1) as nat);
        match progress_after(packets, (n - 1) as nat) {
            Ok(progress) => match frame_of(packets[n - 1]) {
                Ok(Some(frame)) => match (progress.pending, frame.content) {
                    (Some(request), ContentView::CmsisDapResponse { content, .. }) => {
                        lemma_pair_wf(request.content, content);
                        if pair_inputs(request.content, content) is Ok {
                            let more = pair_inputs(request.content, content)->Ok_0;
                            let all = progress.inputs + more;
                            assert forall|i: int| 0 <= i < all.len() implies (#[trigger] all[i]).wf(
                            ) by {
                                if i < progress.inputs.len() {
                                    assert(all[i] == progress.inputs[i]);
                                } else {
                                    assert(all[i] == more[i - progress.inputs.len()]);
                                }
                            }
                        }
                    },
                    _ => {},
                },
                _ => {},
            },
            Err(_) => {},
        }
    }
}

/// Lowers a packet dissection of CMSIS-DAP traffic to the stream of ADI
/// commands and landmarks. An error tells the packet at which it arose.
pub fn generate_vm_input(pdml: &Pdml) -> (result: Result<Vec<Input>, PdmlFailure>)
    ensures
        vm_input_view(result) == vm_input_of(*pdml),
        result is Ok ==> all_wf(inputs_view(result->Ok_0@)),
{
    proof {
        lemma_progress_wf(pdml.packet@, pdml.packet@.len());
    }
    let mut adi_commands: Vec<Input> = Vec::new();
    let mut request_waiting: Option<AwaitingRequest> = None;
    let mut i: usize = 0;
    assert(inputs_view(adi_commands@) =~= Seq::<InputView>::empty());
    while i < pdml.packet.len()
        invariant
            i <= pdml.packet.len(),
            progress_after(pdml.packet@, i as nat) == Ok::<Progress, PdmlFailure>(
                Progress {
                    pending: awaiting_view(request_waiting),
                    inputs: inputs_view(adi_commands@),
                },
            ),
        decreases pdml.packet.len() - i,
    {
        proof {
            if progress_after(pdml.packet@, i as nat + 1) is Err {
                lemma_progress_error(pdml.packet@, i as nat + 1, pdml.packet.len() as nat);
            }
        }
        let frame = match Frame::from_pdml_packet(&pdml.packet[i]) {
            Ok(frame) => frame,
            Err(error) => {
                return Err(PdmlFailure { packet: i, error });
            },
        };
        match frame {
            Some(frame) => {
                proof {
                    lemma_frame_wf(pdml.packet[i as int]);
                }
                request_waiting = match pair_frame(request_waiting, frame, &mut adi_commands) {
                    Ok(waiting) => waiting,
                    Err(error) => {
                        return Err(PdmlFailure { packet: i, error });
                    },
                };
            },
            None => {},
        }
        i += 1;
    }
    Ok(adi_commands)
}

} // verus!
