//! CMSIS-DAP requests and responses, as a packet dissection shows them.

pub mod from_pdml;
pub mod request;
pub mod response;

use vstd::prelude::*;

verus! {

/// Why a packet dissection could not be read as CMSIS-DAP traffic.
#[derive(Copy, Clone, Debug, PartialEq, Eq, Structural)]
pub enum PdmlError {
    /// A layer or field that is needed is not there.
    MissingField,
    /// A layer or field stands more than once where once is meant.
    RepeatedField,
    /// A field shows a value that is not the number it should be.
    InvalidValue,
    /// A field stands where it has no meaning.
    UnexpectedField,
    /// A response without a request before it, or a request while another
    /// waits for its response.
    InvalidState,
    /// A response acknowledges more transfers than the request and the data
    /// account for.
    InvalidTransfer,
}

/// An error in a packet dissection, with the index of the packet at which
/// it arose.
#[derive(Copy, Clone, Debug, PartialEq, Eq, Structural)]
pub struct PdmlFailure {
    pub packet: usize,
    pub error: PdmlError,
}

/// One captured frame that carries CMSIS-DAP traffic.
#[derive(Debug, PartialEq, Eq)]
pub struct Frame {
    pub number: usize,
    pub time_epoch: String,
    pub content: Content,
}

pub struct FrameView {
    pub number: usize,
    pub time_epoch: Seq<char>,
    pub content: ContentView,
}

impl View for Frame {
    type V = FrameView;

    open spec fn view(&self) -> FrameView {
        FrameView { number: self.number, time_epoch: self.time_epoch@, content: self.content@ }
    }
}

/// What a frame carries: a request with the number of the frame that
/// answers it, or a response with the number of the frame that asked.
#[allow(inconsistent_fields)]
#[derive(Debug, PartialEq, Eq)]
pub enum Content {
    CmsisDapRequest { content: Request, corresponding_response: usize },
    CmsisDapResponse { content: Response, corresponding_request: usize },
}

#[allow(inconsistent_fields)]
pub enum ContentView {
    CmsisDapRequest { content: RequestView, corresponding_response: usize },
    CmsisDapResponse { content: ResponseView, corresponding_request: usize },
}

impl View for Content {
    type V = ContentView;

    open spec fn view(&self) -> ContentView {
        match self {
            Content::CmsisDapRequest {
                content,
                corresponding_response,
            } => ContentView::CmsisDapRequest {
                content: content@,
                corresponding_response: *corresponding_response,
            },
            Content::CmsisDapResponse {
                content,
                corresponding_request,
            } => ContentView::CmsisDapResponse {
                content: content@,
                corresponding_request: *corresponding_request,
            },
        }
    }
}


/// A CMSIS-DAP response, by command.
#[derive(Debug, PartialEq, Eq)]
pub enum Response {
    DapInfo,
    DapHostStatus,
    DapConnect(response::DapConnect),
    DapDisconnect(response::DapDisconnect),
    DapTransferConfigure(response::DapTransferConfigure),
    DapTransfer(response::DapTransfer),
    DapTransferBlock(response::DapTransferBlock),
    DapTransferAbort,
    DapWriteAbort(response::DapWriteAbort),
    DapDelay,
    DapResetTarget,
    DapSwjPins,
    DapSwjClock(response::DapSwjClock),
    DapSwjSequence(response::DapSwjSequence),
    DapSwdConfigure(response::DapSwdConfigure),
    DapJtagSequence,
    DapJtagConfigure,
    DapJtagIdcode,
    DapSwoTransport,
    DapSwoMode,
    DapSwoBaudrate,
    DapSwoControl,
    DapSwoStatus,
    DapSwoData,
    DapSwdSequence,
    DapSwdExtendedStatus,
    DapUartTransport,
    DapUartConfigure,
    DapUartTransfer,
    DapUartControl,
    DapUartStatus,
    DapQueueCommands,
    DapExecuteCommands,
    /// A command outside the set above, with its bytes as captured.
    Unknown { header_byte: u8, raw_data: Vec<u8> },
}

pub enum ResponseView {
    DapInfo,
    DapHostStatus,
    DapConnect(response::DapConnect),
    DapDisconnect(response::DapDisconnect),
    DapTransferConfigure(response::DapTransferConfigure),
    DapTransfer(response::DapTransferView),
    DapTransferBlock(response::DapTransferBlockView),
    DapTransferAbort,
    DapWriteAbort(response::DapWriteAbort),
    DapDelay,
    DapResetTarget,
    DapSwjPins,
    DapSwjClock(response::DapSwjClock),
    DapSwjSequence(response::DapSwjSequence),
    DapSwdConfigure(response::DapSwdConfigure),
    DapJtagSequence,
    DapJtagConfigure,
    DapJtagIdcode,
    DapSwoTransport,
    DapSwoMode,
    DapSwoBaudrate,
    DapSwoControl,
    DapSwoStatus,
    DapSwoData,
    DapSwdSequence,
    DapSwdExtendedStatus,
    DapUartTransport,
    DapUartConfigure,
    DapUartTransfer,
    DapUartControl,
    DapUartStatus,
    DapQueueCommands,
    DapExecuteCommands,
    Unknown { header_byte: u8, raw_data: Seq<u8> },
}

impl View for Response {
    type V = ResponseView;

    open spec fn view(&self) -> ResponseView {
        match self {
            Response::DapInfo => ResponseView::DapInfo,
            Response::DapHostStatus => ResponseView::DapHostStatus,
            Response::DapConnect(payload) => ResponseView::DapConnect(*payload),
            Response::DapDisconnect(payload) => ResponseView::DapDisconnect(*payload),
            Response::DapTransferConfigure(payload) => ResponseView::DapTransferConfigure(*payload),
            Response::DapTransfer(payload) => ResponseView::DapTransfer(payload@),
            Response::DapTransferBlock(payload) => ResponseView::DapTransferBlock(payload@),
            Response::DapTransferAbort => ResponseView::DapTransferAbort,
            Response::DapWriteAbort(payload) => ResponseView::DapWriteAbort(*payload),
            Response::DapDelay => ResponseView::DapDelay,
            Response::DapResetTarget => ResponseView::DapResetTarget,
            Response::DapSwjPins => ResponseView::DapSwjPins,
            Response::DapSwjClock(payload) => ResponseView::DapSwjClock(*payload),
            Response::DapSwjSequence(payload) => ResponseView::DapSwjSequence(*payload),
            Response::DapSwdConfigure(payload) => ResponseView::DapSwdConfigure(*payload),
            Response::DapJtagSequence => ResponseView::DapJtagSequence,
            Response::DapJtagConfigure => ResponseView::DapJtagConfigure,
            Response::DapJtagIdcode => ResponseView::DapJtagIdcode,
            Response::DapSwoTransport => ResponseView::DapSwoTransport,
            Response::DapSwoMode => ResponseView::DapSwoMode,
            Response::DapSwoBaudrate => ResponseView::DapSwoBaudrate,
            Response::DapSwoControl => ResponseView::DapSwoControl,
            Response::DapSwoStatus => ResponseView::DapSwoStatus,
            Response::DapSwoData => ResponseView::DapSwoData,
            Response::DapSwdSequence => ResponseView::DapSwdSequence,
            Response::DapSwdExtendedStatus => ResponseView::DapSwdExtendedStatus,
            Response::DapUartTransport => ResponseView::DapUartTransport,
            Response::DapUartConfigure => ResponseView::DapUartConfigure,
            Response::DapUartTransfer => ResponseView::DapUartTransfer,
            Response::DapUartControl => ResponseView::DapUartControl,
            Response::DapUartStatus => ResponseView::DapUartStatus,
            Response::DapQueueCommands => ResponseView::DapQueueCommands,
            Response::DapExecuteCommands => ResponseView::DapExecuteCommands,
            Response::Unknown { header_byte, raw_data } => ResponseView::Unknown {
                header_byte: *header_byte,
                raw_data: raw_data@,
            },
        }
    }
}

/// A CMSIS-DAP request, by command.
#[derive(Debug, PartialEq, Eq)]
pub enum Request {
    DapInfo,
    DapHostStatus,
    DapConnect(request::DapConnect),
    DapDisconnect(request::DapDisconnect),
    DapTransferConfigure(request::DapTransferConfigure),
    DapTransfer(request::DapTransfer),
    DapTransferBlock(request::DapTransferBlock),
    DapTransferAbort,
    DapWriteAbort(request::DapWriteAbort),
    DapDelay,
    DapResetTarget,
    DapSwjPins,
    DapSwjClock(request::DapSwjClock),
    DapSwjSequence(request::DapSwjSequence),
    DapSwdConfigure(request::DapSwdConfigure),
    DapJtagSequence,
    DapJtagConfigure,
    DapJtagIdcode,
    DapSwoTransport,
    DapSwoMode,
    DapSwoBaudrate,
    DapSwoControl,
    DapSwoStatus,
    DapSwoData,
    DapSwdSequence,
    DapSwdExtendedStatus,
    DapUartTransport,
    DapUartConfigure,
    DapUartTransfer,
    DapUartControl,
    DapUartStatus,
    DapQueueCommands,
    DapExecuteCommands,
    /// A command outside the set above, with its bytes as captured.
    Unknown { header_byte: u8, raw_data: Vec<u8> },
}

pub enum RequestView {
    DapInfo,
    DapHostStatus,
    DapConnect(request::DapConnect),
    DapDisconnect(request::DapDisconnect),
    DapTransferConfigure(request::DapTransferConfigure),
    DapTransfer(request::DapTransferView),
    DapTransferBlock(request::DapTransferBlockView),
    DapTransferAbort,
    DapWriteAbort(request::DapWriteAbort),
    DapDelay,
    DapResetTarget,
    DapSwjPins,
    DapSwjClock(request::DapSwjClock),
    DapSwjSequence(request::DapSwjSequenceView),
    DapSwdConfigure(request::DapSwdConfigure),
    DapJtagSequence,
    DapJtagConfigure,
    DapJtagIdcode,
    DapSwoTransport,
    DapSwoMode,
    DapSwoBaudrate,
    DapSwoControl,
    DapSwoStatus,
    DapSwoData,
    DapSwdSequence,
    DapSwdExtendedStatus,
    DapUartTransport,
    DapUartConfigure,
    DapUartTransfer,
    DapUartControl,
    DapUartStatus,
    DapQueueCommands,
    DapExecuteCommands,
    Unknown { header_byte: u8, raw_data: Seq<u8> },
}

impl View for Request {
    type V = RequestView;

    open spec fn view(&self) -> RequestView {
        match self {
            Request::DapInfo => RequestView::DapInfo,
            Request::DapHostStatus => RequestView::DapHostStatus,
            Request::DapConnect(payload) => RequestView::DapConnect(*payload),
            Request::DapDisconnect(payload) => RequestView::DapDisconnect(*payload),
            Request::DapTransferConfigure(payload) => RequestView::DapTransferConfigure(*payload),
            Request::DapTransfer(payload) => RequestView::DapTransfer(payload@),
            Request::DapTransferBlock(payload) => RequestView::DapTransferBlock(payload@),
            Request::DapTransferAbort => RequestView::DapTransferAbort,
            Request::DapWriteAbort(payload) => RequestView::DapWriteAbort(*payload),
            Request::DapDelay => RequestView::DapDelay,
            Request::DapResetTarget => RequestView::DapResetTarget,
            Request::DapSwjPins => RequestView::DapSwjPins,
            Request::DapSwjClock(payload) => RequestView::DapSwjClock(*payload),
            Request::DapSwjSequence(payload) => RequestView::DapSwjSequence(payload@),
            Request::DapSwdConfigure(payload) => RequestView::DapSwdConfigure(*payload),
            Request::DapJtagSequence => RequestView::DapJtagSequence,
            Request::DapJtagConfigure => RequestView::DapJtagConfigure,
            Request::DapJtagIdcode => RequestView::DapJtagIdcode,
            Request::DapSwoTransport => RequestView::DapSwoTransport,
            Request::DapSwoMode => RequestView::DapSwoMode,
            Request::DapSwoBaudrate => RequestView::DapSwoBaudrate,
            Request::DapSwoControl => RequestView::DapSwoControl,
            Request::DapSwoStatus => RequestView::DapSwoStatus,
            Request::DapSwoData => RequestView::DapSwoData,
            Request::DapSwdSequence => RequestView::DapSwdSequence,
            Request::DapSwdExtendedStatus => RequestView::DapSwdExtendedStatus,
            Request::DapUartTransport => RequestView::DapUartTransport,
            Request::DapUartConfigure => RequestView::DapUartConfigure,
            Request::DapUartTransfer => RequestView::DapUartTransfer,
            Request::DapUartControl => RequestView::DapUartControl,
            Request::DapUartStatus => RequestView::DapUartStatus,
            Request::DapQueueCommands => RequestView::DapQueueCommands,
            Request::DapExecuteCommands => RequestView::DapExecuteCommands,
            Request::Unknown { header_byte, raw_data } => RequestView::Unknown {
                header_byte: *header_byte,
                raw_data: raw_data@,
            },
        }
    }
}

} // verus!
