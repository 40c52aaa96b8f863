//! Values shared by the capture adapters and the virtual machine: the
//! canonical ADI command and the stream element that carries it.

use vstd::prelude::*;
use vstd::string::StringExecFns;

verus! {

/// A pair of monotonic counters that bracket one access. The unit is the
/// adapter's own.
#[derive(Copy, Clone, Debug, PartialEq, Eq, Structural)]
pub struct Timestamp {
    pub start: u64,
    pub end: u64,
}

/// One access to a DP or AP register, as it went over the wire.
#[derive(Copy, Clone, Debug, PartialEq, Eq, Structural)]
pub struct Command {
    pub ts: Option<Timestamp>,
    /// `true` for an AP access, `false` for a DP access.
    pub apndp: bool,
    /// `true` for a read, `false` for a write.
    pub rnw: bool,
    /// Bits 3:2 of the register address; the address itself is `a << 2`.
    pub a: u8,
    /// The word that was read or written.
    pub data: u32,
}

impl Command {
    /// `a` is a 2-bit quantity.
    pub open spec fn wf(&self) -> bool {
        self.a < 4
    }
}

/// Payload of the landmark that records a CMSIS-DAP command this library
/// does not know.
#[derive(Debug, PartialEq, Eq)]
pub struct UnknownCommandLandmark {
    pub header_byte: u8,
    pub request_data: Vec<u8>,
    pub response_data: Vec<u8>,
}

pub struct UnknownCommandLandmarkView {
    pub header_byte: u8,
    pub request_data: Seq<u8>,
    pub response_data: Seq<u8>,
}

impl View for UnknownCommandLandmark {
    type V = UnknownCommandLandmarkView;

    open spec fn view(&self) -> UnknownCommandLandmarkView {
        UnknownCommandLandmarkView {
            header_byte: self.header_byte,
            request_data: self.request_data@,
            response_data: self.response_data@,
        }
    }
}

impl Clone for UnknownCommandLandmark {
    fn clone(&self) -> (res: Self)
        ensures
            res@ == self@,
    {
        UnknownCommandLandmark {
            header_byte: self.header_byte,
            request_data: self.request_data.clone(),
            response_data: self.response_data.clone(),
        }
    }
}

/// What a landmark shows: display-only, never read by the machine.
#[derive(Debug, PartialEq, Eq)]
pub enum Landmark {
    /// A message rendered by the adapter.
    Text(String),
    /// A CMSIS-DAP exchange with an opcode outside the supported set.
    UnknownCommand(UnknownCommandLandmark),
}

pub enum LandmarkView {
    Text(Seq<char>),
    UnknownCommand(UnknownCommandLandmarkView),
}

impl View for Landmark {
    type V = LandmarkView;

    open spec fn view(&self) -> LandmarkView {
        match self {
            Landmark::Text(text) => LandmarkView::Text(text@),
            Landmark::UnknownCommand(unknown) => LandmarkView::UnknownCommand(unknown@),
        }
    }
}

impl Clone for Landmark {
    fn clone(&self) -> (res: Self)
        ensures
            res@ == self@,
    {
        match self {
            Landmark::Text(text) => Landmark::Text(text.clone()),
            Landmark::UnknownCommand(unknown) => Landmark::UnknownCommand(unknown.clone()),
        }
    }
}

/// One element of the stream that the adapters hand to the machine.
#[derive(Debug, PartialEq, Eq)]
pub enum Input {
    /// A marker for an anomaly in the capture; it leaves the machine as it is.
    Landmark { metadata: Landmark },
    /// An access that moves the machine.
    Command(Command),
}

pub enum InputView {
    Landmark { metadata: LandmarkView },
    Command(Command),
}

impl View for Input {
    type V = InputView;

    open spec fn view(&self) -> InputView {
        match self {
            Input::Landmark { metadata } => InputView::Landmark { metadata: metadata@ },
            Input::Command(command) => InputView::Command(*command),
        }
    }
}

impl InputView {
    /// Every command in the stream carries a 2-bit `a`.
    pub open spec fn wf(&self) -> bool {
        match self {
            InputView::Landmark { .. } => true,
            InputView::Command(command) => command.wf(),
        }
    }
}

impl Clone for Input {
    fn clone(&self) -> (res: Self)
        ensures
            res@ == self@,
    {
        match self {
            Input::Landmark { metadata } => Input::Landmark { metadata: metadata.clone() },
            Input::Command(command) => Input::Command(*command),
        }
    }
}

impl Input {
    /// A landmark that shows `data` as it is.
    pub fn simple_landmark(data: &str) -> (input: Input)
        ensures
            input@ == (InputView::Landmark { metadata: LandmarkView::Text(data@) }),
    {
        Input::Landmark { metadata: Landmark::Text(String::from_str(data)) }
    }

}

impl From<Command> for Input {
    /// The stream element that carries `value`.
    fn from(value: Command) -> (input: Input) {
        Input::Command(value)
    }
}

impl vstd::std_specs::convert::FromSpecImpl<Command> for Input {
    open spec fn obeys_from_spec() -> bool {
        true
    }

    open spec fn from_spec(value: Command) -> Input {
        Input::Command(value)
    }
}

/// The views of a stream, element by element.
pub open spec fn inputs_view(inputs: Seq<Input>) -> Seq<InputView> {
    inputs.map_values(|input: Input| input@)
}

/// Whether every command of a stream carries a 2-bit `a`.
pub open spec fn all_wf(inputs: Seq<InputView>) -> bool {
    forall|i: int| 0 <= i < inputs.len() ==> (#[trigger] inputs[i]).wf()
}

} // verus!
