//! From a textual SWD bus decode to the stream of ADI commands.
//!
//! The text is a sequence of lines `<start>-<end> swd-1: <payload>`. An
//! access takes a line that names it, a line with its acknowledgment and,
//! where that is `OK`, a line with the value. Reads of an AP register come
//! in chains that a read of RDBUFF closes: each read returns the value of
//! the one before it.

use vstd::prelude::*;
use vstd::string::StringExecFns;
use crate::common::{all_wf, inputs_view, Command, Input, InputView, Landmark, LandmarkView};
use crate::common::Timestamp;
use crate::text::{digit, digit_of, number_of, parse_number, text_bytes};

verus! {

/// A DP register that is read.
#[derive(Copy, Clone, Debug, PartialEq, Eq, Structural)]
pub enum ReadDp {
    IdCode,
    CtrlStat,
    Resend,
    Rdbuff,
}

/// A DP register that is written.
#[derive(Copy, Clone, Debug, PartialEq, Eq, Structural)]
pub enum WriteDp {
    Abort,
    CtrlStat,
    Select,
}

/// An access to a DP register.
#[derive(Copy, Clone, Debug, PartialEq, Eq, Structural)]
pub enum Dp {
    R(ReadDp),
    W(WriteDp),
}

/// One of the four registers of an AP bank, at `0x0`, `0x4`, `0x8`, `0xc`.
#[derive(Copy, Clone, Debug, PartialEq, Eq, Structural)]
pub enum InnerAp {
    One,
    Two,
    Three,
    Four,
}

/// An access to an AP register.
#[derive(Copy, Clone, Debug, PartialEq, Eq, Structural)]
pub enum Ap {
    R(InnerAp),
    W(InnerAp),
}

/// What an access goes to, and in which direction.
#[derive(Copy, Clone, Debug, PartialEq, Eq, Structural)]
pub enum AccessId {
    Dp(Dp),
    Ap(Ap),
}

impl InnerAp {
    /// Bits 3:2 of the register address.
    pub open spec fn spec_a(&self) -> u8 {
        match self {
            InnerAp::One => 0,
            InnerAp::Two => 1,
            InnerAp::Three => 2,
            InnerAp::Four => 3,
        }
    }
}

impl AccessId {
    /// Whether the access goes to an AP.
    pub open spec fn spec_apndp(&self) -> bool {
        self is Ap
    }

    /// Whether the access is a read.
    pub open spec fn spec_rnw(&self) -> bool {
        match self {
            AccessId::Dp(Dp::R(_)) => true,
            AccessId::Dp(Dp::W(_)) => false,
            AccessId::Ap(Ap::R(_)) => true,
            AccessId::Ap(Ap::W(_)) => false,
        }
    }

    /// Bits 3:2 of the register address.
    pub open spec fn spec_a(&self) -> u8 {
        match self {
            AccessId::Dp(Dp::R(ReadDp::IdCode)) => 0,
            AccessId::Dp(Dp::R(ReadDp::CtrlStat)) => 1,
            AccessId::Dp(Dp::R(ReadDp::Resend)) => 2,
            AccessId::Dp(Dp::R(ReadDp::Rdbuff)) => 3,
            AccessId::Dp(Dp::W(WriteDp::Abort)) => 0,
            AccessId::Dp(Dp::W(WriteDp::CtrlStat)) => 1,
            AccessId::Dp(Dp::W(WriteDp::Select)) => 2,
            AccessId::Ap(Ap::R(register)) => register.spec_a(),
            AccessId::Ap(Ap::W(register)) => register.spec_a(),
        }
    }

    /// The command that this access made with `data` over `ts`.
    pub open spec fn spec_command(&self, data: u32, ts: Timestamp) -> Command {
        Command {
            ts: Some(ts),
            apndp: self.spec_apndp(),
            rnw: self.spec_rnw(),
            a: self.spec_a(),
            data,
        }
    }

    /// The command that this access made with `data` over `ts`.
    #[verifier::when_used_as_spec(spec_command)]
    pub fn command(&self, data: u32, ts: Timestamp) -> (command: Command)
        ensures
            command == self.spec_command(data, ts),
            command.wf(),
    {
        let (apndp, rnw, a): (bool, bool, u8) = match self {
            AccessId::Dp(Dp::R(ReadDp::IdCode)) => (false, true, 0),
            AccessId::Dp(Dp::R(ReadDp::CtrlStat)) => (false, true, 1),
            AccessId::Dp(Dp::R(ReadDp::Resend)) => (false, true, 2),
            AccessId::Dp(Dp::R(ReadDp::Rdbuff)) => (false, true, 3),
            AccessId::Dp(Dp::W(WriteDp::Abort)) => (false, false, 0),
            AccessId::Dp(Dp::W(WriteDp::CtrlStat)) => (false, false, 1),
            AccessId::Dp(Dp::W(WriteDp::Select)) => (false, false, 2),
            AccessId::Ap(Ap::R(InnerAp::One)) => (true, true, 0),
            AccessId::Ap(Ap::R(InnerAp::Two)) => (true, true, 1),
            AccessId::Ap(Ap::R(InnerAp::Three)) => (true, true, 2),
            AccessId::Ap(Ap::R(InnerAp::Four)) => (true, true, 3),
            AccessId::Ap(Ap::W(InnerAp::One)) => (true, false, 0),
            AccessId::Ap(Ap::W(InnerAp::Two)) => (true, false, 1),
            AccessId::Ap(Ap::W(InnerAp::Three)) => (true, false, 2),
            AccessId::Ap(Ap::W(InnerAp::Four)) => (true, false, 3),
        };
        Command { ts: Some(ts), apndp, rnw, a, data }
    }

    /// The payload of the line that names this access.
    pub open spec fn spec_tag(&self) -> Seq<char> {
        match self {
            AccessId::Dp(Dp::R(ReadDp::IdCode)) => "IDCODE"@,
            AccessId::Dp(Dp::R(ReadDp::CtrlStat)) => "R CTRL/STAT"@,
            AccessId::Dp(Dp::R(ReadDp::Resend)) => "RESEND"@,
            AccessId::Dp(Dp::R(ReadDp::Rdbuff)) => "RDBUFF"@,
            AccessId::Dp(Dp::W(WriteDp::Abort)) => "W ABORT"@,
            AccessId::Dp(Dp::W(WriteDp::CtrlStat)) => "W CTRL/STAT"@,
            AccessId::Dp(Dp::W(WriteDp::Select)) => "W SELECT"@,
            AccessId::Ap(Ap::R(InnerAp::One)) => "R AP0"@,
            AccessId::Ap(Ap::R(InnerAp::Two)) => "R AP4"@,
            AccessId::Ap(Ap::R(InnerAp::Three)) => "R AP8"@,
            AccessId::Ap(Ap::R(InnerAp::Four)) => "R APc"@,
            AccessId::Ap(Ap::W(InnerAp::One)) => "W AP0"@,
            AccessId::Ap(Ap::W(InnerAp::Two)) => "W AP4"@,
            AccessId::Ap(Ap::W(InnerAp::Three)) => "W AP8"@,
            AccessId::Ap(Ap::W(InnerAp::Four)) => "W APc"@,
        }
    }

    /// The payload of the line that names this access.
    pub fn tag(&self) -> (tag: &'static str)
        ensures
            tag@ == self.spec_tag(),
    {
        match self {
            AccessId::Dp(Dp::R(ReadDp::IdCode)) => "IDCODE",
            AccessId::Dp(Dp::R(ReadDp::CtrlStat)) => "R CTRL/STAT",
            AccessId::Dp(Dp::R(ReadDp::Resend)) => "RESEND",
            AccessId::Dp(Dp::R(ReadDp::Rdbuff)) => "RDBUFF",
            AccessId::Dp(Dp::W(WriteDp::Abort)) => "W ABORT",
            AccessId::Dp(Dp::W(WriteDp::CtrlStat)) => "W CTRL/STAT",
            AccessId::Dp(Dp::W(WriteDp::Select)) => "W SELECT",
            AccessId::Ap(Ap::R(InnerAp::One)) => "R AP0",
            AccessId::Ap(Ap::R(InnerAp::Two)) => "R AP4",
            AccessId::Ap(Ap::R(InnerAp::Three)) => "R AP8",
            AccessId::Ap(Ap::R(InnerAp::Four)) => "R APc",
            AccessId::Ap(Ap::W(InnerAp::One)) => "W AP0",
            AccessId::Ap(Ap::W(InnerAp::Two)) => "W AP4",
            AccessId::Ap(Ap::W(InnerAp::Three)) => "W AP8",
            AccessId::Ap(Ap::W(InnerAp::Four)) => "W APc",
        }
    }

    /// The name under which a landmark shows this access.
    pub open spec fn spec_name(&self) -> Seq<char> {
        match self {
            AccessId::Dp(Dp::R(ReadDp::IdCode)) => "Dp(R(IdCode))"@,
            AccessId::Dp(Dp::R(ReadDp::CtrlStat)) => "Dp(R(CtrlStat))"@,
            AccessId::Dp(Dp::R(ReadDp::Resend)) => "Dp(R(Resend))"@,
            AccessId::Dp(Dp::R(ReadDp::Rdbuff)) => "Dp(R(Rdbuff))"@,
            AccessId::Dp(Dp::W(WriteDp::Abort)) => "Dp(W(Abort))"@,
            AccessId::Dp(Dp::W(WriteDp::CtrlStat)) => "Dp(W(CtrlStat))"@,
            AccessId::Dp(Dp::W(WriteDp::Select)) => "Dp(W(Select))"@,
            AccessId::Ap(Ap::R(InnerAp::One)) => "Ap(R(One))"@,
            AccessId::Ap(Ap::R(InnerAp::Two)) => "Ap(R(Two))"@,
            AccessId::Ap(Ap::R(InnerAp::Three)) => "Ap(R(Three))"@,
            AccessId::Ap(Ap::R(InnerAp::Four)) => "Ap(R(Four))"@,
            AccessId::Ap(Ap::W(InnerAp::One)) => "Ap(W(One))"@,
            AccessId::Ap(Ap::W(InnerAp::Two)) => "Ap(W(Two))"@,
            AccessId::Ap(Ap::W(InnerAp::Three)) => "Ap(W(Three))"@,
            AccessId::Ap(Ap::W(InnerAp::Four)) => "Ap(W(Four))"@,
        }
    }

    /// The name under which a landmark shows this access.
    pub fn name(&self) -> (name: &'static str)
        ensures
            name@ == self.spec_name(),
    {
        match self {
            AccessId::Dp(Dp::R(ReadDp::IdCode)) => "Dp(R(IdCode))",
            AccessId::Dp(Dp::R(ReadDp::CtrlStat)) => "Dp(R(CtrlStat))",
            AccessId::Dp(Dp::R(ReadDp::Resend)) => "Dp(R(Resend))",
            AccessId::Dp(Dp::R(ReadDp::Rdbuff)) => "Dp(R(Rdbuff))",
            AccessId::Dp(Dp::W(WriteDp::Abort)) => "Dp(W(Abort))",
            AccessId::Dp(Dp::W(WriteDp::CtrlStat)) => "Dp(W(CtrlStat))",
            AccessId::Dp(Dp::W(WriteDp::Select)) => "Dp(W(Select))",
            AccessId::Ap(Ap::R(InnerAp::One)) => "Ap(R(One))",
            AccessId::Ap(Ap::R(InnerAp::Two)) => "Ap(R(Two))",
            AccessId::Ap(Ap::R(InnerAp::Three)) => "Ap(R(Three))",
            AccessId::Ap(Ap::R(InnerAp::Four)) => "Ap(R(Four))",
            AccessId::Ap(Ap::W(InnerAp::One)) => "Ap(W(One))",
            AccessId::Ap(Ap::W(InnerAp::Two)) => "Ap(W(Two))",
            AccessId::Ap(Ap::W(InnerAp::Three)) => "Ap(W(Three))",
            AccessId::Ap(Ap::W(InnerAp::Four)) => "Ap(W(Four))",
        }
    }
}

/// An access that ran to its value.
#[derive(Copy, Clone, Debug, PartialEq, Eq, Structural)]
pub struct LlCommand {
    /// From the start of the line that names the access to the end of the
    /// line with the value.
    pub ts: Timestamp,
    pub access_id: AccessId,
    pub value: u32,
}

impl LlCommand {
    /// The command that the access made.
    pub open spec fn spec_command(&self) -> Command {
        self.access_id.spec_command(self.value, self.ts)
    }
}

impl From<LlCommand> for Command {
    /// The command that the access made.
    fn from(cmd: LlCommand) -> (command: Command) {
        cmd.access_id.command(cmd.value, cmd.ts)
    }
}

impl vstd::std_specs::convert::FromSpecImpl<LlCommand> for Command {
    open spec fn obeys_from_spec() -> bool {
        true
    }

    open spec fn from_spec(cmd: LlCommand) -> Command {
        cmd.spec_command()
    }
}

/// How an access ended.
#[derive(Copy, Clone, Debug, PartialEq, Eq, Structural)]
pub enum MaybeCommand {
    /// Acknowledged with WAIT, and after the retries nothing that resolves
    /// it.
    GotBoredOfWaits(AccessId),
    /// Acknowledged with FAULT.
    Fault(AccessId),
    /// Acknowledged with OK, with its value.
    Done(LlCommand),
}

impl MaybeCommand {
    pub open spec fn spec_is_not_ok(&self) -> bool {
        !(self is Done)
    }

    /// Whether the access ended without a value.
    #[verifier::when_used_as_spec(spec_is_not_ok)]
    pub fn is_not_ok(&self) -> (failed: bool)
        ensures
            failed == self.spec_is_not_ok(),
    {
        match self {
            MaybeCommand::Done(_) => false,
            _ => true,
        }
    }

    /// The access with its value, of an access that ran to it.
    pub fn unwrap(self) -> (command: LlCommand)
        requires
            self is Done,
        ensures
            self == MaybeCommand::Done(command),
    {
        match self {
            MaybeCommand::Done(command) => command,
            _ => vstd::pervasive::unreached(),
        }
    }

    /// The stream element that shows how the access ended.
    pub open spec fn spec_input(&self) -> InputView {
        match self {
            MaybeCommand::GotBoredOfWaits(access_id) => InputView::Landmark {
                metadata: LandmarkView::Text(
                    "WAIT spam with no resolution occurred when trying to "@ + access_id.spec_name(),
                ),
            },
            MaybeCommand::Fault(access_id) => InputView::Landmark {
                metadata: LandmarkView::Text(
                    "FAULT occurred when trying to "@ + access_id.spec_name(),
                ),
            },
            MaybeCommand::Done(command) => InputView::Command(command.spec_command()),
        }
    }

    /// The stream element that shows how the access ended.
    pub fn input(&self) -> (input: Input)
        ensures
            input@ == self.spec_input(),
            input@.wf(),
    {
        match self {
            MaybeCommand::GotBoredOfWaits(access_id) => {
                let mut text = String::from_str(
                    "WAIT spam with no resolution occurred when trying to ",
                );
                text.append(access_id.name());
                Input::Landmark { metadata: Landmark::Text(text) }
            },
            MaybeCommand::Fault(access_id) => {
                let mut text = String::from_str("FAULT occurred when trying to ");
                text.append(access_id.name());
                Input::Landmark { metadata: Landmark::Text(text) }
            },
            MaybeCommand::Done(command) => Input::Command(
                command.access_id.command(command.value, command.ts),
            ),
        }
    }
}

/// The end of `tag` where it stands at `pos`.
pub open spec fn tag_end(s: Seq<u8>, pos: int, tag: Seq<u8>) -> Option<int> {
    if 0 <= pos && pos + tag.len() <= s.len() && s.subrange(pos, pos + tag.len()) == tag {
        Some(pos + tag.len())
    } else {
        None
    }
}

/// The end of the line ending at `pos`: a line feed, or a carriage return
/// and a line feed.
pub open spec fn line_ending_end(s: Seq<u8>, pos: int) -> Option<int> {
    if 0 <= pos < s.len() && s[pos] == 0x0A {
        Some(pos + 1)
    } else if 0 <= pos && pos + 1 < s.len() && s[pos] == 0x0D && s[pos + 1] == 0x0A {
        Some(pos + 2)
    } else {
        None
    }
}

/// The end of a line whose payload ends at `pos`: behind the line ending,
/// or, where `eof_ok`, at the end of the text.
pub open spec fn line_end(s: Seq<u8>, pos: int, eof_ok: bool) -> Option<int> {
    match line_ending_end(s, pos) {
        Some(end) => Some(end),
        None => if eof_ok && pos == s.len() {
            Some(pos)
        } else {
            None
        },
    }
}

/// The end of the longest run of digits from `pos`.
pub open spec fn digits_end(s: Seq<u8>, pos: int, hex: bool) -> int
    decreases s.len() - pos,
{
    if 0 <= pos < s.len() && digit_of(s[pos], hex) is Some {
        digits_end(s, pos + 1, hex)
    } else {
        pos
    }
}

/// The number at `pos`: the longest run of digits there, which must be one
/// digit or more and write a number of at most `max`.
pub open spec fn number_at(s: Seq<u8>, pos: int, hex: bool, max: u64) -> Option<(u64, int)> {
    let end = digits_end(s, pos, hex);
    if 0 <= pos <= end <= s.len() {
        match number_of(s.subrange(pos, end), hex, max) {
            Some(number) => Some((number, end)),
            None => None,
        }
    } else {
        None
    }
}

/// The head of a line at `pos`: `<start>-<end> swd-1: `, both numbers in
/// base 10 and of 64 bits.
pub open spec fn timestamps_at(s: Seq<u8>, pos: int) -> Option<(Timestamp, int)> {
    match number_at(s, pos, false, u64::MAX) {
        None => None,
        Some((start, dash)) => match tag_end(s, dash, text_bytes("-"@)) {
            None => None,
            Some(second) => match number_at(s, second, false, u64::MAX) {
                None => None,
                Some((end, label)) => match tag_end(s, label, text_bytes(" swd-1: "@)) {
                    None => None,
                    Some(payload) => Some((Timestamp { start, end }, payload)),
                },
            },
        },
    }
}

/// A line at `pos` whose payload is `tag`.
pub open spec fn tag_line_at(s: Seq<u8>, pos: int, tag: Seq<char>, eof_ok: bool) -> Option<
    (Timestamp, int),
> {
    match timestamps_at(s, pos) {
        None => None,
        Some((ts, payload)) => match tag_end(s, payload, text_bytes(tag)) {
            None => None,
            Some(end) => match line_end(s, end, eof_ok) {
                None => None,
                Some(next) => Some((ts, next)),
            },
        },
    }
}

/// The AP register that the character at `pos` names.
pub open spec fn inner_ap_at(s: Seq<u8>, pos: int) -> Option<(InnerAp, int)> {
    if tag_end(s, pos, text_bytes("0"@)) is Some {
        Some((InnerAp::One, tag_end(s, pos, text_bytes("0"@))->0))
    } else if tag_end(s, pos, text_bytes("4"@)) is Some {
        Some((InnerAp::Two, tag_end(s, pos, text_bytes("4"@))->0))
    } else if tag_end(s, pos, text_bytes("8"@)) is Some {
        Some((InnerAp::Three, tag_end(s, pos, text_bytes("8"@))->0))
    } else if tag_end(s, pos, text_bytes("c"@)) is Some {
        Some((InnerAp::Four, tag_end(s, pos, text_bytes("c"@))->0))
    } else {
        None
    }
}

/// The read of an AP register that the payload at `pos` names.
pub open spec fn ap_read_at(s: Seq<u8>, pos: int) -> Option<(AccessId, int)> {
    match tag_end(s, pos, text_bytes("R AP"@)) {
        None => None,
        Some(register) => match inner_ap_at(s, register) {
            Some((inner, end)) => Some((AccessId::Ap(Ap::R(inner)), end)),
            None => None,
        },
    }
}

/// The write of an AP register that the payload at `pos` names.
pub open spec fn ap_write_at(s: Seq<u8>, pos: int) -> Option<(AccessId, int)> {
    match tag_end(s, pos, text_bytes("W AP"@)) {
        None => None,
        Some(register) => match inner_ap_at(s, register) {
            Some((inner, end)) => Some((AccessId::Ap(Ap::W(inner)), end)),
            None => None,
        },
    }
}

/// The read of RDBUFF that the payload at `pos` names.
pub open spec fn rdbuff_at(s: Seq<u8>, pos: int) -> Option<(AccessId, int)> {
    match tag_end(s, pos, text_bytes("RDBUFF"@)) {
        Some(end) => Some((AccessId::Dp(Dp::R(ReadDp::Rdbuff)), end)),
        None => None,
    }
}

/// The DP access that the payload at `pos` names.
pub open spec fn dp_access_at(s: Seq<u8>, pos: int) -> Option<(AccessId, int)> {
    if tag_end(s, pos, text_bytes("IDCODE"@)) is Some {
        Some((AccessId::Dp(Dp::R(ReadDp::IdCode)), tag_end(s, pos, text_bytes("IDCODE"@))->0))
    } else if tag_end(s, pos, text_bytes("R CTRL/STAT"@)) is Some {
        Some(
            (
                AccessId::Dp(Dp::R(ReadDp::CtrlStat)),
                tag_end(s, pos, text_bytes("R CTRL/STAT"@))->0,
            ),
        )
    } else if tag_end(s, pos, text_bytes("RESEND"@)) is Some {
        Some((AccessId::Dp(Dp::R(ReadDp::Resend)), tag_end(s, pos, text_bytes("RESEND"@))->0))
    } else if rdbuff_at(s, pos) is Some {
        rdbuff_at(s, pos)
    } else if tag_end(s, pos, text_bytes("W ABORT"@)) is Some {
        Some((AccessId::Dp(Dp::W(WriteDp::Abort)), tag_end(s, pos, text_bytes("W ABORT"@))->0))
    } else if tag_end(s, pos, text_bytes("W CTRL/STAT"@)) is Some {
        Some(
            (
                AccessId::Dp(Dp::W(WriteDp::CtrlStat)),
                tag_end(s, pos, text_bytes("W CTRL/STAT"@))->0,
            ),
        )
    } else if tag_end(s, pos, text_bytes("W SELECT"@)) is Some {
        Some((AccessId::Dp(Dp::W(WriteDp::Select)), tag_end(s, pos, text_bytes("W SELECT"@))->0))
    } else {
        None
    }
}

/// Which accesses a low-level command may start with.
#[derive(Copy, Clone, Debug, PartialEq, Eq, Structural)]
pub enum AccessKind {
    /// Any DP access, or the write of an AP register.
    Simple,
    /// The read of an AP register.
    Complex,
    /// The read of RDBUFF.
    Rdbuff,
}

/// The access of `kind` that the payload at `pos` names.
pub open spec fn access_at(s: Seq<u8>, pos: int, kind: AccessKind) -> Option<(AccessId, int)> {
    match kind {
        AccessKind::Simple => if ap_read_at(s, pos) is Some {
            None
        } else if dp_access_at(s, pos) is Some {
            dp_access_at(s, pos)
        } else {
            ap_write_at(s, pos)
        },
        AccessKind::Complex => ap_read_at(s, pos),
        AccessKind::Rdbuff => rdbuff_at(s, pos),
    }
}

/// The line at `pos` that names an access of `kind`; it ends with a line
/// ending.
pub open spec fn access_line_at(s: Seq<u8>, pos: int, kind: AccessKind) -> Option<
    (Timestamp, AccessId, int),
> {
    match timestamps_at(s, pos) {
        None => None,
        Some((ts, payload)) => match access_at(s, payload, kind) {
            None => None,
            Some((access_id, end)) => match line_ending_end(s, end) {
                None => None,
                Some(next) => Some((ts, access_id, next)),
            },
        },
    }
}

/// An acknowledgment.
#[derive(Copy, Clone, Debug, PartialEq, Eq, Structural)]
pub enum Ack {
    Okay,
    Wait,
    Fault,
}

/// The line at `pos` that acknowledges an access: `OK` or `WAIT` with a
/// line ending, or `FAULT`, which may end the text.
pub open spec fn ack_line_at(s: Seq<u8>, pos: int) -> Option<(Ack, int)> {
    if tag_line_at(s, pos, "OK"@, false) is Some {
        Some((Ack::Okay, (tag_line_at(s, pos, "OK"@, false)->0).1))
    } else if tag_line_at(s, pos, "WAIT"@, false) is Some {
        Some((Ack::Wait, (tag_line_at(s, pos, "WAIT"@, false)->0).1))
    } else if tag_line_at(s, pos, "FAULT"@, true) is Some {
        Some((Ack::Fault, (tag_line_at(s, pos, "FAULT"@, true)->0).1))
    } else {
        None
    }
}

/// The line at `pos` that resolves an access after its retries: `OK` or
/// `FAULT`, with a line ending.
pub open spec fn resolution_line_at(s: Seq<u8>, pos: int) -> Option<(Ack, int)> {
    if tag_line_at(s, pos, "OK"@, false) is Some {
        Some((Ack::Okay, (tag_line_at(s, pos, "OK"@, false)->0).1))
    } else if tag_line_at(s, pos, "FAULT"@, false) is Some {
        Some((Ack::Fault, (tag_line_at(s, pos, "FAULT"@, false)->0).1))
    } else {
        None
    }
}

/// The line at `pos` with the value of an access: `0x` and hexadecimal
/// digits that write a number of 32 bits.
pub open spec fn value_line_at(s: Seq<u8>, pos: int, eof_ok: bool) -> Option<(Timestamp, u32, int)> {
    match timestamps_at(s, pos) {
        None => None,
        Some((ts, payload)) => match tag_end(s, payload, text_bytes("0x"@)) {
            None => None,
            Some(digits) => match number_at(s, digits, true, u32::MAX as u64) {
                None => None,
                Some((value, end)) => match line_end(s, end, eof_ok) {
                    None => None,
                    Some(next) => Some((ts, value as u32, next)),
                },
            },
        },
    }
}

/// The end of the retries from `pos`: pairs of a line with `tag` and a
/// line with `WAIT`, as many as stand there.
pub open spec fn retries_end(s: Seq<u8>, pos: int, tag: Seq<char>) -> int
    decreases s.len() - pos,
{
    match tag_line_at(s, pos, tag, false) {
        None => pos,
        Some((_, wait)) => match tag_line_at(s, wait, "WAIT"@, true) {
            None => pos,
            Some((_, next)) => if pos < next <= s.len() {
                retries_end(s, next, tag)
            } else {
                pos
            },
        },
    }
}

/// How an access that was acknowledged with `ack`, on lines that end at
/// `pos`, ends: with its value on the next line, or in a fault.
pub open spec fn completion_at(
    s: Seq<u8>,
    pos: int,
    start: Timestamp,
    access_id: AccessId,
    ack: Ack,
    eof_ok: bool,
) -> Option<(MaybeCommand, int)> {
    match ack {
        Ack::Okay => match value_line_at(s, pos, eof_ok) {
            None => None,
            Some((end, value, next)) => Some(
                (
                    MaybeCommand::Done(
                        LlCommand {
                            ts: Timestamp { start: start.start, end: end.end },
                            access_id,
                            value,
                        },
                    ),
                    next,
                ),
            ),
        },
        _ => Some((MaybeCommand::Fault(access_id), pos)),
    }
}

/// The low-level command at `pos`: an access of `kind` with its
/// acknowledgment. After `WAIT` come the retries and then the access once
/// more with `OK` or `FAULT`; where the access does not come once more, the
/// command ends behind the retries, unresolved.
pub open spec fn ll_command_at(s: Seq<u8>, pos: int, kind: AccessKind, eof_ok: bool) -> Option<
    (MaybeCommand, int),
> {
    match access_line_at(s, pos, kind) {
        None => None,
        Some((start, access_id, ack_pos)) => match ack_line_at(s, ack_pos) {
            None => None,
            Some((Ack::Wait, retries)) => {
                let again = retries_end(s, retries, access_id.spec_tag());
                match tag_line_at(s, again, access_id.spec_tag(), false) {
                    None => Some((MaybeCommand::GotBoredOfWaits(access_id), again)),
                    Some((_, resolution)) => match resolution_line_at(s, resolution) {
                        None => None,
                        Some((ack, next)) => completion_at(s, next, start, access_id, ack, eof_ok),
                    },
                }
            },
            Some((ack, next)) => completion_at(s, next, start, access_id, ack, eof_ok),
        },
    }
}

/// What a simple command gives to the stream: its command, or the landmark
/// of its failure. A read of RDBUFF that stands alone gives nothing.
pub open spec fn simple_inputs(command: MaybeCommand) -> Seq<InputView> {
    match command {
        MaybeCommand::Done(done) => if done.access_id == AccessId::Dp(Dp::R(ReadDp::Rdbuff)) {
            Seq::empty()
        } else {
            seq![command.spec_input()]
        },
        _ => seq![command.spec_input()],
    }
}

/// The simple command at `pos`.
pub open spec fn simple_command_at(s: Seq<u8>, pos: int) -> Option<(Seq<InputView>, int)> {
    match ll_command_at(s, pos, AccessKind::Simple, true) {
        None => None,
        Some((command, next)) => Some((simple_inputs(command), next)),
    }
}

/// The chain of AP reads from `pos`, as long as it goes.
pub open spec fn reads_at(s: Seq<u8>, pos: int) -> (Seq<MaybeCommand>, int)
    decreases s.len() - pos,
{
    match ll_command_at(s, pos, AccessKind::Complex, false) {
        None => (Seq::empty(), pos),
        Some((command, next)) => if pos < next <= s.len() {
            let (rest, end) = reads_at(s, next);
            (seq![command] + rest, end)
        } else {
            (Seq::empty(), pos)
        },
    }
}

/// The access that follows read `i` of a chain: the next read, or the
/// read of RDBUFF that closes the chain.
pub open spec fn chain_next(reads: Seq<MaybeCommand>, rdbuff: LlCommand, i: int) -> LlCommand {
    if i + 1 < reads.len() {
        reads[i + 1]->Done_0
    } else {
        rdbuff
    }
}

/// Command `i` of a chain: the access of read `i`, from its start to the
/// end of the access that follows, with the value of the access that
/// follows.
pub open spec fn chain_command(reads: Seq<MaybeCommand>, rdbuff: LlCommand, i: int) -> Command {
    let read = reads[i]->Done_0;
    let next = chain_next(reads, rdbuff, i);
    read.access_id.spec_command(next.value, Timestamp { start: read.ts.start, end: next.ts.end })
}

/// The commands of a chain of reads that `rdbuff` closes.
pub open spec fn chain_inputs(reads: Seq<MaybeCommand>, rdbuff: LlCommand) -> Seq<InputView> {
    Seq::new(reads.len(), |i: int| InputView::Command(chain_command(reads, rdbuff, i)))
}

/// The landmark for a chain of reads of which one failed.
pub open spec fn chain_fault() -> InputView {
    InputView::Landmark {
        metadata: LandmarkView::Text(
            "FAULT occurred among R APx, unclear how to generate a command, result is presumably incomplete."@,
        ),
    }
}

/// Whether one of `reads` ended without a value.
pub open spec fn any_not_ok(reads: Seq<MaybeCommand>) -> bool {
    exists|i: int| 0 <= i < reads.len() && (#[trigger] reads[i]).spec_is_not_ok()
}

/// The end of the reads of RDBUFF from `pos`, as many as stand there.
pub open spec fn rdbuffs_end(s: Seq<u8>, pos: int) -> int
    decreases s.len() - pos,
{
    match ll_command_at(s, pos, AccessKind::Rdbuff, true) {
        None => pos,
        Some((_, next)) => if pos < next <= s.len() {
            rdbuffs_end(s, next)
        } else {
            pos
        },
    }
}

/// The complex command at `pos`: a chain of one AP read or more and the
/// read of RDBUFF that closes it. Where a read of the chain failed, the
/// command is the landmark of that and takes the reads of RDBUFF along
/// that follow. Where the read of RDBUFF fails, the command is the landmark
/// of that.
pub open spec fn complex_command_at(s: Seq<u8>, pos: int) -> Option<(Seq<InputView>, int)> {
    let (reads, end) = reads_at(s, pos);
    if reads.len() == 0 {
        None
    } else if any_not_ok(reads) {
        Some((seq![chain_fault()], rdbuffs_end(s, end)))
    } else {
        match ll_command_at(s, end, AccessKind::Rdbuff, true) {
            None => None,
            Some((MaybeCommand::Done(rdbuff), next)) => Some((chain_inputs(reads, rdbuff), next)),
            Some((failed, next)) => Some((seq![failed.spec_input()], next)),
        }
    }
}

/// The line at `pos` that the adapter passes over: `LINERESET` or
/// `JTAG->SWD`.
pub open spec fn ignored_command_at(s: Seq<u8>, pos: int) -> Option<int> {
    match tag_line_at(s, pos, "LINERESET"@, false) {
        Some((_, next)) => Some(next),
        None => match tag_line_at(s, pos, "JTAG->SWD"@, false) {
            Some((_, next)) => Some(next),
            None => None,
        },
    }
}

/// The command at `pos`: a simple command, else a complex one, else a line
/// to pass over.
#[verifier::opaque]
pub open spec fn command_at(s: Seq<u8>, pos: int) -> Option<(Seq<InputView>, int)> {
    match simple_command_at(s, pos) {
        Some(found) => Some(found),
        None => match complex_command_at(s, pos) {
            Some(found) => Some(found),
            None => match ignored_command_at(s, pos) {
                Some(next) => Some((Seq::empty(), next)),
                None => None,
            },
        },
    }
}

/// What the commands from `pos` on give to the stream, as far as command
/// follows command, and where they end.
pub open spec fn commands_from(s: Seq<u8>, pos: int) -> (Seq<InputView>, int)
    decreases s.len() - pos,
{
    match command_at(s, pos) {
        None => (Seq::empty(), pos),
        Some((inputs, next)) => if pos < next <= s.len() {
            let (rest, end) = commands_from(s, next);
            (inputs + rest, end)
        } else {
            (Seq::empty(), pos)
        },
    }
}

/// Where a text stopped being a sequence of commands.
#[derive(Copy, Clone, Debug, PartialEq, Eq, Structural)]
pub struct ParseError {
    /// Offset of the first byte that starts no command.
    pub offset: usize,
}

/// The stream that the text `s` gives: the text must be one command or
/// more, command after command to its end.
pub open spec fn vm_commands_of(s: Seq<u8>) -> Result<Seq<InputView>, ParseError> {
    let (inputs, end) = commands_from(s, 0);
    if end == s.len() && end > 0 {
        Ok(inputs)
    } else {
        Err(ParseError { offset: end as usize })
    }
}

/// A chain of reads that ran to their values, closed by a read of RDBUFF,
/// gives one command for each read: command `i` with the access and the
/// start of read `i`, and with the value and the end of the access that
/// follows it.
pub proof fn lemma_chain_inputs(reads: Seq<MaybeCommand>, rdbuff: LlCommand)
    requires
        !any_not_ok(reads),
    ensures
        chain_inputs(reads, rdbuff).len() == reads.len(),
        forall|i: int|
            0 <= i < reads.len() ==> {
                let read = reads[i]->Done_0;
                let command = (#[trigger] chain_inputs(reads, rdbuff)[i])->Command_0;
                &&& reads[i] is Done
                &&& chain_inputs(reads, rdbuff)[i] is Command
                &&& command.apndp == read.access_id.spec_apndp()
                &&& command.rnw == read.access_id.spec_rnw()
                &&& command.a == read.access_id.spec_a()
                &&& command.ts == Some(
                    Timestamp {
                        start: read.ts.start,
                        end: if i + 1 < reads.len() {
                            reads[i + 1]->Done_0.ts.end
                        } else {
                            rdbuff.ts.end
                        },
                    },
                )
                &&& command.data == if i + 1 < reads.len() {
                    reads[i + 1]->Done_0.value
                } else {
                    rdbuff.value
                }
            },
{
    assert forall|i: int| 0 <= i < reads.len() implies (#[trigger] reads[i]) is Done by {
        if !(reads[i] is Done) {
            assert(reads[i].spec_is_not_ok());
        }
    }
}

/// Matches `tag` at `pos`.
pub fn match_tag(s: &[u8], pos: usize, tag: &str) -> (end: Option<usize>)
    requires
        pos <= s.len(),
    ensures
        match end {
            Some(end) => pos <= end <= s.len() && end - pos == text_bytes(tag@).len() && tag_end(
                s@,
                pos as int,
                text_bytes(tag@),
            ) == Some(end as int),
            None => tag_end(s@, pos as int, text_bytes(tag@)) is None,
        },
{
    let t = tag.as_bytes();
    if t.len() > s.len() - pos {
        return None;
    }
    let mut i: usize = 0;
    while i < t.len()
        invariant
            i <= t.len() <= s.len() - pos,
            t@ == text_bytes(tag@),
            forall|j: int| 0 <= j < i ==> s@[pos + j] == t@[j],
        decreases t.len() - i,
    {
        if s[pos + i] != t[i] {
            assert(s@.subrange(pos as int, pos + t.len())[i as int] != t@[i as int]);
            return None;
        }
        i += 1;
    }
    assert(s@.subrange(pos as int, pos + t.len()) =~= t@);
    Some(pos + t.len())
}

/// Matches the end of a line at `pos`.
pub fn match_line_end(s: &[u8], pos: usize, eof_ok: bool) -> (end: Option<usize>)
    requires
        pos <= s.len(),
    ensures
        match end {
            Some(end) => pos <= end <= s.len() && line_end(s@, pos as int, eof_ok) == Some(
                end as int,
            ) && (!eof_ok ==> pos < end),
            None => line_end(s@, pos as int, eof_ok) is None,
        },
{
    if pos < s.len() && s[pos] == 0x0A {
        Some(pos + 1)
    } else if pos < s.len() && s.len() - pos > 1 && s[pos] == 0x0D && s[pos + 1] == 0x0A {
        Some(pos + 2)
    } else if eof_ok && pos == s.len() {
        Some(pos)
    } else {
        None
    }
}

/// Reads the number at `pos`.
pub fn match_number(s: &[u8], pos: usize, hex: bool, max: u64) -> (number: Option<(u64, usize)>)
    requires
        pos <= s.len(),
    ensures
        match number {
            Some((number, end)) => pos < end <= s.len() && number <= max && number_at(
                s@,
                pos as int,
                hex,
                max,
            ) == Some((number, end as int)),
            None => number_at(s@, pos as int, hex, max) is None,
        },
{
    let mut end: usize = pos;
    while end < s.len() && digit(s[end], hex).is_some()
        invariant
            pos <= end <= s.len(),
            digits_end(s@, pos as int, hex) == digits_end(s@, end as int, hex),
        decreases s.len() - end,
    {
        end += 1;
    }
    match parse_number(s, pos, end, hex, max) {
        Some(number) => Some((number, end)),
        None => None,
    }
}

/// Reads the head of a line at `pos`.
pub fn match_timestamps(s: &[u8], pos: usize) -> (head: Option<(Timestamp, usize)>)
    requires
        pos <= s.len(),
    ensures
        match head {
            Some((ts, end)) => pos < end <= s.len() && timestamps_at(s@, pos as int) == Some(
                (ts, end as int),
            ),
            None => timestamps_at(s@, pos as int) is None,
        },
{
    let (start, dash) = match_number(s, pos, false, u64::MAX)?;
    let second = match_tag(s, dash, "-")?;
    let (end, label) = match_number(s, second, false, u64::MAX)?;
    let payload = match_tag(s, label, " swd-1: ")?;
    Some((Timestamp { start, end }, payload))
}

/// Reads a line at `pos` whose payload is `tag`.
pub fn match_tag_line(s: &[u8], pos: usize, tag: &str, eof_ok: bool) -> (line: Option<
    (Timestamp, usize),
>)
    requires
        pos <= s.len(),
    ensures
        match line {
            Some((ts, next)) => pos < next <= s.len() && tag_line_at(
                s@,
                pos as int,
                tag@,
                eof_ok,
            ) == Some((ts, next as int)),
            None => tag_line_at(s@, pos as int, tag@, eof_ok) is None,
        },
{
    let (ts, payload) = match_timestamps(s, pos)?;
    let end = match_tag(s, payload, tag)?;
    let next = match_line_end(s, end, eof_ok)?;
    Some((ts, next))
}

impl InnerAp {
    /// Reads the AP register that the character at `pos` names.
    pub fn parse(s: &[u8], pos: usize) -> (found: Option<(InnerAp, usize)>)
        requires
            pos <= s.len(),
        ensures
            match found {
                Some((inner, end)) => pos <= end <= s.len() && inner_ap_at(s@, pos as int) == Some(
                    (inner, end as int),
                ),
                None => inner_ap_at(s@, pos as int) is None,
            },
    {
        if let Some(end) = match_tag(s, pos, "0") {
            Some((InnerAp::One, end))
        } else if let Some(end) = match_tag(s, pos, "4") {
            Some((InnerAp::Two, end))
        } else if let Some(end) = match_tag(s, pos, "8") {
            Some((InnerAp::Three, end))
        } else if let Some(end) = match_tag(s, pos, "c") {
            Some((InnerAp::Four, end))
        } else {
            None
        }
    }
}

impl Ap {
    /// Reads the read of an AP register that the payload at `pos` names.
    pub fn r(s: &[u8], pos: usize) -> (found: Option<(AccessId, usize)>)
        requires
            pos <= s.len(),
        ensures
            match found {
                Some((access_id, end)) => pos <= end <= s.len() && ap_read_at(s@, pos as int)
                    == Some((access_id, end as int)),
                None => ap_read_at(s@, pos as int) is None,
            },
    {
        let register = match_tag(s, pos, "R AP")?;
        let (inner, end) = InnerAp::parse(s, register)?;
        Some((AccessId::Ap(Ap::R(inner)), end))
    }

    /// Reads the write of an AP register that the payload at `pos` names.
    pub fn w(s: &[u8], pos: usize) -> (found: Option<(AccessId, usize)>)
        requires
            pos <= s.len(),
        ensures
            match found {
                Some((access_id, end)) => pos <= end <= s.len() && ap_write_at(s@, pos as int)
                    == Some((access_id, end as int)),
                None => ap_write_at(s@, pos as int) is None,
            },
    {
        let register = match_tag(s, pos, "W AP")?;
        let (inner, end) = InnerAp::parse(s, register)?;
        Some((AccessId::Ap(Ap::W(inner)), end))
    }
}

impl Dp {
    /// Reads the read of RDBUFF that the payload at `pos` names.
    pub fn rdbuff(s: &[u8], pos: usize) -> (found: Option<(AccessId, usize)>)
        requires
            pos <= s.len(),
        ensures
            match found {
                Some((access_id, end)) => pos <= end <= s.len() && rdbuff_at(s@, pos as int)
                    == Some((access_id, end as int)),
                None => rdbuff_at(s@, pos as int) is None,
            },
    {
        let end = match_tag(s, pos, "RDBUFF")?;
        Some((AccessId::Dp(Dp::R(ReadDp::Rdbuff)), end))
    }

    /// Reads the DP access that the payload at `pos` names.
    pub fn parse(s: &[u8], pos: usize) -> (found: Option<(AccessId, usize)>)
        requires
            pos <= s.len(),
        ensures
            match found {
                Some((access_id, end)) => pos <= end <= s.len() && dp_access_at(s@, pos as int)
                    == Some((access_id, end as int)),
                None => dp_access_at(s@, pos as int) is None,
            },
    {
        if let Some(end) = match_tag(s, pos, "IDCODE") {
            Some((AccessId::Dp(Dp::R(ReadDp::IdCode)), end))
        } else if let Some(end) = match_tag(s, pos, "R CTRL/STAT") {
            Some((AccessId::Dp(Dp::R(ReadDp::CtrlStat)), end))
        } else if let Some(end) = match_tag(s, pos, "RESEND") {
            Some((AccessId::Dp(Dp::R(ReadDp::Resend)), end))
        } else if let Some(found) = Dp::rdbuff(s, pos) {
            Some(found)
        } else if let Some(end) = match_tag(s, pos, "W ABORT") {
            Some((AccessId::Dp(Dp::W(WriteDp::Abort)), end))
        } else if let Some(end) = match_tag(s, pos, "W CTRL/STAT") {
            Some((AccessId::Dp(Dp::W(WriteDp::CtrlStat)), end))
        } else if let Some(end) = match_tag(s, pos, "W SELECT") {
            Some((AccessId::Dp(Dp::W(WriteDp::Select)), end))
        } else {
            None
        }
    }
}

impl AccessId {
    /// Reads the access that a simple command may start with.
    pub fn simple(s: &[u8], pos: usize) -> (found: Option<(AccessId, usize)>)
        requires
            pos <= s.len(),
        ensures
            match found {
                Some((access_id, end)) => pos <= end <= s.len() && access_at(
                    s@,
                    pos as int,
                    AccessKind::Simple,
                ) == Some((access_id, end as int)),
                None => access_at(s@, pos as int, AccessKind::Simple) is None,
            },
    {
        if AccessId::complex(s, pos).is_some() {
            None
        } else if let Some(found) = Dp::parse(s, pos) {
            Some(found)
        } else {
            Ap::w(s, pos)
        }
    }

    /// Reads the access that a complex command starts with.
    pub fn complex(s: &[u8], pos: usize) -> (found: Option<(AccessId, usize)>)
        requires
            pos <= s.len(),
        ensures
            match found {
                Some((access_id, end)) => pos <= end <= s.len() && access_at(
                    s@,
                    pos as int,
                    AccessKind::Complex,
                ) == Some((access_id, end as int)),
                None => access_at(s@, pos as int, AccessKind::Complex) is None,
            },
    {
        Ap::r(s, pos)
    }

    /// Reads the access of `kind` that the payload at `pos` names.
    pub fn of_kind(s: &[u8], pos: usize, kind: AccessKind) -> (found: Option<(AccessId, usize)>)
        requires
            pos <= s.len(),
        ensures
            match found {
                Some((access_id, end)) => pos <= end <= s.len() && access_at(s@, pos as int, kind)
                    == Some((access_id, end as int)),
                None => access_at(s@, pos as int, kind) is None,
            },
    {
        match kind {
            AccessKind::Simple => AccessId::simple(s, pos),
            AccessKind::Complex => AccessId::complex(s, pos),
            AccessKind::Rdbuff => Dp::rdbuff(s, pos),
        }
    }
}

/// Reads the line at `pos` that names an access of `kind`.
pub fn match_access_line(s: &[u8], pos: usize, kind: AccessKind) -> (line: Option<
    (Timestamp, AccessId, usize),
>)
    requires
        pos <= s.len(),
    ensures
        match line {
            Some((ts, access_id, next)) => pos < next <= s.len() && access_line_at(
                s@,
                pos as int,
                kind,
            ) == Some((ts, access_id, next as int)),
            None => access_line_at(s@, pos as int, kind) is None,
        },
{
    let (ts, payload) = match_timestamps(s, pos)?;
    let (access_id, end) = AccessId::of_kind(s, payload, kind)?;
    let next = match_line_end(s, end, false)?;
    Some((ts, access_id, next))
}

/// Reads the line at `pos` that acknowledges an access.
pub fn match_ack_line(s: &[u8], pos: usize) -> (line: Option<(Ack, usize)>)
    requires
        pos <= s.len(),
    ensures
        match line {
            Some((ack, next)) => pos < next <= s.len() && ack_line_at(s@, pos as int) == Some(
                (ack, next as int),
            ),
            None => ack_line_at(s@, pos as int) is None,
        },
{
    if let Some((_, next)) = match_tag_line(s, pos, "OK", false) {
        Some((Ack::Okay, next))
    } else if let Some((_, next)) = match_tag_line(s, pos, "WAIT", false) {
        Some((Ack::Wait, next))
    } else if let Some((_, next)) = match_tag_line(s, pos, "FAULT", true) {
        Some((Ack::Fault, next))
    } else {
        None
    }
}

/// Reads the line at `pos` that resolves an access after its retries.
pub fn match_resolution_line(s: &[u8], pos: usize) -> (line: Option<(Ack, usize)>)
    requires
        pos <= s.len(),
    ensures
        match line {
            Some((ack, next)) => pos < next <= s.len() && ack != Ack::Wait && resolution_line_at(
                s@,
                pos as int,
            ) == Some((ack, next as int)),
            None => resolution_line_at(s@, pos as int) is None,
        },
{
    if let Some((_, next)) = match_tag_line(s, pos, "OK", false) {
        Some((Ack::Okay, next))
    } else if let Some((_, next)) = match_tag_line(s, pos, "FAULT", false) {
        Some((Ack::Fault, next))
    } else {
        None
    }
}

/// Reads the line at `pos` with the value of an access.
pub fn value(s: &[u8], pos: usize, eof_ok: bool) -> (line: Option<(Timestamp, u32, usize)>)
    requires
        pos <= s.len(),
    ensures
        match line {
            Some((ts, value, next)) => pos < next <= s.len() && value_line_at(
                s@,
                pos as int,
                eof_ok,
            ) == Some((ts, value, next as int)),
            None => value_line_at(s@, pos as int, eof_ok) is None,
        },
{
    let (ts, payload) = match_timestamps(s, pos)?;
    let digits = match_tag(s, payload, "0x")?;
    let (value, end) = match_number(s, digits, true, u32::MAX as u64)?;
    let next = match_line_end(s, end, eof_ok)?;
    Some((ts, value as u32, next))
}

/// Passes over the retries from `pos`.
pub fn skip_retries(s: &[u8], pos: usize, tag: &str) -> (end: usize)
    requires
        pos <= s.len(),
    ensures
        pos <= end <= s.len(),
        end == retries_end(s@, pos as int, tag@),
{
    let mut end: usize = pos;
    loop
        invariant
            pos <= end <= s.len(),
            retries_end(s@, pos as int, tag@) == retries_end(s@, end as int, tag@),
        ensures
            end == retries_end(s@, pos as int, tag@),
        decreases s.len() - end,
    {
        let wait = match match_tag_line(s, end, tag, false) {
            Some((_, wait)) => wait,
            None => {
                break ;
            },
        };
        match match_tag_line(s, wait, "WAIT", true) {
            Some((_, next)) => {
                end = next;
            },
            None => {
                break ;
            },
        }
    }
    end
}

/// Reads how an access that was acknowledged with `ack` ends.
pub fn complete(
    s: &[u8],
    pos: usize,
    start: Timestamp,
    access_id: AccessId,
    ack: Ack,
    eof_ok: bool,
) -> (command: Option<(MaybeCommand, usize)>)
    requires
        pos <= s.len(),
        ack != Ack::Wait,
    ensures
        match command {
            Some((command, next)) => pos <= next <= s.len() && completion_at(
                s@,
                pos as int,
                start,
                access_id,
                ack,
                eof_ok,
            ) == Some((command, next as int)),
            None => completion_at(s@, pos as int, start, access_id, ack, eof_ok) is None,
        },
{
    match ack {
        Ack::Okay => {
            let (end, value, next) = value(s, pos, eof_ok)?;
            Some(
                (
                    MaybeCommand::Done(
                        LlCommand {
                            ts: Timestamp { start: start.start, end: end.end },
                            access_id,
                            value,
                        },
                    ),
                    next,
                ),
            )
        },
        _ => Some((MaybeCommand::Fault(access_id), pos)),
    }
}

/// Reads the low-level command at `pos`: an access of `kind` with its
/// acknowledgment, its retries and its value.
pub fn command(s: &[u8], pos: usize, kind: AccessKind, eof_ok: bool) -> (command: Option<
    (MaybeCommand, usize),
>)
    requires
        pos <= s.len(),
    ensures
        match command {
            Some((command, next)) => pos < next <= s.len() && ll_command_at(
                s@,
                pos as int,
                kind,
                eof_ok,
            ) == Some((command, next as int)),
            None => ll_command_at(s@, pos as int, kind, eof_ok) is None,
        },
{
    let (start, access_id, ack_pos) = match_access_line(s, pos, kind)?;
    let (ack, next) = match_ack_line(s, ack_pos)?;
    match ack {
        Ack::Wait => {
            let tag = access_id.tag();
            let again = skip_retries(s, next, tag);
            match match_tag_line(s, again, tag, false) {
                None => Some((MaybeCommand::GotBoredOfWaits(access_id), again)),
                Some((_, resolution)) => {
                    let (ack, next) = match_resolution_line(s, resolution)?;
                    complete(s, next, start, access_id, ack, eof_ok)
                },
            }
        },
        _ => complete(s, next, start, access_id, ack, eof_ok),
    }
}

/// The view of a command that was read together with the stream elements
/// it gives.
pub open spec fn found_view(found: Option<(Vec<Input>, usize)>) -> Option<(Seq<InputView>, int)> {
    match found {
        Some((inputs, next)) => Some((inputs_view(inputs@), next as int)),
        None => None,
    }
}

/// Reads the simple command at `pos`.
pub fn simple_command(s: &[u8], pos: usize) -> (found: Option<(Vec<Input>, usize)>)
    requires
        pos <= s.len(),
    ensures
        found_view(found) == simple_command_at(s@, pos as int),
        found is Some ==> pos < (found->0).1 <= s.len(),
{
    let (ll_command, next) = command(s, pos, AccessKind::Simple, true)?;
    let mut inputs: Vec<Input> = Vec::new();
    let suppressed: bool = match ll_command {
        MaybeCommand::Done(done) => match done.access_id {
            AccessId::Dp(Dp::R(ReadDp::Rdbuff)) => true,
            _ => false,
        },
        _ => false,
    };
    if !suppressed {
        inputs.push(ll_command.input());
    }
    assert(inputs_view(inputs@) =~= simple_inputs(ll_command));
    Some((inputs, next))
}

/// Reads the chain of AP reads from `pos`.
pub fn chained_reads(s: &[u8], pos: usize) -> (chain: (Vec<MaybeCommand>, usize))
    requires
        pos <= s.len(),
    ensures
        pos <= chain.1 <= s.len(),
        (chain.0@, chain.1 as int) == reads_at(s@, pos as int),
{
    let mut reads: Vec<MaybeCommand> = Vec::new();
    let mut end: usize = pos;
    loop
        invariant
            pos <= end <= s.len(),
            reads_at(s@, pos as int) == (reads@ + reads_at(s@, end as int).0, reads_at(
                s@,
                end as int,
            ).1),
        ensures
            reads_at(s@, pos as int) == (reads@, end as int),
        decreases s.len() - end,
    {
        match command(s, end, AccessKind::Complex, false) {
            Some((read, next)) => {
                proof {
                    let rest = reads_at(s@, next as int).0;
                    assert(reads@.push(read) + rest =~= reads@ + (seq![read] + rest));
                }
                reads.push(read);
                end = next;
            },
            None => {
                assert(reads@ + Seq::<MaybeCommand>::empty() =~= reads@);
                break ;
            },
        }
    }
    (reads, end)
}

/// Whether one of `reads` ended without a value.
pub fn has_not_ok(reads: &Vec<MaybeCommand>) -> (failed: bool)
    ensures
        failed == any_not_ok(reads@),
{
    let mut i: usize = 0;
    while i < reads.len()
        invariant
            i <= reads.len(),
            forall|j: int| 0 <= j < i ==> !(#[trigger] reads[j]).spec_is_not_ok(),
        decreases reads.len() - i,
    {
        if reads[i].is_not_ok() {
            return true;
        }
        i += 1;
    }
    false
}

/// The landmark for a chain of reads of which one failed.
pub fn chain_fault_input() -> (input: Input)
    ensures
        input@ == chain_fault(),
{
    Input::Landmark {
        metadata: Landmark::Text(
            String::from_str(
                "FAULT occurred among R APx, unclear how to generate a command, result is presumably incomplete.",
            ),
        ),
    }
}

/// Passes over the reads of RDBUFF from `pos`.
pub fn skip_rdbuffs(s: &[u8], pos: usize) -> (end: usize)
    requires
        pos <= s.len(),
    ensures
        pos <= end <= s.len(),
        end == rdbuffs_end(s@, pos as int),
{
    let mut end: usize = pos;
    loop
        invariant
            pos <= end <= s.len(),
            rdbuffs_end(s@, pos as int) == rdbuffs_end(s@, end as int),
        ensures
            end == rdbuffs_end(s@, pos as int),
        decreases s.len() - end,
    {
        match command(s, end, AccessKind::Rdbuff, true) {
            Some((_, next)) => {
                end = next;
            },
            None => {
                break ;
            },
        }
    }
    end
}

/// Reads the complex command at `pos`.
pub fn complex_command(s: &[u8], pos: usize) -> (found: Option<(Vec<Input>, usize)>)
    requires
        pos <= s.len(),
    ensures
        found_view(found) == complex_command_at(s@, pos as int),
        found is Some ==> pos < (found->0).1 <= s.len(),
{
    let (ll_commands, end) = chained_reads(s, pos);
    if ll_commands.len() == 0 {
        return None;
    }
    proof {
        // A chain with a read in it ends behind `pos`.
        assert(ll_command_at(s@, pos as int, AccessKind::Complex, false) is Some);
        lemma_reads_end(s@, pos as int);
    }
    let mut inputs: Vec<Input> = Vec::new();
    if has_not_ok(&ll_commands) {
        inputs.push(chain_fault_input());
        assert(inputs_view(inputs@) =~= seq![chain_fault()]);
        return Some((inputs, skip_rdbuffs(s, end)));
    }
    let (rdbuff_ll_command, next) = command(s, end, AccessKind::Rdbuff, true)?;
    let rdbuff: LlCommand = match rdbuff_ll_command {
        MaybeCommand::Done(rdbuff) => rdbuff,
        failed => {
            inputs.push(failed.input());
            assert(inputs_view(inputs@) =~= seq![failed.spec_input()]);
            return Some((inputs, next));
        },
    };
    let mut i: usize = 0;
    while i < ll_commands.len()
        invariant
            i <= ll_commands.len(),
            !any_not_ok(ll_commands@),
            inputs.len() == i,
            forall|j: int|
                0 <= j < i ==> (#[trigger] inputs[j])@ == InputView::Command(
                    chain_command(ll_commands@, rdbuff, j),
                ),
        decreases ll_commands.len() - i,
    {
        assert(!ll_commands[i as int].spec_is_not_ok());
        let read: LlCommand = ll_commands[i].unwrap();
        let following: LlCommand = if i + 1 < ll_commands.len() {
            assert(!ll_commands[i + 1].spec_is_not_ok());
            ll_commands[i + 1].unwrap()
        } else {
            rdbuff
        };
        inputs.push(
            Input::Command(
                read.access_id.command(
                    following.value,
                    Timestamp { start: read.ts.start, end: following.ts.end },
                ),
            ),
        );
        i += 1;
    }
    assert(inputs_view(inputs@) =~= chain_inputs(ll_commands@, rdbuff));
    Some((inputs, next))
}

/// A chain that starts with a read ends behind where it starts, within the
/// text.
pub proof fn lemma_reads_end(s: Seq<u8>, pos: int)
    requires
        0 <= pos <= s.len(),
    ensures
        pos <= reads_at(s, pos).1 <= s.len(),
        reads_at(s, pos).0.len() > 0 ==> pos < reads_at(s, pos).1,
    decreases s.len() - pos,
{
    match ll_command_at(s, pos, AccessKind::Complex, false) {
        None => {},
        Some((command, next)) => {
            if pos < next <= s.len() {
                lemma_reads_end(s, next);
            }
        },
    }
}

/// Passes over a line `LINERESET` or `JTAG->SWD` at `pos`.
pub fn ignored_commands(s: &[u8], pos: usize) -> (next: Option<usize>)
    requires
        pos <= s.len(),
    ensures
        match next {
            Some(next) => pos < next <= s.len() && ignored_command_at(s@, pos as int) == Some(
                next as int,
            ),
            None => ignored_command_at(s@, pos as int) is None,
        },
{
    match match_tag_line(s, pos, "LINERESET", false) {
        Some((_, next)) => Some(next),
        None => match match_tag_line(s, pos, "JTAG->SWD", false) {
            Some((_, next)) => Some(next),
            None => None,
        },
    }
}

/// Reads the command at `pos`.
pub fn any_command(s: &[u8], pos: usize) -> (found: Option<(Vec<Input>, usize)>)
    requires
        pos <= s.len(),
    ensures
        found_view(found) == command_at(s@, pos as int),
        found is Some ==> pos < (found->0).1 <= s.len(),
{
    reveal(command_at);
    if let Some(found) = simple_command(s, pos) {
        return Some(found);
    }
    if let Some(found) = complex_command(s, pos) {
        return Some(found);
    }
    match ignored_commands(s, pos) {
        Some(next) => {
            let inputs: Vec<Input> = Vec::new();
            assert(inputs_view(inputs@) =~= Seq::<InputView>::empty());
            Some((inputs, next))
        },
        None => None,
    }
}

/// The view of what [`generate_vm_commands`] gave.
pub open spec fn vm_commands_view(result: Result<Vec<Input>, ParseError>) -> Result<
    Seq<InputView>,
    ParseError,
> {
    match result {
        Ok(inputs) => Ok(inputs_view(inputs@)),
        Err(error) => Err(error),
    }
}

/// Every command that a command of the text gives carries a 2-bit `a`.
pub proof fn lemma_command_wf(s: Seq<u8>, pos: int)
    ensures
        command_at(s, pos) is Some ==> all_wf((command_at(s, pos)->0).0),
{
    reveal(command_at);
    if command_at(s, pos) is Some {
        let inputs = (command_at(s, pos)->0).0;
        if simple_command_at(s, pos) is Some {
        } else if complex_command_at(s, pos) is Some {
            let (reads, end) = reads_at(s, pos);
            if !any_not_ok(reads) {
                match ll_command_at(s, end, AccessKind::Rdbuff, true) {
                    Some((MaybeCommand::Done(rdbuff), next)) => {
                        assert forall|i: int| 0 <= i < inputs.len() implies (
                        #[trigger] inputs[i]).wf() by {
                            assert(inputs[i] == InputView::Command(
                                chain_command(reads, rdbuff, i),
                            ));
                        }
                    },
                    _ => {},
                }
            }
        }
    }
}

/// Every command that the commands from `pos` on give carries a 2-bit `a`.
pub proof fn lemma_commands_wf(s: Seq<u8>, pos: int)
    ensures
        all_wf(commands_from(s, pos).0),
    decreases s.len() - pos,
{
    match command_at(s, pos) {
        None => {},
        Some((inputs, next)) => {
            if pos < next <= s.len() {
                lemma_command_wf(s, pos);
                lemma_commands_wf(s, next);
                let rest = commands_from(s, next).0;
                assert forall|i: int| 0 <= i < (inputs + rest).len() implies (#[trigger] (inputs
                    + rest)[i]).wf() by {
                    if i < inputs.len() {
                        assert((inputs + rest)[i] == inputs[i]);
                    } else {
                        assert((inputs + rest)[i] == rest[i - inputs.len()]);
                    }
                }
            }
        },
    }
}

/// Lowers the commands of `s` to the stream of ADI commands and landmarks.
/// The text must be one command or more, command after command to its end;
/// else the error tells where the commands stopped.
pub fn generate_vm_commands_from_bytes(s: &[u8]) -> (result: Result<Vec<Input>, ParseError>)
    ensures
        vm_commands_view(result) == vm_commands_of(s@),
        result is Ok ==> all_wf(inputs_view(result->Ok_0@)),
{
    proof {
        lemma_commands_wf(s@, 0);
    }
    let mut commands: Vec<Input> = Vec::new();
    let mut pos: usize = 0;
    let ghost all = commands_from(s@, 0);
    assert(inputs_view(commands@) =~= Seq::<InputView>::empty());
    assert(all.0 =~= inputs_view(commands@) + all.0);
    loop
        invariant_except_break
            all.0 == inputs_view(commands@) + commands_from(s@, pos as int).0,
            all.1 == commands_from(s@, pos as int).1,
        invariant
            pos <= s.len(),
        ensures
            all.0 == inputs_view(commands@),
            all.1 == pos,
        decreases s.len() - pos,
    {
        let ghost here = commands_from(s@, pos as int);
        match any_command(s, pos) {
            Some((mut inputs, next)) => {
                proof {
                    let more = inputs_view(inputs@);
                    let rest = commands_from(s@, next as int);
                    assert(command_at(s@, pos as int) == Some((more, next as int)));
                    assert(here.0 == more + rest.0);
                    assert(here.1 == rest.1);
                    assert(inputs_view(commands@ + inputs@) =~= inputs_view(commands@) + more);
                    assert((inputs_view(commands@) + more) + rest.0 =~= inputs_view(commands@) + (
                    more + rest.0));
                }
                commands.append(&mut inputs);
                pos = next;
            },
            None => {
                proof {
                    assert(command_at(s@, pos as int) is None);
                    assert(here.0 == Seq::<InputView>::empty());
                    assert(here.1 == pos);
                    assert(inputs_view(commands@) + Seq::<InputView>::empty() =~= inputs_view(
                        commands@,
                    ));
                }
                break ;
            },
        }
    }
    assert(commands_from(s@, 0) == (inputs_view(commands@), pos as int));
    if pos == s.len() && pos > 0 {
        Ok(commands)
    } else {
        Err(ParseError { offset: pos })
    }
}

/// Lowers a textual SWD bus decode to the stream of ADI commands and
/// landmarks.
pub fn generate_vm_commands(input: &str) -> (result: Result<Vec<Input>, ParseError>)
    ensures
        vm_commands_view(result) == vm_commands_of(text_bytes(input@)),
        result is Ok ==> all_wf(inputs_view(result->Ok_0@)),
{
    generate_vm_commands_from_bytes(input.as_bytes())
}

} // verus!
