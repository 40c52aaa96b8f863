//! The choices of the command line that have a meaning of their own.

use vstd::prelude::*;
use crate::text::str_eq;

verus! {

/// The format of the capture that is replayed.
#[derive(Copy, Clone, Debug, PartialEq, Eq, PartialOrd, Ord, Structural)]
pub enum Mode {
    /// A PDML dissection of CMSIS-DAP traffic between host and probe.
    CmsisDapWsPdml,
    /// A text with the decoded SWD accesses of a logic-analyzer capture.
    SigrokSwd,
}

impl Mode {
    /// The name under which the command line knows this mode.
    pub open spec fn spec_name(&self) -> Seq<char> {
        match self {
            Mode::CmsisDapWsPdml => "cmsis-dap-ws-pdml"@,
            Mode::SigrokSwd => "sigrok-swd"@,
        }
    }

    /// The name under which the command line knows this mode.
    pub fn name(&self) -> (name: &'static str)
        ensures
            name@ == self.spec_name(),
    {
        match self {
            Mode::CmsisDapWsPdml => "cmsis-dap-ws-pdml",
            Mode::SigrokSwd => "sigrok-swd",
        }
    }

    /// The mode that the command line knows under `name`.
    pub open spec fn spec_from_name(name: Seq<char>) -> Option<Mode> {
        if name == "cmsis-dap-ws-pdml"@ {
            Some(Mode::CmsisDapWsPdml)
        } else if name == "sigrok-swd"@ {
            Some(Mode::SigrokSwd)
        } else {
            None
        }
    }

    /// The mode that the command line knows under `name`, if it knows one.
    pub fn from_name(name: &str) -> (mode: Option<Mode>)
        ensures
            mode == Mode::spec_from_name(name@),
    {
        if str_eq(name, "cmsis-dap-ws-pdml") {
            Some(Mode::CmsisDapWsPdml)
        } else if str_eq(name, "sigrok-swd") {
            Some(Mode::SigrokSwd)
        } else {
            None
        }
    }
}

/// A mode is found again under its own name.
pub proof fn lemma_mode_name_round_trip(mode: Mode)
    ensures
        Mode::spec_from_name(mode.spec_name()) == Some(mode),
{
    reveal_strlit("cmsis-dap-ws-pdml");
    reveal_strlit("sigrok-swd");
    assert("cmsis-dap-ws-pdml"@.len() != "sigrok-swd"@.len());
}

} // verus!
