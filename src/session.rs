use crate::address::Address;
use crate::instruction::{AccountRef, Instruction};
use crate::protocol::{
    account_line_result, clamp_spec, header_value, parse_account_line, parse_length_header,
    ProtocolError,
};
use vstd::prelude::*;

verus! {

/// A prompt line that the server writes before it reads the client's answer.
#[derive(Debug, Clone, Copy, PartialEq, Eq, Structural)]
pub enum Prompt {
    ProgramLen,
    NumAccounts,
    IxLen,
}

impl Prompt {
    /// The text of the prompt.
    pub fn text(&self) -> (r: &'static str)
        ensures
            *self == Prompt::ProgramLen ==> r@ == "program len: "@,
            *self == Prompt::NumAccounts ==> r@ == "num accounts: "@,
            *self == Prompt::IxLen ==> r@ == "ix len: "@,
    {
        match self {
            Prompt::ProgramLen => "program len: ",
            Prompt::NumAccounts => "num accounts: ",
            Prompt::IxLen => "ix len: ",
        }
    }
}

/// Where an instruction reader stands in the exchange.
#[derive(Debug, Clone, Copy, PartialEq, Eq, Structural)]
pub enum Stage {
    /// Waiting for the number of account lines.
    AccountCount,
    /// Waiting for an account line; `remaining` lines are still due.
    Account { remaining: usize },
    /// Waiting for the payload length.
    DataLen,
    /// Waiting for exactly `len` payload bytes.
    Data { len: usize },
    /// The instruction was handed out.
    Done,
    /// The input was malformed; nothing more is read.
    Failed,
}

/// What the caller must do next on the connection.
#[derive(Debug)]
pub enum ReadAction {
    /// Write the prompt as a line, then read one line.
    AskLine(Prompt),
    /// Read one line.
    ReadLine,
    /// Read exactly this many raw bytes.
    ReadBytes(usize),
    /// The instruction is complete.
    Finished(Instruction),
    /// The input was malformed: report it and end the session.
    Failed(ProtocolError),
}

/// Reads one instruction for a target program: a count of account lines, the lines
/// `<meta> <address>`, a payload length, and the payload. A malformed account line
/// aborts the whole instruction; counts and lengths above the cap are clamped.
#[derive(Debug)]
pub struct InstructionReader {
    pub program_id: Address,
    pub stage: Stage,
    pub accounts: Vec<AccountRef>,
}

/// What a line is owed to after the account lines: the payload length prompt.
pub open spec fn after_accounts_action(r: ReadAction) -> bool {
    r matches ReadAction::AskLine(p) && p == Prompt::IxLen
}

impl InstructionReader {
    /// A reader for an instruction to `program_id`, and its first action.
    pub fn new(program_id: Address) -> (r: (InstructionReader, ReadAction))
        ensures
            r.0.program_id == program_id,
            r.0.stage == Stage::AccountCount,
            r.0.accounts@.len() == 0,
            r.1 matches ReadAction::AskLine(p) && p == Prompt::NumAccounts,
    {
        (
            InstructionReader { program_id, stage: Stage::AccountCount, accounts: Vec::new() },
            ReadAction::AskLine(Prompt::NumAccounts),
        )
    }

    /// Takes the line that the last action asked for.
    pub fn on_line(&mut self, line: &str) -> (r: ReadAction)
        requires
            old(self).stage is AccountCount || old(self).stage is Account || old(self).stage is DataLen,
        ensures
            final(self).program_id == old(self).program_id,
            old(self).stage == Stage::AccountCount ==> final(self).accounts@ == old(self).accounts@
                && match header_value(line@) {
                None => final(self).stage == Stage::Failed && r == ReadAction::Failed(
                    ProtocolError::InvalidNumber,
                ),
                Some(n) => if clamp_spec(n) == 0 {
                    final(self).stage == Stage::DataLen && after_accounts_action(r)
                } else {
                    final(self).stage == (Stage::Account { remaining: clamp_spec(n) as usize })
                        && r == ReadAction::ReadLine
                },
            },
            old(self).stage matches Stage::Account { remaining } ==> match account_line_result(
                line@,
            ) {
                Err(e) => final(self).stage == Stage::Failed && r == ReadAction::Failed(e)
                    && final(self).accounts@ == old(self).accounts@,
                Ok(acc) => final(self).accounts@ == old(self).accounts@.push(acc) && if remaining
                    <= 1 {
                    final(self).stage == Stage::DataLen && after_accounts_action(r)
                } else {
                    final(self).stage == (Stage::Account { remaining: (remaining - 1) as usize })
                        && r == ReadAction::ReadLine
                },
            },
            old(self).stage == Stage::DataLen ==> final(self).accounts@ == old(self).accounts@
                && match header_value(line@) {
                None => final(self).stage == Stage::Failed && r == ReadAction::Failed(
                    ProtocolError::InvalidNumber,
                ),
                Some(n) => final(self).stage == (Stage::Data { len: clamp_spec(n) as usize })
                    && r == ReadAction::ReadBytes(clamp_spec(n) as usize),
            },
    {
        match self.stage {
            Stage::AccountCount => match parse_length_header(line) {
                Ok(n) => {
                    if n == 0 {
                        self.stage = Stage::DataLen;
                        ReadAction::AskLine(Prompt::IxLen)
                    } else {
                        self.stage = Stage::Account { remaining: n };
                        ReadAction::ReadLine
                    }
                },
                Err(e) => {
                    self.stage = Stage::Failed;
                    ReadAction::Failed(e)
                },
            },
            Stage::Account { remaining } => match parse_account_line(line) {
                Ok(acc) => {
                    self.accounts.push(acc);
                    if remaining <= 1 {
                        self.stage = Stage::DataLen;
                        ReadAction::AskLine(Prompt::IxLen)
                    } else {
                        self.stage = Stage::Account { remaining: remaining - 1 };
                        ReadAction::ReadLine
                    }
                },
                Err(e) => {
                    self.stage = Stage::Failed;
                    ReadAction::Failed(e)
                },
            },
            _ => match parse_length_header(line) {
                Ok(n) => {
                    self.stage = Stage::Data { len: n };
                    ReadAction::ReadBytes(n)
                },
                Err(e) => {
                    self.stage = Stage::Failed;
                    ReadAction::Failed(e)
                },
            },
        }
    }

    /// Takes the payload bytes that the last action asked for, and hands out the instruction.
    pub fn on_bytes(&mut self, data: Vec<u8>) -> (r: ReadAction)
        requires
            old(self).stage matches Stage::Data { len } && data@.len() == len,
        ensures
            final(self).stage == Stage::Done,
            final(self).program_id == old(self).program_id,
            final(self).accounts@ == old(self).accounts@,
            r matches ReadAction::Finished(ix) && ix.program_id == old(self).program_id
                && ix.accounts@ == old(self).accounts@ && ix.data@ == data@,
    {
        self.stage = Stage::Done;
        let accounts = self.accounts.clone();
        ReadAction::Finished(Instruction::new(self.program_id, accounts, data))
    }
}

} // verus!
