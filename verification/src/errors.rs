//! Errors of the runtime and orchestration code.

use vstd::prelude::*;

verus! {

/// Domain-specific errors. An I/O or serialisation failure carries the message of its cause.
#[derive(Debug, PartialEq, Eq)]
pub enum OxmgrError {
    ProcessNotFound(String),
    DuplicateProcessName(String),
    InvalidProcessName(String),
    InvalidCommand(String),
    DaemonAlreadyRunning,
    Io(String),
    Serde(String),
}

impl OxmgrError {
    /// The message, in characters.
    pub open spec fn message_text(self) -> Seq<char> {
        match self {
            OxmgrError::ProcessNotFound(name) => "process not found: "@ + name@,
            OxmgrError::DuplicateProcessName(name) => "duplicate process name: "@ + name@,
            OxmgrError::InvalidProcessName(name) => "invalid process name: "@ + name@,
            OxmgrError::InvalidCommand(command) => "invalid command: "@ + command@,
            OxmgrError::DaemonAlreadyRunning => "daemon is already running"@,
            OxmgrError::Io(cause) => "io error: "@ + cause@,
            OxmgrError::Serde(cause) => "serialization error: "@ + cause@,
        }
    }

    /// A human-readable message.
    pub fn message(&self) -> (text: String)
        ensures
            text@ == self.message_text(),
    {
        let (head, tail) = match self {
            OxmgrError::ProcessNotFound(name) => ("process not found: ", name),
            OxmgrError::DuplicateProcessName(name) => ("duplicate process name: ", name),
            OxmgrError::InvalidProcessName(name) => ("invalid process name: ", name),
            OxmgrError::InvalidCommand(command) => ("invalid command: ", command),
            OxmgrError::DaemonAlreadyRunning => {
                return "daemon is already running".to_owned();
            },
            OxmgrError::Io(cause) => ("io error: ", cause),
            OxmgrError::Serde(cause) => ("serialization error: ", cause),
        };
        let mut text = head.to_owned();
        text.append(tail.as_str());
        text
    }
}

/// A message ends in what the error is about, so that two errors of one kind are told apart by it.
pub proof fn a_message_ends_in_its_subject(name: String, other: String)
    ensures
        OxmgrError::ProcessNotFound(name).message_text() == "process not found: "@ + name@,
        OxmgrError::DuplicateProcessName(name).message_text() == "duplicate process name: "@ + name@,
        OxmgrError::InvalidProcessName(name).message_text() == "invalid process name: "@ + name@,
        OxmgrError::InvalidCommand(name).message_text() == "invalid command: "@ + name@,
        OxmgrError::Io(name).message_text() == "io error: "@ + name@,
        OxmgrError::Serde(name).message_text() == "serialization error: "@ + name@,
        OxmgrError::ProcessNotFound(name).message_text() == OxmgrError::ProcessNotFound(
            other,
        ).message_text() <==> name@ == other@,
{
    let head = "process not found: "@;
    let a = OxmgrError::ProcessNotFound(name).message_text();
    let b = OxmgrError::ProcessNotFound(other).message_text();
    assert(a.skip(head.len() as int) =~= name@);
    assert(b.skip(head.len() as int) =~= other@);
}

} // verus!
