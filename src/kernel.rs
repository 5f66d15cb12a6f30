//! The kernel-mode service: its command line, and the decisions of a
//! client session. A session is a stream of little-endian `u32` words and
//! byte blocks; the service reads a word, decides, and acts.

use vstd::prelude::*;

verus! {

/// Runs a function of the loaded module.
pub const CMD_RUN_CODE: u32 = 0x901;
/// Reads a block of the module's memory.
pub const CMD_READ_MEMORY: u32 = 0x902;
/// Writes a block of the module's memory.
pub const CMD_WRITE_MEMORY: u32 = 0x903;
/// The largest module binary, and the largest memory block, in bytes.
pub const MAX_BLOCK_SIZE: u32 = 1048576 * 16;
/// The longest function name, in bytes.
pub const MAX_FUNCTION_NAME: u32 = 32;

/// `kernel listen --socket <path>`.
#[derive(Clone, Debug, PartialEq)]
pub struct Listen {
    pub socket: String,
}

/// The kernel-mode WebAssembly service.
#[derive(Clone, Debug, PartialEq)]
pub enum Kernel {
    Listen(Listen),
}

/// Which word a session waits for.
#[derive(Clone, Copy, Debug, PartialEq, Eq, Structural)]
pub enum Session {
    BinarySize,
    Command,
    NameLength,
    ArgumentCount,
    ReadOffset,
    ReadLength { offset: u32 },
    WriteOffset,
    WriteLength { offset: u32 },
    Closed,
}

/// Why a session ends.
#[derive(Clone, Copy, Debug, PartialEq, Eq, Structural)]
pub enum CloseReason {
    BinaryTooLarge,
    FunctionNameTooLong,
    TooManyArguments,
    MemorySizeTooLarge,
    UnknownCommand,
    AlreadyClosed,
}

/// What the service does next.
#[derive(Clone, Copy, Debug, PartialEq, Eq, Structural)]
pub enum Action {
    /// Read the next word.
    ReadWord,
    /// Read a module binary of this size, compile it and instantiate it.
    LoadBinary { size: u32 },
    /// Read a function name of this length.
    ReadFunctionName { length: u32 },
    /// Call the function named last, without arguments, and reply.
    RunFunction,
    /// Send a block of memory.
    ReadMemory { offset: u32, length: u32 },
    /// Read a block of this length and store it into memory.
    WriteMemory { offset: u32, length: u32 },
    /// End the session.
    Close { reason: CloseReason },
}

/// The next state and action of a session that receives `word`.
pub open spec fn transition(state: Session, word: u32) -> (Session, Action) {
    let close = |reason: CloseReason| (Session::Closed, Action::Close { reason });
    match state {
        Session::BinarySize => if word > MAX_BLOCK_SIZE {
            close(CloseReason::BinaryTooLarge)
        } else {
            (Session::Command, Action::LoadBinary { size: word })
        },
        Session::Command => if word == CMD_RUN_CODE {
            (Session::NameLength, Action::ReadWord)
        } else if word == CMD_READ_MEMORY {
            (Session::ReadOffset, Action::ReadWord)
        } else if word == CMD_WRITE_MEMORY {
            (Session::WriteOffset, Action::ReadWord)
        } else {
            close(CloseReason::UnknownCommand)
        },
        Session::NameLength => if word > MAX_FUNCTION_NAME {
            close(CloseReason::FunctionNameTooLong)
        } else {
            (Session::ArgumentCount, Action::ReadFunctionName { length: word })
        },
        Session::ArgumentCount => if word > 0 {
            close(CloseReason::TooManyArguments)
        } else {
            (Session::Command, Action::RunFunction)
        },
        Session::ReadOffset => (Session::ReadLength { offset: word }, Action::ReadWord),
        Session::ReadLength { offset } => if word > MAX_BLOCK_SIZE {
            close(CloseReason::MemorySizeTooLarge)
        } else {
            (Session::Command, Action::ReadMemory { offset, length: word })
        },
        Session::WriteOffset => (Session::WriteLength { offset: word }, Action::ReadWord),
        Session::WriteLength { offset } => if word > MAX_BLOCK_SIZE {
            close(CloseReason::MemorySizeTooLarge)
        } else {
            (Session::Command, Action::WriteMemory { offset, length: word })
        },
        Session::Closed => close(CloseReason::AlreadyClosed),
    }
}

/// Decides what a session does with the word it received.
pub fn on_word(state: Session, word: u32) -> (r: (Session, Action))
    ensures
        r == transition(state, word),
        r.1 matches Action::LoadBinary { size } ==> size <= MAX_BLOCK_SIZE,
        r.1 matches Action::ReadFunctionName { length } ==> length <= MAX_FUNCTION_NAME,
        r.1 matches Action::ReadMemory { length, .. } ==> length <= MAX_BLOCK_SIZE,
        r.1 matches Action::WriteMemory { length, .. } ==> length <= MAX_BLOCK_SIZE,
        (r.1 is Close) <==> (r.0 == Session::Closed),
{
    match state {
        Session::BinarySize => {
            if word > MAX_BLOCK_SIZE {
                (Session::Closed, Action::Close { reason: CloseReason::BinaryTooLarge })
            } else {
                (Session::Command, Action::LoadBinary { size: word })
            }
        },
        Session::Command => {
            if word == CMD_RUN_CODE {
                (Session::NameLength, Action::ReadWord)
            } else if word == CMD_READ_MEMORY {
                (Session::ReadOffset, Action::ReadWord)
            } else if word == CMD_WRITE_MEMORY {
                (Session::WriteOffset, Action::ReadWord)
            } else {
                (Session::Closed, Action::Close { reason: CloseReason::UnknownCommand })
            }
        },
        Session::NameLength => {
            if word > MAX_FUNCTION_NAME {
                (Session::Closed, Action::Close { reason: CloseReason::FunctionNameTooLong })
            } else {
                (Session::ArgumentCount, Action::ReadFunctionName { length: word })
            }
        },
        Session::ArgumentCount => {
            if word > 0 {
                (Session::Closed, Action::Close { reason: CloseReason::TooManyArguments })
            } else {
                (Session::Command, Action::RunFunction)
            }
        },
        Session::ReadOffset => (Session::ReadLength { offset: word }, Action::ReadWord),
        Session::ReadLength { offset } => {
            if word > MAX_BLOCK_SIZE {
                (Session::Closed, Action::Close { reason: CloseReason::MemorySizeTooLarge })
            } else {
                (Session::Command, Action::ReadMemory { offset, length: word })
            }
        },
        Session::WriteOffset => (Session::WriteLength { offset: word }, Action::ReadWord),
        Session::WriteLength { offset } => {
            if word > MAX_BLOCK_SIZE {
                (Session::Closed, Action::Close { reason: CloseReason::MemorySizeTooLarge })
            } else {
                (Session::Command, Action::WriteMemory { offset, length: word })
            }
        },
        Session::Closed => (Session::Closed, Action::Close { reason: CloseReason::AlreadyClosed }),
    }
}

/// The message the service prints when a session ends for `reason`.
pub fn close_message(reason: CloseReason) -> (r: &'static str)
    ensures
        r@ == match reason {
            CloseReason::BinaryTooLarge => "binary too large"@,
            CloseReason::FunctionNameTooLong => "function name too long"@,
            CloseReason::TooManyArguments => "Too many arguments"@,
            CloseReason::MemorySizeTooLarge => "memory size too large"@,
            CloseReason::UnknownCommand => "Unknown command"@,
            CloseReason::AlreadyClosed => "session closed"@,
        },
{
    match reason {
        CloseReason::BinaryTooLarge => "binary too large",
        CloseReason::FunctionNameTooLong => "function name too long",
        CloseReason::TooManyArguments => "Too many arguments",
        CloseReason::MemorySizeTooLarge => "memory size too large",
        CloseReason::UnknownCommand => "Unknown command",
        CloseReason::AlreadyClosed => "session closed",
    }
}

} // verus!
