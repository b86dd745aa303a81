//! The data the contract exchanges with its host, and the mathematical model
//! of its state and of the two entry points.

use vstd::prelude::*;

verus! {

/// The on-ledger account that originated a command or a query.
///
/// The host runtime authenticates accounts before it calls this core, so an
/// identity is carried here as one opaque machine word: the core only compares
/// identities for equality and keys per-account data by them.
#[derive(Clone, Copy, PartialEq, Eq, PartialOrd, Ord, Hash, Debug, Structural)]
pub struct Identity {
    pub raw: u64,
}

/// Reference to the ledger transaction that carried a command.
///
/// The core never interprets it; it is part of the command entry point's
/// signature so that the host can attribute each application to a transaction.
#[derive(Clone, Copy, PartialEq, Eq, Debug, Structural)]
pub struct TxRef {
    pub blocknum: u64,
    pub index: u64,
}

/// Identifier under which the host runtime dispatches to a contract type.
pub type ContractId = u32;

/// The identifier of this contract among the contract types the host knows.
/// The concrete value only has to be distinct per contract type.
pub const HELLO_WORLD: ContractId = 1;

/// Terminal status reported to the ordering layer after a command was applied.
///
/// Every command in this core succeeds; richer outcomes exist for forward
/// extensibility of the host's dispatch, not because any command here fails.
#[derive(Clone, Copy, PartialEq, Eq, Debug, Structural)]
pub enum TransactionStatus {
    Accepted,
}

/// A mutating operation, submitted through the ordered, authenticated ledger
/// channel and attributed to an origin identity by the host.
#[derive(Debug)]
pub enum Command {
    /// Add `value` to the counter, wrapping modulo 2^32.
    Increment { value: u32 },
    /// Record one more opaque file reference for the command's origin.
    AddFile { address: String },
}

/// The failures a query can signal.  They travel as data inside a
/// [`Response`]; no query is ever fatal to the caller.
#[derive(Clone, Copy, PartialEq, Eq, Debug, Structural)]
pub enum Error {
    /// The queried identity has no files on record.
    NotAuthorized,
    /// Reserved placeholder; no request in this core produces it.
    SomeOtherError,
    /// `GetFiles` was asked without a requesting identity.
    MissingOrigin,
}

/// A read-only request, issued outside the ordered command channel and
/// optionally attributed to an identity at execution time.
#[derive(Clone, Copy, PartialEq, Eq, Debug, Structural)]
pub enum Request {
    /// Ask for the value of the counter.
    GetCount,
    /// Ask for all files recorded for the requesting identity.
    GetFiles,
}

/// Answer to a [`Request`].
#[derive(PartialEq, Eq, Debug)]
pub enum Response {
    /// The value of the counter.
    GetCount { count: u32 },
    /// The files recorded for the requesting identity, in submission order.
    GetFiles { file: Vec<String> },
    /// The request could not be answered.
    Error(Error),
}

/// Mathematical shape of a command: the file address as a character sequence.
pub enum CommandV {
    Increment { value: u32 },
    AddFile { address: Seq<char> },
}

impl View for Command {
    type V = CommandV;

    open spec fn view(&self) -> CommandV {
        match self {
            Command::Increment { value } => CommandV::Increment { value: *value },
            Command::AddFile { address } => CommandV::AddFile { address: address@ },
        }
    }
}

/// Mathematical shape of a response: file lists as sequences of character
/// sequences.
pub enum ResponseV {
    GetCount { count: u32 },
    GetFiles { file: Seq<Seq<char>> },
    Error(Error),
}

impl View for Response {
    type V = ResponseV;

    open spec fn view(&self) -> ResponseV {
        match self {
            Response::GetCount { count } => ResponseV::GetCount { count: *count },
            Response::GetFiles { file } => ResponseV::GetFiles { file: file.deep_view() },
            Response::Error(e) => ResponseV::Error(*e),
        }
    }
}

/// Mathematical model of the durable contract state: the counter, and the
/// files on record as a map from identity to the addresses added for it, in
/// submission order.
pub struct StateV {
    pub counter: u32,
    pub files: Map<Identity, Seq<Seq<char>>>,
}

/// The state a contract instance is created with: counter zero, no files.
pub open spec fn initial_state() -> StateV {
    StateV { counter: 0, files: Map::empty() }
}

/// Addition on the counter wraps modulo 2^32.  This core fixes wraparound as
/// the overflow policy of `Increment` and states it everywhere through this
/// function.
pub open spec fn wrap_add32(a: u32, b: u32) -> u32 {
    ((a + b) % 0x1_0000_0000) as u32
}

/// The files on record for `who`, or the empty sequence if `who` was never
/// inserted.
pub open spec fn stored_files(s: StateV, who: Identity) -> Seq<Seq<char>> {
    if s.files.contains_key(who) {
        s.files[who]
    } else {
        Seq::empty()
    }
}

/// What applying one command does to the state.
///
/// `Increment` adds to the counter, wrapping modulo 2^32, and leaves the files
/// untouched.  `AddFile` appends the address to the origin's record, creating
/// the record on first addition, and leaves the counter untouched.  No command
/// fails and no command removes data.
pub open spec fn spec_apply(s: StateV, origin: Identity, cmd: CommandV) -> StateV {
    match cmd {
        CommandV::Increment { value } => StateV {
            counter: wrap_add32(s.counter, value),
            files: s.files,
        },
        CommandV::AddFile { address } => StateV {
            counter: s.counter,
            files: s.files.insert(origin, stored_files(s, origin).push(address)),
        },
    }
}

/// The identity behind an optional borrowed origin.
pub open spec fn view_option(origin: Option<&Identity>) -> Option<Identity> {
    match origin {
        Some(a) => Some(*a),
        None => None,
    }
}

/// What answering one query returns; the state itself is never changed.
///
/// `GetCount` reports the counter and ignores the origin.  `GetFiles` needs an
/// origin: without one it answers `Error(MissingOrigin)`; with one it returns
/// the origin's files in submission order, or `Error(NotAuthorized)` when that
/// identity has nothing on record.
pub open spec fn spec_answer(s: StateV, origin: Option<Identity>, req: Request) -> ResponseV {
    match req {
        Request::GetCount => ResponseV::GetCount { count: s.counter },
        Request::GetFiles => match origin {
            None => ResponseV::Error(Error::MissingOrigin),
            Some(who) => if s.files.contains_key(who) {
                ResponseV::GetFiles { file: s.files[who] }
            } else {
                ResponseV::Error(Error::NotAuthorized)
            },
        },
    }
}

} // verus!
