//! Control of the game process.
//!
//! The game is created suspended, left to run into a two-byte loop written
//! over its entry point, and parked there. While it is parked, libraries are
//! loaded into it and the pointer to its archive name is redirected. Then the
//! entry point is restored and the game runs on.
//!
//! The manager decides and the host acts: each call hands back the next
//! [`Action`] for the host to perform on the operating system, and the host
//! reports the [`Outcome`] to [`PvZManager::advance`]. The manager itself
//! touches nothing outside its own fields.

use crate::bytes::{append, le32, le32_bytes};
use vstd::prelude::*;
use vstd::string::StringSliceAdditionalSpecFns;

pub mod laws;

verus! {

/// The address in the game at which it keeps the pointer to its archive name.
pub const PAKFILE_POINTER: u32 = 0x553D7E;

/// How often the instruction pointer is asked for before the launch gives up.
pub const POLL_LIMIT: u32 = 500;

/// The pause before each query of the instruction pointer but the first.
pub const POLL_PAUSE_MILLIS: u32 = 10;

/// The two bytes of a jump to itself, which park a thread where they stand.
pub const STALL_STUB: [u8; 2] = [0xEB, 0xFE];

/// The stall stub as contracts speak of it.
pub open spec fn stall_stub() -> Seq<u8> {
    seq![0xEBu8, 0xFEu8]
}

/// Why an operation on the game process failed.
#[derive(Clone, Copy, Debug, PartialEq, Eq, Structural)]
pub enum ControlError {
    /// The executable's headers could not be read, or its entry point lies
    /// outside a 32-bit address space.
    PeParseFailed,
    /// The process could not be created.
    ProcessCreateFailed,
    /// The two bytes at the entry point could not be read.
    EntryReadFailed,
    /// The stall stub could not be written over the entry point.
    EntryPatchFailed,
    /// The primary thread's registers could not be read.
    ThreadQueryFailed,
    /// The primary thread could not be suspended at the entry point.
    SuspendFailed,
    /// The primary thread did not reach the entry point within the poll limit.
    EntryReachTimeout,
    /// The library's path could not be made absolute.
    PathCanonicalizeFailed,
    /// No memory could be had in the game.
    RemoteAllocFailed,
    /// The game's memory could not be written.
    RemoteWriteFailed,
    /// The thread that loads the library could not be run in the game.
    RemoteThreadCreateFailed,
    /// The entry point's own bytes could not be written back.
    RestoreWriteFailed,
    /// The primary thread could not be resumed.
    ResumeFailed,
}

/// Where a session stands. Each stage but the three idle ones waits for the
/// outcome of one action.
#[derive(Clone, Copy, Debug, PartialEq, Eq, Structural)]
pub enum Stage {
    /// Launch: the process is being created.
    Creating,
    /// Launch: the entry point's bytes are being read.
    ReadingEntry,
    /// Launch: the stall stub is being written.
    PatchingEntry,
    /// Launch: the primary thread is being let into the loader.
    Resuming,
    /// Launch: the primary thread is being watched for the entry point.
    Polling,
    /// Launch: the primary thread is being suspended in the stub.
    Suspending,
    /// Idle: the game is parked at its entry point.
    Stalled,
    /// Injection: the library's path is being made absolute.
    ResolvingPath,
    /// Injection: room for the path is being made in the game.
    AllocatingPath,
    /// Injection: the path is being written into the game.
    WritingPath,
    /// Injection: the address of the loading routine is being looked up.
    ResolvingLoader,
    /// Injection: the loading routine is running in the game.
    Loading,
    /// Redirection: room for the archive name is being made in the game.
    AllocatingName,
    /// Redirection: the archive name is being written into the game.
    WritingName,
    /// Redirection: the pointer to the archive name is being written.
    WritingPointer,
    /// Release: the entry point's own bytes are being written back.
    RestoringEntry,
    /// Release: the primary thread is being resumed.
    Releasing,
    /// Idle: the game runs on its own.
    Running,
    /// Idle: the launch or the release failed. Nothing more can be done.
    Failed,
}

/// What the host is to do next.
#[derive(Clone, Debug, PartialEq, Eq)]
pub enum Action {
    /// Create the game process suspended, its standard handles those of the
    /// host.
    CreateSuspended,
    /// Read `len` bytes at `addr` in the game.
    ReadMemory { addr: u32, len: usize },
    /// Write `bytes` at `addr` in the game.
    WriteMemory { addr: u32, bytes: Vec<u8> },
    /// Resume the primary thread.
    ResumeThread,
    /// Suspend the primary thread.
    SuspendThread,
    /// Wait `pause_millis`, then read the primary thread's instruction pointer.
    QueryInstructionPointer { pause_millis: u32 },
    /// Turn the path of a library into an absolute one, in 16-bit units.
    ResolvePath { path: String },
    /// Reserve and commit `len` bytes in the game, readable, writable and
    /// executable.
    Allocate { len: usize },
    /// Look up the address of the routine that loads a library by its wide
    /// path.
    ResolveLoader,
    /// Run a thread in the game that starts at `start` with `argument`, wait
    /// until it ends, and close it.
    RunRemoteThread { start: u32, argument: u32 },
}

/// An action as contracts speak of it.
pub enum Command {
    CreateSuspended,
    ReadMemory { addr: u32, len: nat },
    WriteMemory { addr: u32, bytes: Seq<u8> },
    ResumeThread,
    SuspendThread,
    QueryInstructionPointer { pause_millis: u32 },
    ResolvePath { path: Seq<char> },
    Allocate { len: nat },
    ResolveLoader,
    RunRemoteThread { start: u32, argument: u32 },
}

impl View for Action {
    type V = Command;

    open spec fn view(&self) -> Command {
        match *self {
            Action::CreateSuspended => Command::CreateSuspended,
            Action::ReadMemory { addr, len } => Command::ReadMemory { addr, len: len as nat },
            Action::WriteMemory { addr, bytes } => Command::WriteMemory { addr, bytes: bytes@ },
            Action::ResumeThread => Command::ResumeThread,
            Action::SuspendThread => Command::SuspendThread,
            Action::QueryInstructionPointer { pause_millis } => Command::QueryInstructionPointer {
                pause_millis,
            },
            Action::ResolvePath { path } => Command::ResolvePath { path: path@ },
            Action::Allocate { len } => Command::Allocate { len: len as nat },
            Action::ResolveLoader => Command::ResolveLoader,
            Action::RunRemoteThread { start, argument } => Command::RunRemoteThread {
                start,
                argument,
            },
        }
    }
}

/// What the host reports of the action it performed.
#[derive(Clone, Debug, PartialEq, Eq)]
pub enum Outcome {
    /// The action was performed and has nothing to hand back.
    Done,
    /// The action failed.
    Failed,
    /// The bytes read.
    Bytes(Vec<u8>),
    /// The address of the memory that was allocated, or of the routine that
    /// was looked up.
    Address(u32),
    /// The primary thread's instruction pointer.
    InstructionPointer(u32),
    /// The absolute path in 16-bit units, without a terminator.
    WidePath(Vec<u16>),
}

/// What the manager answers: the next action, or that the operation is
/// complete (`None`), or why it failed.
pub type Reply = Result<Option<Action>, ControlError>;

/// A session as contracts speak of it.
pub struct Session {
    pub stage: Stage,
    /// The address of the game's first instruction.
    pub entry_point: u32,
    /// The two bytes that stood at the entry point before the stub.
    pub original_code: Seq<u8>,
    /// How often the instruction pointer has been asked for.
    pub polls: nat,
    /// The address of the memory allocated by the operation in progress.
    pub region: u32,
    /// The bytes that the operation in progress writes into that memory.
    pub staged: Seq<u8>,
}

/// One controlled game process.
#[derive(Debug)]
pub struct PvZManager {
    stage: Stage,
    entry_point: u32,
    original_code: [u8; 2],
    polls: u32,
    region: u32,
    staged: Vec<u8>,
}

impl View for PvZManager {
    type V = Session;

    closed spec fn view(&self) -> Session {
        Session {
            stage: self.stage,
            entry_point: self.entry_point,
            original_code: self.original_code@,
            polls: self.polls as nat,
            region: self.region,
            staged: self.staged@,
        }
    }
}

/// Whether a stage waits for the outcome of an action.
pub open spec fn is_busy(stage: Stage) -> bool {
    stage != Stage::Stalled && stage != Stage::Running && stage != Stage::Failed
}

/// A path in 16-bit units as bytes, each unit low byte first, closed by a
/// zero unit.
pub open spec fn wide_string(path: Seq<u16>) -> Seq<u8> {
    Seq::new(
        2 * path.len() + 2,
        |i: int|
            if i >= 2 * path.len() {
                0u8
            } else if i % 2 == 0 {
                (path[i / 2] % 256) as u8
            } else {
                (path[i / 2] / 256) as u8
            },
    )
}

/// A name in bytes, closed by a zero byte.
pub open spec fn narrow_string(name: Seq<u8>) -> Seq<u8> {
    name.push(0u8)
}

/// The session at `stage`, all else as in `s`.
pub open spec fn at(s: Session, stage: Stage) -> Session {
    Session { stage, ..s }
}

/// The step that asks the host for `next` and waits at `stage`.
pub open spec fn ask(s: Session, stage: Stage, next: Command) -> (Session, Result<
    Option<Command>,
    ControlError,
>) {
    (at(s, stage), Ok(Some(next)))
}

/// The step that ends the operation in progress with `e`, and the session at
/// `stage`.
pub open spec fn fail(s: Session, stage: Stage, e: ControlError) -> (Session, Result<
    Option<Command>,
    ControlError,
>) {
    (Session { stage, staged: Seq::empty(), ..s }, Err(e))
}

/// The step that completes the operation in progress, and the session at
/// `stage`.
pub open spec fn complete(s: Session, stage: Stage) -> (Session, Result<
    Option<Command>,
    ControlError,
>) {
    (Session { stage, staged: Seq::empty(), ..s }, Ok(None))
}

/// The protocol: the session after the host has reported `o`, and the answer
/// to the host.
///
/// A stage goes on where the outcome is the one that its action gives when it
/// succeeds. Every other outcome fails the operation with the error of that
/// stage. A failed launch or release leaves the session at `Failed`, a failed
/// injection or redirection leaves it at `Stalled`. In an idle stage nothing
/// is awaited: the session stays as it is.
pub open spec fn step(s: Session, o: Outcome) -> (Session, Result<Option<Command>, ControlError>) {
    match s.stage {
        Stage::Creating => match o {
            Outcome::Done => ask(
                s,
                Stage::ReadingEntry,
                Command::ReadMemory { addr: s.entry_point, len: 2 },
            ),
            _ => fail(s, Stage::Failed, ControlError::ProcessCreateFailed),
        },
        Stage::ReadingEntry => match o {
            Outcome::Bytes(code) if code@.len() == 2 => ask(
                Session { original_code: code@, ..s },
                Stage::PatchingEntry,
                Command::WriteMemory { addr: s.entry_point, bytes: stall_stub() },
            ),
            _ => fail(s, Stage::Failed, ControlError::EntryReadFailed),
        },
        Stage::PatchingEntry => match o {
            Outcome::Done => ask(s, Stage::Resuming, Command::ResumeThread),
            _ => fail(s, Stage::Failed, ControlError::EntryPatchFailed),
        },
        Stage::Resuming => match o {
            Outcome::Done => ask(
                Session { polls: 1, ..s },
                Stage::Polling,
                Command::QueryInstructionPointer { pause_millis: 0 },
            ),
            _ => fail(s, Stage::Failed, ControlError::ResumeFailed),
        },
        Stage::Polling => match o {
            Outcome::InstructionPointer(ip) => if ip == s.entry_point {
                ask(s, Stage::Suspending, Command::SuspendThread)
            } else if s.polls < POLL_LIMIT {
                ask(
                    Session { polls: s.polls + 1, ..s },
                    Stage::Polling,
                    Command::QueryInstructionPointer { pause_millis: POLL_PAUSE_MILLIS },
                )
            } else {
                fail(s, Stage::Failed, ControlError::EntryReachTimeout)
            },
            _ => fail(s, Stage::Failed, ControlError::ThreadQueryFailed),
        },
        Stage::Suspending => match o {
            Outcome::Done => complete(s, Stage::Stalled),
            _ => fail(s, Stage::Failed, ControlError::SuspendFailed),
        },
        Stage::ResolvingPath => match o {
            Outcome::WidePath(path) => ask(
                Session { staged: wide_string(path@), ..s },
                Stage::AllocatingPath,
                Command::Allocate { len: wide_string(path@).len() },
            ),
            _ => fail(s, Stage::Stalled, ControlError::PathCanonicalizeFailed),
        },
        Stage::AllocatingPath => match o {
            Outcome::Address(region) => ask(
                Session { region, ..s },
                Stage::WritingPath,
                Command::WriteMemory { addr: region, bytes: s.staged },
            ),
            _ => fail(s, Stage::Stalled, ControlError::RemoteAllocFailed),
        },
        Stage::WritingPath => match o {
            Outcome::Done => ask(s, Stage::ResolvingLoader, Command::ResolveLoader),
            _ => fail(s, Stage::Stalled, ControlError::RemoteWriteFailed),
        },
        Stage::ResolvingLoader => match o {
            Outcome::Address(start) => ask(
                s,
                Stage::Loading,
                Command::RunRemoteThread { start, argument: s.region },
            ),
            _ => fail(s, Stage::Stalled, ControlError::RemoteThreadCreateFailed),
        },
        Stage::Loading => match o {
            Outcome::Done => complete(s, Stage::Stalled),
            _ => fail(s, Stage::Stalled, ControlError::RemoteThreadCreateFailed),
        },
        Stage::AllocatingName => match o {
            Outcome::Address(region) => ask(
                Session { region, ..s },
                Stage::WritingName,
                Command::WriteMemory { addr: region, bytes: s.staged },
            ),
            _ => fail(s, Stage::Stalled, ControlError::RemoteAllocFailed),
        },
        Stage::WritingName => match o {
            Outcome::Done => ask(
                s,
                Stage::WritingPointer,
                Command::WriteMemory { addr: PAKFILE_POINTER, bytes: le32(s.region as nat) },
            ),
            _ => fail(s, Stage::Stalled, ControlError::RemoteWriteFailed),
        },
        Stage::WritingPointer => match o {
            Outcome::Done => complete(s, Stage::Stalled),
            _ => fail(s, Stage::Stalled, ControlError::RemoteWriteFailed),
        },
        Stage::RestoringEntry => match o {
            Outcome::Done => ask(s, Stage::Releasing, Command::ResumeThread),
            _ => fail(s, Stage::Failed, ControlError::RestoreWriteFailed),
        },
        Stage::Releasing => match o {
            Outcome::Done => complete(s, Stage::Running),
            _ => fail(s, Stage::Failed, ControlError::ResumeFailed),
        },
        Stage::Stalled | Stage::Running | Stage::Failed => (s, Ok(None)),
    }
}

/// The session in which an injection begins.
pub open spec fn injecting(s: Session) -> Session {
    at(s, Stage::ResolvingPath)
}

/// The session in which the redirection to the archive named `name` begins:
/// the name is staged with a zero byte behind it.
pub open spec fn redirecting(s: Session, name: Seq<u8>) -> Session {
    Session { stage: Stage::AllocatingName, staged: narrow_string(name), ..s }
}

/// The session in which the release begins.
pub open spec fn releasing(s: Session) -> Session {
    at(s, Stage::RestoringEntry)
}

/// A reply as contracts speak of it.
pub open spec fn reply_view(reply: Reply) -> Result<Option<Command>, ControlError> {
    match reply {
        Ok(Some(action)) => Ok(Some(action@)),
        Ok(None) => Ok(None),
        Err(e) => Err(e),
    }
}

/// The two header fields of a 32-bit executable that fix its entry point.
#[derive(Clone, Copy, Debug, PartialEq, Eq, Structural)]
pub struct PeHeader {
    /// The address at which the image asks to be loaded.
    pub image_base: u32,
    /// The entry point, counted from the image base.
    pub entry_point_rva: u32,
}

/// The session that a launch begins with: nothing read, nothing staged.
pub open spec fn opening(entry_point: u32) -> Session {
    Session {
        stage: Stage::Creating,
        entry_point,
        original_code: seq![0u8, 0u8],
        polls: 0,
        region: 0,
        staged: Seq::empty(),
    }
}

/// Where a launch begins for the headers read, if any were: at the image
/// base plus the entry point's offset, where that is a 32-bit address.
pub open spec fn launch_of(header: Option<PeHeader>) -> Result<Session, ControlError> {
    match header {
        Some(h) => if h.image_base + h.entry_point_rva <= u32::MAX {
            Ok(opening((h.image_base + h.entry_point_rva) as u32))
        } else {
            Err(ControlError::PeParseFailed)
        },
        None => Err(ControlError::PeParseFailed),
    }
}

/// Why pelite refused an image.
#[verifier::external_type_specification]
#[verifier::external_body]
pub struct ExPeError(pelite::Error);

/// Reads the headers of a 32-bit executable image with
/// `pelite::pe32::PeView::from_bytes` and takes `ImageBase` and
/// `AddressOfEntryPoint` from its optional header. Nothing is claimed of the
/// result: pelite's answer depends on how the bytes are aligned in memory and
/// on the byte order of the machine.
#[verifier::external_body]
fn read_pe_header(image: &[u8]) -> (out: Result<PeHeader, pelite::Error>) {
    let view = pelite::pe32::PeView::from_bytes(image)?;
    let header = pelite::pe32::Pe::optional_header(view);
    Ok(PeHeader { image_base: header.ImageBase, entry_point_rva: header.AddressOfEntryPoint })
}

/// A path in 16-bit units as bytes, each unit low byte first, closed by a
/// zero unit.
fn wide_bytes(path: &[u16]) -> (out: Vec<u8>)
    ensures
        out@ == wide_string(path@),
{
    let mut out: Vec<u8> = Vec::new();
    let mut i: usize = 0;
    while i < path.len()
        invariant
            i <= path@.len(),
            out@.len() == 2 * i,
            forall|j: int| 0 <= j < 2 * i ==> out@[j] == wide_string(path@)[j],
        decreases path@.len() - i,
    {
        let unit: u16 = path[i];
        out.push((unit % 256) as u8);
        out.push((unit / 256) as u8);
        i += 1;
    }
    out.push(0);
    out.push(0);
    assert(out@ =~= wide_string(path@));
    out
}

/// A copy of `src`.
fn copied(src: &[u8]) -> (out: Vec<u8>)
    ensures
        out@ == src@,
{
    let mut out: Vec<u8> = Vec::new();
    append(&mut out, src);
    assert(out@ =~= src@);
    out
}

impl PvZManager {
    /// Begins the launch of the executable whose image is given.
    ///
    /// Reads the image's headers. Where they can be read and the entry point
    /// is a 32-bit address, the session waits for the process to be created.
    /// The only error is `PeParseFailed`.
    pub fn init(image: &[u8]) -> (out: Result<(PvZManager, Action), ControlError>)
        ensures
            out matches Ok((manager, first)) ==> manager@ == opening(manager@.entry_point)
                && first@ == Command::CreateSuspended,
            out matches Err(e) ==> e == ControlError::PeParseFailed,
    {
        match read_pe_header(image) {
            Ok(header) => PvZManager::with_header(Some(header)),
            Err(_) => PvZManager::with_header(None),
        }
    }

    /// Begins the launch of the executable whose headers were read, if any
    /// were.
    ///
    /// The entry point is the image base plus the entry point's offset. Where
    /// there are no headers, or that sum is no 32-bit address, the error is
    /// `PeParseFailed`. Else the session waits for the process to be created.
    pub fn with_header(header: Option<PeHeader>) -> (out: Result<
        (PvZManager, Action),
        ControlError,
    >)
        ensures
            match launch_of(header) {
                Ok(session) => out matches Ok((manager, first)) && manager@ == session && first@
                    == Command::CreateSuspended,
                Err(e) => out matches Err(x) && x == e,
            },
    {
        match header {
            Some(h) => {
                if h.entry_point_rva > u32::MAX - h.image_base {
                    return Err(ControlError::PeParseFailed);
                }
                let manager = PvZManager {
                    stage: Stage::Creating,
                    entry_point: h.image_base + h.entry_point_rva,
                    original_code: [0u8, 0u8],
                    polls: 0,
                    region: 0,
                    staged: Vec::new(),
                };
                assert(manager@.original_code =~= seq![0u8, 0u8]);
                Ok((manager, Action::CreateSuspended))
            },
            None => Err(ControlError::PeParseFailed),
        }
    }

    /// Where the session stands.
    pub fn stage(&self) -> (out: Stage)
        ensures
            out == self@.stage,
    {
        self.stage
    }

    /// Whether the game is parked at its entry point and no operation is in
    /// progress.
    pub fn is_stalled(&self) -> (out: bool)
        ensures
            out == (self@.stage == Stage::Stalled),
    {
        self.stage == Stage::Stalled
    }

    /// The address of the game's first instruction.
    pub fn entry_point(&self) -> (out: u32)
        ensures
            out == self@.entry_point,
    {
        self.entry_point
    }

    /// The two bytes that stood at the entry point before the stall stub.
    pub fn original_code(&self) -> (out: [u8; 2])
        ensures
            out@ == self@.original_code,
    {
        self.original_code
    }

    /// Ends the operation in progress with `e` and leaves the session at
    /// `stage`.
    fn fail(&mut self, stage: Stage, e: ControlError) -> (reply: Reply)
        ensures
            (final(self)@, reply_view(reply)) == fail(old(self)@, stage, e),
    {
        self.stage = stage;
        self.staged = Vec::new();
        Err(e)
    }

    /// Completes the operation in progress and leaves the session at `stage`.
    fn complete(&mut self, stage: Stage) -> (reply: Reply)
        ensures
            (final(self)@, reply_view(reply)) == complete(old(self)@, stage),
    {
        self.stage = stage;
        self.staged = Vec::new();
        Ok(None)
    }

    /// Takes the outcome of the action that the host performed and answers
    /// with the next one, as [`step`] lays down.
    pub fn advance(&mut self, outcome: Outcome) -> (reply: Reply)
        ensures
            (final(self)@, reply_view(reply)) == step(old(self)@, outcome),
    {
        match self.stage {
            Stage::Creating => match outcome {
                Outcome::Done => {
                    self.stage = Stage::ReadingEntry;
                    Ok(Some(Action::ReadMemory { addr: self.entry_point, len: 2 }))
                },
                _ => self.fail(Stage::Failed, ControlError::ProcessCreateFailed),
            },
            Stage::ReadingEntry => match outcome {
                Outcome::Bytes(code) => {
                    if code.len() == 2 {
                        self.original_code = [code[0], code[1]];
                        self.stage = Stage::PatchingEntry;
                        let stub = copied(STALL_STUB.as_slice());
                        assert(stub@ =~= stall_stub());
                        assert(self@.original_code =~= code@);
                        Ok(Some(Action::WriteMemory { addr: self.entry_point, bytes: stub }))
                    } else {
                        self.fail(Stage::Failed, ControlError::EntryReadFailed)
                    }
                },
                _ => self.fail(Stage::Failed, ControlError::EntryReadFailed),
            },
            Stage::PatchingEntry => match outcome {
                Outcome::Done => {
                    self.stage = Stage::Resuming;
                    Ok(Some(Action::ResumeThread))
                },
                _ => self.fail(Stage::Failed, ControlError::EntryPatchFailed),
            },
            Stage::Resuming => match outcome {
                Outcome::Done => {
                    self.polls = 1;
                    self.stage = Stage::Polling;
                    Ok(Some(Action::QueryInstructionPointer { pause_millis: 0 }))
                },
                _ => self.fail(Stage::Failed, ControlError::ResumeFailed),
            },
            Stage::Polling => match outcome {
                Outcome::InstructionPointer(ip) => {
                    if ip == self.entry_point {
                        self.stage = Stage::Suspending;
                        Ok(Some(Action::SuspendThread))
                    } else if self.polls < POLL_LIMIT {
                        self.polls = self.polls + 1;
                        Ok(
                            Some(
                                Action::QueryInstructionPointer { pause_millis: POLL_PAUSE_MILLIS },
                            ),
                        )
                    } else {
                        self.fail(Stage::Failed, ControlError::EntryReachTimeout)
                    }
                },
                _ => self.fail(Stage::Failed, ControlError::ThreadQueryFailed),
            },
            Stage::Suspending => match outcome {
                Outcome::Done => self.complete(Stage::Stalled),
                _ => self.fail(Stage::Failed, ControlError::SuspendFailed),
            },
            Stage::ResolvingPath => match outcome {
                Outcome::WidePath(path) => {
                    self.staged = wide_bytes(path.as_slice());
                    self.stage = Stage::AllocatingPath;
                    Ok(Some(Action::Allocate { len: self.staged.len() }))
                },
                _ => self.fail(Stage::Stalled, ControlError::PathCanonicalizeFailed),
            },
            Stage::AllocatingPath => match outcome {
                Outcome::Address(region) => {
                    self.region = region;
                    self.stage = Stage::WritingPath;
                    Ok(
                        Some(
                            Action::WriteMemory {
                                addr: region,
                                bytes: copied(self.staged.as_slice()),
                            },
                        ),
                    )
                },
                _ => self.fail(Stage::Stalled, ControlError::RemoteAllocFailed),
            },
            Stage::WritingPath => match outcome {
                Outcome::Done => {
                    self.stage = Stage::ResolvingLoader;
                    Ok(Some(Action::ResolveLoader))
                },
                _ => self.fail(Stage::Stalled, ControlError::RemoteWriteFailed),
            },
            Stage::ResolvingLoader => match outcome {
                Outcome::Address(start) => {
                    self.stage = Stage::Loading;
                    Ok(Some(Action::RunRemoteThread { start, argument: self.region }))
                },
                _ => self.fail(Stage::Stalled, ControlError::RemoteThreadCreateFailed),
            },
            Stage::Loading => match outcome {
                Outcome::Done => self.complete(Stage::Stalled),
                _ => self.fail(Stage::Stalled, ControlError::RemoteThreadCreateFailed),
            },
            Stage::AllocatingName => match outcome {
                Outcome::Address(region) => {
                    self.region = region;
                    self.stage = Stage::WritingName;
                    Ok(
                        Some(
                            Action::WriteMemory {
                                addr: region,
                                bytes: copied(self.staged.as_slice()),
                            },
                        ),
                    )
                },
                _ => self.fail(Stage::Stalled, ControlError::RemoteAllocFailed),
            },
            Stage::WritingName => match outcome {
                Outcome::Done => {
                    self.stage = Stage::WritingPointer;
                    let pointer = le32_bytes(self.region);
                    Ok(
                        Some(
                            Action::WriteMemory {
                                addr: PAKFILE_POINTER,
                                bytes: copied(pointer.as_slice()),
                            },
                        ),
                    )
                },
                _ => self.fail(Stage::Stalled, ControlError::RemoteWriteFailed),
            },
            Stage::WritingPointer => match outcome {
                Outcome::Done => self.complete(Stage::Stalled),
                _ => self.fail(Stage::Stalled, ControlError::RemoteWriteFailed),
            },
            Stage::RestoringEntry => match outcome {
                Outcome::Done => {
                    self.stage = Stage::Releasing;
                    Ok(Some(Action::ResumeThread))
                },
                _ => self.fail(Stage::Failed, ControlError::RestoreWriteFailed),
            },
            Stage::Releasing => match outcome {
                Outcome::Done => self.complete(Stage::Running),
                _ => self.fail(Stage::Failed, ControlError::ResumeFailed),
            },
            Stage::Stalled | Stage::Running | Stage::Failed => Ok(None),
        }
    }

    /// Begins the injection of the library at `dll`.
    ///
    /// The game must be stalled. The session waits for the path to be made
    /// absolute.
    pub fn inject(&mut self, dll: String) -> (first: Action)
        requires
            old(self)@.stage == Stage::Stalled,
        ensures
            final(self)@ == injecting(old(self)@),
            first@ == (Command::ResolvePath { path: dll@ }),
    {
        self.stage = Stage::ResolvingPath;
        Action::ResolvePath { path: dll }
    }

    /// Begins the redirection of the game to the archive named `pakfile`.
    ///
    /// The game must be stalled, and the name must hold no zero byte. The
    /// name is staged with a zero byte behind it, and the session waits for
    /// room to be made for it in the game.
    pub fn set_pakfile(&mut self, pakfile: &str) -> (first: Action)
        requires
            old(self)@.stage == Stage::Stalled,
            !pakfile.spec_bytes().contains(0u8),
        ensures
            final(self)@ == redirecting(old(self)@, pakfile.spec_bytes()),
            first@ == (Command::Allocate { len: pakfile.spec_bytes().len() + 1 }),
    {
        let mut staged = copied(pakfile.as_bytes());
        staged.push(0);
        let len = staged.len();
        self.staged = staged;
        self.stage = Stage::AllocatingName;
        Action::Allocate { len }
    }

    /// Begins the release of the game.
    ///
    /// The game must be stalled. The first action writes the bytes saved at
    /// launch back over the entry point.
    pub fn start(&mut self) -> (first: Action)
        requires
            old(self)@.stage == Stage::Stalled,
        ensures
            final(self)@ == releasing(old(self)@),
            first@ == (Command::WriteMemory {
                addr: old(self)@.entry_point,
                bytes: old(self)@.original_code,
            }),
    {
        self.stage = Stage::RestoringEntry;
        Action::WriteMemory {
            addr: self.entry_point,
            bytes: copied(self.original_code.as_slice()),
        }
    }
}

} // verus!
