//! What holds of the protocol in every session, whatever the host reports.

use crate::bytes::le32;
use crate::pvz_manager::{
    injecting, is_busy, narrow_string, opening, redirecting, releasing, stall_stub, step,
    wide_string, Command, ControlError, Outcome, Session, Stage, PAKFILE_POINTER, POLL_LIMIT,
    POLL_PAUSE_MILLIS,
};
use vstd::prelude::*;

verus! {

/// Whether a stage belongs to the launch.
pub open spec fn in_launch(stage: Stage) -> bool {
    stage == Stage::Creating || stage == Stage::ReadingEntry || stage == Stage::PatchingEntry
        || stage == Stage::Resuming || stage == Stage::Polling || stage == Stage::Suspending
}

/// Whether a stage belongs to an injection or a redirection.
pub open spec fn in_mutation(stage: Stage) -> bool {
    stage == Stage::ResolvingPath || stage == Stage::AllocatingPath || stage == Stage::WritingPath
        || stage == Stage::ResolvingLoader || stage == Stage::Loading || stage
        == Stage::AllocatingName || stage == Stage::WritingName || stage == Stage::WritingPointer
}

/// Whether a stage belongs to the release.
pub open spec fn in_release(stage: Stage) -> bool {
    stage == Stage::RestoringEntry || stage == Stage::Releasing
}

/// The host is handed an action exactly as long as the operation goes on: an
/// answer without one, or an error, leaves the session idle.
pub proof fn action_while_busy(s: Session, o: Outcome)
    ensures
        step(s, o).1 matches Ok(Some(_)) <==> is_busy(step(s, o).0.stage),
{
}

/// In an idle stage nothing is awaited: a report changes nothing.
pub proof fn idle_stays(s: Session, o: Outcome)
    requires
        !is_busy(s.stage),
    ensures
        step(s, o) == (s, Ok::<Option<Command>, ControlError>(None)),
{
}

/// The entry point is fixed when the launch begins.
pub proof fn entry_point_is_fixed(s: Session, o: Outcome)
    ensures
        step(s, o).0.entry_point == s.entry_point,
{
}

/// The saved code is what was read at the entry point, and is not touched
/// again.
pub proof fn saved_code_is_what_was_read(s: Session, o: Outcome)
    ensures
        s.stage != Stage::ReadingEntry ==> step(s, o).0.original_code == s.original_code,
        s.stage == Stage::ReadingEntry && step(s, o).1 is Ok ==> (o matches Outcome::Bytes(code)
            && code@.len() == 2 && step(s, o).0.original_code == code@),
{
}

/// The launch hands over a stalled game only after the primary thread was
/// seen at the entry point and then suspended.
pub proof fn stalled_after_launch_means_parked(s: Session, o: Outcome)
    requires
        in_launch(s.stage),
    ensures
        in_launch(step(s, o).0.stage) || step(s, o).0.stage == Stage::Stalled || step(s, o).0.stage
            == Stage::Failed,
        step(s, o).0.stage == Stage::Stalled ==> s.stage == Stage::Suspending && o
            == Outcome::Done,
        step(s, o).0.stage == Stage::Suspending ==> s.stage == Stage::Polling && o
            == Outcome::InstructionPointer(s.entry_point),
        step(s, o).1 is Err <==> step(s, o).0.stage == Stage::Failed,
{
}

/// An injection or a redirection keeps the game stalled: it goes on, or it
/// ends at `Stalled`, also where it fails.
pub proof fn mutation_keeps_the_game_stalled(s: Session, o: Outcome)
    requires
        in_mutation(s.stage),
    ensures
        in_mutation(step(s, o).0.stage) || step(s, o).0.stage == Stage::Stalled,
        step(s, o).1 is Err ==> step(s, o).0.stage == Stage::Stalled,
        step(s, o).0.original_code == s.original_code,
{
}

/// The game runs only by a release: after the entry point was written back
/// and the primary thread was then resumed.
pub proof fn running_only_by_release(s: Session, o: Outcome)
    requires
        s.stage != Stage::Running,
        step(s, o).0.stage == Stage::Running || step(s, o).0.stage == Stage::Releasing,
    ensures
        step(s, o).0.stage == Stage::Running ==> s.stage == Stage::Releasing && o
            == Outcome::Done,
        step(s, o).0.stage == Stage::Releasing ==> s.stage == Stage::RestoringEntry && o
            == Outcome::Done,
{
}

/// A release ends at `Running` or, where it fails, at `Failed`: never back
/// at `Stalled`.
pub proof fn release_is_final(s: Session, o: Outcome)
    requires
        in_release(s.stage),
    ensures
        in_release(step(s, o).0.stage) || step(s, o).0.stage == Stage::Running || step(
            s,
            o,
        ).0.stage == Stage::Failed,
        step(s, o).1 is Err <==> step(s, o).0.stage == Stage::Failed,
{
}

/// No report begins an operation: a new launch, injection, redirection or
/// release starts only by the call that begins it.
pub proof fn operations_do_not_mix(s: Session, o: Outcome)
    ensures
        in_launch(step(s, o).0.stage) ==> in_launch(s.stage),
        in_mutation(step(s, o).0.stage) ==> in_mutation(s.stage),
        in_release(step(s, o).0.stage) ==> in_release(s.stage),
{
}

/// An upper bound on the reports that the operation in progress still takes.
pub open spec fn budget(s: Session) -> nat {
    match s.stage {
        Stage::Creating => (POLL_LIMIT + 6) as nat,
        Stage::ReadingEntry => (POLL_LIMIT + 5) as nat,
        Stage::PatchingEntry => (POLL_LIMIT + 4) as nat,
        Stage::Resuming => (POLL_LIMIT + 3) as nat,
        Stage::Polling => if s.polls <= POLL_LIMIT {
            (POLL_LIMIT - s.polls + 2) as nat
        } else {
            2
        },
        Stage::Suspending => 1,
        Stage::ResolvingPath => 5,
        Stage::AllocatingPath => 4,
        Stage::WritingPath => 3,
        Stage::ResolvingLoader => 2,
        Stage::Loading => 1,
        Stage::AllocatingName => 3,
        Stage::WritingName => 2,
        Stage::WritingPointer => 1,
        Stage::RestoringEntry => 2,
        Stage::Releasing => 1,
        Stage::Stalled | Stage::Running | Stage::Failed => 0,
    }
}

/// Every report brings the operation in progress nearer to its end.
pub proof fn every_report_makes_progress(s: Session, o: Outcome)
    requires
        is_busy(s.stage),
    ensures
        budget(step(s, o).0) < budget(s),
        budget(s) <= POLL_LIMIT + 6,
{
}

/// The session after the host has reported `outcomes` one after the other.
pub open spec fn after(s: Session, outcomes: Seq<Outcome>) -> Session
    decreases outcomes.len(),
{
    if outcomes.len() == 0 {
        s
    } else {
        after(step(s, outcomes.first()).0, outcomes.drop_first())
    }
}

/// No operation hangs: after as many reports as its budget the session is
/// idle, whatever was reported. A launch gives up when the poll limit is
/// spent.
pub proof fn every_operation_ends(s: Session, outcomes: Seq<Outcome>)
    requires
        outcomes.len() >= budget(s),
    ensures
        !is_busy(after(s, outcomes).stage),
    decreases outcomes.len(),
{
    if outcomes.len() > 0 {
        let next = step(s, outcomes.first()).0;
        if is_busy(s.stage) {
            every_report_makes_progress(s, outcomes.first());
        }
        every_operation_ends(next, outcomes.drop_first());
    }
}

/// An answer that asks for `next`.
pub open spec fn asks(reply: Result<Option<Command>, ControlError>, next: Command) -> bool {
    reply == Ok::<Option<Command>, ControlError>(Some(next))
}

/// An answer that says that the operation is complete.
pub open spec fn completes(reply: Result<Option<Command>, ControlError>) -> bool {
    reply == Ok::<Option<Command>, ControlError>(None)
}

/// A launch in which every action succeeds: the process is created, the two
/// bytes at the entry point are read and kept, the stall stub is written
/// over them, the primary thread is resumed and, once it is seen at the
/// entry point, suspended. The game is then stalled.
pub proof fn launch_in_full(entry_point: u32, code: Vec<u8>)
    requires
        code@.len() == 2,
    ensures
        ({
            let (s1, r1) = step(opening(entry_point), Outcome::Done);
            let (s2, r2) = step(s1, Outcome::Bytes(code));
            let (s3, r3) = step(s2, Outcome::Done);
            let (s4, r4) = step(s3, Outcome::Done);
            let (s5, r5) = step(s4, Outcome::InstructionPointer(entry_point));
            let (s6, r6) = step(s5, Outcome::Done);
            &&& asks(r1, Command::ReadMemory { addr: entry_point, len: 2 })
            &&& asks(r2, Command::WriteMemory { addr: entry_point, bytes: stall_stub() })
            &&& asks(r3, Command::ResumeThread)
            &&& asks(r4, Command::QueryInstructionPointer { pause_millis: 0 })
            &&& asks(r5, Command::SuspendThread)
            &&& completes(r6)
            &&& s6.stage == Stage::Stalled
            &&& s6.entry_point == entry_point
            &&& s6.original_code == code@
        }),
{
}

/// While the primary thread is seen elsewhere and the poll limit is not
/// spent, the launch pauses and asks again.
pub proof fn launch_waits_for_the_entry_point(s: Session, ip: u32)
    requires
        s.stage == Stage::Polling,
        ip != s.entry_point,
    ensures
        s.polls < POLL_LIMIT ==> asks(
            step(s, Outcome::InstructionPointer(ip)).1,
            Command::QueryInstructionPointer { pause_millis: POLL_PAUSE_MILLIS },
        ) && step(s, Outcome::InstructionPointer(ip)).0 == (Session { polls: s.polls + 1, ..s }),
        s.polls >= POLL_LIMIT ==> step(s, Outcome::InstructionPointer(ip)).1 == Err::<
            Option<Command>,
            ControlError,
        >(ControlError::EntryReachTimeout),
{
}

/// An injection in which every action succeeds: the path is made absolute,
/// room for it and its zero unit is made in the game, it is written there,
/// and the loading routine is run in the game with the address of the path.
/// The game is stalled as before.
pub proof fn injection_in_full(s: Session, path: Vec<u16>, region: u32, loader: u32)
    requires
        s.stage == Stage::Stalled,
    ensures
        ({
            let (s1, r1) = step(injecting(s), Outcome::WidePath(path));
            let (s2, r2) = step(s1, Outcome::Address(region));
            let (s3, r3) = step(s2, Outcome::Done);
            let (s4, r4) = step(s3, Outcome::Address(loader));
            let (s5, r5) = step(s4, Outcome::Done);
            &&& asks(r1, Command::Allocate { len: 2 * (path@.len() + 1) })
            &&& asks(r2, Command::WriteMemory { addr: region, bytes: wide_string(path@) })
            &&& asks(r3, Command::ResolveLoader)
            &&& asks(r4, Command::RunRemoteThread { start: loader, argument: region })
            &&& completes(r5)
            &&& s5 == (Session { region, staged: Seq::empty(), ..s })
        }),
{
}

/// A redirection in which every action succeeds: room for the name and its
/// zero byte is made in the game, the name is written there, and the address
/// of that room is written, in four bytes, least significant first, where
/// the game keeps the pointer to its archive name. The game is stalled as
/// before.
pub proof fn redirection_in_full(s: Session, name: Seq<u8>, region: u32)
    requires
        s.stage == Stage::Stalled,
    ensures
        ({
            let (s1, r1) = step(redirecting(s, name), Outcome::Address(region));
            let (s2, r2) = step(s1, Outcome::Done);
            let (s3, r3) = step(s2, Outcome::Done);
            &&& asks(r1, Command::WriteMemory { addr: region, bytes: narrow_string(name) })
            &&& asks(r2, Command::WriteMemory { addr: PAKFILE_POINTER, bytes: le32(region as nat) })
            &&& completes(r3)
            &&& s3 == (Session { region, staged: Seq::empty(), ..s })
        }),
{
}

/// A release in which every action succeeds: after the entry point's own
/// bytes are written back, the primary thread is resumed, and the game runs.
pub proof fn release_in_full(s: Session)
    requires
        s.stage == Stage::Stalled,
    ensures
        ({
            let (s1, r1) = step(releasing(s), Outcome::Done);
            let (s2, r2) = step(s1, Outcome::Done);
            &&& asks(r1, Command::ResumeThread)
            &&& completes(r2)
            &&& s2 == (Session { stage: Stage::Running, staged: Seq::empty(), ..s })
        }),
{
}

} // verus!
