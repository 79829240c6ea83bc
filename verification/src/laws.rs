//! The laws the library states of itself, each proved here once and for all
//! inputs: the apply phase is gated on a successful init exit, a finished
//! run is final, and the relay delivers nothing that was not on the stream.

use vstd::prelude::*;

use crate::machine::EventModel;
use crate::machine::PhaseModel;
use crate::machine::RunAction;
use crate::machine::final_phase;
use crate::machine::pending_action;
use crate::machine::run_steps;
use crate::machine::spec_step;
use crate::outcome::WorkspaceStage;
use crate::outcome::code_text;
use crate::outcome::spec_success_message;
use crate::outcome::spec_workspace_prefix;
use crate::relay::CR_BYTE;
use crate::relay::NL_BYTE;
use crate::relay::all_lines;
use crate::relay::complete_lines;
use crate::relay::lemma_split_compose;
use crate::relay::line_body;
use crate::relay::rest_from;
use crate::relay::split_from;

verus! {

/// The byte stream a tool writes when it emits exactly the lines `ls`, each
/// ended by one newline.
pub open spec fn join_lines(ls: Seq<Seq<u8>>) -> Seq<u8>
    decreases ls.len(),
{
    if ls.len() == 0 {
        Seq::empty()
    } else {
        ls[0] + seq![NL_BYTE] + join_lines(ls.skip(1))
    }
}

/// Bytes without a newline complete no line; they only extend the one in
/// progress.
pub proof fn lemma_no_newline_no_split(s: Seq<u8>, cur: Seq<u8>)
    requires
        forall|i: int| 0 <= i < s.len() ==> s[i] != NL_BYTE,
    ensures
        split_from(s, cur) == Seq::<Seq<u8>>::empty(),
        rest_from(s, cur) == cur + s,
    decreases s.len(),
{
    if s.len() == 0 {
        assert(cur + s =~= cur);
    } else {
        lemma_no_newline_no_split(s.skip(1), cur.push(s[0]));
        assert(cur.push(s[0]) + s.skip(1) =~= cur + s);
    }
}

/// Splitting undoes joining: a tool that writes exactly the lines `ls` —
/// none containing a newline, none ending in a carriage return — is relayed
/// as exactly those lines, in that order, with nothing left over. In
/// particular a tool that writes `n` lines to a stream yields exactly `n`
/// events for that stream.
pub proof fn lemma_split_joined_lines(ls: Seq<Seq<u8>>)
    requires
        forall|i: int, j: int|
            0 <= i < ls.len() && 0 <= j < ls[i].len() ==> #[trigger] ls[i][j] != NL_BYTE,
        forall|i: int|
            0 <= i < ls.len() && ls[i].len() > 0 ==> (#[trigger] ls[i]).last() != CR_BYTE,
    ensures
        complete_lines(join_lines(ls)) == ls,
        rest_from(join_lines(ls), Seq::empty()) == Seq::<u8>::empty(),
    decreases ls.len(),
{
    if ls.len() == 0 {
        assert(complete_lines(join_lines(ls)) =~= ls);
    } else {
        let head = ls[0];
        let tail_bytes = join_lines(ls.skip(1));
        assert(forall|j: int| 0 <= j < head.len() ==> head[j] != NL_BYTE);
        lemma_no_newline_no_split(head, Seq::empty());
        assert(Seq::<u8>::empty() + head =~= head);
        assert(join_lines(ls) =~= head + (seq![NL_BYTE] + tail_bytes));
        lemma_split_compose(head, seq![NL_BYTE] + tail_bytes, Seq::empty());
        // One newline finishes the head line untouched, then the rest of the
        // stream is split from a fresh line.
        assert((seq![NL_BYTE] + tail_bytes)[0] == NL_BYTE);
        assert((seq![NL_BYTE] + tail_bytes).skip(1) =~= tail_bytes);
        assert(line_body(head) == head);
        assert(forall|i: int, j: int|
            0 <= i < ls.skip(1).len() && 0 <= j < ls.skip(1)[i].len() ==> #[trigger] ls.skip(
                1,
            )[i][j] != NL_BYTE);
        assert(forall|i: int|
            0 <= i < ls.skip(1).len() && ls.skip(1)[i].len() > 0 ==> (#[trigger] ls.skip(
                1,
            )[i]).last() != CR_BYTE);
        lemma_split_joined_lines(ls.skip(1));
        assert(complete_lines(join_lines(ls)) =~= seq![head] + complete_lines(tail_bytes));
        assert(seq![head] + ls.skip(1) =~= ls);
    }
}

/// Every complete line split out of a stream is a contiguous slice of what
/// the stream carried (a carriage return before the newline may be shaved
/// off its end), and the unfinished tail is a suffix of it. The relay can
/// therefore never deliver bytes that were not on the stream: in particular
/// a value that never reached the stream — a credential handed to the tool
/// only as an environment variable, say — cannot appear in any delivered
/// line.
pub proof fn lemma_lines_are_stream_slices(s: Seq<u8>, cur: Seq<u8>)
    ensures
        forall|i: int|
            0 <= i < split_from(s, cur).len() ==> exists|a: int, b: int|
                0 <= a <= b <= (cur + s).len() && #[trigger] split_from(s, cur)[i] == (cur
                    + s).subrange(a, b),
        exists|a: int|
            0 <= a <= (cur + s).len() && rest_from(s, cur) == (cur + s).subrange(
                a,
                (cur + s).len() as int,
            ),
    decreases s.len(),
{
    let full = cur + s;
    if s.len() == 0 {
        assert(full =~= cur);
        assert(full.subrange(0, full.len() as int) =~= full);
        assert(rest_from(s, cur) == full.subrange(0, full.len() as int));
    } else if s[0] == NL_BYTE {
        let rest1 = s.skip(1);
        let cl = cur.len() as int;
        lemma_lines_are_stream_slices(rest1, Seq::empty());
        let sub = Seq::<u8>::empty() + rest1;
        assert(sub =~= rest1);
        assert forall|i: int| 0 <= i < split_from(s, cur).len() implies exists|a: int, b: int|
            0 <= a <= b <= full.len() && #[trigger] split_from(s, cur)[i] == full.subrange(
            a,
            b,
        ) by {
            if i == 0 {
                assert(split_from(s, cur)[0] == line_body(cur));
                if cur.len() > 0 && cur.last() == CR_BYTE {
                    assert(line_body(cur) =~= full.subrange(0, cl - 1));
                    assert(0 <= 0 <= cl - 1 <= full.len() && split_from(s, cur)[0]
                        == full.subrange(0, cl - 1));
                } else {
                    assert(line_body(cur) =~= full.subrange(0, cl));
                    assert(0 <= 0 <= cl <= full.len() && split_from(s, cur)[0] == full.subrange(
                        0,
                        cl,
                    ));
                }
            } else {
                assert(split_from(s, cur)[i] == split_from(rest1, Seq::empty())[i - 1]);
                let (a, b) = choose|a: int, b: int|
                    0 <= a <= b <= sub.len() && split_from(rest1, Seq::empty())[i - 1]
                        == sub.subrange(a, b);
                assert(sub.subrange(a, b) =~= full.subrange(cl + 1 + a, cl + 1 + b));
                assert(0 <= cl + 1 + a <= cl + 1 + b <= full.len() && split_from(s, cur)[i]
                    == full.subrange(cl + 1 + a, cl + 1 + b));
            }
        }
        assert(rest_from(s, cur) == rest_from(rest1, Seq::empty()));
        let a0 = choose|a: int|
            0 <= a <= sub.len() && rest_from(rest1, Seq::empty()) == sub.subrange(
                a,
                sub.len() as int,
            );
        assert(sub.subrange(a0, sub.len() as int) =~= full.subrange(
            cl + 1 + a0,
            full.len() as int,
        ));
        assert(0 <= cl + 1 + a0 <= full.len() && rest_from(s, cur) == full.subrange(
            cl + 1 + a0,
            full.len() as int,
        ));
    } else {
        let rest1 = s.skip(1);
        let cur2 = cur.push(s[0]);
        lemma_lines_are_stream_slices(rest1, cur2);
        let full2 = cur2 + rest1;
        assert(full2 =~= full);
        assert forall|i: int| 0 <= i < split_from(s, cur).len() implies exists|a: int, b: int|
            0 <= a <= b <= full.len() && #[trigger] split_from(s, cur)[i] == full.subrange(
            a,
            b,
        ) by {
            assert(split_from(s, cur)[i] == split_from(rest1, cur2)[i]);
            let (a, b) = choose|a: int, b: int|
                0 <= a <= b <= full2.len() && split_from(rest1, cur2)[i] == full2.subrange(a, b);
            assert(full2.subrange(a, b) == full.subrange(a, b));
            assert(0 <= a <= b <= full.len() && split_from(s, cur)[i] == full.subrange(a, b));
        }
        assert(rest_from(s, cur) == rest_from(rest1, cur2));
        let a0 = choose|a: int|
            0 <= a <= full2.len() && rest_from(rest1, cur2) == full2.subrange(
                a,
                full2.len() as int,
            );
        assert(full2.subrange(a0, full2.len() as int) == full.subrange(a0, full.len() as int));
        assert(0 <= a0 <= full.len() && rest_from(s, cur) == full.subrange(
            a0,
            full.len() as int,
        ));
    }
}

/// Everything a whole stream ever delivers — every complete line and the
/// final unterminated one — is a contiguous slice of the stream's bytes.
pub proof fn lemma_delivered_lines_are_stream_slices(s: Seq<u8>)
    ensures
        forall|i: int|
            0 <= i < all_lines(s).len() ==> exists|a: int, b: int|
                0 <= a <= b <= s.len() && #[trigger] all_lines(s)[i] == s.subrange(a, b),
{
    lemma_lines_are_stream_slices(s, Seq::empty());
    let sub = Seq::<u8>::empty() + s;
    assert(sub =~= s);
    assert forall|i: int| 0 <= i < all_lines(s).len() implies exists|a: int, b: int|
        0 <= a <= b <= s.len() && #[trigger] all_lines(s)[i] == s.subrange(a, b) by {
        if i < complete_lines(s).len() {
            assert(all_lines(s)[i] == split_from(s, Seq::empty())[i]);
            let (a, b) = choose|a: int, b: int|
                0 <= a <= b <= sub.len() && split_from(s, Seq::empty())[i] == sub.subrange(a, b);
            assert(sub.subrange(a, b) == s.subrange(a, b));
            assert(0 <= a <= b <= s.len() && all_lines(s)[i] == s.subrange(a, b));
        } else {
            assert(all_lines(s)[i] == rest_from(s, Seq::empty()));
            let a0 = choose|a: int|
                0 <= a <= sub.len() && rest_from(s, Seq::empty()) == sub.subrange(
                    a,
                    sub.len() as int,
                );
            assert(sub.subrange(a0, sub.len() as int) == s.subrange(a0, s.len() as int));
            assert(0 <= a0 <= s.len() && all_lines(s)[i] == s.subrange(a0, s.len() as int));
        }
    }
}

/// An event reporting that the init phase exited with status zero.
pub open spec fn init_success_event(ev: EventModel) -> bool {
    ev matches EventModel::InitExited { ok: true, .. }
}

/// A phase that no successful init exit has been reported in: every phase
/// but `Initialized` and `Applying`.
pub open spec fn before_init_success(p: PhaseModel) -> bool {
    match p {
        PhaseModel::Created => true,
        PhaseModel::WorkspaceReady => true,
        PhaseModel::Initializing => true,
        PhaseModel::Initialized => false,
        PhaseModel::Applying => false,
        PhaseModel::Done { .. } => true,
    }
}

/// If the init phase never exits with status zero, the machine never asks
/// the driver to spawn the apply process — whatever else happens, in
/// whatever order, for however long the run goes on.
pub proof fn lemma_apply_gated_on_init(p: PhaseModel, evs: Seq<EventModel>)
    requires
        before_init_success(p),
        forall|i: int| 0 <= i < evs.len() ==> !init_success_event(#[trigger] evs[i]),
    ensures
        forall|j: int|
            0 <= j < run_steps(p, evs).len() ==> (#[trigger] run_steps(p, evs)[j]).1
                != RunAction::StartApply,
        forall|j: int|
            0 <= j < run_steps(p, evs).len() ==> before_init_success(
                (#[trigger] run_steps(p, evs)[j]).0,
            ),
    decreases evs.len(),
{
    if evs.len() > 0 {
        let first = spec_step(p, evs[0]);
        assert(!init_success_event(evs[0]));
        assert(before_init_success(first.0) && first.1 != RunAction::StartApply);
        assert(forall|i: int|
            0 <= i < evs.skip(1).len() ==> !init_success_event(#[trigger] evs.skip(1)[i]));
        lemma_apply_gated_on_init(first.0, evs.skip(1));
        let tail = run_steps(first.0, evs.skip(1));
        assert(run_steps(p, evs) == seq![first] + tail);
        assert forall|j: int| 0 <= j < run_steps(p, evs).len() implies (#[trigger] run_steps(
            p,
            evs,
        )[j]).1 != RunAction::StartApply && before_init_success(run_steps(p, evs)[j].0) by {
            if j == 0 {
                assert(run_steps(p, evs)[0] == first);
            } else {
                assert(run_steps(p, evs)[j] == tail[j - 1]);
            }
        }
    }
}

/// Everything the outside world decides in one run, as plain values: whether
/// each step of the workspace, the init phase and the apply phase went
/// through, and what the tool reported. No credential is part of it: what a
/// run's events and outcome are is a function of this alone.
pub struct ToolBehavior {
    pub workspace_ok: bool,
    pub workspace_stage: WorkspaceStage,
    pub workspace_detail: Seq<char>,
    pub init_launch_ok: bool,
    pub init_launch_detail: Seq<char>,
    pub init_ok: bool,
    pub init_stderr: Seq<char>,
    pub spawn_ok: bool,
    pub spawn_detail: Seq<char>,
    pub wait_ok: bool,
    pub wait_detail: Seq<char>,
    pub exit_ok: bool,
    pub exit_code: Option<i32>,
}

/// The events a driver reports over one run when the world behaves as `t`:
/// the run proceeds in order and stops at the first failure.
pub open spec fn driver_events(t: ToolBehavior) -> Seq<EventModel> {
    if !t.workspace_ok {
        seq![
            EventModel::WorkspaceFailed {
                stage: t.workspace_stage,
                detail: t.workspace_detail,
            },
        ]
    } else if !t.init_launch_ok {
        seq![
            EventModel::WorkspaceMade,
            EventModel::InitStarted,
            EventModel::InitLaunchFailed { detail: t.init_launch_detail },
        ]
    } else if !t.init_ok {
        seq![
            EventModel::WorkspaceMade,
            EventModel::InitStarted,
            EventModel::InitExited { ok: false, stderr: t.init_stderr },
        ]
    } else if !t.spawn_ok {
        seq![
            EventModel::WorkspaceMade,
            EventModel::InitStarted,
            EventModel::InitExited { ok: true, stderr: t.init_stderr },
            EventModel::ApplySpawnFailed { detail: t.spawn_detail },
        ]
    } else if !t.wait_ok {
        seq![
            EventModel::WorkspaceMade,
            EventModel::InitStarted,
            EventModel::InitExited { ok: true, stderr: t.init_stderr },
            EventModel::ApplySpawned,
            EventModel::ApplyWaitFailed { detail: t.wait_detail },
        ]
    } else {
        seq![
            EventModel::WorkspaceMade,
            EventModel::InitStarted,
            EventModel::InitExited { ok: true, stderr: t.init_stderr },
            EventModel::ApplySpawned,
            EventModel::ApplyExited { ok: t.exit_ok, code: t.exit_code },
        ]
    }
}

/// The one outcome a run has when the world behaves as `t`.
pub open spec fn run_outcome(t: ToolBehavior) -> Result<Seq<char>, Seq<char>> {
    if !t.workspace_ok {
        Err(spec_workspace_prefix(t.workspace_stage) + t.workspace_detail)
    } else if !t.init_launch_ok {
        Err("Failed to run terraform init: "@ + t.init_launch_detail)
    } else if !t.init_ok {
        Err("Terraform init failed: "@ + t.init_stderr)
    } else if !t.spawn_ok {
        Err("Failed to spawn terraform: "@ + t.spawn_detail)
    } else if !t.wait_ok {
        Err("Failed to wait for terraform: "@ + t.wait_detail)
    } else if t.exit_ok {
        Ok(spec_success_message())
    } else {
        Err("Terraform apply failed with exit code: "@ + code_text(t.exit_code))
    }
}

/// Whatever the world does, a run driven to its end leaves the machine
/// `Done`, and the outcome — message text included — is exactly
/// [`run_outcome`] of the world's behaviour. Since a [`ToolBehavior`] holds
/// no credential, neither does any outcome depend on one.
pub proof fn lemma_whole_run(t: ToolBehavior)
    ensures
        final_phase(PhaseModel::Created, driver_events(t)) == (PhaseModel::Done {
            outcome: run_outcome(t),
        }),
{
    reveal_with_fuel(final_phase, 6);
    let evs = driver_events(t);
    if !t.workspace_ok {
        assert(evs.skip(1) =~= Seq::<EventModel>::empty());
    } else {
        let p1 = spec_step(PhaseModel::Created, evs[0]).0;
        assert(p1 == PhaseModel::WorkspaceReady);
        let p2 = spec_step(p1, evs[1]).0;
        assert(p2 == PhaseModel::Initializing);
        if !t.init_launch_ok || !t.init_ok {
            assert(evs.skip(1) =~= seq![evs[1], evs[2]]);
            assert(evs.skip(1).skip(1) =~= seq![evs[2]]);
            assert(seq![evs[2]].skip(1) =~= Seq::<EventModel>::empty());
        } else {
            let p3 = spec_step(p2, evs[2]).0;
            assert(p3 == PhaseModel::Initialized);
            if !t.spawn_ok {
                assert(evs.skip(1) =~= seq![evs[1], evs[2], evs[3]]);
                assert(evs.skip(1).skip(1) =~= seq![evs[2], evs[3]]);
                assert(seq![evs[2], evs[3]].skip(1) =~= seq![evs[3]]);
                assert(seq![evs[3]].skip(1) =~= Seq::<EventModel>::empty());
            } else {
                let p4 = spec_step(p3, evs[3]).0;
                assert(p4 == PhaseModel::Applying);
                assert(evs.skip(1) =~= seq![evs[1], evs[2], evs[3], evs[4]]);
                assert(evs.skip(1).skip(1) =~= seq![evs[2], evs[3], evs[4]]);
                assert(seq![evs[2], evs[3], evs[4]].skip(1) =~= seq![evs[3], evs[4]]);
                assert(seq![evs[3], evs[4]].skip(1) =~= seq![evs[4]]);
                assert(seq![evs[4]].skip(1) =~= Seq::<EventModel>::empty());
            }
        }
    }
}

/// A finished run is final: once the machine is `Done`, every further event
/// leaves the phase — outcome text included — unchanged, and the only
/// action left is to report.
pub proof fn lemma_done_is_terminal(outcome: Result<Seq<char>, Seq<char>>, ev: EventModel)
    ensures
        spec_step((PhaseModel::Done { outcome }), ev).0 == (PhaseModel::Done { outcome }),
        spec_step((PhaseModel::Done { outcome }), ev).1 == RunAction::Report,
{
    assert(pending_action(PhaseModel::Done { outcome }) == RunAction::Report);
}

} // verus!
