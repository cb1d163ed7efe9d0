//! The order in which the steps of one operation are sent to the store:
//! a write is wrapped in a transaction that is committed when every step
//! succeeded and rolled back when one failed; a read just runs and pulls.

use vstd::prelude::*;

verus! {

/// What to ask of the store next.
#[derive(Clone, Copy, Debug, PartialEq, Eq, Structural)]
pub enum Command {
    /// Open a transaction.
    Begin,
    /// Send the statement and its parameters.
    Run,
    /// Fetch the result rows and decode them.
    Pull,
    /// Make the transaction permanent.
    Commit,
    /// Undo the transaction.
    Rollback,
    /// Nothing more: hand the outcome to the caller.
    Finish,
}

/// The step whose answer is awaited.
#[derive(Clone, Copy, Debug, PartialEq, Eq, Structural)]
pub enum Phase {
    Beginning,
    Running,
    Pulling,
    Committing,
    RollingBack,
    Finished,
}

/// The command that opens an exchange.
pub open spec fn first_command(is_write: bool) -> Command {
    if is_write {
        Command::Begin
    } else {
        Command::Run
    }
}

/// The phase an exchange starts in.
pub open spec fn first_phase(is_write: bool) -> Phase {
    if is_write {
        Phase::Beginning
    } else {
        Phase::Running
    }
}

/// The phase and command that follow when the step awaited in `phase` is
/// answered with success (`ok`) or failure.
pub open spec fn step(is_write: bool, phase: Phase, ok: bool) -> (Phase, Command) {
    match phase {
        Phase::Beginning => if ok {
            (Phase::Running, Command::Run)
        } else {
            (Phase::Finished, Command::Finish)
        },
        Phase::Running | Phase::Pulling => if !ok {
            if is_write {
                (Phase::RollingBack, Command::Rollback)
            } else {
                (Phase::Finished, Command::Finish)
            }
        } else if phase == Phase::Running {
            (Phase::Pulling, Command::Pull)
        } else if is_write {
            (Phase::Committing, Command::Commit)
        } else {
            (Phase::Finished, Command::Finish)
        },
        Phase::Committing | Phase::RollingBack | Phase::Finished => (
            Phase::Finished,
            Command::Finish,
        ),
    }
}

/// Whether the operation counts as succeeded once the step awaited in
/// `phase` is answered, given whether it did `before`: a read succeeds when
/// its pull does, a write when its commit does.
pub open spec fn succeeds(is_write: bool, phase: Phase, ok: bool, before: bool) -> bool {
    match phase {
        Phase::Pulling => !is_write && ok,
        Phase::Committing => ok,
        _ => before,
    }
}

/// The commands that follow, one for each answer, from `phase` on.
pub open spec fn commands_from(is_write: bool, phase: Phase, answers: Seq<bool>) -> Seq<Command>
    decreases answers.len(),
{
    if answers.len() == 0 {
        Seq::empty()
    } else {
        let next = step(is_write, phase, answers[0]);
        seq![next.1] + commands_from(is_write, next.0, answers.skip(1))
    }
}

/// Every command of an exchange whose steps the store answers with
/// `answers`, in the order they are issued.
pub open spec fn commands(is_write: bool, answers: Seq<bool>) -> Seq<Command> {
    seq![first_command(is_write)] + commands_from(is_write, first_phase(is_write), answers)
}

/// How often `command` occurs in `issued`.
pub open spec fn occurrences(issued: Seq<Command>, command: Command) -> nat
    decreases issued.len(),
{
    if issued.len() == 0 {
        0
    } else {
        (if issued[0] == command {
            1nat
        } else {
            0nat
        }) + occurrences(issued.skip(1), command)
    }
}

/// One exchange with the store, from its first command to its outcome.
#[derive(Debug)]
pub struct Exchange {
    is_write: bool,
    phase: Phase,
    succeeded: bool,
}

impl Exchange {
    /// Whether the exchange runs inside a transaction.
    pub closed spec fn is_write(&self) -> bool {
        self.is_write
    }

    /// The step whose answer the exchange awaits.
    pub closed spec fn phase(&self) -> Phase {
        self.phase
    }

    /// Whether the operation has succeeded.
    pub closed spec fn succeeded(&self) -> bool {
        self.succeeded
    }

    /// Opens an exchange and says what to send first.
    pub fn start(is_write: bool) -> (r: (Exchange, Command))
        ensures
            r.0.is_write() == is_write,
            r.0.phase() == first_phase(is_write),
            !r.0.succeeded(),
            r.1 == first_command(is_write),
    {
        if is_write {
            (Exchange { is_write, phase: Phase::Beginning, succeeded: false }, Command::Begin)
        } else {
            (Exchange { is_write, phase: Phase::Running, succeeded: false }, Command::Run)
        }
    }

    /// Takes the answer to the last command (for a pull: whether rows came
    /// and could be decoded) and says what to send next.
    pub fn advance(&mut self, ok: bool) -> (command: Command)
        ensures
            final(self).is_write() == old(self).is_write(),
            (final(self).phase(), command) == step(old(self).is_write(), old(self).phase(), ok),
            final(self).succeeded() == succeeds(
                old(self).is_write(),
                old(self).phase(),
                ok,
                old(self).succeeded(),
            ),
    {
        let is_write = self.is_write;
        let (phase, command) = match self.phase {
            Phase::Beginning => if ok {
                (Phase::Running, Command::Run)
            } else {
                (Phase::Finished, Command::Finish)
            },
            Phase::Running => if ok {
                (Phase::Pulling, Command::Pull)
            } else if is_write {
                (Phase::RollingBack, Command::Rollback)
            } else {
                (Phase::Finished, Command::Finish)
            },
            Phase::Pulling => {
                self.succeeded = !is_write && ok;
                if !ok {
                    if is_write {
                        (Phase::RollingBack, Command::Rollback)
                    } else {
                        (Phase::Finished, Command::Finish)
                    }
                } else if is_write {
                    (Phase::Committing, Command::Commit)
                } else {
                    (Phase::Finished, Command::Finish)
                }
            },
            Phase::Committing => {
                self.succeeded = ok;
                (Phase::Finished, Command::Finish)
            },
            Phase::RollingBack => (Phase::Finished, Command::Finish),
            Phase::Finished => (Phase::Finished, Command::Finish),
        };
        self.phase = phase;
        command
    }

    /// True once nothing more is to be sent.
    pub fn is_finished(&self) -> (r: bool)
        ensures
            r == (self.phase() == Phase::Finished),
    {
        match self.phase {
            Phase::Finished => true,
            _ => false,
        }
    }

    /// The outcome so far: true once a read has pulled its rows, or a write
    /// has been committed.
    pub fn has_succeeded(&self) -> (r: bool)
        ensures
            r == self.succeeded(),
    {
        self.succeeded
    }
}

/// Once a transaction is being closed, or the exchange is over, nothing but
/// `Finish` follows.
pub proof fn lemma_settled(is_write: bool, phase: Phase, answers: Seq<bool>)
    requires
        phase == Phase::Committing || phase == Phase::RollingBack || phase == Phase::Finished,
    ensures
        occurrences(commands_from(is_write, phase, answers), Command::Begin) == 0,
        occurrences(commands_from(is_write, phase, answers), Command::Run) == 0,
        occurrences(commands_from(is_write, phase, answers), Command::Pull) == 0,
        occurrences(commands_from(is_write, phase, answers), Command::Commit) == 0,
        occurrences(commands_from(is_write, phase, answers), Command::Rollback) == 0,
    decreases answers.len(),
{
    if answers.len() > 0 {
        let rest = commands_from(is_write, Phase::Finished, answers.skip(1));
        lemma_settled(is_write, Phase::Finished, answers.skip(1));
        assert(commands_from(is_write, phase, answers) == seq![Command::Finish] + rest);
        assert((seq![Command::Finish] + rest).skip(1) =~= rest);
    }
}

/// Counting in a sequence that starts with a known command.
pub proof fn lemma_occurrences_cons(head: Command, rest: Seq<Command>, command: Command)
    ensures
        occurrences(seq![head] + rest, command) == (if head == command {
            1nat
        } else {
            0nat
        }) + occurrences(rest, command),
{
    assert((seq![head] + rest).skip(1) =~= rest);
}

/// When the store rejects the statement of a write, the transaction is
/// rolled back exactly once and never committed, whatever the store answers
/// after that.
pub proof fn lemma_failed_run_rolls_back(answers: Seq<bool>)
    requires
        answers.len() >= 2,
        answers[0],
        !answers[1],
    ensures
        occurrences(commands(true, answers), Command::Rollback) == 1,
        occurrences(commands(true, answers), Command::Commit) == 0,
{
    let after_begin = answers.skip(1);
    let after_run = after_begin.skip(1);
    let tail = commands_from(true, Phase::RollingBack, after_run);
    lemma_settled(true, Phase::RollingBack, after_run);
    assert(commands_from(true, Phase::Running, after_begin) == seq![Command::Rollback] + tail);
    assert(commands_from(true, Phase::Beginning, answers) == seq![Command::Run] + (
    seq![Command::Rollback] + tail));
    lemma_occurrences_cons(Command::Rollback, tail, Command::Rollback);
    lemma_occurrences_cons(Command::Rollback, tail, Command::Commit);
    lemma_occurrences_cons(Command::Run, seq![Command::Rollback] + tail, Command::Rollback);
    lemma_occurrences_cons(Command::Run, seq![Command::Rollback] + tail, Command::Commit);
    lemma_occurrences_cons(
        Command::Begin,
        seq![Command::Run] + (seq![Command::Rollback] + tail),
        Command::Rollback,
    );
    lemma_occurrences_cons(
        Command::Begin,
        seq![Command::Run] + (seq![Command::Rollback] + tail),
        Command::Commit,
    );
}

/// When the rows of a write cannot be pulled or decoded, the transaction is
/// rolled back exactly once and never committed.
pub proof fn lemma_failed_pull_rolls_back(answers: Seq<bool>)
    requires
        answers.len() >= 3,
        answers[0],
        answers[1],
        !answers[2],
    ensures
        occurrences(commands(true, answers), Command::Rollback) == 1,
        occurrences(commands(true, answers), Command::Commit) == 0,
{
    let a1 = answers.skip(1);
    let a2 = a1.skip(1);
    let a3 = a2.skip(1);
    let tail = commands_from(true, Phase::RollingBack, a3);
    lemma_settled(true, Phase::RollingBack, a3);
    let c2 = seq![Command::Rollback] + tail;
    let c1 = seq![Command::Pull] + c2;
    let c0 = seq![Command::Run] + c1;
    assert(commands_from(true, Phase::Pulling, a2) == c2);
    assert(commands_from(true, Phase::Running, a1) == c1);
    assert(commands_from(true, Phase::Beginning, answers) == c0);
    lemma_occurrences_cons(Command::Rollback, tail, Command::Rollback);
    lemma_occurrences_cons(Command::Rollback, tail, Command::Commit);
    lemma_occurrences_cons(Command::Pull, c2, Command::Rollback);
    lemma_occurrences_cons(Command::Pull, c2, Command::Commit);
    lemma_occurrences_cons(Command::Run, c1, Command::Rollback);
    lemma_occurrences_cons(Command::Run, c1, Command::Commit);
    lemma_occurrences_cons(Command::Begin, c0, Command::Rollback);
    lemma_occurrences_cons(Command::Begin, c0, Command::Commit);
}

/// When every step of a write succeeds, the transaction is committed exactly
/// once, after the pull, and never rolled back.
pub proof fn lemma_successful_write_commits(answers: Seq<bool>)
    requires
        answers.len() >= 3,
        answers[0],
        answers[1],
        answers[2],
    ensures
        occurrences(commands(true, answers), Command::Commit) == 1,
        occurrences(commands(true, answers), Command::Rollback) == 0,
        commands(true, answers)[2] == Command::Pull,
        commands(true, answers)[3] == Command::Commit,
{
    let a1 = answers.skip(1);
    let a2 = a1.skip(1);
    let a3 = a2.skip(1);
    let tail = commands_from(true, Phase::Committing, a3);
    lemma_settled(true, Phase::Committing, a3);
    let c2 = seq![Command::Commit] + tail;
    let c1 = seq![Command::Pull] + c2;
    let c0 = seq![Command::Run] + c1;
    assert(commands_from(true, Phase::Pulling, a2) == c2);
    assert(commands_from(true, Phase::Running, a1) == c1);
    assert(commands_from(true, Phase::Beginning, answers) == c0);
    lemma_occurrences_cons(Command::Commit, tail, Command::Rollback);
    lemma_occurrences_cons(Command::Commit, tail, Command::Commit);
    lemma_occurrences_cons(Command::Pull, c2, Command::Rollback);
    lemma_occurrences_cons(Command::Pull, c2, Command::Commit);
    lemma_occurrences_cons(Command::Run, c1, Command::Rollback);
    lemma_occurrences_cons(Command::Run, c1, Command::Commit);
    lemma_occurrences_cons(Command::Begin, c0, Command::Rollback);
    lemma_occurrences_cons(Command::Begin, c0, Command::Commit);
}

/// A read is never wrapped in a transaction: from any phase a read can be
/// in, nothing is begun, committed or rolled back.
pub proof fn lemma_read_from(phase: Phase, answers: Seq<bool>)
    requires
        phase == Phase::Running || phase == Phase::Pulling || phase == Phase::Finished,
    ensures
        occurrences(commands_from(false, phase, answers), Command::Begin) == 0,
        occurrences(commands_from(false, phase, answers), Command::Commit) == 0,
        occurrences(commands_from(false, phase, answers), Command::Rollback) == 0,
    decreases answers.len(),
{
    if answers.len() > 0 {
        let next = step(false, phase, answers[0]);
        let rest = commands_from(false, next.0, answers.skip(1));
        lemma_read_from(next.0, answers.skip(1));
        lemma_occurrences_cons(next.1, rest, Command::Begin);
        lemma_occurrences_cons(next.1, rest, Command::Commit);
        lemma_occurrences_cons(next.1, rest, Command::Rollback);
    }
}

/// A read issues no `Begin`, `Commit` or `Rollback`, whatever the store
/// answers.
pub proof fn lemma_read_has_no_transaction(answers: Seq<bool>)
    ensures
        occurrences(commands(false, answers), Command::Begin) == 0,
        occurrences(commands(false, answers), Command::Commit) == 0,
        occurrences(commands(false, answers), Command::Rollback) == 0,
{
    let rest = commands_from(false, Phase::Running, answers);
    lemma_read_from(Phase::Running, answers);
    lemma_occurrences_cons(Command::Run, rest, Command::Begin);
    lemma_occurrences_cons(Command::Run, rest, Command::Commit);
    lemma_occurrences_cons(Command::Run, rest, Command::Rollback);
}

} // verus!
