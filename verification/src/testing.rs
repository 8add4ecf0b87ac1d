//! The kernel test protocol: the exit codes reported to QEMU and the order in
//! which the test runner announces, runs and concludes the tests.
use vstd::prelude::*;

verus! {

/// I/O port of QEMU's `isa-debug-exit` device.
pub const QEMU_EXIT_PORT: u16 = 0xf4;

/// The value written to QEMU's exit port at the end of a test run.
#[derive(Debug, Clone, Copy, PartialEq, Eq)]
pub enum QemuExitCode {
    Success,
    Failed,
}

/// The number that stands for an exit code on the port.
pub open spec fn exit_code_value(code: QemuExitCode) -> u32 {
    match code {
        QemuExitCode::Success => 0x22,
        QemuExitCode::Failed => 0x33472,
    }
}

impl QemuExitCode {
    /// The number written to the exit port for this code.
    pub fn value(self) -> (r: u32)
        ensures
            r == exit_code_value(self),
    {
        match self {
            QemuExitCode::Success => 0x22,
            QemuExitCode::Failed => 0x33472,
        }
    }
}

/// The two exit codes reach the host as different numbers.
pub proof fn lemma_exit_codes_differ()
    ensures
        exit_code_value(QemuExitCode::Success) != exit_code_value(QemuExitCode::Failed),
{
}

/// One thing the test runner does.
#[derive(Debug, Clone, Copy, PartialEq, Eq)]
pub enum RunnerAction {
    /// Announce that `count` tests will run.
    Announce { count: usize },
    /// Run the test at `index`.
    Run { index: usize },
    /// Leave QEMU with this code.
    Exit(QemuExitCode),
}

/// What the runner does with `count` tests: announce them, run each once in
/// order, then exit with success (a failing test never returns; the panic
/// handler exits with `Failed`).
pub open spec fn runner_plan(count: usize) -> Seq<RunnerAction> {
    seq![RunnerAction::Announce { count }]
        + Seq::new(count as nat, |i: int| RunnerAction::Run { index: i as usize })
        + seq![RunnerAction::Exit(QemuExitCode::Success)]
}

/// A test run in progress: how many tests there are and how many of the run's
/// actions have been taken.
pub struct TestRun {
    count: usize,
    position: usize,
}

impl TestRun {
    /// A run never passes its last action.
    #[verifier::type_invariant]
    spec fn inv(self) -> bool {
        &&& self.count < usize::MAX - 1
        &&& self.position <= self.count + 2
    }

    /// Number of tests in the run.
    pub closed spec fn test_count(&self) -> usize {
        self.count
    }

    /// Number of actions already taken.
    pub closed spec fn taken(&self) -> nat {
        self.position as nat
    }

    /// The actions of the run, in order.
    pub open spec fn plan(&self) -> Seq<RunnerAction> {
        runner_plan(self.test_count())
    }

    /// The next action of the run, or `None` once the run has exited.
    pub fn next_action(&mut self) -> (a: Option<RunnerAction>)
        ensures
            final(self).test_count() == old(self).test_count(),
            a == (if old(self).taken() < old(self).plan().len() {
                Some(old(self).plan()[old(self).taken() as int])
            } else {
                None::<RunnerAction>
            }),
            final(self).taken() == (if old(self).taken() < old(self).plan().len() {
                old(self).taken() + 1
            } else {
                old(self).taken()
            }),
    {
        proof {
            use_type_invariant(&*self);
        }
        let n = self.count;
        let p = self.position;
        if p == 0 {
            self.position = 1;
            Some(RunnerAction::Announce { count: n })
        } else if p <= n {
            self.position = p + 1;
            Some(RunnerAction::Run { index: p - 1 })
        } else if p == n + 1 {
            self.position = p + 1;
            Some(RunnerAction::Exit(QemuExitCode::Success))
        } else {
            None
        }
    }
}

/// Starts a test run over `test_count` tests; its actions are those of
/// `runner_plan`, taken one by one with `next_action`.
pub fn test_runner(test_count: usize) -> (run: TestRun)
    requires
        test_count < usize::MAX - 1,
    ensures
        run.test_count() == test_count,
        run.taken() == 0,
{
    TestRun { count: test_count, position: 0 }
}

/// The code with which a test run ends when a test panics.
pub fn test_failure_code() -> (r: QemuExitCode)
    ensures
        r == QemuExitCode::Failed,
{
    QemuExitCode::Failed
}

/// In a run over `count` tests, each test runs exactly once, after the
/// announcement and before the exit, and tests run in index order.
pub proof fn lemma_each_test_runs_once(count: usize, t: usize)
    requires
        t < count,
    ensures
        runner_plan(count)[0] == (RunnerAction::Announce { count }),
        runner_plan(count)[t + 1] == (RunnerAction::Run { index: t }),
        forall|p: int|
            0 <= p < runner_plan(count).len() && #[trigger] runner_plan(count)[p] == (RunnerAction::Run { index: t })
                ==> p == t + 1,
        runner_plan(count).last() == RunnerAction::Exit(QemuExitCode::Success),
        runner_plan(count).len() == count + 2,
{
    let plan = runner_plan(count);
    assert forall|p: int|
        0 <= p < plan.len() && #[trigger] plan[p] == (RunnerAction::Run { index: t }) implies p == t + 1 by {
        if 1 <= p < count + 1 {
            assert(plan[p] == (RunnerAction::Run { index: (p - 1) as usize }));
        }
    }
}

} // verus!
