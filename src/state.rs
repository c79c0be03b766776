use vstd::prelude::*;

verus! {

/// How long the signal is left to settle before peak calibration, in ms.
pub const SETTLE_MS: u64 = 3000;

/// How long peak calibration lasts, in ms.
pub const PEAK_WINDOW_MS: u64 = 5000;

/// The stage the whole program is in; exactly one is active at a time.
#[derive(Clone, Copy, Debug, PartialEq, Eq, Structural)]
pub enum ProgramStage {
    Calibration,
    Operation,
    /// Reserved: no transition enters or leaves it.
    Error,
}

impl ProgramStage {
    /// Replaces the stage.
    pub fn transition(&mut self, new_state: ProgramStage)
        ensures
            *final(self) == new_state,
    {
        *self = new_state;
    }
}

/// Where calibration stands: waiting for the signal to settle since the
/// given time (in microseconds since boot; none before the start signal),
/// or tracking the minimum and maximum envelope seen.
#[derive(Clone, Copy, Debug, PartialEq, Eq, Structural)]
pub enum CalibrationStage {
    WaitForZero(Option<u64>),
    PeakCalibration(i32, i32),
}

/// Events that drive the program from one stage to the next.
#[derive(Clone, Copy, Debug, PartialEq, Eq, Structural)]
pub enum Events {
    CalibrationFinished,
}

/// The signal that starts a calibration run.
#[derive(Clone, Copy, Debug, PartialEq, Eq, Structural)]
pub struct CalibrationCommand;

/// The signal that starts the operation stage.
#[derive(Clone, Copy, Debug, PartialEq, Eq, Structural)]
pub struct OperationCommand;

/// What the calibration routine is told: it was started at the given time,
/// or the timer it asked for ran out.
#[derive(Clone, Copy, Debug, PartialEq, Eq, Structural)]
pub enum CalibrationInput {
    Start { now_us: u64 },
    TimerElapsed,
}

/// What the calibration routine asks for next.
#[derive(Clone, Copy, Debug, PartialEq, Eq, Structural)]
pub enum CalibrationAction {
    /// Sleep this many milliseconds, then report `TimerElapsed`.
    Sleep { ms: u64 },
    /// Publish this event, then wait for the next start signal.
    Emit(Events),
    /// Nothing to do: wait for the next start signal.
    Idle,
}

/// The calibration routine's transition: the start signal opens the settle
/// wait; its end opens peak calibration at (0, 0); the end of that reports
/// that calibration finished.
pub open spec fn calibration_next(stage: CalibrationStage, input: CalibrationInput) -> (
    CalibrationStage,
    CalibrationAction,
) {
    match input {
        CalibrationInput::Start { now_us } => (
            CalibrationStage::WaitForZero(Some(now_us)),
            CalibrationAction::Sleep { ms: SETTLE_MS },
        ),
        CalibrationInput::TimerElapsed => match stage {
            CalibrationStage::WaitForZero(None) => (stage, CalibrationAction::Idle),
            CalibrationStage::WaitForZero(Some(_)) => (
                CalibrationStage::PeakCalibration(0, 0),
                CalibrationAction::Sleep { ms: PEAK_WINDOW_MS },
            ),
            CalibrationStage::PeakCalibration(_, _) => (
                stage,
                CalibrationAction::Emit(Events::CalibrationFinished),
            ),
        },
    }
}

pub fn calibration_step(stage: CalibrationStage, input: CalibrationInput) -> (r: (
    CalibrationStage,
    CalibrationAction,
))
    ensures
        r == calibration_next(stage, input),
{
    match input {
        CalibrationInput::Start { now_us } => (
            CalibrationStage::WaitForZero(Some(now_us)),
            CalibrationAction::Sleep { ms: SETTLE_MS },
        ),
        CalibrationInput::TimerElapsed => match stage {
            CalibrationStage::WaitForZero(None) => (stage, CalibrationAction::Idle),
            CalibrationStage::WaitForZero(Some(_)) => (
                CalibrationStage::PeakCalibration(0, 0),
                CalibrationAction::Sleep { ms: PEAK_WINDOW_MS },
            ),
            CalibrationStage::PeakCalibration(_, _) => (
                stage,
                CalibrationAction::Emit(Events::CalibrationFinished),
            ),
        },
    }
}

/// What the orchestrator does after handling an event.
#[derive(Clone, Copy, Debug, PartialEq, Eq, Structural)]
pub enum OrchestratorAction {
    /// Signal the operation stage to begin.
    StartOperation,
    /// Nothing.
    Idle,
}

/// The orchestrator's transition: a finished calibration moves the program
/// to operation and starts it. The error stage is left alone.
pub open spec fn orchestrator_next(stage: ProgramStage, event: Events) -> (
    ProgramStage,
    OrchestratorAction,
) {
    match event {
        Events::CalibrationFinished => match stage {
            ProgramStage::Error => (stage, OrchestratorAction::Idle),
            _ => (ProgramStage::Operation, OrchestratorAction::StartOperation),
        },
    }
}

pub fn orchestrator_step(stage: ProgramStage, event: Events) -> (r: (
    ProgramStage,
    OrchestratorAction,
))
    ensures
        r == orchestrator_next(stage, event),
{
    match event {
        Events::CalibrationFinished => match stage {
            ProgramStage::Error => (stage, OrchestratorAction::Idle),
            _ => (ProgramStage::Operation, OrchestratorAction::StartOperation),
        },
    }
}

/// From `WaitForZero(None)` in the calibration stage: after the start
/// signal and the settle wait, calibration reaches `PeakCalibration`; after
/// the peak window, `CalibrationFinished` is published, and handling it
/// moves the program from calibration to operation.
pub proof fn lemma_calibration_reaches_operation(now_us: u64)
    ensures
        ({
            let (s1, a1) = calibration_next(
                CalibrationStage::WaitForZero(None),
                CalibrationInput::Start { now_us },
            );
            let (s2, a2) = calibration_next(s1, CalibrationInput::TimerElapsed);
            let (s3, a3) = calibration_next(s2, CalibrationInput::TimerElapsed);
            let (p, o) = orchestrator_next(ProgramStage::Calibration, Events::CalibrationFinished);
            &&& s1 == CalibrationStage::WaitForZero(Some(now_us))
            &&& a1 == CalibrationAction::Sleep { ms: SETTLE_MS }
            &&& s2 == CalibrationStage::PeakCalibration(0, 0)
            &&& a2 == CalibrationAction::Sleep { ms: PEAK_WINDOW_MS }
            &&& a3 == CalibrationAction::Emit(Events::CalibrationFinished)
            &&& p == ProgramStage::Operation
            &&& o == OrchestratorAction::StartOperation
        }),
{
}

} // verus!
