use emg_core::state::{
    calibration_step, orchestrator_step, CalibrationAction, CalibrationInput, CalibrationStage,
    Events, OrchestratorAction, ProgramStage, PEAK_WINDOW_MS, SETTLE_MS,
};

#[test]
fn calibration_progresses_to_operation() {
    let stage = CalibrationStage::WaitForZero(None);
    let (stage, action) = calibration_step(stage, CalibrationInput::Start { now_us: 1_500 });
    assert_eq!(stage, CalibrationStage::WaitForZero(Some(1_500)));
    assert_eq!(action, CalibrationAction::Sleep { ms: SETTLE_MS });
    assert_eq!(SETTLE_MS, 3000);

    let (stage, action) = calibration_step(stage, CalibrationInput::TimerElapsed);
    assert_eq!(stage, CalibrationStage::PeakCalibration(0, 0));
    assert_eq!(action, CalibrationAction::Sleep { ms: PEAK_WINDOW_MS });
    assert_eq!(PEAK_WINDOW_MS, 5000);

    let (_, action) = calibration_step(stage, CalibrationInput::TimerElapsed);
    assert_eq!(action, CalibrationAction::Emit(Events::CalibrationFinished));

    let mut program = ProgramStage::Calibration;
    let (next, action) = orchestrator_step(program, Events::CalibrationFinished);
    program.transition(next);
    assert_eq!(program, ProgramStage::Operation);
    assert_eq!(action, OrchestratorAction::StartOperation);
}

#[test]
fn timer_without_start_does_nothing() {
    let stage = CalibrationStage::WaitForZero(None);
    assert_eq!(
        calibration_step(stage, CalibrationInput::TimerElapsed),
        (stage, CalibrationAction::Idle)
    );
}

#[test]
fn restart_during_peak_calibration_waits_again() {
    let stage = CalibrationStage::PeakCalibration(0, 0);
    let (stage, action) = calibration_step(stage, CalibrationInput::Start { now_us: 9 });
    assert_eq!(stage, CalibrationStage::WaitForZero(Some(9)));
    assert_eq!(action, CalibrationAction::Sleep { ms: SETTLE_MS });
}

#[test]
fn error_stage_is_left_alone() {
    assert_eq!(
        orchestrator_step(ProgramStage::Error, Events::CalibrationFinished),
        (ProgramStage::Error, OrchestratorAction::Idle)
    );
}
