use dictation_trigger::supervisor::{
    after_pump, PumpOutcome, Supervisor, TapError, BACKOFF_MILLIS, PUMP_QUANTUM_MILLIS,
};
use dictation_trigger::trigger::{Reaction, Signal, TapEvent, TriggerState, TRIGGER_FLAG};

#[test]
fn scenario_three_failures_then_success() {
    let mut sup = Supervisor::new();
    for i in 0..3u64 {
        assert_eq!(sup.after_attempt(), 2000);
        assert_eq!(sup.ended_attempts(), i + 1);
    }
    // Fourth attempt installs the tap: the pump keeps running and events flow.
    assert_eq!(after_pump(PumpOutcome::TimedOut), Ok(()));
    let mut st = TriggerState::new();
    assert_eq!(
        st.handle(TapEvent::flags_changed(TRIGGER_FLAG), true),
        Reaction::Emit(Signal::StartChat)
    );
    assert_eq!(st.handle(TapEvent::flags_changed(0), true), Reaction::Emit(Signal::StopChat));
    assert_eq!(after_pump(PumpOutcome::HandledSource), Ok(()));
}

#[test]
fn every_ended_attempt_is_retried() {
    let mut sup = Supervisor::new();
    for _ in 0..5 {
        assert_eq!(sup.after_attempt(), BACKOFF_MILLIS);
    }
    assert_eq!(sup.ended_attempts(), 5);
}

#[test]
fn run_loop_exit_leads_to_reinstall() {
    let mut sup = Supervisor::new();
    assert_eq!(after_pump(PumpOutcome::Finished), Err(TapError::RunLoopExited));
    assert_eq!(sup.after_attempt(), BACKOFF_MILLIS);
    assert_eq!(sup.ended_attempts(), 1);
}

#[test]
fn pump_verdicts() {
    assert_eq!(after_pump(PumpOutcome::Finished), Err(TapError::RunLoopExited));
    assert_eq!(after_pump(PumpOutcome::Stopped), Ok(()));
    assert_eq!(after_pump(PumpOutcome::TimedOut), Ok(()));
    assert_eq!(after_pump(PumpOutcome::HandledSource), Ok(()));
}

#[test]
fn timing_constants() {
    assert_eq!(BACKOFF_MILLIS, 2000);
    assert_eq!(PUMP_QUANTUM_MILLIS, 5000);
}

#[test]
fn new_supervisor_has_no_ended_attempts() {
    assert_eq!(Supervisor::new().ended_attempts(), 0);
}
