use netdissect::driver::{CaptureDriver, CaptureEvent, LoopAction};

#[test]
fn bounded_loop_processes_three_frames() {
    let mut d = CaptureDriver::new(3);
    let mut actions = Vec::new();
    for _ in 0..3 {
        actions.push(d.on_event(CaptureEvent::Frame));
    }
    assert_eq!(actions, vec![LoopAction::Dissect, LoopAction::Dissect, LoopAction::DissectAndStop]);
    assert!(d.is_stopped());
    assert_eq!(d.processed(), 3);
    assert_eq!(d.on_event(CaptureEvent::Frame), LoopAction::Ignore);
    assert_eq!(d.on_event(CaptureEvent::Cancelled), LoopAction::Ignore);
    assert_eq!(d.processed(), 3);
}

#[test]
fn timeouts_do_not_count() {
    let mut d = CaptureDriver::new(1);
    assert_eq!(d.on_event(CaptureEvent::Timeout), LoopAction::ReportTimeout);
    assert!(!d.is_stopped());
    assert_eq!(d.on_event(CaptureEvent::Frame), LoopAction::DissectAndStop);
}

#[test]
fn unbounded_loop_runs_until_cancelled() {
    let mut d = CaptureDriver::new(0);
    for i in 0..1000 {
        let ev = if i % 7 == 0 { CaptureEvent::Timeout } else { CaptureEvent::Frame };
        let a = d.on_event(ev);
        assert!(a == LoopAction::Dissect || a == LoopAction::ReportTimeout);
        assert!(!d.is_stopped());
    }
    assert_eq!(d.on_event(CaptureEvent::Cancelled), LoopAction::Stop);
    assert!(d.is_stopped());
}

#[test]
fn cancelling_a_bounded_loop() {
    let mut d = CaptureDriver::new(5);
    assert_eq!(d.on_event(CaptureEvent::Frame), LoopAction::Dissect);
    assert_eq!(d.on_event(CaptureEvent::Cancelled), LoopAction::Stop);
    assert!(d.is_stopped());
    assert_eq!(d.processed(), 1);
}
