use eigen_core::lifecycle::{Lifecycle, LifecyclePhase, ProbeStep, SERVER_PORT};

fn bring_to_ready(lc: &mut Lifecycle, model_id: &str, path: &str) {
    let start = lc.begin_switch(model_id, path, &None, 8192, 8192);
    assert_eq!(start.events.len(), 2);
    assert_eq!(start.events[0].status, "stopping");
    assert_eq!(start.events[1].status, "starting");
    assert!(lc.on_spawn_result(model_id, None).is_none());
    match lc.probe_step(model_id, 1, 120, true) {
        ProbeStep::Ready { event } => {
            assert_eq!(event.status, "ready");
            assert_eq!(event.model_id, model_id);
        }
        _ => panic!("expected the ready step"),
    }
}

#[test]
fn test_stop_twice_is_a_no_op() {
    let mut lc = Lifecycle::new();
    bring_to_ready(&mut lc, "modelX", "/models/x/x.gguf");
    assert!(lc.ready);

    let first_kill = lc.stop();
    assert!(first_kill);
    assert!(!lc.ready);
    assert_eq!(lc.phase, LifecyclePhase::Stopped);
    let after_first = (lc.phase, lc.ready, lc.process_running, lc.current_model_id.clone());

    let second_kill = lc.stop();
    assert!(!second_kill);
    let after_second = (lc.phase, lc.ready, lc.process_running, lc.current_model_id.clone());
    assert_eq!(after_first, after_second);
}

#[test]
fn test_failed_switch_then_recovery() {
    // ready on model X; switching to Y fails to spawn: not ready, the
    // attempt on Y stays recorded, and an error event was emitted; a
    // later switch back to X succeeds
    let mut lc = Lifecycle::new();
    bring_to_ready(&mut lc, "modelX", "/models/x/x.gguf");
    assert!(lc.ready);
    assert_eq!(lc.current_model_id.as_deref(), Some("modelX"));

    let start = lc.begin_switch("modelY", "/models/y/y.gguf", &None, 8192, 8192);
    assert!(start.kill_needed);
    assert!(!lc.ready);
    let failure = lc.on_spawn_result("modelY", Some("binary missing".to_string()));
    let (event, error) = failure.expect("a spawn failure must surface");
    assert_eq!(event.status, "error");
    assert_eq!(event.model_id, "modelY");
    assert_eq!(error, "Failed to spawn llama-server: binary missing");
    assert!(!lc.ready);
    assert_eq!(lc.phase, LifecyclePhase::Failed);
    assert_eq!(lc.current_model_id.as_deref(), Some("modelY"));

    bring_to_ready(&mut lc, "modelX", "/models/x/x.gguf");
    assert!(lc.ready);
    assert_eq!(lc.current_model_id.as_deref(), Some("modelX"));
}

#[test]
fn test_spawn_args_exact() {
    let mut lc = Lifecycle::new();
    let start = lc.begin_switch(
        "m1",
        "/data/m1/model.gguf",
        &Some("/data/m1/mmproj.gguf".to_string()),
        4096,
        2048,
    );
    assert_eq!(
        start.spawn_args,
        vec![
            "-m".to_string(),
            "/data/m1/model.gguf".to_string(),
            "--host".to_string(),
            "127.0.0.1".to_string(),
            "--port".to_string(),
            SERVER_PORT.to_string(),
            "--ctx-size".to_string(),
            "4096".to_string(),
            "--n-predict".to_string(),
            "2048".to_string(),
            "--mmproj".to_string(),
            "/data/m1/mmproj.gguf".to_string(),
        ]
    );
}

#[test]
fn test_probe_retries_then_times_out() {
    let mut lc = Lifecycle::new();
    let _ = lc.begin_switch("m1", "/m/m.gguf", &None, 8192, 8192);
    assert!(lc.on_spawn_result("m1", None).is_none());
    match lc.probe_step("m1", 10, 120, false) {
        ProbeStep::RetryAfterMillis { millis } => assert_eq!(millis, 500),
        _ => panic!("expected a retry step"),
    }
    match lc.probe_step("m1", 121, 120, false) {
        ProbeStep::TimedOut { event, error } => {
            assert_eq!(error, "Server startup timeout");
            assert_eq!(event.status, "error");
        }
        _ => panic!("expected the timeout step"),
    }
    assert!(!lc.ready);
    assert_eq!(lc.phase, LifecyclePhase::Failed);
}

#[test]
fn test_probe_at_exact_timeout_still_retries() {
    // the timeout error comes only past the limit, not at it
    let mut lc = Lifecycle::new();
    let _ = lc.begin_switch("m1", "/m/m.gguf", &None, 8192, 8192);
    assert!(lc.on_spawn_result("m1", None).is_none());
    match lc.probe_step("m1", 120, 120, false) {
        ProbeStep::RetryAfterMillis { millis } => assert_eq!(millis, 500),
        _ => panic!("expected a retry at the boundary"),
    }
}

#[test]
fn test_model_status_tracks_readiness() {
    let mut lc = Lifecycle::new();
    assert!(!lc.model_status());
    bring_to_ready(&mut lc, "m", "/m/m.gguf");
    assert!(lc.model_status());
    lc.stop();
    assert!(!lc.model_status());
}
