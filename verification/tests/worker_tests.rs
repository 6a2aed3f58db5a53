use rfuzz::status::{classify, ExecStatus, Platform, ACCESS_VIOLATION_CODE, CRASH_SIGNAL};
use rfuzz::stats::Statistics;
use rfuzz::worker::{WorkerState, BATCH_SIZE};

fn signaled(sig: i32) -> ExecStatus {
    ExecStatus { exit_code: None, signal: Some(sig) }
}

fn exited(code: i32) -> ExecStatus {
    ExecStatus { exit_code: Some(code), signal: None }
}

#[test]
fn classify_signal_platform() {
    assert!(classify(Platform::SignalInfo, &signaled(CRASH_SIGNAL)));
    assert!(!classify(Platform::SignalInfo, &signaled(6)));
    assert!(!classify(Platform::SignalInfo, &exited(0)));
    assert!(!classify(Platform::SignalInfo, &exited(1)));
    assert!(!classify(Platform::SignalInfo, &exited(ACCESS_VIOLATION_CODE)));
}

#[test]
fn classify_exit_code_platform() {
    assert!(classify(Platform::RawExitCode, &exited(ACCESS_VIOLATION_CODE)));
    assert!(!classify(Platform::RawExitCode, &exited(0)));
    assert!(!classify(Platform::RawExitCode, &exited(1)));
    assert!(!classify(Platform::RawExitCode, &signaled(CRASH_SIGNAL)));
}

#[test]
fn observe_crash_names_artifact_and_counts() {
    let mut w = WorkerState::new(0, Platform::SignalInfo, String::from("Canon_40D.jpg"));
    let out = w.observe(&signaled(CRASH_SIGNAL));
    assert!(out.crash);
    assert_eq!(out.artifact_path.as_deref(), Some("./output/crash_0_0_Canon_40D.jpg"));
    assert!(!out.completed_batch);
    assert_eq!(w.crashes, 1);
    let out2 = w.observe(&signaled(CRASH_SIGNAL));
    assert_eq!(out2.artifact_path.as_deref(), Some("./output/crash_0_1_Canon_40D.jpg"));
    assert_eq!(w.crashes, 2);
}

#[test]
fn observe_normal_run_persists_nothing() {
    let mut w = WorkerState::new(4, Platform::SignalInfo, String::from("seed"));
    let out = w.observe(&exited(0));
    assert!(!out.crash);
    assert!(out.artifact_path.is_none());
    assert_eq!(w.crashes, 0);
    // A nonzero exit that is not the crash signature is a normal run too.
    let out2 = w.observe(&exited(1));
    assert!(!out2.crash);
    assert!(out2.artifact_path.is_none());
}

#[test]
fn scenario_crashing_target() {
    // A target that crashes on every input: one crash count and one distinct
    // new artifact path per execution.
    let mut w = WorkerState::new(2, Platform::SignalInfo, String::from("Canon_40D.jpg"));
    let mut stats = Statistics::new();
    let mut artifacts: Vec<String> = Vec::new();
    for i in 0..150u64 {
        let out = w.observe(&signaled(CRASH_SIGNAL));
        assert!(out.crash);
        if out.crash {
            stats.add_crash();
            artifacts.push(out.artifact_path.expect("crash must name an artifact"));
        }
        if out.completed_batch {
            stats.add_cases(BATCH_SIZE);
        }
        assert_eq!(w.crashes, i + 1);
    }
    assert_eq!(stats.num_crashes, 150);
    assert_eq!(artifacts.len(), 150);
    for i in 0..artifacts.len() {
        for j in 0..artifacts.len() {
            if i != j {
                assert_ne!(artifacts[i], artifacts[j]);
            }
        }
    }
}

#[test]
fn scenario_clean_target() {
    // A target that always exits zero: the crash counter stays at zero and
    // the execution counter grows by the run length rounded down to whole
    // batches.
    let mut w = WorkerState::new(0, Platform::SignalInfo, String::from("seed"));
    let mut stats = Statistics::new();
    for _ in 0..250 {
        let out = w.observe(&exited(0));
        assert!(!out.crash);
        if out.completed_batch {
            stats.add_cases(BATCH_SIZE);
        }
    }
    assert_eq!(stats.num_crashes, 0);
    assert_eq!(stats.fuzz_cases, 200);
}

#[test]
fn batch_completes_every_hundredth_execution() {
    let mut w = WorkerState::new(9, Platform::RawExitCode, String::from("seed"));
    let mut completed = 0u64;
    for i in 1..=(BATCH_SIZE * 3) {
        let out = w.observe(&exited(0));
        assert_eq!(out.completed_batch, i % BATCH_SIZE == 0);
        if out.completed_batch {
            completed += 1;
        }
    }
    assert_eq!(completed, 3);
}
