use kubelet_state::{make_status, Completed, Phase, PodStatus, ResourceState, Transition};

struct Pod {
    name: &'static str,
}

#[derive(Debug, PartialEq)]
struct PodState {
    retries: u32,
}

impl ResourceState for PodState {
    type Manifest = Pod;
}

#[test]
fn completed_ends_the_run_in_success() {
    let mut state = PodState { retries: 3 };
    let pod = Pod { name: "web" };
    let transition: Transition<()> = Box::new(Completed).next(&mut state, &pod);
    assert!(matches!(transition, Transition::Complete(Ok(()))));
    assert_eq!(state, PodState { retries: 3 });
    assert_eq!(pod.name, "web");
}

#[test]
fn completed_reports_succeeded() {
    let state = PodState { retries: 0 };
    let pod = Pod { name: "web" };
    let status = Completed.json_status(&state, &pod);
    assert_eq!(
        status,
        Ok(PodStatus { phase: Phase::Succeeded, reason: String::from("Completed") })
    );
}

#[test]
fn completed_has_a_default() {
    let completed = Completed::default();
    assert_eq!(format!("{:?}", completed), "Completed");
}

#[test]
fn make_status_keeps_phase_and_reason() {
    let status = make_status(Phase::Failed, "Error");
    assert_eq!(status.phase, Phase::Failed);
    assert_eq!(status.reason, "Error");
    let status = make_status(Phase::Running, "");
    assert_eq!(status.phase, Phase::Running);
    assert_eq!(status.reason, "");
    assert_ne!(make_status(Phase::Pending, "x"), make_status(Phase::Unknown, "x"));
}

#[test]
fn phases_have_their_names() {
    assert_eq!(Phase::Pending.name(), "Pending");
    assert_eq!(Phase::Running.name(), "Running");
    assert_eq!(Phase::Succeeded.name(), "Succeeded");
    assert_eq!(Phase::Failed.name(), "Failed");
    assert_eq!(Phase::Unknown.name(), "Unknown");
}
