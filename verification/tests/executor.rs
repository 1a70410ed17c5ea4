use mavis_core::executor::{
    action_request, audio_backends, extract_actions, needs_handler, shell_result, ActionRequest,
    PlanRun, StepOutcome,
};
use mavis_core::safety::risk::{Plan, PlanAction};

fn step(kind: &str) -> PlanAction {
    PlanAction {
        kind: Some(kind.into()),
        ..PlanAction::default()
    }
}

#[test]
fn test_extract_actions_array() {
    let plan = Plan::List(vec![PlanAction {
        command: Some("echo hi".into()),
        ..step("shell")
    }]);
    let actions = extract_actions(&plan);
    assert_eq!(actions.len(), 1);
}

#[test]
fn test_extract_actions_object_with_actions() {
    let plan = Plan::Object {
        action: PlanAction::default(),
        actions: Some(vec![PlanAction {
            text: Some("hello".into()),
            ..step("say")
        }]),
    };
    let actions = extract_actions(&plan);
    assert_eq!(actions.len(), 1);
}

#[test]
fn test_extract_actions_single_object() {
    let plan = Plan::Object {
        action: PlanAction {
            message: Some("test".into()),
            ..step("notify")
        },
        actions: None,
    };
    let actions = extract_actions(&plan);
    assert_eq!(actions.len(), 1);
}

#[test]
fn test_extract_actions_invalid() {
    let plan = Plan::Other;
    let actions = extract_actions(&plan);
    assert!(actions.is_empty());
}

#[test]
fn extracted_steps_keep_their_order_and_fields() {
    let plan = Plan::List(vec![step("say"), step("system")]);
    let actions = extract_actions(&plan);
    assert_eq!(actions[0].kind.as_deref(), Some("say"));
    assert_eq!(actions[1].kind.as_deref(), Some("system"));
}

#[test]
fn each_step_type_reads_as_its_request() {
    let shell = PlanAction {
        command: Some("ls".into()),
        ..step("shell")
    };
    assert!(matches!(action_request(&shell), Ok(ActionRequest::Shell(c)) if c == "ls"));
    assert_eq!(
        action_request(&step("shell")).err().unwrap(),
        "shell action missing 'command'"
    );
    let app = PlanAction {
        target: Some("firefox".into()),
        args: vec!["--new-window".into()],
        ..step("app")
    };
    match action_request(&app) {
        Ok(ActionRequest::App { target, args }) => {
            assert_eq!(target, "firefox");
            assert_eq!(args, vec!["--new-window".to_string()]);
        }
        _ => panic!("expected an app request"),
    }
    assert_eq!(action_request(&step("app")).err().unwrap(), "app action missing 'target'");
    match action_request(&step("notify")) {
        Ok(ActionRequest::Notify { title, message }) => {
            assert_eq!(title, "MAVIS");
            assert_eq!(message, "");
        }
        _ => panic!("expected a notification"),
    }
    assert_eq!(action_request(&step("say")).err().unwrap(), "say action missing 'text'");
    assert!(matches!(action_request(&step("system")), Ok(ActionRequest::System(op)) if op == "unknown"));
    assert_eq!(
        action_request(&step("dance")).err().unwrap(),
        "unknown action type: dance"
    );
    assert_eq!(
        action_request(&PlanAction::default()).err().unwrap(),
        "unknown action type: unknown"
    );
}

#[test]
fn a_run_finishes_idle_unless_speech_is_queued() {
    let mut run = PlanRun::start(2);
    assert_eq!(run.step_done(false, true), StepOutcome::Continue);
    assert_eq!(run.step_done(false, true), StepOutcome::Finished { show_idle: true });
    let mut run = PlanRun::start(1);
    assert_eq!(run.step_done(true, true), StepOutcome::Finished { show_idle: false });
    let mut run = PlanRun::start(3);
    assert_eq!(run.step_done(false, false), StepOutcome::Failed);
    assert!(run.stopped);
    assert!(PlanRun::start(0).stopped);
}

#[test]
fn shell_output_reads_as_the_original_reports_it() {
    assert_eq!(shell_result("  hi \n", "", true, Some(0)), Ok("hi".to_string()));
    assert_eq!(shell_result(" out ", " warn \n", true, Some(0)), Ok("out\nwarn".to_string()));
    assert_eq!(shell_result("", " boom\n", false, Some(2)), Err("exit 2: boom".to_string()));
    assert_eq!(shell_result("", "", false, None), Err("exit signal: ".to_string()));
    assert_eq!(shell_result("", "x", false, Some(-1)), Err("exit -1: x".to_string()));
}

#[test]
fn urls_and_paths_go_to_the_desktop_handler() {
    assert!(needs_handler("https://example.com"));
    assert!(needs_handler("/home/me/notes.txt"));
    assert!(needs_handler("~/notes.txt"));
    assert!(!needs_handler("firefox"));
    assert!(!needs_handler(""));
}

#[test]
fn players_are_tried_pipewire_first() {
    let b = audio_backends("/tmp/a.wav", Some("hw0"));
    assert_eq!(b[0], ("pw-play".to_string(), vec!["/tmp/a.wav".to_string(), "--device".into(), "hw0".into()]));
    assert_eq!(b[1].0, "paplay");
    assert_eq!(b[2], ("aplay".to_string(), vec!["/tmp/a.wav".to_string()]));
    let b = audio_backends("/tmp/a.wav", None);
    assert_eq!(b[0].1, vec!["/tmp/a.wav".to_string()]);
}
