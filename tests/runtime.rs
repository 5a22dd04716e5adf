use hyprswitch::commands::{report_runs, replace_all, CommandRun, Commands, CommandsExecError};
use hyprswitch::event::{event_name_of, event_triggers, on_event, EventLoop, LoopAction, LoopEvent, LoopPhase, WARMUP_ROUNDS};
use hyprswitch::text::{parse_i32, split_on, str_eq};

#[test]
fn home_is_expanded() {
    assert_eq!(Commands::replace_home("~/bin/x ~/y", "/home/u"), "/home/u/bin/x /home/u/y");
    assert_eq!(Commands::replace_home("a~b ~", "/h"), "a~b ~");
    assert_eq!(Commands::replace_home("~~/", "/h"), "~/h/");
    let c = Commands::new(vec!["x".to_string()]);
    assert_eq!(c.cmds, vec!["x"]);
}

#[test]
fn replace_scans_without_overlap() {
    assert_eq!(replace_all("aaa", "aa", "b"), "ba");
    assert_eq!(replace_all("abc", "", "x"), "abc");
}

#[test]
fn runs_are_reported() {
    let cmds = vec!["a".to_string(), "b".to_string(), "c".to_string()];
    let ok = |s: bool| CommandRun { success: s, stdout: "out".to_string(), stderr: "err".to_string() };
    assert_eq!(report_runs(&cmds, &vec![ok(true), ok(true), ok(true)]).ok(), Some(true));
    match report_runs(&cmds, &vec![ok(true), ok(false), ok(false)]) {
        Err(CommandsExecError::CommandsFailed(f)) => {
            assert_eq!(f, vec![
                ("b".to_string(), "out\n***err".to_string()),
                ("c".to_string(), "out\n***err".to_string()),
            ]);
        }
        _ => panic!("expected failures"),
    }
    assert_eq!(report_runs(&vec![], &vec![]).ok(), Some(true));
}

#[test]
fn event_names() {
    assert_eq!(event_name_of("monitoradded>>DP-1"), "monitoradded");
    assert_eq!(event_name_of("a>b>>c>>d"), "a>b");
    assert_eq!(event_name_of("plain"), "plain");
    assert_eq!(event_name_of(">>x"), "");
    assert!(on_event("monitoradded>>DP-1"));
    assert!(on_event("monitoraddedv2>>1,DP-1,desc"));
    assert!(on_event("monitorremoved>>DP-1"));
    assert!(on_event("monitorremovedv2>>1,DP-1,desc"));
    assert!(!on_event("workspace>>2"));
    assert!(on_event("monitoradded"));
    assert!(!on_event("monitoradded "));
    assert!(!on_event("monitoraddedv3>>x"));
    assert!(event_triggers("monitorremoved"));
    assert!(!event_triggers("activewindow"));
}

#[test]
fn loop_runs_once_then_warms_up() {
    let mut l = EventLoop::new();
    assert_eq!(l.step(&LoopEvent::Started), LoopAction::RunCycle);
    assert_eq!(l.phase, LoopPhase::Connecting);
    assert_eq!(l.step(&LoopEvent::ConnectFailed), LoopAction::Connect);
    assert_eq!(l.pause, 0);
    for _ in 0..=WARMUP_ROUNDS {
        assert_eq!(l.step(&LoopEvent::Connected), LoopAction::Connect);
    }
    assert_eq!(l.step(&LoopEvent::Connected), LoopAction::Listen);
    assert_eq!(l.phase, LoopPhase::Listening);
    assert_eq!(l.step(&LoopEvent::Line("workspace>>1".to_string())), LoopAction::Listen);
    assert_eq!(l.step(&LoopEvent::Line("monitoradded>>DP-2".to_string())), LoopAction::RunCycle);
    assert_eq!(l.step(&LoopEvent::Closed), LoopAction::Connect);
    assert_eq!(l.phase, LoopPhase::Connecting);
    assert_eq!(l.step(&LoopEvent::Connected), LoopAction::Listen);
}

#[test]
fn integers_are_read() {
    assert_eq!(parse_i32("42"), Some(42));
    assert_eq!(parse_i32("-7"), Some(-7));
    assert_eq!(parse_i32("+7"), Some(7));
    assert_eq!(parse_i32("2147483647"), Some(i32::MAX));
    assert_eq!(parse_i32("-2147483648"), Some(i32::MIN));
    assert_eq!(parse_i32("2147483648"), None);
    assert_eq!(parse_i32("-"), None);
    assert_eq!(parse_i32(""), None);
    assert_eq!(parse_i32("1a"), None);
    assert_eq!(parse_i32(" 1"), None);
}

#[test]
fn text_helpers() {
    assert_eq!(split_on("a,,b", ','), vec!["a", "", "b"]);
    assert_eq!(split_on("", ','), vec![""]);
    assert_eq!(split_on(",", ','), vec!["", ""]);
    assert!(str_eq("x", "x"));
    assert!(!str_eq("x", "y"));
}
