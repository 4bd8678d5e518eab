use ef_core::build::exec::{stop_command, Capture, Ending};

fn ending(code: Option<i32>) -> Ending {
    Ending { pump_failed: false, code, cancelled: false, signal: None }
}

#[test]
fn output_under_the_budget_is_kept_whole() {
    let mut c = Capture::new(100);
    c.push(b"solver.f:1:1:\n");
    c.push(b"Error: x\n");
    assert!(!c.dropped());
    let (code, text) = c.finish(ending(Some(1)));
    assert_eq!(code, Some(1));
    assert_eq!(text, "solver.f:1:1:\nError: x\n");
}

#[test]
fn a_runaway_cascade_is_cut_at_the_budget_and_says_so() {
    let mut c = Capture::new(10);
    c.push(b"0123456");
    c.push(b"789abc");
    c.push(b"more");
    assert_eq!(c.bytes(), b"0123456789");
    assert!(c.dropped());
    let (_, text) = c.finish(ending(Some(1)));
    assert_eq!(text, "0123456789\n… (output truncated)\n");
}

#[test]
fn invalid_utf8_is_shown_rather_than_lost() {
    let mut c = Capture::new(100);
    c.push(b"caf\xe9\n");
    let (_, text) = c.finish(ending(Some(0)));
    assert_eq!(text, "caf\u{FFFD}\n");
}

#[test]
fn an_unexpected_signal_is_named_but_a_cancel_is_not() {
    let c = Capture::new(10);
    let (code, text) = c.finish(Ending { pump_failed: true, code: None, cancelled: false, signal: Some(9) });
    assert_eq!(code, None);
    assert_eq!(
        text,
        "\n… (some compiler output could not be captured)\n\n… the compiler itself stopped unexpectedly (signal 9)\n"
    );
    let c = Capture::new(10);
    let (_, text) = c.finish(Ending { pump_failed: false, code: None, cancelled: true, signal: Some(9) });
    assert_eq!(text, "");
}

#[test]
fn stopping_takes_the_whole_tree_without_a_shell() {
    let (p, a) = stop_command(4242, false);
    assert_eq!(p, "kill");
    assert_eq!(a, vec!["-KILL".to_string(), "-4242".to_string()]);
    let (p, a) = stop_command(7, true);
    assert_eq!(p, "taskkill");
    assert_eq!(a, vec!["/T", "/F", "/PID", "7"]);
}
