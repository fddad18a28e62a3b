use query_prompt::controller::{SessionAction, SessionEvent, SessionState, SessionStep};
use query_prompt::debounce::DebounceState;
use query_prompt::digits::usize_to_text;
use query_prompt::render::{cleanup_ops, prompt_ops, query_line_ops, query_prefix, DrawOp};
use query_prompt::results::{nav_down, nav_up, ResultEntry};
use query_prompt::trusted::template_admissible;

fn entry(id: &str, title: &str, conf: &str) -> ResultEntry {
    ResultEntry {
        identifier: id.to_string(),
        title: title.to_string(),
        confidence: conf.to_string(),
    }
}

fn keep_going(step: SessionStep) -> Vec<SessionAction> {
    match step {
        SessionStep::KeepGoing(acts) => acts,
        SessionStep::Finished(_) => panic!("session should keep going"),
    }
}

#[test]
fn query_tracks_edits_in_order() {
    let mut s = SessionState::begin();
    s.handle_event(SessionEvent::CharTyped('a'));
    s.handle_event(SessionEvent::CharTyped('b'));
    s.handle_event(SessionEvent::Resized);
    s.handle_event(SessionEvent::CharTyped('c'));
    s.handle_event(SessionEvent::Backspace);
    s.handle_event(SessionEvent::CharTyped('d'));
    assert_eq!(s.query_text(), "abd");
    s.handle_event(SessionEvent::Backspace);
    s.handle_event(SessionEvent::Backspace);
    s.handle_event(SessionEvent::Backspace);
    s.handle_event(SessionEvent::Backspace);
    assert_eq!(s.query_text(), "");
}

#[test]
fn edits_emit_redraw_and_search() {
    let mut s = SessionState::begin();
    let acts = keep_going(s.handle_event(SessionEvent::CharTyped('x')));
    assert!(matches!(acts[0], SessionAction::RedrawQuery));
    assert!(matches!(acts[1], SessionAction::StartSearch));
    assert_eq!(acts.len(), 2);
}

#[test]
fn navigation_wraps_modulo_count() {
    assert_eq!(nav_down(0, 5), 1);
    assert_eq!(nav_down(4, 5), 0);
    assert_eq!(nav_up(0, 5), 4);
    assert_eq!(nav_up(3, 5), 2);
    assert_eq!(nav_down(0, 1), 0);
    assert_eq!(nav_up(0, 1), 0);
}

#[test]
fn navigation_on_empty_results_is_a_no_op() {
    let mut s = SessionState::begin();
    // no results installed at all
    let acts = keep_going(s.handle_event(SessionEvent::MoveDown));
    assert_eq!(acts.len(), 0);
    assert_eq!(s.selected, 0);
    // an installed but empty result set
    keep_going(s.handle_event(SessionEvent::SearchOk(Vec::new())));
    let acts = keep_going(s.handle_event(SessionEvent::MoveUp));
    assert_eq!(acts.len(), 0);
    assert_eq!(s.selected, 0);
}

#[test]
fn installing_results_resets_selection() {
    let mut s = SessionState::begin();
    let rs = vec![entry("a", "A", "1"), entry("b", "B", "2"), entry("c", "C", "3")];
    keep_going(s.handle_event(SessionEvent::SearchOk(rs.clone())));
    keep_going(s.handle_event(SessionEvent::MoveDown));
    keep_going(s.handle_event(SessionEvent::MoveDown));
    assert_eq!(s.selected, 2);
    keep_going(s.handle_event(SessionEvent::SearchOk(rs)));
    assert_eq!(s.selected, 0);
    keep_going(s.handle_event(SessionEvent::MoveDown));
    assert_eq!(s.selected, 1);
    let acts = keep_going(s.handle_event(SessionEvent::SearchFailed("boom".to_string())));
    assert_eq!(s.selected, 0);
    assert!(matches!(&acts[0], SessionAction::ShowError(m) if m == "boom"));
    match &s.results {
        Some(rs) => assert_eq!(rs.len(), 0),
        None => panic!("an errored search leaves an installed empty result set"),
    }
}

#[test]
fn enter_yields_the_selected_identifier() {
    let mut s = SessionState::begin();
    let rs = vec![entry("first", "F", "1"), entry("second", "S", "0.5")];
    keep_going(s.handle_event(SessionEvent::SearchOk(rs)));
    keep_going(s.handle_event(SessionEvent::MoveDown));
    match s.handle_event(SessionEvent::Enter) {
        SessionStep::Finished(out) => assert_eq!(out.as_deref(), Some("second")),
        SessionStep::KeepGoing(_) => panic!("enter with a valid selection terminates"),
    }
}

#[test]
fn enter_without_results_is_a_no_op() {
    let mut s = SessionState::begin();
    assert!(matches!(s.handle_event(SessionEvent::Enter), SessionStep::KeepGoing(_)));
    keep_going(s.handle_event(SessionEvent::SearchOk(Vec::new())));
    assert!(matches!(s.handle_event(SessionEvent::Enter), SessionStep::KeepGoing(_)));
}

#[test]
fn escape_always_terminates_with_nothing() {
    // with an empty query
    let mut s = SessionState::begin();
    assert!(matches!(s.handle_event(SessionEvent::Escape), SessionStep::Finished(None)));
    // in the middle of typing
    let mut s = SessionState::begin();
    keep_going(s.handle_event(SessionEvent::CharTyped('q')));
    assert!(matches!(s.handle_event(SessionEvent::Escape), SessionStep::Finished(None)));
    // with results shown and one selected
    let mut s = SessionState::begin();
    keep_going(s.handle_event(SessionEvent::SearchOk(vec![entry("a", "A", "1")])));
    keep_going(s.handle_event(SessionEvent::MoveDown));
    assert!(matches!(s.handle_event(SessionEvent::Escape), SessionStep::Finished(None)));
}

#[test]
fn debounce_keeps_only_the_last_of_a_burst() {
    let mut d = DebounceState::start(10);
    assert_eq!(d.poll(100), None);
    d.submit("a".to_string(), 0);
    assert_eq!(d.poll(5), None);
    d.submit("ab".to_string(), 5);
    assert_eq!(d.poll(9), None);
    d.submit("abc".to_string(), 9);
    assert_eq!(d.poll(18), None);
    assert_eq!(d.poll(19).as_deref(), Some("abc"));
    // yielded exactly once
    assert_eq!(d.poll(100), None);
}

#[test]
fn debounce_waits_a_full_delay() {
    let mut d = DebounceState::start(250);
    d.submit("q".to_string(), 1000);
    assert_eq!(d.poll(1249), None);
    assert_eq!(d.poll(1250).as_deref(), Some("q"));
}

#[test]
fn panicking_template_shapes_are_refused() {
    // the engine's compiler crashes on these shapes rather than erroring;
    // the library keeps them out by precondition
    assert!(!template_admissible("a{#}b"));
    assert!(!template_admissible("{#}"));
    assert!(!template_admissible("ends with a backslash\\"));
    assert!(!template_admissible("\\"));
    assert!(!template_admissible("{{ if not }}x{{ endif }}"));
    assert!(!template_admissible("{{if not}}"));
    assert!(!template_admissible("{{- if  not -}}"));
    // `not` followed directly by a character outside ASCII: the engine
    // slices inside that character
    assert!(!template_admissible("{{if not\u{e9}x}}"));
    assert!(!template_admissible("{{ if not\u{e9} }}{{ endif }}"));
    assert!(template_admissible(""));
    assert!(template_admissible("{query}"));
    assert!(template_admissible("{# a comment #} {title}"));
    assert!(template_admissible("escaped brace \\{ text"));
    assert!(template_admissible("{{ if something }}{title}{{ endif }}"));
    assert!(template_admissible("{{ if nothing }}{{ endif }}"));
    assert!(template_admissible("{{ if notx }}{{ endif }}"));
}

#[test]
fn decimal_text_is_exact() {
    assert_eq!(usize_to_text(0), "0");
    assert_eq!(usize_to_text(7), "7");
    assert_eq!(usize_to_text(10), "10");
    assert_eq!(usize_to_text(907), "907");
    assert_eq!(usize_to_text(18446744073709551615), "18446744073709551615");
}

#[test]
fn query_line_redraw_shape() {
    let ops = query_line_ops("abc");
    assert_eq!(ops.len(), 6);
    assert!(matches!(ops[0], DrawOp::RestoreCursor));
    assert!(matches!(ops[1], DrawOp::CarriageReturn));
    assert!(matches!(ops[2], DrawOp::MoveRight(n) if n as usize == query_prefix().len()));
    assert!(matches!(ops[3], DrawOp::ClearLine));
    assert!(matches!(&ops[4], DrawOp::Text(t) if t == "abc"));
    assert!(matches!(ops[5], DrawOp::SaveCursor));
}

#[test]
fn prompt_and_cleanup_shapes() {
    let p = prompt_ops();
    assert!(matches!(&p[0], DrawOp::Text(t) if t == "Search > "));
    assert!(matches!(p[1], DrawOp::SaveCursor));
    let c = cleanup_ops();
    assert!(matches!(c[0], DrawOp::CarriageReturn));
    assert!(matches!(c[1], DrawOp::ClearBelow));
}
