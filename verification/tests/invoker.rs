use query_prompt::controller::{SessionEvent, SessionState, SessionStep};
use query_prompt::payload::parse_payload;
use query_prompt::render::{render_results, DrawOp};
use query_prompt::results::ResultEntry;
use query_prompt::search::{build_command, decode_search_output};

fn decode_ok(bytes: &[u8]) -> Vec<ResultEntry> {
    decode_search_output(true, "", &bytes.to_vec(), &Vec::new())
        .expect("payload should decode")
}

#[test]
fn command_templates_render_query_and_escaped_query() {
    let args = vec!["--query".to_string(), "{query}".to_string(), "{query_escaped}".to_string()];
    let r = build_command("echo", &args, "a\nb").expect("templates should render");
    assert_eq!(r.0, "echo");
    assert_eq!(r.1, vec!["--query".to_string(), "a\nb".to_string(), "a\\nb".to_string()]);
}

#[test]
fn malformed_template_is_reported() {
    let args = vec!["{query".to_string()];
    assert!(build_command("echo", &args, "x").is_err());
    assert!(build_command("{nosuchfield}", &Vec::new(), "x").is_err());
}

#[test]
fn plain_payload_decodes() {
    let out = decode_ok(
        b"{\"results\":[{\"identifier\":\"a\",\"title\":\"Alpha\",\"confidence\":1.0}]}",
    );
    assert_eq!(out.len(), 1);
    assert_eq!(out[0].identifier, "a");
    assert_eq!(out[0].title, "Alpha");
    assert_eq!(out[0].confidence, "1.0");
}

#[test]
fn payload_accepts_whitespace_and_any_member_order() {
    let out = decode_ok(
        b" {\n\t\"results\" : [ { \"confidence\": -2.5e-1 , \"title\": \"T\", \"identifier\": \"i1\" } ,\n {\"identifier\":\"i2\",\"title\":\"U\",\"confidence\":3} ] } \n",
    );
    assert_eq!(out.len(), 2);
    assert_eq!(out[0].identifier, "i1");
    assert_eq!(out[0].confidence, "-2.5e-1");
    assert_eq!(out[1].identifier, "i2");
    assert_eq!(out[1].confidence, "3");
}

#[test]
fn payload_unescapes_strings_and_keeps_unicode() {
    let out = decode_ok(
        "{\"results\":[{\"identifier\":\"a\\\"b\\\\c\",\"title\":\"caf\u{e9} \\n\",\"confidence\":0.25}]}"
            .as_bytes(),
    );
    assert_eq!(out[0].identifier, "a\"b\\c");
    assert_eq!(out[0].title, "caf\u{e9} \n");
    assert_eq!(out[0].confidence, "0.25");
}

#[test]
fn empty_result_list_is_a_valid_success() {
    let out = decode_ok(b"{\"results\":[]}");
    assert_eq!(out.len(), 0);
}

#[test]
fn malformed_payloads_are_decode_failures() {
    let bad: &[&[u8]] = &[
        b"",
        b"nonsense",
        b"{\"results\":}",
        b"{\"results\":[{\"identifier\":\"a\",\"title\":\"T\"}]}",
        b"{\"results\":[{\"identifier\":\"a\",\"identifier\":\"b\",\"title\":\"T\",\"confidence\":1}]}",
        b"{\"results\":[{\"identifier\":\"a\",\"title\":\"T\",\"confidence\":01e}]}",
        b"{\"results\":[{\"identifier\":\"a\",\"title\":\"T\",\"confidence\":01}]}",
        b"{\"results\":[{\"identifier\":\"a\",\"title\":\"\\uD834\",\"confidence\":1}]}",
        b"{\"results\":[{\"identifier\":\"a\",\"title\":\"\\uZZZZ\",\"confidence\":1}]}",
        b"{\"results\":[]} trailing",
        b"{\"results\":[],\"results\":[]}",
        b"{\"other\":[]}",
        b"{}",
    ];
    for b in bad {
        let r = decode_search_output(true, "", &b.to_vec(), &Vec::new());
        assert!(r.is_err(), "should not decode: {:?}", String::from_utf8_lossy(b));
    }
}

#[test]
fn unicode_escapes_decode() {
    let out = decode_ok(
        b"{\"results\":[{\"identifier\":\"\\u0041\\u00e9\",\"title\":\"\\uD834\\uDD1E\",\"confidence\":0}]}",
    );
    assert_eq!(out[0].identifier, "A\u{e9}");
    assert_eq!(out[0].title, "\u{1D11E}");
}

#[test]
fn unknown_members_are_skipped() {
    // entry-level members of every value shape, and a top-level one
    let out = decode_ok(
        b"{ \"tool\": {\"name\": \"x\", \"tags\": [1, 2]}, \"results\": [ {\"rank\": 0.5, \"identifier\": \"a\", \"flags\": [true, null, \"s\"], \"title\": \"T\", \"extra\": {\"deep\": [{}]}, \"confidence\": 1.5} ], \"count\": 1 }",
    );
    assert_eq!(out.len(), 1);
    assert_eq!(out[0].identifier, "a");
    assert_eq!(out[0].title, "T");
    assert_eq!(out[0].confidence, "1.5");
}

#[test]
fn number_forms_follow_the_grammar() {
    let out = decode_ok(
        b"{\"results\":[{\"identifier\":\"a\",\"title\":\"T\",\"confidence\":0}, {\"identifier\":\"b\",\"title\":\"U\",\"confidence\":0.5}, {\"identifier\":\"c\",\"title\":\"V\",\"confidence\":10e2}]}",
    );
    assert_eq!(out[0].confidence, "0");
    assert_eq!(out[1].confidence, "0.5");
    assert_eq!(out[2].confidence, "10e2");
}

#[test]
fn parse_payload_is_reachable_directly() {
    let raw = parse_payload(
        &b"{\"results\":[{\"identifier\":\"x\",\"title\":\"y\",\"confidence\":9}]}".to_vec(),
    )
    .expect("well-formed payload");
    assert_eq!(raw[0].identifier, b"x".to_vec());
    assert_eq!(raw[0].confidence, b"9".to_vec());
    assert!(parse_payload(&b"[]".to_vec()).is_none());
}

#[test]
fn failed_process_reports_stderr_and_status() {
    let r = decode_search_output(false, "exit status: 1", &Vec::new(), &b"boom".to_vec());
    let msg = r.expect_err("a failed process is a failure");
    assert!(msg.contains("boom"));
    assert!(msg.contains("status error"));
    assert!(msg.contains("exit status: 1"));
}

#[test]
fn undecodable_stderr_uses_the_fallback() {
    let r = decode_search_output(false, "exit status: 1", &Vec::new(), &vec![0xff, 0xfe]);
    let msg = r.expect_err("a failed process is a failure");
    assert!(msg.contains("unable to decode stderr as utf-8"));
}

#[test]
fn typing_then_enter_yields_the_decoded_identifier() {
    // the configured command writes one entry for "a"; after its output is
    // decoded and installed, enter hands that identifier back
    let out = decode_ok(
        b"{\"results\":[{\"identifier\":\"a\",\"title\":\"Alpha\",\"confidence\":1.0}]}",
    );
    let mut s = SessionState::begin();
    s.handle_event(SessionEvent::CharTyped('a'));
    s.handle_event(SessionEvent::SearchOk(out));
    match s.handle_event(SessionEvent::Enter) {
        SessionStep::Finished(got) => assert_eq!(got.as_deref(), Some("a")),
        SessionStep::KeepGoing(_) => panic!("enter should terminate"),
    }
}

#[test]
fn failed_search_shows_error_then_empty_state() {
    let msg = decode_search_output(false, "exit status: 1", &Vec::new(), &b"boom".to_vec())
        .expect_err("failure expected");
    let mut s = SessionState::begin();
    s.handle_event(SessionEvent::CharTyped('a'));
    s.handle_event(SessionEvent::SearchFailed(msg));
    let (ops, err) = render_results("{title}", &s.results, s.selected, 40);
    assert!(err.is_none());
    let texts: Vec<&str> = ops
        .iter()
        .filter_map(|o| match o {
            DrawOp::Text(t) => Some(t.as_str()),
            _ => None,
        })
        .collect();
    assert_eq!(texts, vec!["no entries found"]);
}

fn five_entries() -> Vec<ResultEntry> {
    (0..5)
        .map(|i| ResultEntry {
            identifier: format!("id{}", i),
            title: format!("T{}", i),
            confidence: format!("{}", i),
        })
        .collect()
}

fn first_text(ops: &[DrawOp]) -> String {
    ops.iter()
        .find_map(|o| match o {
            DrawOp::Text(t) => Some(t.clone()),
            _ => None,
        })
        .expect("a rendered row")
}

#[test]
fn window_rotates_with_selection_under_a_short_terminal() {
    // five entries, height 5: three visible rows; the highlighted first row
    // cycles 1, 2, 3, 4, 0 as the selection moves down
    let mut s = SessionState::begin();
    s.handle_event(SessionEvent::SearchOk(five_entries()));
    let mut seen = Vec::new();
    for _ in 0..4 {
        s.handle_event(SessionEvent::MoveDown);
        let (ops, err) = render_results("{identifier}", &s.results, s.selected, 5);
        assert!(err.is_none());
        let texts: Vec<String> = ops
            .iter()
            .filter_map(|o| match o {
                DrawOp::Text(t) => Some(t.clone()),
                _ => None,
            })
            .collect();
        assert_eq!(texts.len(), 3, "three rows fit");
        // row order rotates: selected first, then the following entries
        assert_eq!(texts[1], format!("id{}", (s.selected + 1) % 5));
        assert_eq!(texts[2], format!("id{}", (s.selected + 2) % 5));
        seen.push(texts[0].clone());
        // the highlighted row is the first one
        let hl = ops.iter().position(|o| matches!(o, DrawOp::HighlightOn)).unwrap();
        assert!(matches!(&ops[hl + 2], DrawOp::Text(_)));
    }
    s.handle_event(SessionEvent::MoveDown);
    let (ops, _) = render_results("{identifier}", &s.results, s.selected, 5);
    seen.push(first_text(&ops));
    assert_eq!(seen, vec!["id1", "id2", "id3", "id4", "id0"]);
}

#[test]
fn display_row_round_trips_its_fields() {
    let entries = vec![ResultEntry {
        identifier: "key-7".to_string(),
        title: "Some Title".to_string(),
        confidence: "0.75".to_string(),
    }];
    let (ops, err) = render_results(
        "{identifier}|{title}|{index}|{one_based_index}|{confidence}",
        &Some(entries),
        0,
        40,
    );
    assert!(err.is_none());
    let row = first_text(&ops);
    let fields: Vec<&str> = row.split('|').collect();
    assert_eq!(fields, vec!["key-7", "Some Title", "0", "1", "0.75"]);
}

#[test]
fn render_always_restores_the_cursor() {
    // no results, empty results, rows, and a failing row template
    let cases: Vec<(Option<Vec<ResultEntry>>, &str)> = vec![
        (None, "{identifier}"),
        (Some(Vec::new()), "{identifier}"),
        (Some(five_entries()), "{identifier}"),
        (Some(five_entries()), "{nosuchfield}"),
    ];
    for (results, tpl) in cases {
        let (ops, _) = render_results(tpl, &results, 0, 24);
        assert!(matches!(ops.last(), Some(DrawOp::RestoreCursor)));
        assert!(matches!(ops.first(), Some(DrawOp::ClearBelow)));
    }
    // the failing template is a reported error
    let (_, err) = render_results("{nosuchfield}", &Some(five_entries()), 0, 24);
    assert!(err.is_some());
}
