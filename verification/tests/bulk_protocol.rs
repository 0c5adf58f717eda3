use usiem_elasticsearch::bulk::{process_bulk, BulkState, BulkOutcome};
use usiem_elasticsearch::lines::split_lines;

fn run(body: &str) -> BulkOutcome {
    let rng = fastrand::Rng::with_seed(7);
    process_bulk(body, &rng)
}

fn is_decimal(s: &str) -> bool {
    !s.is_empty() && s.chars().all(|c| c.is_ascii_digit())
}

#[test]
fn bulk_accepts_documents_after_create_actions() {
    let body = "{\"create\":{}}\n{\"message\":\"one\"}\n{\"create\":{}}\n{\"message\":\"two\"}\n";
    let out = run(body);
    assert_eq!(out.documents.len(), 2);
    assert_eq!(out.documents[0].text, "{\"message\":\"one\"}");
    assert_eq!(out.documents[1].text, "{\"message\":\"two\"}");
    assert_eq!(out.documents[0].index, "default");
    assert_eq!(out.documents[0].event["message"], "one");
    assert_eq!(out.documents[1].event, serde_json::from_str::<serde_json::Value>("{\"message\":\"two\"}").unwrap());
    let report = match out.reply {
        Ok(r) => r,
        Err(_) => panic!("the body is valid"),
    };
    assert_eq!(report.took, 2);
    assert!(!report.errors);
    assert_eq!(report.items.len(), 2);
    assert!(report.items.iter().all(|i| i.created && i.index == "default" && is_decimal(&i.id)));
}

#[test]
fn bulk_malformed_document_is_an_error_item() {
    let body = "{\"create\":{}}\nnot json at all\n{\"create\":{}}\n{\"ok\":true}\n";
    let out = run(body);
    assert_eq!(out.documents.len(), 1);
    assert_eq!(out.documents[0].text, "{\"ok\":true}");
    let report = out.reply.ok().unwrap();
    assert_eq!(report.took, 1);
    assert!(report.errors);
    assert_eq!(report.items.len(), 2);
    assert!(!report.items[0].created);
    assert!(report.items[1].created);
    assert_eq!(report.items[0].status(), 400);
    assert_eq!(report.items[1].status(), 201);
}

#[test]
fn bulk_index_and_id_are_read_from_the_top_level_of_the_action() {
    let body = "{\"create\":{},\"_index\":\"winlogbeat\",\"_id\":\"abc\"}\n{\"x\":1}\n{\"create\":{\"_index\":\"nested\",\"_id\":\"n1\"}}\n{\"x\":2}\n";
    let out = run(body);
    let report = out.reply.ok().unwrap();
    assert_eq!(report.items[0].index, "winlogbeat");
    assert_eq!(report.items[0].id, "abc");
    assert_eq!(out.documents[0].index, "winlogbeat");
    assert_eq!(report.items[1].index, "default");
    assert!(is_decimal(&report.items[1].id));
}

#[test]
fn bulk_id_that_is_not_a_string_is_replaced() {
    let body = "{\"create\":{},\"_id\":5,\"_index\":7}\n{\"x\":1}\n";
    let report = run(body).reply.ok().unwrap();
    assert_eq!(report.items[0].index, "default");
    assert!(is_decimal(&report.items[0].id));
}

#[test]
fn bulk_other_actions_announce_no_document() {
    let body = "{\"index\":{}}\n{\"delete\":{}}\n{\"create\":{}}\n{\"y\":1}\n";
    let out = run(body);
    let report = out.reply.ok().unwrap();
    assert_eq!(report.items.len(), 1);
    assert_eq!(out.documents[0].text, "{\"y\":1}");
}

#[test]
fn bulk_invalid_action_reports_its_line() {
    let body = "\n   \n{\"create\":{}}\n{\"a\":1}\n\nnot an action\n{\"create\":{}}\n{\"b\":2}\n";
    let out = run(body);
    match out.reply {
        Err(e) => assert_eq!(e.line, 2),
        Ok(_) => panic!("the action line is not JSON"),
    }
    assert_eq!(out.documents.len(), 1);
    assert_eq!(out.documents[0].text, "{\"a\":1}");
}

#[test]
fn bulk_invalid_first_action() {
    let out = run("garbage\n");
    assert_eq!(out.reply.err().unwrap().line, 0);
    assert!(out.documents.is_empty());
}

#[test]
fn bulk_blank_document_line_is_malformed() {
    let body = "{\"create\":{}}\n\n";
    let report = run(body).reply.ok().unwrap();
    assert_eq!(report.items.len(), 1);
    assert!(!report.items[0].created);
    assert!(report.errors);
}

#[test]
fn bulk_empty_body() {
    let report = run("").reply.ok().unwrap();
    assert_eq!(report.took, 0);
    assert!(!report.errors);
    assert!(report.items.is_empty());
}

#[test]
fn bulk_crlf_lines() {
    let body = "{\"create\":{}}\r\n{\"c\":3}\r\n";
    let out = run(body);
    assert_eq!(out.documents[0].text, "{\"c\":3}");
}

#[test]
fn bulk_step_uses_the_drawn_number_as_id() {
    let mut s = BulkState::new();
    s.take_line("{\"create\":{}}", 0);
    assert!(s.wants_fresh_id());
    s.take_line("{\"z\":0}", 4096);
    assert_eq!(s.items[0].id, "4096");
    assert_eq!(s.line_no, 2);
    assert!(!s.wants_fresh_id());
}

#[test]
fn split_lines_like_str_lines() {
    assert_eq!(split_lines("a\r\nb\n\nc"), vec!["a", "b", "", "c"]);
    assert_eq!(split_lines("a\n"), vec!["a"]);
    assert!(split_lines("").is_empty());
    assert_eq!(split_lines("\n"), vec![""]);
    assert_eq!(split_lines("a\r"), vec!["a\r"]);
    assert_eq!(split_lines("é\nü\r\n"), vec!["é", "ü"]);
    let sample = "x\r\n\r\ny\nz";
    assert_eq!(split_lines(sample), sample.lines().collect::<Vec<_>>());
}

#[test]
fn split_lines_agrees_with_str_lines_on_samples() {
    let samples = [
        "", "\n", "\n\n", "\r\n", "\r", "a", "a\r\n\r\n", "\r\r\n", "a\rb\nc\r", "x\n\ny\r\n z \n",
        "ünï\r\ncødé\n\u{3000}\n",
    ];
    for s in samples.iter() {
        assert_eq!(split_lines(s), s.lines().collect::<Vec<_>>(), "sample {:?}", s);
    }
}
