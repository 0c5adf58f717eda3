use usiem_elasticsearch::bulk::process_bulk;
use usiem_elasticsearch::output::{
    log_timestamp, ElasticOuputConfig, OutputAction, OutputBatcher, OutputEvent, OutputPhase,
};

fn config(max: usize, token: Option<&str>) -> ElasticOuputConfig {
    ElasticOuputConfig {
        commit_max_messages: max,
        commit_timeout: 1,
        commit_time: 1,
        cache_size: 20,
        elastic_address: String::from("http://127.0.0.1:9200"),
        elastic_stream: String::from("log-integration-test"),
        bearer_token: token.map(|t| t.to_string()),
    }
}

fn log(n: u32) -> OutputEvent {
    OutputEvent::Log { json: Some(format!("{{\"message\":\"Log for testing only {}\"}}", n)), overdue: false }
}

fn body_of(a: OutputAction) -> String {
    match a {
        OutputAction::Deliver { body, .. } => body,
        _ => panic!("expected a delivery"),
    }
}

#[test]
fn output_url_and_authorization() {
    let c = config(10, Some("SECRET-REDACTED"));
    assert_eq!(c.bulk_url(), "http://127.0.0.1:9200/log-integration-test/_bulk");
    assert_eq!(c.authorization(), Some(String::from("Bearer SECRET-REDACTED")));
    assert_eq!(config(10, None).authorization(), None);
}

#[test]
fn output_stop_command_stops() {
    let mut b = OutputBatcher::new(&config(10, None));
    assert!(matches!(b.step(OutputEvent::StopCommand), OutputAction::Stop));
}

#[test]
fn output_collects_then_delivers_all() {
    let mut b = OutputBatcher::new(&config(10, None));
    assert!(matches!(b.step(log(0)), OutputAction::ReceiveCommand { restart_clock: false }));
    assert!(matches!(b.step(OutputEvent::Empty), OutputAction::ReceiveLog));
    assert!(matches!(b.step(log(1)), OutputAction::ReceiveLog));
    assert!(matches!(b.step(log(2)), OutputAction::ReceiveLog));
    let body = body_of(b.step(OutputEvent::Empty));
    assert_eq!(
        body,
        "{\"create\":{}}\n{\"message\":\"Log for testing only 0\"}\n{\"create\":{}}\n{\"message\":\"Log for testing only 1\"}\n{\"create\":{}}\n{\"message\":\"Log for testing only 2\"}\n\n"
    );
    assert_eq!(b.phase(), OutputPhase::Delivering { sent: 3 });
    assert!(matches!(b.step(OutputEvent::Delivered { ok: true }), OutputAction::ReceiveCommand { restart_clock: true }));
    assert_eq!(b.cached(), 0);
}

#[test]
fn output_failed_delivery_keeps_cache() {
    let mut b = OutputBatcher::new(&config(10, None));
    b.step(log(0));
    b.step(log(1));
    b.step(OutputEvent::Empty);
    let _ = body_of(b.step(OutputEvent::Empty));
    assert!(matches!(b.step(OutputEvent::Delivered { ok: false }), OutputAction::ReceiveCommand { restart_clock: false }));
    assert_eq!(b.cached(), 2);
}

#[test]
fn output_single_log_is_delivered() {
    let mut b = OutputBatcher::new(&config(10, None));
    b.step(log(0));
    assert!(matches!(b.step(OutputEvent::Empty), OutputAction::ReceiveLog));
    match b.step(OutputEvent::Empty) {
        OutputAction::Deliver { body, timeout_secs } => {
            assert_eq!(body, "{\"create\":{}}\n{\"message\":\"Log for testing only 0\"}\n\n");
            assert_eq!(timeout_secs, 1);
        }
        _ => panic!("expected a delivery"),
    }
    b.step(OutputEvent::Delivered { ok: true });
    assert_eq!(b.cached(), 0);
}

#[test]
fn output_one_log_per_request_when_limit_is_one() {
    let mut b = OutputBatcher::new(&config(1, None));
    assert!(matches!(b.step(log(0)), OutputAction::ReceiveCommand { restart_clock: false }));
    let first = body_of(b.step(log(1)));
    assert_eq!(first, "{\"create\":{}}\n{\"message\":\"Log for testing only 0\"}\n\n");
    b.step(OutputEvent::Delivered { ok: true });
    assert_eq!(b.cached(), 1);
    let second = body_of(b.step(OutputEvent::Empty));
    assert_eq!(second, "{\"create\":{}}\n{\"message\":\"Log for testing only 1\"}\n\n");
    b.step(OutputEvent::Delivered { ok: true });
    assert_eq!(b.cached(), 0);
}

#[test]
fn output_every_log_delivered_exactly_once() {
    let mut b = OutputBatcher::new(&config(30, None));
    let mut delivered = 0;
    let mut action = OutputAction::ReceiveCommand { restart_clock: false };
    let mut next_log = 0;
    for _ in 0..1000 {
        let event = match action {
            OutputAction::ReceiveCommand { .. } | OutputAction::ReceiveLog => {
                if next_log < 100 {
                    next_log += 1;
                    log(next_log - 1)
                } else {
                    OutputEvent::Empty
                }
            }
            OutputAction::Deliver { body, .. } => {
                delivered += body.matches("{\"create\":{}}").count();
                OutputEvent::Delivered { ok: true }
            }
            OutputAction::PauseThenReceiveCommand => OutputEvent::OtherMessage,
            OutputAction::Stop => break,
        };
        action = b.step(event);
    }
    assert_eq!(delivered, 100);
    assert_eq!(b.cached(), 0);
}

#[test]
fn output_batch_limited_by_commit_max_messages() {
    let mut b = OutputBatcher::new(&config(2, None));
    b.step(log(0));
    b.step(log(1));
    let body = body_of(b.step(log(2)));
    assert_eq!(body.matches("{\"create\":{}}").count(), 2);
    assert_eq!(b.phase(), OutputPhase::Delivering { sent: 2 });
    b.step(OutputEvent::Delivered { ok: true });
    assert_eq!(b.cached(), 1);
}

#[test]
fn output_overdue_log_starts_a_round() {
    let mut b = OutputBatcher::new(&config(10, None));
    b.step(log(0));
    let a = b.step(OutputEvent::Log { json: Some(String::from("{}")), overdue: true });
    assert!(matches!(a, OutputAction::ReceiveLog));
}

#[test]
fn output_disconnections() {
    let mut b = OutputBatcher::new(&config(10, None));
    assert!(matches!(b.step(OutputEvent::Disconnected), OutputAction::PauseThenReceiveCommand));
    assert!(matches!(b.step(OutputEvent::Empty), OutputAction::ReceiveLog));
    assert!(matches!(b.step(OutputEvent::Disconnected), OutputAction::ReceiveCommand { restart_clock: false }));
    b.step(log(0));
    b.step(OutputEvent::Empty);
    let body = body_of(b.step(OutputEvent::Disconnected));
    assert_eq!(body, "{\"create\":{}}\n{\"message\":\"Log for testing only 0\"}\n\n");
}

#[test]
fn output_unserializable_log_is_counted_but_not_sent() {
    let mut b = OutputBatcher::new(&config(10, None));
    b.step(log(0));
    b.step(OutputEvent::Log { json: None, overdue: false });
    b.step(OutputEvent::Empty);
    let body = body_of(b.step(OutputEvent::Empty));
    assert_eq!(body, "{\"create\":{}}\n{\"message\":\"Log for testing only 0\"}\n\n");
}

#[test]
fn output_batch_is_read_back_by_input() {
    let mut b = OutputBatcher::new(&config(100, None));
    for i in 0..5 {
        b.step(log(i));
    }
    b.step(OutputEvent::Empty);
    let body = body_of(b.step(OutputEvent::Empty));
    let out = process_bulk(&body, &fastrand::Rng::new());
    assert_eq!(out.documents.len(), 5);
    for (i, d) in out.documents.iter().enumerate() {
        assert_eq!(d.text, format!("{{\"message\":\"Log for testing only {}\"}}", i));
        assert!(d.event["message"].as_str().unwrap().contains("Log for testing only"));
    }
    let report = out.reply.ok().unwrap();
    assert_eq!(report.took, 5);
    assert!(!report.errors);
}

#[test]
fn output_timestamps() {
    assert_eq!(log_timestamp(0), Some(String::from("1970-01-01T00:00:00Z")));
    assert_eq!(log_timestamp(1_500), Some(String::from("1970-01-01T00:00:01.500Z")));
    assert_eq!(log_timestamp(i64::MAX), None);
}
