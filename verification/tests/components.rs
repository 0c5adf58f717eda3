use usiem_elasticsearch::component::{
    input_capabilities, input_step, output_capabilities, worker_threads, CommandKind, InputAction,
    InputEvent, Role,
};
use usiem_elasticsearch::replies::{
    cat_templates_body, cluster_info, invalid_operation_message, license_info, remote_origin,
};
use usiem_elasticsearch::text::{decimal_string, is_blank};

#[test]
fn input_thread_count_is_at_least_one() {
    assert_eq!(worker_threads(0), 1);
    assert_eq!(worker_threads(1), 1);
    assert_eq!(worker_threads(8), 8);
}

#[test]
fn input_control_loop() {
    assert!(input_step(&InputEvent::StopCommand) == InputAction::Stop);
    assert!(input_step(&InputEvent::Disconnected) == InputAction::Stop);
    assert!(input_step(&InputEvent::Empty) == InputAction::Wait);
    assert!(input_step(&InputEvent::OtherMessage) == InputAction::Wait);
}

#[test]
fn component_capabilities() {
    let c = input_capabilities();
    assert_eq!(c.name, "ElasticSearchInput");
    assert_eq!(c.description, "Send logs to elasticsearch");
    assert_eq!(c.view, "");
    assert_eq!(c.commands.len(), 2);
    assert!(c.commands[0].kind == CommandKind::StopComponent);
    assert_eq!(c.commands[0].name, "Stop ElasticSearch Input");
    assert!(c.commands[0].role == Role::Administrator);
    assert!(c.commands[1].kind == CommandKind::StartComponent);
    assert_eq!(c.commands[1].description, "This allows sending logs to ElasticSearch.");
    let o = output_capabilities();
    assert_eq!(o.name, "ElasticSearchOutput");
    assert_eq!(o.commands[1].name, "Start ElasticSearch Output");
    assert_eq!(
        o.commands[0].description,
        "This allows stopping all ElasticSearch components.\nUse only when really needed, like mantaining ElasticSearch."
    );
}

#[test]
fn replies_text() {
    assert_eq!(cat_templates_body("logs"), "logs [logs-*] 1  ");
    assert_eq!(invalid_operation_message(12), "Not a valid \"operation\" in line 12");
}

#[test]
fn replies_remote_origin() {
    let a = remote_origin(None, Some(5));
    assert_eq!((a.ip, a.address.as_str()), (0, ""));
    let b = remote_origin(Some("10.0.0.1"), Some(167772161));
    assert_eq!((b.ip, b.address.as_str()), (167772161, ""));
    let c = remote_origin(Some("10.0.0.1:5000"), None);
    assert_eq!((c.ip, c.address.as_str()), (0, "10.0.0.1:5000"));
}

#[test]
fn text_decimal() {
    assert_eq!(decimal_string(0), "0");
    assert_eq!(decimal_string(7), "7");
    assert_eq!(decimal_string(1234567890), "1234567890");
    assert_eq!(decimal_string(u64::MAX), u64::MAX.to_string());
}

#[test]
fn text_blank_lines() {
    assert!(is_blank(""));
    assert!(is_blank(" \t\r\u{3000}\u{85}"));
    assert!(!is_blank("  x "));
    assert!(!is_blank("\u{200b}"));
}

#[test]
fn text_blank_agrees_with_trim_for_every_char() {
    for code in 0u32..=0x10FFFF {
        if let Some(c) = char::from_u32(code) {
            let s = c.to_string();
            assert_eq!(is_blank(&s), s.trim().is_empty(), "char {:x}", code);
        }
    }
}

#[test]
fn replies_cluster_info_and_license() {
    let info = cluster_info(String::from("2020-10-23T10:00:00Z"));
    assert_eq!(info.name, "usiem-elastic-input");
    assert_eq!(info.version.number, "7.8.0");
    assert_eq!(info.version.build_date, "2020-10-23T10:00:00Z");
    assert!(!info.version.build_snapshot);
    assert_eq!(info.tagline, "You Know, for Search");
    let l = license_info(String::from("2020-10-23T10:00:00Z"));
    assert_eq!(l.status, "active");
    assert_eq!(l.license_type, "basic");
    assert_eq!(l.issue_date, "2020-10-23T10:00:00Z");
    assert_eq!(l.max_nodes, 1000);
    assert_eq!(l.start_date_in_millis, -1);
}
