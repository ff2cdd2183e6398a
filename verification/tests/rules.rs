use sandbox::rule::{
    chmod, file_deleted_at, mkdir, rm_is, wget, wget_and_chmod, Code, DetectionInfo,
};
use sandbox::syslog::{ingest, SyslogEntry};
use sandbox::sysmon::{EventData, SysmonEvent, SysmonEventId, Timestamp};

fn ts(second: u32) -> Timestamp {
    Timestamp {
        year: 2023,
        month: 10,
        day: 4,
        hour: 12,
        minute: 0,
        second,
        offset_minutes: 0,
    }
}

fn entry(event_id: SysmonEventId, second: u32, fields: &[(&str, &str)]) -> SyslogEntry {
    let mut event_data = EventData::new();
    for (k, v) in fields {
        event_data.insert(String::from(*k), String::from(*v));
    }
    SyslogEntry {
        log: String::from("synthetic"),
        sysmon_event: SysmonEvent {
            event_id,
            time_created: ts(second),
            event_data,
        },
    }
}

fn detection(code: Code, second: u32) -> DetectionInfo {
    DetectionInfo {
        event_id: SysmonEventId::ProcessCreate,
        time_created: ts(second),
        reason_for_detection: String::from("synthetic detection"),
        code,
    }
}

#[test]
fn wget_alone_does_not_correlate() {
    let only_wget = vec![detection(Code::Wget, 1)];
    assert!(!wget_and_chmod(&only_wget));
}

#[test]
fn adding_chmod_flips_correlation_regardless_of_order() {
    let wget_then_chmod = vec![detection(Code::Wget, 1), detection(Code::Chmod, 2)];
    assert!(wget_and_chmod(&wget_then_chmod));
    let chmod_then_wget = vec![detection(Code::Chmod, 1), detection(Code::Wget, 2)];
    assert!(wget_and_chmod(&chmod_then_wget));
}

#[test]
fn chmod_alone_does_not_correlate() {
    let only_chmod = vec![detection(Code::Chmod, 1)];
    assert!(!wget_and_chmod(&only_chmod));
    assert!(!wget_and_chmod(&vec![]));
}

#[test]
fn mkdir_takes_first_match_only() {
    let entries = vec![
        entry(SysmonEventId::ProcessCreate, 1, &[("Image", "/bin/ls")]),
        entry(
            SysmonEventId::ProcessCreate,
            2,
            &[("Image", "/rootfs/usr/bin/mkdir")],
        ),
        entry(
            SysmonEventId::ProcessCreate,
            3,
            &[("Image", "/rootfs/usr/bin/mkdir")],
        ),
    ];
    let hit = mkdir(&entries).expect("first mkdir record must fire");
    assert_eq!(hit.time_created.second, 2);
    assert_eq!(hit.code, Code::Mkdir);
    assert_eq!(hit.reason_for_detection, "Created mkdir process");
}

#[test]
fn rules_match_by_substring_containment() {
    let entries = vec![entry(
        SysmonEventId::ProcessCreate,
        1,
        &[("Image", "/x/rootfs/usr/bin/chmod-wrapper")],
    )];
    let hit = chmod(&entries).expect("substring containment must match");
    assert_eq!(hit.code, Code::Chmod);
}

#[test]
fn records_without_image_are_ignored() {
    let entries = vec![entry(SysmonEventId::ProcessCreate, 1, &[("Other", "x")])];
    assert!(mkdir(&entries).is_none());
    assert!(chmod(&entries).is_none());
    assert!(wget(&entries).is_none());
    assert_eq!(sandbox::rule::rm(&entries).len(), 0);
}

#[test]
fn wget_reason_embeds_command_line() {
    let entries = vec![entry(
        SysmonEventId::ProcessCreate,
        7,
        &[
            ("Image", "/rootfs/usr/bin/wget"),
            ("CommandLine", "wget -q http://x/y"),
        ],
    )];
    let hit = wget(&entries).expect("wget record must fire");
    assert_eq!(
        hit.reason_for_detection,
        "Created wget process (Command Line: wget -q http://x/y)"
    );
    assert_eq!(hit.code, Code::Wget);
    assert_eq!(hit.time_created.second, 7);
}

#[test]
fn rm_without_command_line_is_skipped() {
    let entries = vec![
        entry(
            SysmonEventId::ProcessCreate,
            1,
            &[("Image", "/rootfs/usr/bin/rm")],
        ),
        entry(
            SysmonEventId::ProcessCreate,
            2,
            &[
                ("Image", "/rootfs/usr/bin/rm"),
                ("CommandLine", "rm -f ~/.bash_history"),
            ],
        ),
    ];
    let hits = sandbox::rule::rm(&entries);
    assert_eq!(hits.len(), 1);
    assert!(rm_is(&hits, "~/.bash_history"));
    assert!(!rm_is(&hits, "/var/log"));
}

#[test]
fn file_delete_rule_reports_every_qualifying_event() {
    let entries = vec![
        entry(
            SysmonEventId::FileDelete,
            1,
            &[("TargetFilename", "/var/log/auth.log")],
        ),
        entry(SysmonEventId::ProcessCreate, 2, &[("Image", "/bin/rm")]),
        entry(
            SysmonEventId::FileDelete,
            3,
            &[("TargetFilename", "/tmp/a")],
        ),
    ];
    let hits = sandbox::rule::event_id_23(&entries);
    assert_eq!(hits.len(), 2);
    assert!(file_deleted_at(&hits, "/var/log"));
    assert!(file_deleted_at(&hits, "/tmp/a"));
    assert!(!file_deleted_at(&hits, "/etc"));
}

#[test]
fn rm_touches_checks_arguments_not_reason() {
    let hits = vec![detection(
        Code::Rm(vec![String::from("-rf"), String::from("/var/log/auth.log")]),
        1,
    )];
    assert!(rm_is(&hits, "/var/log"));
    assert!(rm_is(&hits, "auth.log"));
    assert!(!rm_is(&hits, "synthetic"));
}

#[test]
fn full_line_rm_scenario() {
    let mut line = String::from("Oct  4 12:00:04 guest01 sysmon: ");
    line.push_str("<Event><System><EventID>1</EventID>");
    line.push_str("<TimeCreated SystemTime=\"2023-10-04T12:00:04Z\"/></System>");
    line.push_str("<EventData><Data Name=\"Image\">/rootfs/usr/bin/rm</Data>");
    line.push_str("<Data Name=\"CommandLine\">rm -rf /var/log/auth.log</Data></EventData></Event>\n");
    let entries = ingest(&line);
    let hits = sandbox::rule::rm(&entries);
    assert_eq!(hits.len(), 1);
    match &hits[0].code {
        Code::Rm(args) => assert_eq!(
            args,
            &vec![String::from("-rf"), String::from("/var/log/auth.log")]
        ),
        other => panic!("expected an Rm payload, got {:?}", other),
    }
    assert!(rm_is(&hits, "/var/log"));
}
