use sandbox::syslog::SyslogEntry;
use sandbox::sysmon::{parse_timestamp, SysmonEvent, SysmonEventId};
use sandbox::text::{contains_substring, split_char};

#[test]
fn timestamp_with_positive_offset() {
    let ts = parse_timestamp("2023-10-04T12:00:01.123+09:00").expect("valid timestamp");
    assert_eq!(ts.year, 2023);
    assert_eq!(ts.month, 10);
    assert_eq!(ts.day, 4);
    assert_eq!(ts.hour, 12);
    assert_eq!(ts.minute, 0);
    assert_eq!(ts.second, 1);
    assert_eq!(ts.offset_minutes, 540);
}

#[test]
fn timestamp_with_negative_offset_and_zulu() {
    let ts = parse_timestamp("2021-01-31T23:59:58-05:30").expect("valid timestamp");
    assert_eq!(ts.offset_minutes, -330);
    let tz = parse_timestamp("2021-01-31T23:59:58Z").expect("valid timestamp");
    assert_eq!(tz.offset_minutes, 0);
    let tf = parse_timestamp("2021-01-31T23:59:58.000000000Z").expect("valid timestamp");
    assert_eq!(tf.second, 58);
}

#[test]
fn invalid_timestamps_are_rejected() {
    assert!(parse_timestamp("").is_none());
    assert!(parse_timestamp("2023-13-04T12:00:01Z").is_none());
    assert!(parse_timestamp("2023-00-04T12:00:01Z").is_none());
    assert!(parse_timestamp("2023-10-04T24:00:01Z").is_none());
    assert!(parse_timestamp("2023-10-04T12:00:01").is_none());
    assert!(parse_timestamp("2023-10-04T12:00:01.Z").is_none());
    assert!(parse_timestamp("2023-10-04T12:00:01+25:00").is_none());
    assert!(parse_timestamp("2023-10-04 12:00:01Z").is_none());
    assert!(parse_timestamp("not a time at all....").is_none());
}

#[test]
fn unknown_event_ids_decode_generically() {
    let mut doc = String::from("<Event><System><EventID>999</EventID>");
    doc.push_str("<TimeCreated SystemTime=\"2023-10-04T12:00:01Z\"/></System>");
    doc.push_str("<EventData><Data Name=\"Custom\">kept</Data></EventData></Event>");
    let ev = SysmonEvent::from_xml(&doc).expect("unknown ids still decode");
    assert_eq!(ev.event_id, SysmonEventId::Unknown(999));
    assert_eq!(ev.event_data.get("Custom"), Some(String::from("kept")));
}

#[test]
fn duplicate_field_names_keep_first_value() {
    let mut doc = String::from("<Event><System><EventID>1</EventID>");
    doc.push_str("<TimeCreated SystemTime=\"2023-10-04T12:00:01Z\"/></System>");
    doc.push_str("<EventData><Data Name=\"Image\">/bin/first</Data>");
    doc.push_str("<Data Name=\"Image\">/bin/second</Data></EventData></Event>");
    let ev = SysmonEvent::from_xml(&doc).expect("valid document");
    assert_eq!(ev.event_data.get("Image"), Some(String::from("/bin/first")));
    assert_eq!(ev.event_data.get("Absent"), None);
}

#[test]
fn documents_without_id_or_time_fail_decode() {
    assert!(SysmonEvent::from_xml("<Event></Event>").is_none());
    assert!(SysmonEvent::from_xml(
        "<Event><System><EventID>1</EventID></System></Event>"
    )
    .is_none());
    assert!(SysmonEvent::from_xml(
        "<Event><System><EventID>abc</EventID><TimeCreated SystemTime=\"2023-10-04T12:00:01Z\"/></System></Event>"
    )
    .is_none());
    assert!(SysmonEvent::from_xml(
        "<Event><System><EventID>1</EventID><TimeCreated SystemTime=\"garbage\"/></System></Event>"
    )
    .is_none());
}

#[test]
fn insert_keeps_first_value_for_a_name() {
    let mut data = sandbox::sysmon::EventData::new();
    data.insert(String::from("Image"), String::from("/bin/first"));
    data.insert(String::from("Image"), String::from("/bin/second"));
    data.insert(String::from("Other"), String::from("x"));
    assert_eq!(data.get("Image"), Some(String::from("/bin/first")));
    assert_eq!(data.get("Other"), Some(String::from("x")));
    assert_eq!(data.get("image"), None);
}

#[test]
fn parse_requires_forwarder_tag() {
    assert!(SyslogEntry::parse(String::from("Oct  4 12:00:01 host daemon: hi")).is_none());
    assert!(SyslogEntry::parse(String::from("")).is_none());
    assert!(SyslogEntry::parse(String::from("no timestamp sysmon: <Event/>")).is_none());
    let mut line = String::from("Oct  4 12:00:01 host sysmond1:2: ");
    line.push_str("<Event><System><EventID>1</EventID>");
    line.push_str("<TimeCreated SystemTime=\"2023-10-04T12:00:01Z\"/></System>");
    line.push_str("<EventData></EventData></Event>");
    let ok = SyslogEntry::parse(line);
    assert!(ok.is_some(), "tag may continue after sysmon if it ends with a colon");
}

#[test]
fn preamble_may_start_mid_line() {
    let mut line = String::from(">>> Oct  4 12:00:01 host sysmon: ");
    line.push_str("<Event><System><EventID>23</EventID>");
    line.push_str("<TimeCreated SystemTime=\"2023-10-04T12:00:01Z\"/></System>");
    line.push_str("<EventData></EventData></Event>");
    let ok = SyslogEntry::parse(line);
    let entry = ok.expect("leftmost match anywhere in the line");
    assert_eq!(entry.sysmon_event.event_id, SysmonEventId::FileDelete);
}

#[test]
fn text_helpers_behave_like_std() {
    assert!(contains_substring("/x/rootfs/usr/bin/rm -rf", "/rootfs/usr/bin/rm"));
    assert!(!contains_substring("short", "longer needle"));
    assert!(contains_substring("anything", ""));
    let pieces = split_char("rm -rf  /tmp", ' ');
    let expect: Vec<String> = "rm -rf  /tmp".split(' ').map(String::from).collect();
    assert_eq!(pieces, expect);
    let lone = split_char("", ' ');
    assert_eq!(lone, vec![String::new()]);
}
