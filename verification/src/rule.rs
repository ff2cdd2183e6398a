//! Detection engine: stateless signature rules over the ingested record
//! sequence, and correlation predicates over the accumulated detection
//! set.
//!
//! All image-path and target-path matching is substring containment on the
//! raw string, not path-component equality: a deliberate precision versus
//! simplicity tradeoff, so a path that merely contains a sensitive
//! substring matches.

use vstd::prelude::*;
use vstd::string::StringExecFns;

use crate::syslog::entry_views;
use crate::syslog::SyslogEntry;
use crate::syslog::SyslogEntryView;
use crate::sysmon::lookup;
use crate::sysmon::SysmonEventId;
use crate::sysmon::Timestamp;
use crate::text::contains_seq;
use crate::text::contains_substring;
use crate::text::lemma_split_len;
use crate::text::split_char;
use crate::text::split_spec;
use crate::text::str_views;

verus! {

/// The tagged payload of one rule hit.
#[derive(Debug, PartialEq, Eq)]
pub enum Code {
    Mkdir,
    Wget,
    Chmod,
    Rm(Vec<String>),
    FileDelete(String),
}

/// Mathematical model of a rule hit payload.
pub enum CodeView {
    Mkdir,
    Wget,
    Chmod,
    Rm(Seq<Seq<char>>),
    FileDelete(Seq<char>),
}

impl View for Code {
    type V = CodeView;

    open spec fn view(&self) -> CodeView {
        match self {
            Code::Mkdir => CodeView::Mkdir,
            Code::Wget => CodeView::Wget,
            Code::Chmod => CodeView::Chmod,
            Code::Rm(args) => CodeView::Rm(str_views(args@)),
            Code::FileDelete(target) => CodeView::FileDelete(target@),
        }
    }
}

/// One rule hit: the event it fired on, a human-readable reason, and the
/// tagged payload. Produced only by the detection rules and accumulated
/// into an append-only sequence for one run.
#[derive(Debug, PartialEq, Eq)]
pub struct DetectionInfo {
    pub event_id: SysmonEventId,
    pub time_created: Timestamp,
    pub reason_for_detection: String,
    pub code: Code,
}

/// Mathematical model of one rule hit.
pub struct DetectionInfoView {
    pub event_id: SysmonEventId,
    pub time_created: Timestamp,
    pub reason_for_detection: Seq<char>,
    pub code: CodeView,
}

impl View for DetectionInfo {
    type V = DetectionInfoView;

    open spec fn view(&self) -> DetectionInfoView {
        DetectionInfoView {
            event_id: self.event_id,
            time_created: self.time_created,
            reason_for_detection: self.reason_for_detection@,
            code: self.code@,
        }
    }
}

/// The views of a sequence of rule hits.
pub open spec fn det_views(v: Seq<DetectionInfo>) -> Seq<DetectionInfoView> {
    v.map_values(|d: DetectionInfo| d@)
}

/// The process-image path of the record, if it carries one.
pub open spec fn image_of(e: SyslogEntryView) -> Option<Seq<char>> {
    lookup(e.sysmon_event.event_data, "Image"@)
}

/// The record's image path contains `needle`.
pub open spec fn image_matches(e: SyslogEntryView, needle: Seq<char>) -> bool {
    match image_of(e) {
        Some(img) => contains_seq(img, needle),
        None => false,
    }
}

/// Index of the first record at or after `from` whose image path contains
/// `needle`.
pub open spec fn first_image_match(s: Seq<SyslogEntryView>, needle: Seq<char>, from: int) -> Option<
    int,
>
    decreases s.len() - from,
{
    if !(0 <= from < s.len()) {
        None
    } else if image_matches(s[from], needle) {
        Some(from)
    } else {
        first_image_match(s, needle, from + 1)
    }
}

/// The detection a rule emits for the record `e`.
pub open spec fn detection_of(e: SyslogEntryView, reason: Seq<char>, code: CodeView) -> DetectionInfoView {
    DetectionInfoView {
        event_id: e.sysmon_event.event_id,
        time_created: e.sysmon_event.time_created,
        reason_for_detection: reason,
        code,
    }
}

/// What the Mkdir rule emits: one detection for the first record whose
/// image path contains the mkdir binary path, with a fixed reason.
pub open spec fn spec_mkdir(s: Seq<SyslogEntryView>) -> Option<DetectionInfoView> {
    match first_image_match(s, "/rootfs/usr/bin/mkdir"@, 0) {
        None => None,
        Some(i) => Some(detection_of(s[i], "Created mkdir process"@, CodeView::Mkdir)),
    }
}

/// What the Chmod rule emits: one detection for the first record whose
/// image path contains the chmod binary path, with a fixed reason.
pub open spec fn spec_chmod(s: Seq<SyslogEntryView>) -> Option<DetectionInfoView> {
    match first_image_match(s, "/rootfs/usr/bin/chmod"@, 0) {
        None => None,
        Some(i) => Some(detection_of(s[i], "Created chmod process"@, CodeView::Chmod)),
    }
}

/// The first record matched by the Wget rule, if any, carries a
/// command-line field. The rule demands this of its input: a matching
/// record without one is a hard failure of the whole detection pass in
/// this design, so the rule is only called where this holds.
pub open spec fn spec_wget_ready(s: Seq<SyslogEntryView>) -> bool {
    match first_image_match(s, "/rootfs/usr/bin/wget"@, 0) {
        None => true,
        Some(i) => lookup(s[i].sysmon_event.event_data, "CommandLine"@) is Some,
    }
}

/// What the Wget rule emits: one detection for the first record whose
/// image path contains the wget binary path, its reason embedding the
/// record's command-line field.
pub open spec fn spec_wget(s: Seq<SyslogEntryView>) -> Option<DetectionInfoView>
    recommends
        spec_wget_ready(s),
{
    match first_image_match(s, "/rootfs/usr/bin/wget"@, 0) {
        None => None,
        Some(i) => {
            let cmd = match lookup(s[i].sysmon_event.event_data, "CommandLine"@) {
                Some(c) => c,
                None => Seq::empty(),
            };
            Some(
                detection_of(
                    s[i],
                    "Created wget process (Command Line: "@ + cmd + ")"@,
                    CodeView::Wget,
                ),
            )
        },
    }
}

/// The command line split on single spaces, with the program token
/// dropped.
pub open spec fn rm_payload(cmd: Seq<char>) -> Seq<Seq<char>> {
    split_spec(cmd, ' ').drop_first()
}

/// What the Rm rule emits: one detection for every record, in order, whose
/// image path contains the rm binary path and which carries a command-line
/// field; the payload is the split command line without the program token.
/// Unlike the process rules above it does not stop at the first match.
pub open spec fn spec_rm_detections(s: Seq<SyslogEntryView>, from: int) -> Seq<DetectionInfoView>
    decreases s.len() - from,
{
    if !(0 <= from < s.len()) {
        Seq::empty()
    } else {
        let head = if image_matches(s[from], "/rootfs/usr/bin/rm"@) {
            match lookup(s[from].sysmon_event.event_data, "CommandLine"@) {
                Some(cmd) => seq![
                    detection_of(s[from], "Created rm process"@, CodeView::Rm(rm_payload(cmd))),
                ],
                None => Seq::<DetectionInfoView>::empty(),
            }
        } else {
            Seq::<DetectionInfoView>::empty()
        };
        head + spec_rm_detections(s, from + 1)
    }
}

/// What the FileDelete rule emits: one detection for every record, in
/// order, whose event kind is the file-delete kind and which names a
/// target file; the payload is the target verbatim. This rule never infers
/// intent — it reports every qualifying telemetry event.
pub open spec fn spec_file_delete_detections(s: Seq<SyslogEntryView>, from: int) -> Seq<
    DetectionInfoView,
>
    decreases s.len() - from,
{
    if !(0 <= from < s.len()) {
        Seq::empty()
    } else {
        let head = if s[from].sysmon_event.event_id is FileDelete {
            match lookup(s[from].sysmon_event.event_data, "TargetFilename"@) {
                Some(target) => seq![
                    detection_of(s[from], "File deleted"@, CodeView::FileDelete(target)),
                ],
                None => Seq::<DetectionInfoView>::empty(),
            }
        } else {
            Seq::<DetectionInfoView>::empty()
        };
        head + spec_file_delete_detections(s, from + 1)
    }
}

/// The detection set holds a Wget hit.
pub open spec fn has_wget(s: Seq<DetectionInfoView>) -> bool {
    exists|i: int| 0 <= i < s.len() && (#[trigger] s[i]).code is Wget
}

/// The detection set holds a Chmod hit.
pub open spec fn has_chmod(s: Seq<DetectionInfoView>) -> bool {
    exists|i: int| 0 <= i < s.len() && (#[trigger] s[i]).code is Chmod
}

/// The download-then-mark-executable correlation: at least one Wget hit
/// and at least one Chmod hit, regardless of their relative timestamps.
pub open spec fn spec_wget_and_chmod(s: Seq<DetectionInfoView>) -> bool {
    has_wget(s) && has_chmod(s)
}

/// Some Rm hit has an argument containing `path`.
pub open spec fn rm_args_touch(d: DetectionInfoView, path: Seq<char>) -> bool {
    match d.code {
        CodeView::Rm(args) => exists|j: int|
            0 <= j < args.len() && contains_seq(#[trigger] args[j], path),
        _ => false,
    }
}

/// The detection set holds an Rm hit whose argument list has an argument
/// containing `path`.
pub open spec fn spec_rm_is(s: Seq<DetectionInfoView>, path: Seq<char>) -> bool {
    exists|i: int| 0 <= i < s.len() && rm_args_touch(#[trigger] s[i], path)
}

/// The FileDelete hit `d` has a target containing `path`.
pub open spec fn file_delete_touches(d: DetectionInfoView, path: Seq<char>) -> bool {
    match d.code {
        CodeView::FileDelete(target) => contains_seq(target, path),
        _ => false,
    }
}

/// The detection set holds a FileDelete hit whose target contains `path`.
pub open spec fn spec_file_deleted_at(s: Seq<DetectionInfoView>, path: Seq<char>) -> bool {
    exists|i: int| 0 <= i < s.len() && file_delete_touches(#[trigger] s[i], path)
}

/// Checks whether the record's image path contains `needle`.
fn entry_image_matches(e: &SyslogEntry, needle: &str) -> (r: bool)
    ensures
        r == image_matches(e@, needle@),
{
    match e.sysmon_event.event_data.get("Image") {
        Some(img) => contains_substring(img.as_str(), needle),
        None => false,
    }
}

/// The Mkdir rule: fires on the first record whose image path contains the
/// mkdir binary path.
pub fn mkdir(entries: &Vec<SyslogEntry>) -> (r: Option<DetectionInfo>)
    ensures
        match r {
            Some(d) => spec_mkdir(entry_views(entries@)) == Some(d@),
            None => spec_mkdir(entry_views(entries@)) is None,
        },
{
    let ghost s = entry_views(entries@);
    let n = entries.len();
    let mut i: usize = 0;
    while i < n
        invariant
            i <= n,
            n == entries@.len(),
            s == entry_views(entries@),
            first_image_match(s, "/rootfs/usr/bin/mkdir"@, 0) == first_image_match(
                s,
                "/rootfs/usr/bin/mkdir"@,
                i as int,
            ),
        decreases n - i,
    {
        proof {
            assert(s[i as int] == entries@[i as int]@);
        }
        if entry_image_matches(&entries[i], "/rootfs/usr/bin/mkdir") {
            return Some(
                DetectionInfo {
                    event_id: entries[i].sysmon_event.event_id,
                    time_created: entries[i].sysmon_event.time_created,
                    reason_for_detection: String::from_str("Created mkdir process"),
                    code: Code::Mkdir,
                },
            );
        }
        i += 1;
    }
    None
}

/// The Chmod rule: fires on the first record whose image path contains the
/// chmod binary path.
pub fn chmod(entries: &Vec<SyslogEntry>) -> (r: Option<DetectionInfo>)
    ensures
        match r {
            Some(d) => spec_chmod(entry_views(entries@)) == Some(d@),
            None => spec_chmod(entry_views(entries@)) is None,
        },
{
    let ghost s = entry_views(entries@);
    let n = entries.len();
    let mut i: usize = 0;
    while i < n
        invariant
            i <= n,
            n == entries@.len(),
            s == entry_views(entries@),
            first_image_match(s, "/rootfs/usr/bin/chmod"@, 0) == first_image_match(
                s,
                "/rootfs/usr/bin/chmod"@,
                i as int,
            ),
        decreases n - i,
    {
        proof {
            assert(s[i as int] == entries@[i as int]@);
        }
        if entry_image_matches(&entries[i], "/rootfs/usr/bin/chmod") {
            return Some(
                DetectionInfo {
                    event_id: entries[i].sysmon_event.event_id,
                    time_created: entries[i].sysmon_event.time_created,
                    reason_for_detection: String::from_str("Created chmod process"),
                    code: Code::Chmod,
                },
            );
        }
        i += 1;
    }
    None
}

/// Whether the Wget rule can run on these records: the first record whose
/// image path contains the wget binary path, if any, carries a
/// command-line field. Callers check this before calling `wget`, and fail
/// the detection pass where it does not hold.
pub fn wget_command_line_present(entries: &Vec<SyslogEntry>) -> (r: bool)
    ensures
        r == spec_wget_ready(entry_views(entries@)),
{
    let ghost s = entry_views(entries@);
    let n = entries.len();
    let mut i: usize = 0;
    while i < n
        invariant
            i <= n,
            n == entries@.len(),
            s == entry_views(entries@),
            first_image_match(s, "/rootfs/usr/bin/wget"@, 0) == first_image_match(
                s,
                "/rootfs/usr/bin/wget"@,
                i as int,
            ),
        decreases n - i,
    {
        proof {
            assert(s[i as int] == entries@[i as int]@);
        }
        if entry_image_matches(&entries[i], "/rootfs/usr/bin/wget") {
            return entries[i].sysmon_event.event_data.get("CommandLine").is_some();
        }
        i += 1;
    }
    true
}

/// The Wget rule: fires on the first record whose image path contains the
/// wget binary path, embedding that record's command line in the reason.
/// A matching record without a command-line field fails the whole
/// detection pass in this design, so the rule demands that its caller has
/// ruled that out (`wget_command_line_present`).
pub fn wget(entries: &Vec<SyslogEntry>) -> (r: Option<DetectionInfo>)
    requires
        spec_wget_ready(entry_views(entries@)),
    ensures
        match r {
            Some(d) => spec_wget(entry_views(entries@)) == Some(d@),
            None => spec_wget(entry_views(entries@)) is None,
        },
{
    let ghost s = entry_views(entries@);
    let n = entries.len();
    let mut i: usize = 0;
    while i < n
        invariant
            i <= n,
            n == entries@.len(),
            s == entry_views(entries@),
            spec_wget_ready(s),
            first_image_match(s, "/rootfs/usr/bin/wget"@, 0) == first_image_match(
                s,
                "/rootfs/usr/bin/wget"@,
                i as int,
            ),
        decreases n - i,
    {
        proof {
            assert(s[i as int] == entries@[i as int]@);
        }
        if entry_image_matches(&entries[i], "/rootfs/usr/bin/wget") {
            let cmd_line = entries[i].sysmon_event.event_data.get("CommandLine").unwrap();
            let mut reason = String::from_str("Created wget process (Command Line: ");
            reason.append(cmd_line.as_str());
            reason.append(")");
            return Some(
                DetectionInfo {
                    event_id: entries[i].sysmon_event.event_id,
                    time_created: entries[i].sysmon_event.time_created,
                    reason_for_detection: reason,
                    code: Code::Wget,
                },
            );
        }
        i += 1;
    }
    None
}

/// The Rm rule: fires on every record whose image path contains the rm
/// binary path and which carries a command line; the payload is the split
/// command line with the program token dropped.
pub fn rm(entries: &Vec<SyslogEntry>) -> (r: Vec<DetectionInfo>)
    ensures
        det_views(r@) == spec_rm_detections(entry_views(entries@), 0),
{
    let ghost s = entry_views(entries@);
    let mut info: Vec<DetectionInfo> = Vec::new();
    let n = entries.len();
    let mut i: usize = 0;
    proof {
        assert(det_views(info@) =~= Seq::<DetectionInfoView>::empty());
    }
    while i < n
        invariant
            i <= n,
            n == entries@.len(),
            s == entry_views(entries@),
            spec_rm_detections(s, 0) == det_views(info@) + spec_rm_detections(s, i as int),
        decreases n - i,
    {
        proof {
            assert(s[i as int] == entries@[i as int]@);
        }
        let ghost prior = info@;
        if entry_image_matches(&entries[i], "/rootfs/usr/bin/rm") {
            match entries[i].sysmon_event.event_data.get("CommandLine") {
                Some(cmd_line) => {
                    let mut s_cmd_line = split_char(cmd_line.as_str(), ' ');
                    proof {
                        lemma_split_len(cmd_line@, ' ');
                    }
                    let _program = s_cmd_line.remove(0);
                    proof {
                        assert(str_views(s_cmd_line@) =~= rm_payload(cmd_line@));
                    }
                    info.push(
                        DetectionInfo {
                            event_id: entries[i].sysmon_event.event_id,
                            time_created: entries[i].sysmon_event.time_created,
                            reason_for_detection: String::from_str("Created rm process"),
                            code: Code::Rm(s_cmd_line),
                        },
                    );
                    proof {
                        assert(det_views(info@) =~= det_views(prior) + seq![info@.last()@]);
                        assert(det_views(prior) + spec_rm_detections(s, i as int) =~= det_views(
                            info@,
                        ) + spec_rm_detections(s, i + 1));
                    }
                },
                None => {
                    proof {
                        assert(spec_rm_detections(s, i as int) =~= spec_rm_detections(s, i + 1));
                    }
                },
            }
        } else {
            proof {
                assert(spec_rm_detections(s, i as int) =~= spec_rm_detections(s, i + 1));
            }
        }
        i += 1;
    }
    assert(spec_rm_detections(s, n as int) =~= Seq::<DetectionInfoView>::empty());
    assert(det_views(info@) =~= det_views(info@) + spec_rm_detections(s, n as int));
    info
}

/// The FileDelete rule: fires on every record of the file-delete kind that
/// names a target file; the payload is the target verbatim.
pub fn event_id_23(entries: &Vec<SyslogEntry>) -> (r: Vec<DetectionInfo>)
    ensures
        det_views(r@) == spec_file_delete_detections(entry_views(entries@), 0),
{
    let ghost s = entry_views(entries@);
    let mut info: Vec<DetectionInfo> = Vec::new();
    let n = entries.len();
    let mut i: usize = 0;
    proof {
        assert(det_views(info@) =~= Seq::<DetectionInfoView>::empty());
    }
    while i < n
        invariant
            i <= n,
            n == entries@.len(),
            s == entry_views(entries@),
            spec_file_delete_detections(s, 0) == det_views(info@) + spec_file_delete_detections(
                s,
                i as int,
            ),
        decreases n - i,
    {
        proof {
            assert(s[i as int] == entries@[i as int]@);
        }
        let ghost prior = info@;
        let is_delete = match entries[i].sysmon_event.event_id {
            SysmonEventId::FileDelete => true,
            _ => false,
        };
        if is_delete {
            match entries[i].sysmon_event.event_data.get("TargetFilename") {
                Some(target_file_name) => {
                    info.push(
                        DetectionInfo {
                            event_id: entries[i].sysmon_event.event_id,
                            time_created: entries[i].sysmon_event.time_created,
                            reason_for_detection: String::from_str("File deleted"),
                            code: Code::FileDelete(target_file_name),
                        },
                    );
                    proof {
                        assert(det_views(info@) =~= det_views(prior) + seq![info@.last()@]);
                        assert(det_views(prior) + spec_file_delete_detections(s, i as int)
                            =~= det_views(info@) + spec_file_delete_detections(s, i + 1));
                    }
                },
                None => {
                    proof {
                        assert(spec_file_delete_detections(s, i as int)
                            =~= spec_file_delete_detections(s, i + 1));
                    }
                },
            }
        } else {
            proof {
                assert(spec_file_delete_detections(s, i as int) =~= spec_file_delete_detections(
                    s,
                    i + 1,
                ));
            }
        }
        i += 1;
    }
    assert(spec_file_delete_detections(s, n as int) =~= Seq::<DetectionInfoView>::empty());
    assert(det_views(info@) =~= det_views(info@) + spec_file_delete_detections(s, n as int));
    info
}

/// The download-then-mark-executable correlation over the detection set:
/// true exactly when it holds at least one Wget hit and at least one Chmod
/// hit, regardless of order.
pub fn wget_and_chmod(info: &Vec<DetectionInfo>) -> (r: bool)
    ensures
        r == spec_wget_and_chmod(det_views(info@)),
{
    let ghost s = det_views(info@);
    let n = info.len();
    let mut found_wget = false;
    let mut found_chmod = false;
    let mut i: usize = 0;
    while i < n
        invariant
            i <= n,
            n == info@.len(),
            s == det_views(info@),
            found_wget == (exists|k: int| 0 <= k < i && (#[trigger] s[k]).code is Wget),
            found_chmod == (exists|k: int| 0 <= k < i && (#[trigger] s[k]).code is Chmod),
        decreases n - i,
    {
        proof {
            assert(s[i as int] == info@[i as int]@);
        }
        match &info[i].code {
            Code::Wget => {
                found_wget = true;
            },
            Code::Chmod => {
                found_chmod = true;
            },
            _ => {},
        }
        i += 1;
    }
    found_wget && found_chmod
}

/// Checks whether some argument contains `path`.
fn args_touch(args: &Vec<String>, path: &str) -> (r: bool)
    ensures
        r == exists|j: int|
            0 <= j < args@.len() && contains_seq(#[trigger] str_views(args@)[j], path@),
{
    let m = args.len();
    let mut j: usize = 0;
    while j < m
        invariant
            j <= m,
            m == args@.len(),
            forall|l: int| 0 <= l < j ==> !contains_seq(#[trigger] str_views(args@)[l], path@),
        decreases m - j,
    {
        proof {
            assert(str_views(args@)[j as int] == args@[j as int]@);
        }
        if contains_substring(args[j].as_str(), path) {
            return true;
        }
        j += 1;
    }
    false
}

/// Whether some Rm hit's argument list has an argument whose string
/// contains `path`; used operationally for sensitive paths such as a
/// system log directory or a shell history file.
pub fn rm_is(info: &Vec<DetectionInfo>, path: &str) -> (r: bool)
    ensures
        r == spec_rm_is(det_views(info@), path@),
{
    let ghost s = det_views(info@);
    let n = info.len();
    let mut i: usize = 0;
    while i < n
        invariant
            i <= n,
            n == info@.len(),
            s == det_views(info@),
            forall|k: int| 0 <= k < i ==> !rm_args_touch(#[trigger] s[k], path@),
        decreases n - i,
    {
        proof {
            assert(s[i as int] == info@[i as int]@);
        }
        match &info[i].code {
            Code::Rm(args) => {
                assert(s[i as int].code == CodeView::Rm(str_views(args@)));
                if args_touch(args, path) {
                    proof {
                        let j = choose|j: int|
                            0 <= j < args@.len() && contains_seq(
                                #[trigger] str_views(args@)[j],
                                path@,
                            );
                        let payload = s[i as int].code->Rm_0;
                        assert(payload == str_views(args@));
                        assert(0 <= j < payload.len() && contains_seq(#[trigger] payload[j], path@));
                        assert(rm_args_touch(s[i as int], path@));
                    }
                    return true;
                }
                assert(!rm_args_touch(s[i as int], path@));
            },
            _ => {
                assert(!rm_args_touch(s[i as int], path@));
            },
        }
        i += 1;
    }
    false
}

/// Whether some FileDelete hit's target contains `path`.
pub fn file_deleted_at(info: &Vec<DetectionInfo>, path: &str) -> (r: bool)
    ensures
        r == spec_file_deleted_at(det_views(info@), path@),
{
    let ghost s = det_views(info@);
    let n = info.len();
    let mut i: usize = 0;
    while i < n
        invariant
            i <= n,
            n == info@.len(),
            s == det_views(info@),
            forall|k: int| 0 <= k < i ==> !file_delete_touches(#[trigger] s[k], path@),
        decreases n - i,
    {
        proof {
            assert(s[i as int] == info@[i as int]@);
        }
        match &info[i].code {
            Code::FileDelete(target) => {
                if contains_substring(target.as_str(), path) {
                    assert(file_delete_touches(s[i as int], path@));
                    return true;
                }
                assert(!file_delete_touches(s[i as int], path@));
            },
            _ => {
                assert(!file_delete_touches(s[i as int], path@));
            },
        }
        i += 1;
    }
    false
}

/// A detection set with a Wget hit but no Chmod hit does not correlate;
/// adding any Chmod hit, at any position — so regardless of timestamp
/// ordering relative to the Wget hit — flips the correlation to true.
pub proof fn lemma_chmod_flips_correlation(
    dets: Seq<DetectionInfoView>,
    chmod_det: DetectionInfoView,
    k: int,
)
    requires
        has_wget(dets),
        !has_chmod(dets),
        chmod_det.code is Chmod,
        0 <= k <= dets.len(),
    ensures
        !spec_wget_and_chmod(dets),
        spec_wget_and_chmod(dets.insert(k, chmod_det)),
{
    let i = choose|i: int| 0 <= i < dets.len() && (#[trigger] dets[i]).code is Wget;
    let s2 = dets.insert(k, chmod_det);
    assert(s2[k] == chmod_det);
    if i < k {
        assert(s2[i] == dets[i]);
    } else {
        assert(s2[i + 1] == dets[i]);
    }
}

} // verus!
