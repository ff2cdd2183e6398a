//! The detection pass of the analyzer: the rules applied to the ingested
//! record sequence in a fixed order, accumulating the append-only
//! detection sequence for one run.

use vstd::prelude::*;

use crate::rule::chmod;
use crate::rule::det_views;
use crate::rule::mkdir;
use crate::rule::rm;
use crate::rule::spec_chmod;
use crate::rule::spec_mkdir;
use crate::rule::spec_rm_detections;
use crate::rule::spec_wget;
use crate::rule::spec_wget_ready;
use crate::rule::wget;
use crate::rule::DetectionInfo;
use crate::rule::DetectionInfoView;
use crate::syslog::entry_views;
use crate::syslog::spec_ingest;
use crate::syslog::SyslogEntry;
use crate::syslog::SyslogEntryView;

verus! {

/// Run configuration of the analyzer: the root of the result directory
/// holding the extracted log and the analyzed binary.
#[derive(Debug)]
pub struct Arguments {
    pub target_root_dir: String,
}

/// A detection as a sequence: one element for a hit, none otherwise.
pub open spec fn opt_detection(d: Option<DetectionInfoView>) -> Seq<DetectionInfoView> {
    match d {
        Some(det) => seq![det],
        None => Seq::empty(),
    }
}

/// The whole detection pass over the record sequence: the Mkdir, Wget and
/// Chmod first-match hits in that order, then every Rm hit in record
/// order.
pub open spec fn spec_detect(s: Seq<SyslogEntryView>) -> Seq<DetectionInfoView>
    recommends
        spec_wget_ready(s),
{
    opt_detection(spec_mkdir(s)) + opt_detection(spec_wget(s)) + opt_detection(spec_chmod(s))
        + spec_rm_detections(s, 0)
}

/// Runs the detection pass: all rules are pure functions of the record
/// sequence, run in a fixed order, and none mutates its input or keeps
/// state between invocations. The caller has ruled out a Wget match
/// without a command line (`wget_command_line_present`), which this design
/// treats as a hard failure of the pass.
pub fn detect(entries: &Vec<SyslogEntry>) -> (r: Vec<DetectionInfo>)
    requires
        spec_wget_ready(entry_views(entries@)),
    ensures
        det_views(r@) == spec_detect(entry_views(entries@)),
{
    let ghost s = entry_views(entries@);
    let mut detection_info: Vec<DetectionInfo> = Vec::new();
    match mkdir(entries) {
        Some(info) => {
            detection_info.push(info);
        },
        None => {},
    }
    assert(det_views(detection_info@) =~= opt_detection(spec_mkdir(s)));
    let ghost after_mkdir = det_views(detection_info@);
    match wget(entries) {
        Some(info) => {
            detection_info.push(info);
        },
        None => {},
    }
    assert(det_views(detection_info@) =~= after_mkdir + opt_detection(spec_wget(s)));
    let ghost after_wget = det_views(detection_info@);
    match chmod(entries) {
        Some(info) => {
            detection_info.push(info);
        },
        None => {},
    }
    assert(det_views(detection_info@) =~= after_wget + opt_detection(spec_chmod(s)));
    let ghost after_chmod = det_views(detection_info@);
    let mut rm_hits = rm(entries);
    let ghost rm_views = det_views(rm_hits@);
    detection_info.append(&mut rm_hits);
    assert(det_views(detection_info@) =~= after_chmod + rm_views);
    assert(det_views(detection_info@) =~= spec_detect(s));
    detection_info
}

/// Ingesting the same log text twice yields identical record sequences,
/// and running the detection pass on them yields identical detection
/// output: both are functions of the text alone, with no hidden state.
pub proof fn lemma_pipeline_deterministic(
    log: Seq<char>,
    e1: Seq<SyslogEntryView>,
    e2: Seq<SyslogEntryView>,
)
    requires
        e1 == spec_ingest(log),
        e2 == spec_ingest(log),
    ensures
        e1 == e2,
        spec_detect(e1) == spec_detect(e2),
{
}

} // verus!
