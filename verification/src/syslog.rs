//! Telemetry ingestion: a line-level filter that recognizes the
//! forwarder-tag preamble, followed by the structured-document decoder.
//!
//! A relevant line reads `<calendar-timestamp> <host> <forwarder-tag>:
//! <structured-event-document>`: a month token, a day number, a clock time,
//! a host token, then a tag that starts with `sysmon` and ends with a
//! colon. The preamble may begin anywhere in the line; the leftmost match
//! wins and the rest of the line is the embedded document. Lines without
//! the preamble are silently discarded, and a decode failure on a matching
//! line discards only that line: a malformed line never aborts ingestion
//! of the rest.

use vstd::prelude::*;
use vstd::string::StrSliceExecFns;
use vstd::string::StringExecFns;

use crate::sysmon::digit_run;
use crate::sysmon::digit_run_end;
use crate::sysmon::is_digit;
use crate::sysmon::spec_from_xml;
use crate::sysmon::SysmonEvent;
use crate::sysmon::SysmonEventView;
use crate::text::contains_at;
use crate::text::find_char;
use crate::text::find_char_from;
use crate::text::lemma_find_char_from;
use crate::text::lemma_split_len;
use crate::text::match_at;
use crate::text::split_char;
use crate::text::split_spec;

verus! {

/// An ASCII whitespace character, as the line grammar reads one.
pub open spec fn is_space(c: char) -> bool {
    c == ' ' || c == '\t' || c == '\n' || c == '\r' || c == '\u{000B}' || c == '\u{000C}'
}

/// An ASCII uppercase letter.
pub open spec fn is_upper(c: char) -> bool {
    'A' <= c && c <= 'Z'
}

/// An ASCII lowercase letter.
pub open spec fn is_lower(c: char) -> bool {
    'a' <= c && c <= 'z'
}

/// End of the maximal whitespace run starting at `from`.
pub open spec fn ws_run_end(s: Seq<char>, from: int) -> int
    decreases s.len() - from,
{
    if 0 <= from < s.len() && is_space(s[from]) {
        ws_run_end(s, from + 1)
    } else {
        from
    }
}

/// End of the maximal non-whitespace run starting at `from`.
pub open spec fn nonws_run_end(s: Seq<char>, from: int) -> int
    decreases s.len() - from,
{
    if 0 <= from < s.len() && !is_space(s[from]) {
        nonws_run_end(s, from + 1)
    } else {
        from
    }
}

/// A clock time `dd:dd:dd` stands at `p`.
pub open spec fn time_shape(l: Seq<char>, p: int) -> bool {
    &&& is_digit(l[p])
    &&& is_digit(l[p + 1])
    &&& l[p + 2] == ':'
    &&& is_digit(l[p + 3])
    &&& is_digit(l[p + 4])
    &&& l[p + 5] == ':'
    &&& is_digit(l[p + 6])
    &&& is_digit(l[p + 7])
}

/// Where the embedded document starts if the forwarder-tag preamble
/// matches at position `i` of the line: a three-letter month token, at
/// least one whitespace, a day number, one whitespace, a clock time, one
/// whitespace, a host token, one whitespace, then a tag that starts with
/// `sysmon`, ends with a colon at the end of its token, and is followed by
/// one whitespace and a nonempty remainder.
pub open spec fn preamble_rest_at(l: Seq<char>, i: int) -> Option<int> {
    if !(0 <= i && i + 3 <= l.len() && is_upper(l[i]) && is_lower(l[i + 1]) && is_lower(
        l[i + 2],
    )) {
        None
    } else {
        let j1 = ws_run_end(l, i + 3);
        let j2 = digit_run_end(l, j1);
        if !(j1 > i + 3 && j2 > j1 && j2 < l.len() && is_space(l[j2])) {
            None
        } else {
            let j3 = j2 + 1;
            if !(j3 + 8 <= l.len() && time_shape(l, j3)) {
                None
            } else {
                let j4 = j3 + 8;
                if !(j4 < l.len() && is_space(l[j4])) {
                    None
                } else {
                    let j5 = j4 + 1;
                    let j6 = nonws_run_end(l, j5);
                    if !(j6 > j5 && j6 < l.len()) {
                        None
                    } else {
                        let j7 = j6 + 1;
                        if !contains_at(l, "sysmon"@, j7) {
                            None
                        } else {
                            let j9 = nonws_run_end(l, j7 + "sysmon"@.len() as int);
                            if !(j9 > j7 + "sysmon"@.len() && l[j9 - 1] == ':' && j9 < l.len()) {
                                None
                            } else {
                                let j10 = j9 + 1;
                                if j10 < l.len() && l[j10] != '\n' {
                                    Some(j10)
                                } else {
                                    None
                                }
                            }
                        }
                    }
                }
            }
        }
    }
}

/// Start of the remainder for the leftmost preamble match at or after `i`.
pub open spec fn preamble_first_match(l: Seq<char>, i: int) -> Option<int>
    decreases l.len() - i,
{
    if !(0 <= i < l.len()) {
        None
    } else {
        match preamble_rest_at(l, i) {
            Some(r) => Some(r),
            None => preamble_first_match(l, i + 1),
        }
    }
}

/// The embedded document of the line: the remainder of the leftmost
/// preamble match, up to the end of the line.
pub open spec fn spec_preamble_rest(l: Seq<char>) -> Option<Seq<char>> {
    match preamble_first_match(l, 0) {
        None => None,
        Some(r) => {
            let rest_end = match find_char_from(l, '\n', r) {
                Some(e) => e,
                None => l.len() as int,
            };
            Some(l.subrange(r, rest_end))
        },
    }
}

/// One ingested telemetry line: the raw line text and its decoded event.
#[derive(Debug, PartialEq, Eq)]
pub struct SyslogEntry {
    pub log: String,
    pub sysmon_event: SysmonEvent,
}

/// Mathematical model of one ingested telemetry line.
pub struct SyslogEntryView {
    pub log: Seq<char>,
    pub sysmon_event: SysmonEventView,
}

impl View for SyslogEntry {
    type V = SyslogEntryView;

    open spec fn view(&self) -> SyslogEntryView {
        SyslogEntryView { log: self.log@, sysmon_event: self.sysmon_event@ }
    }
}

/// What one line of log text denotes: nothing without a preamble match,
/// nothing when the embedded document does not decode, and otherwise the
/// decoded record together with the line itself.
pub open spec fn spec_parse_line(l: Seq<char>) -> Option<SyslogEntryView> {
    match spec_preamble_rest(l) {
        None => None,
        Some(rest) => match spec_from_xml(rest) {
            None => None,
            Some(ev) => Some(SyslogEntryView { log: l, sysmon_event: ev }),
        },
    }
}

/// Checks whether the character is ASCII whitespace.
fn is_space_char(c: char) -> (r: bool)
    ensures
        r == is_space(c),
{
    c == ' ' || c == '\t' || c == '\n' || c == '\r' || c == '\u{000B}' || c == '\u{000C}'
}

/// Finds the end of the maximal whitespace run starting at `from`.
fn ws_run(s: &str, from: usize) -> (e: usize)
    requires
        from <= s@.len(),
    ensures
        e as int == ws_run_end(s@, from as int),
        from <= e <= s@.len(),
{
    let slen = s.unicode_len();
    let mut e = from;
    while e < slen
        invariant
            from <= e <= slen,
            slen == s@.len(),
            ws_run_end(s@, from as int) == ws_run_end(s@, e as int),
        decreases slen - e,
    {
        if !is_space_char(s.get_char(e)) {
            return e;
        }
        e += 1;
    }
    e
}

/// Finds the end of the maximal non-whitespace run starting at `from`.
fn nonws_run(s: &str, from: usize) -> (e: usize)
    requires
        from <= s@.len(),
    ensures
        e as int == nonws_run_end(s@, from as int),
        from <= e <= s@.len(),
{
    let slen = s.unicode_len();
    let mut e = from;
    while e < slen
        invariant
            from <= e <= slen,
            slen == s@.len(),
            nonws_run_end(s@, from as int) == nonws_run_end(s@, e as int),
        decreases slen - e,
    {
        if is_space_char(s.get_char(e)) {
            return e;
        }
        e += 1;
    }
    e
}

/// Checks the preamble at position `i`, exactly as `preamble_rest_at`
/// reads it.
fn preamble_match_at(l: &str, i: usize) -> (r: Option<usize>)
    requires
        i <= l@.len(),
    ensures
        match r {
            Some(j) => preamble_rest_at(l@, i as int) == Some(j as int) && i < j < l@.len(),
            None => preamble_rest_at(l@, i as int) is None,
        },
{
    let llen = l.unicode_len();
    if llen < 3 || i > llen - 3 {
        return None;
    }
    if !(l.get_char(i) >= 'A' && l.get_char(i) <= 'Z') {
        return None;
    }
    if !(l.get_char(i + 1) >= 'a' && l.get_char(i + 1) <= 'z') {
        return None;
    }
    if !(l.get_char(i + 2) >= 'a' && l.get_char(i + 2) <= 'z') {
        return None;
    }
    let j1 = ws_run(l, i + 3);
    if j1 == i + 3 {
        return None;
    }
    let j2 = digit_run(l, j1);
    if j2 == j1 || j2 == llen {
        return None;
    }
    if !is_space_char(l.get_char(j2)) {
        return None;
    }
    let j3 = j2 + 1;
    if llen - j3 < 8 {
        return None;
    }
    if !(check_digit_char(l, j3) && check_digit_char(l, j3 + 1) && l.get_char(j3 + 2) == ':'
        && check_digit_char(l, j3 + 3) && check_digit_char(l, j3 + 4) && l.get_char(j3 + 5) == ':'
        && check_digit_char(l, j3 + 6) && check_digit_char(l, j3 + 7)) {
        return None;
    }
    let j4 = j3 + 8;
    if j4 == llen {
        return None;
    }
    if !is_space_char(l.get_char(j4)) {
        return None;
    }
    let j5 = j4 + 1;
    let j6 = nonws_run(l, j5);
    if j6 == j5 || j6 == llen {
        return None;
    }
    let j7 = j6 + 1;
    let tag = "sysmon";
    let taglen = tag.unicode_len();
    if llen - j7 < taglen {
        return None;
    }
    if !match_at(l, tag, j7) {
        return None;
    }
    let j8 = j7 + taglen;
    let j9 = nonws_run(l, j8);
    if j9 == j8 {
        return None;
    }
    if l.get_char(j9 - 1) != ':' {
        return None;
    }
    if j9 == llen {
        return None;
    }
    let j10 = j9 + 1;
    if j10 == llen {
        return None;
    }
    if l.get_char(j10) == '\n' {
        return None;
    }
    Some(j10)
}

/// Checks for a digit at position `p`.
fn check_digit_char(l: &str, p: usize) -> (r: bool)
    requires
        p < l@.len(),
    ensures
        r == is_digit(l@[p as int]),
{
    let c = l.get_char(p);
    c >= '0' && c <= '9'
}

/// Finds the leftmost preamble match of the line.
fn preamble_first(l: &str) -> (r: Option<usize>)
    ensures
        match r {
            Some(j) => preamble_first_match(l@, 0) == Some(j as int) && j < l@.len(),
            None => preamble_first_match(l@, 0) is None,
        },
{
    let llen = l.unicode_len();
    let mut i: usize = 0;
    while i < llen
        invariant
            i <= llen,
            llen == l@.len(),
            preamble_first_match(l@, 0) == preamble_first_match(l@, i as int),
        decreases llen - i,
    {
        match preamble_match_at(l, i) {
            Some(j) => {
                return Some(j);
            },
            None => {},
        }
        i += 1;
    }
    None
}

/// Extracts the embedded document of the line, exactly as
/// `spec_preamble_rest` reads it.
pub fn preamble_rest(l: &str) -> (r: Option<String>)
    ensures
        match r {
            Some(s) => spec_preamble_rest(l@) == Some(s@),
            None => spec_preamble_rest(l@) is None,
        },
{
    match preamble_first(l) {
        None => None,
        Some(rstart) => {
            proof {
                lemma_find_char_from(l@, '\n', rstart as int);
            }
            let rest_end = match find_char(l, '\n', rstart) {
                Some(e) => e,
                None => l.unicode_len(),
            };
            Some(String::from_str(l.substring_char(rstart, rest_end)))
        },
    }
}

impl SyslogEntry {
    /// Parses one line, exactly as `spec_parse_line` reads it: `None` both
    /// for a line without the preamble and for one whose document does not
    /// decode.
    pub fn parse(log: String) -> (r: Option<SyslogEntry>)
        ensures
            match r {
                Some(e) => spec_parse_line(log@) == Some(e@),
                None => spec_parse_line(log@) is None,
            },
    {
        let rest = match preamble_rest(log.as_str()) {
            None => {
                return None;
            },
            Some(s) => s,
        };
        match SysmonEvent::from_xml(rest.as_str()) {
            None => None,
            Some(ev) => Some(SyslogEntry { log, sysmon_event: ev }),
        }
    }
}

/// The line without one trailing carriage return, if it ends in one.
pub open spec fn strip_cr(l: Seq<char>) -> Seq<char> {
    if l.len() > 0 && l[l.len() - 1] == '\r' {
        l.drop_last()
    } else {
        l
    }
}

/// The lines of the text, as `str::lines` reads them: split on newlines,
/// one trailing carriage return removed per line, and no final empty line
/// when the text ends with a newline.
pub open spec fn spec_lines(t: Seq<char>) -> Seq<Seq<char>> {
    if t.len() == 0 {
        Seq::empty()
    } else {
        let raw = split_spec(t, '\n');
        let kept = if t[t.len() - 1] == '\n' {
            raw.drop_last()
        } else {
            raw
        };
        kept.map_values(|l: Seq<char>| strip_cr(l))
    }
}

/// The records the given lines contribute, in order: each line's record if
/// it parses, nothing from it otherwise.
pub open spec fn entries_of(lines: Seq<Seq<char>>) -> Seq<SyslogEntryView>
    decreases lines.len(),
{
    if lines.len() == 0 {
        Seq::empty()
    } else {
        (match spec_parse_line(lines[0]) {
            Some(e) => seq![e],
            None => Seq::<SyslogEntryView>::empty(),
        }) + entries_of(lines.drop_first())
    }
}

/// The ordered record sequence the whole log text denotes.
pub open spec fn spec_ingest(t: Seq<char>) -> Seq<SyslogEntryView> {
    entries_of(spec_lines(t))
}

/// The views of a sequence of entries.
pub open spec fn entry_views(v: Seq<SyslogEntry>) -> Seq<SyslogEntryView> {
    v.map_values(|e: SyslogEntry| e@)
}

/// Strips one trailing carriage return.
fn strip_trailing_cr(s: &str) -> (r: String)
    ensures
        r@ == strip_cr(s@),
{
    let slen = s.unicode_len();
    if slen > 0 && s.get_char(slen - 1) == '\r' {
        assert(s@.subrange(0, s@.len() - 1) =~= s@.drop_last());
        String::from_str(s.substring_char(0, slen - 1))
    } else {
        String::from_str(s)
    }
}

/// Decodes a raw multi-line log into the ordered record sequence it
/// denotes, line by line: a line that does not match or does not decode
/// contributes nothing and never stops the rest.
pub fn ingest(text: &str) -> (r: Vec<SyslogEntry>)
    ensures
        entry_views(r@) == spec_ingest(text@),
{
    let mut entries: Vec<SyslogEntry> = Vec::new();
    let tlen = text.unicode_len();
    if tlen == 0 {
        assert(entry_views(entries@) =~= spec_ingest(text@));
        return entries;
    }
    let mut raw = split_char(text, '\n');
    if text.get_char(tlen - 1) == '\n' {
        proof {
            lemma_split_len(text@, '\n');
        }
        let _last = raw.pop();
        assert(crate::text::str_views(raw@) =~= split_spec(text@, '\n').drop_last());
    }
    let ghost lines = spec_lines(text@);
    assert(lines =~= crate::text::str_views(raw@).map_values(|l: Seq<char>| strip_cr(l)));
    let n = raw.len();
    let mut i: usize = 0;
    proof {
        assert(lines.skip(0) =~= lines);
    }
    while i < n
        invariant
            i <= n,
            n == raw@.len(),
            lines == crate::text::str_views(raw@).map_values(|l: Seq<char>| strip_cr(l)),
            entries_of(lines) == entry_views(entries@) + entries_of(lines.skip(i as int)),
        decreases n - i,
    {
        let line = strip_trailing_cr(raw[i].as_str());
        proof {
            assert(lines[i as int] == strip_cr(raw@[i as int]@));
            assert(lines.skip(i as int)[0] == lines[i as int]);
            assert(lines.skip(i as int).drop_first() =~= lines.skip(i + 1));
        }
        let ghost prior = entries@;
        match SyslogEntry::parse(line) {
            Some(entry) => {
                entries.push(entry);
                proof {
                    assert(entry_views(entries@) =~= entry_views(prior) + seq![entries@.last()@]);
                    assert(entry_views(prior) + entries_of(lines.skip(i as int)) =~= entry_views(
                        entries@,
                    ) + entries_of(lines.skip(i + 1)));
                }
            },
            None => {
                proof {
                    assert(entries_of(lines.skip(i as int)) =~= entries_of(lines.skip(i + 1)));
                }
            },
        }
        i += 1;
    }
    assert(entries_of(lines.skip(n as int)) =~= Seq::<SyslogEntryView>::empty());
    assert(entry_views(entries@) =~= entry_views(entries@) + entries_of(lines.skip(n as int)));
    entries
}

/// Every record the given lines contribute comes from one of them: some
/// line parses to exactly that record. In particular a line that does not
/// parse — one lacking the forwarder-tag preamble, or one whose document
/// does not decode — contributes no record to any ingestion.
pub proof fn lemma_entries_sound(lines: Seq<Seq<char>>, k: int)
    requires
        0 <= k < entries_of(lines).len(),
    ensures
        exists|i: int|
            0 <= i < lines.len() && spec_parse_line(#[trigger] lines[i]) == Some(
                entries_of(lines)[k],
            ),
    decreases lines.len(),
{
    let rest = lines.drop_first();
    match spec_parse_line(lines[0]) {
        Some(e) => {
            if k == 0 {
                assert(entries_of(lines)[0] == e);
                assert(spec_parse_line(lines[0]) == Some(entries_of(lines)[0]));
            } else {
                lemma_entries_sound(rest, k - 1);
                let i = choose|i: int|
                    0 <= i < rest.len() && spec_parse_line(#[trigger] rest[i]) == Some(
                        entries_of(rest)[k - 1],
                    );
                assert(lines[i + 1] == rest[i]);
                assert(entries_of(lines)[k] == entries_of(rest)[k - 1]);
            }
        },
        None => {
            lemma_entries_sound(rest, k);
            let i = choose|i: int|
                0 <= i < rest.len() && spec_parse_line(#[trigger] rest[i]) == Some(
                    entries_of(rest)[k],
                );
            assert(lines[i + 1] == rest[i]);
            assert(entries_of(lines)[k] == entries_of(rest)[k]);
        },
    }
}

/// A line in which the matcher, after the one trailing carriage return is
/// stripped, finds no forwarder-tag preamble contributes zero records:
/// it does not parse, and ingesting it alone yields nothing.
pub proof fn lemma_no_preamble_no_record(line: Seq<char>)
    requires
        preamble_first_match(strip_cr(line), 0) is None,
        forall|k: int| 0 <= k < line.len() ==> line[k] != '\n',
    ensures
        spec_parse_line(strip_cr(line)) is None,
        spec_ingest(line) == Seq::<SyslogEntryView>::empty(),
{
    if line.len() == 0 {
        assert(spec_ingest(line) =~= Seq::<SyslogEntryView>::empty());
    } else {
        lemma_find_char_from(line, '\n', 0);
        assert(find_char_from(line, '\n', 0) is None);
        assert(split_spec(line, '\n') == seq![line]);
        assert(line[line.len() - 1] != '\n');
        assert(spec_lines(line) =~= seq![strip_cr(line)]);
        assert(spec_parse_line(strip_cr(line)) is None);
        let lines = spec_lines(line);
        assert(lines.drop_first() =~= Seq::<Seq<char>>::empty());
        assert(entries_of(lines.drop_first()) =~= Seq::<SyslogEntryView>::empty());
        assert(lines[0] == strip_cr(line));
        assert(entries_of(lines) == Seq::<SyslogEntryView>::empty() + entries_of(
            lines.drop_first(),
        ));
        assert(spec_ingest(line) =~= Seq::<SyslogEntryView>::empty());
    }
}

} // verus!
