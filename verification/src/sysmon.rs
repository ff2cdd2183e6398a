//! Typed telemetry events: event kinds, offset-preserving timestamps, and
//! the decoder for the structured event document embedded in a forwarded
//! log line.

use vstd::prelude::*;
use vstd::string::StrSliceExecFns;
use vstd::string::StringExecFns;

use crate::text::find_from;
use crate::text::find_substring_from;
use crate::text::lemma_find_from;
use crate::text::str_eq;

verus! {

/// The known telemetry event kinds, by their numeric ids; an unknown
/// numeric id still decodes, generically, for forward compatibility.
#[derive(Debug, Clone, Copy, PartialEq, Eq, Structural)]
pub enum SysmonEventId {
    ProcessCreate,
    FileDelete,
    Unknown(u32),
}

/// The event kind a numeric event id denotes.
pub open spec fn event_id_of(n: u32) -> SysmonEventId {
    if n == 1 {
        SysmonEventId::ProcessCreate
    } else if n == 23 {
        SysmonEventId::FileDelete
    } else {
        SysmonEventId::Unknown(n)
    }
}

/// Maps a numeric event id to its kind.
pub fn event_id_from_code(n: u32) -> (r: SysmonEventId)
    ensures
        r == event_id_of(n),
{
    if n == 1 {
        SysmonEventId::ProcessCreate
    } else if n == 23 {
        SysmonEventId::FileDelete
    } else {
        SysmonEventId::Unknown(n)
    }
}

/// A point in time with its original UTC offset preserved: the offset is
/// never normalized away, so operators keep reading local guest time.
#[derive(Debug, Clone, Copy, PartialEq, Eq, Structural)]
pub struct Timestamp {
    pub year: u32,
    pub month: u32,
    pub day: u32,
    pub hour: u32,
    pub minute: u32,
    pub second: u32,
    /// Minutes east of UTC, as written in the source text.
    pub offset_minutes: i32,
}

/// Field ranges of a decoded timestamp.
pub open spec fn timestamp_wf(t: Timestamp) -> bool {
    &&& t.year <= 9999
    &&& 1 <= t.month <= 12
    &&& 1 <= t.day <= 31
    &&& t.hour <= 23
    &&& t.minute <= 59
    &&& t.second <= 59
    &&& -1439 <= t.offset_minutes <= 1439
}

/// An ASCII decimal digit.
pub open spec fn is_digit(c: char) -> bool {
    '0' <= c && c <= '9'
}

/// All of `s[from .. from + count)` are decimal digits.
pub open spec fn all_digits(s: Seq<char>, from: int, count: int) -> bool {
    forall|k: int| from <= k < from + count ==> is_digit(#[trigger] s[k])
}

/// Numeric value of the digit run `s[from .. from + count)`.
pub open spec fn digits_val(s: Seq<char>, from: int, count: int) -> int
    decreases count,
{
    if count <= 0 {
        0
    } else {
        digits_val(s, from, count - 1) * 10 + (s[from + count - 1] as int - 48)
    }
}

/// Ten to the `k`.
pub open spec fn ten_pow(k: int) -> int
    decreases k,
{
    if k <= 0 {
        1
    } else {
        10 * ten_pow(k - 1)
    }
}

/// Ten to the `k` is positive.
pub proof fn lemma_ten_pow_pos(a: int)
    ensures
        ten_pow(a) >= 1,
    decreases a,
{
    if a > 0 {
        lemma_ten_pow_pos(a - 1);
    }
}

/// Ten to the `k` grows with `k`.
pub proof fn lemma_ten_pow_mono(a: int, b: int)
    requires
        a <= b,
    ensures
        ten_pow(a) <= ten_pow(b),
        ten_pow(a) >= 1,
    decreases b - a,
{
    lemma_ten_pow_pos(a);
    if a < b {
        lemma_ten_pow_mono(a, b - 1);
    }
}

/// Concrete value of ten to the eight.
pub proof fn lemma_ten_pow_8()
    ensures
        ten_pow(8) == 100000000,
{
    assert(ten_pow(0) == 1);
    assert(ten_pow(1) == 10);
    assert(ten_pow(2) == 100);
    assert(ten_pow(3) == 1000);
    assert(ten_pow(4) == 10000);
    assert(ten_pow(5) == 100000);
    assert(ten_pow(6) == 1000000);
    assert(ten_pow(7) == 10000000);
}

/// A run of `count` digits has a value below ten to the `count`.
pub proof fn lemma_digits_val_bound(s: Seq<char>, from: int, count: int)
    requires
        0 <= from,
        from + count <= s.len(),
        all_digits(s, from, count),
    ensures
        0 <= digits_val(s, from, count) < ten_pow(count),
    decreases count,
{
    if count > 0 {
        lemma_digits_val_bound(s, from, count - 1);
        assert(is_digit(s[from + count - 1]));
    }
}

/// End of the maximal digit run starting at `from`.
pub open spec fn digit_run_end(s: Seq<char>, from: int) -> int
    decreases s.len() - from,
{
    if 0 <= from < s.len() && is_digit(s[from]) {
        digit_run_end(s, from + 1)
    } else {
        from
    }
}

/// The digit run starting at `from` ends within the text, at or after
/// `from`.
pub proof fn lemma_digit_run_end(s: Seq<char>, from: int)
    requires
        0 <= from <= s.len(),
    ensures
        from <= digit_run_end(s, from) <= s.len(),
    decreases s.len() - from,
{
    if 0 <= from < s.len() && is_digit(s[from]) {
        lemma_digit_run_end(s, from + 1);
    }
}

/// The UTC offset written at position `p`, which must close the text:
/// either `Z` (zero) or a sign and `hh:mm` within a day, in minutes.
pub open spec fn spec_parse_offset(t: Seq<char>, p: int) -> Option<i32> {
    if p == t.len() - 1 && t[p] == 'Z' {
        Some(0i32)
    } else if p == t.len() - 6 && (t[p] == '+' || t[p] == '-') && all_digits(t, p + 1, 2) && t[p
        + 3] == ':' && all_digits(t, p + 4, 2) {
        let hh = digits_val(t, p + 1, 2);
        let mm = digits_val(t, p + 4, 2);
        if hh <= 23 && mm <= 59 {
            if t[p] == '+' {
                Some((hh * 60 + mm) as i32)
            } else {
                Some((-(hh * 60 + mm)) as i32)
            }
        } else {
            None
        }
    } else {
        None
    }
}

/// The timestamp the text denotes: a calendar date, a `T`, a clock time,
/// an optional fractional-second run (accepted, not retained), and the
/// closing UTC offset. Out-of-range components fail the parse.
pub open spec fn spec_parse_timestamp(t: Seq<char>) -> Option<Timestamp> {
    if t.len() >= 20 && all_digits(t, 0, 4) && t[4] == '-' && all_digits(t, 5, 2) && t[7] == '-'
        && all_digits(t, 8, 2) && t[10] == 'T' && all_digits(t, 11, 2) && t[13] == ':'
        && all_digits(t, 14, 2) && t[16] == ':' && all_digits(t, 17, 2) {
        let p = if t[19] == '.' {
            digit_run_end(t, 20)
        } else {
            19
        };
        if t[19] == '.' && p == 20 {
            None
        } else {
            match spec_parse_offset(t, p) {
                None => None,
                Some(off) => {
                    let month = digits_val(t, 5, 2);
                    let day = digits_val(t, 8, 2);
                    let hour = digits_val(t, 11, 2);
                    let minute = digits_val(t, 14, 2);
                    let second = digits_val(t, 17, 2);
                    if 1 <= month <= 12 && 1 <= day <= 31 && hour <= 23 && minute <= 59 && second
                        <= 59 {
                        Some(
                            Timestamp {
                                year: digits_val(t, 0, 4) as u32,
                                month: month as u32,
                                day: day as u32,
                                hour: hour as u32,
                                minute: minute as u32,
                                second: second as u32,
                                offset_minutes: off,
                            },
                        )
                    } else {
                        None
                    }
                },
            }
        }
    } else {
        None
    }
}

/// A parsed timestamp is well formed.
pub proof fn lemma_parse_timestamp_wf(t: Seq<char>)
    ensures
        match spec_parse_timestamp(t) {
            Some(ts) => timestamp_wf(ts),
            None => true,
        },
{
    if spec_parse_timestamp(t) is Some {
        lemma_digits_val_bound(t, 0, 4);
        lemma_digits_val_bound(t, 5, 2);
        lemma_digits_val_bound(t, 8, 2);
        lemma_digits_val_bound(t, 11, 2);
        lemma_digits_val_bound(t, 14, 2);
        lemma_digits_val_bound(t, 17, 2);
        assert(ten_pow(4) == 10000) by {
            assert(ten_pow(0) == 1);
            assert(ten_pow(1) == 10);
            assert(ten_pow(2) == 100);
            assert(ten_pow(3) == 1000);
        };
        let p = if t[19] == '.' {
            digit_run_end(t, 20)
        } else {
            19
        };
        lemma_digit_run_end(t, 20);
        if !(p == t.len() - 1 && t[p] == 'Z') {
            lemma_digits_val_bound(t, p + 1, 2);
            lemma_digits_val_bound(t, p + 4, 2);
        }
    }
}

/// Reads the value of the digit run `s[from .. from + count)`.
fn digits_value(s: &str, from: usize, count: usize) -> (r: u32)
    requires
        from + count <= s@.len(),
        count <= 9,
        all_digits(s@, from as int, count as int),
    ensures
        r == digits_val(s@, from as int, count as int),
{
    let slen = s.unicode_len();
    let mut k: usize = 0;
    let mut r: u32 = 0;
    while k < count
        invariant
            k <= count,
            count <= 9,
            from + count <= slen,
            slen == s@.len(),
            all_digits(s@, from as int, count as int),
            r == digits_val(s@, from as int, k as int),
        decreases count - k,
    {
        proof {
            lemma_digits_val_bound(s@, from as int, k as int);
            lemma_ten_pow_mono(k as int, 8);
            lemma_ten_pow_8();
            assert(is_digit(s@[from + k]));
        }
        let c = s.get_char(from + k);
        r = r * 10 + (c as u32 - 48);
        k += 1;
    }
    r
}

/// Checks that `s[from .. from + count)` is all digits.
fn check_digits(s: &str, from: usize, count: usize) -> (r: bool)
    requires
        from + count <= s@.len(),
    ensures
        r == all_digits(s@, from as int, count as int),
{
    let slen = s.unicode_len();
    let mut k: usize = 0;
    while k < count
        invariant
            k <= count,
            from + count <= slen,
            slen == s@.len(),
            forall|j: int| from <= j < from + k ==> is_digit(#[trigger] s@[j]),
        decreases count - k,
    {
        let c = s.get_char(from + k);
        if !(c >= '0' && c <= '9') {
            assert(!is_digit(s@[from + k]));
            return false;
        }
        k += 1;
    }
    true
}

/// Finds the end of the maximal digit run starting at `from`.
pub(crate) fn digit_run(s: &str, from: usize) -> (e: usize)
    requires
        from <= s@.len(),
    ensures
        e as int == digit_run_end(s@, from as int),
        from <= e <= s@.len(),
{
    let slen = s.unicode_len();
    let mut e = from;
    while e < slen
        invariant
            from <= e <= slen,
            slen == s@.len(),
            digit_run_end(s@, from as int) == digit_run_end(s@, e as int),
        decreases slen - e,
    {
        let c = s.get_char(e);
        if !(c >= '0' && c <= '9') {
            assert(!is_digit(s@[e as int]));
            return e;
        }
        e += 1;
    }
    e
}

/// Parses the UTC offset closing the text at position `p`.
fn parse_offset(t: &str, p: usize) -> (r: Option<i32>)
    requires
        p < t@.len(),
    ensures
        r == spec_parse_offset(t@, p as int),
{
    let tlen = t.unicode_len();
    if p == tlen - 1 && t.get_char(p) == 'Z' {
        return Some(0);
    }
    if tlen >= 6 && p == tlen - 6 {
        let sign = t.get_char(p);
        if (sign == '+' || sign == '-') && check_digits(t, p + 1, 2) && t.get_char(p + 3) == ':'
            && check_digits(t, p + 4, 2) {
            let hh = digits_value(t, p + 1, 2);
            let mm = digits_value(t, p + 4, 2);
            proof {
                lemma_digits_val_bound(t@, p + 1, 2);
                lemma_digits_val_bound(t@, p + 4, 2);
            }
            if hh <= 23 && mm <= 59 {
                let total = (hh * 60 + mm) as i32;
                if sign == '+' {
                    return Some(total);
                } else {
                    return Some(-total);
                }
            } else {
                return None;
            }
        }
    }
    None
}

/// Parses a timestamp text, exactly as `spec_parse_timestamp` reads it.
/// A parsed timestamp is well formed.
pub fn parse_timestamp(t: &str) -> (r: Option<Timestamp>)
    ensures
        r == spec_parse_timestamp(t@),
        match r {
            Some(ts) => timestamp_wf(ts),
            None => true,
        },
{
    proof {
        lemma_parse_timestamp_wf(t@);
    }
    let tlen = t.unicode_len();
    if tlen < 20 {
        return None;
    }
    if !(check_digits(t, 0, 4) && t.get_char(4) == '-' && check_digits(t, 5, 2) && t.get_char(7)
        == '-' && check_digits(t, 8, 2) && t.get_char(10) == 'T' && check_digits(t, 11, 2)
        && t.get_char(13) == ':' && check_digits(t, 14, 2) && t.get_char(16) == ':' && check_digits(
        t,
        17,
        2,
    )) {
        return None;
    }
    let p: usize = if t.get_char(19) == '.' {
        digit_run(t, 20)
    } else {
        19
    };
    if t.get_char(19) == '.' && p == 20 {
        return None;
    }
    if p >= tlen {
        proof {
            lemma_digit_run_end(t@, 20);
        }
        assert(spec_parse_offset(t@, p as int) is None);
        return None;
    }
    match parse_offset(t, p) {
        None => None,
        Some(off) => {
            let month = digits_value(t, 5, 2);
            let day = digits_value(t, 8, 2);
            let hour = digits_value(t, 11, 2);
            let minute = digits_value(t, 14, 2);
            let second = digits_value(t, 17, 2);
            if 1 <= month && month <= 12 && 1 <= day && day <= 31 && hour <= 23 && minute <= 59
                && second <= 59 {
                Some(
                    Timestamp {
                        year: digits_value(t, 0, 4),
                        month,
                        day,
                        hour,
                        minute,
                        second,
                        offset_minutes: off,
                    },
                )
            } else {
                None
            }
        },
    }
}

/// The views of a sequence of string pairs.
pub open spec fn pair_views(s: Seq<(String, String)>) -> Seq<(Seq<char>, Seq<char>)> {
    s.map_values(|p: (String, String)| (p.0@, p.1@))
}

/// No two entries share a field name.
pub open spec fn keys_unique(s: Seq<(Seq<char>, Seq<char>)>) -> bool {
    forall|i: int, j: int| 0 <= i < j < s.len() ==> (#[trigger] s[i]).0 != (#[trigger] s[j]).0
}

/// Value of the first entry named `key`, if any.
pub open spec fn lookup(s: Seq<(Seq<char>, Seq<char>)>, key: Seq<char>) -> Option<Seq<char>>
    decreases s.len(),
{
    if s.len() == 0 {
        None
    } else if s[0].0 == key {
        Some(s[0].1)
    } else {
        lookup(s.drop_first(), key)
    }
}

/// Some entry is named `key`.
pub open spec fn contains_key(s: Seq<(Seq<char>, Seq<char>)>, key: Seq<char>) -> bool {
    exists|i: int| 0 <= i < s.len() && (#[trigger] s[i]).0 == key
}

/// A lookup succeeds exactly when some entry is named `key`.
pub proof fn lemma_lookup_contains(s: Seq<(Seq<char>, Seq<char>)>, key: Seq<char>)
    ensures
        lookup(s, key) is Some <==> contains_key(s, key),
    decreases s.len(),
{
    if s.len() > 0 && s[0].0 != key {
        lemma_lookup_contains(s.drop_first(), key);
        if contains_key(s.drop_first(), key) {
            let i = choose|i: int|
                0 <= i < s.drop_first().len() && (#[trigger] s.drop_first()[i]).0 == key;
            assert(s[i + 1].0 == key);
        }
        if contains_key(s, key) {
            let i = choose|i: int| 0 <= i < s.len() && (#[trigger] s[i]).0 == key;
            assert(s.drop_first()[i - 1].0 == key);
        }
    }
}

/// The entries of `s` from index `i` on, folded onto `acc` keeping, for
/// each field name, only its first occurrence.
pub open spec fn dedup_keys_from(
    s: Seq<(Seq<char>, Seq<char>)>,
    i: int,
    acc: Seq<(Seq<char>, Seq<char>)>,
) -> Seq<(Seq<char>, Seq<char>)>
    decreases s.len() - i,
{
    if !(0 <= i < s.len()) {
        acc
    } else {
        let acc2 = if contains_key(acc, s[i].0) {
            acc
        } else {
            acc.push(s[i])
        };
        dedup_keys_from(s, i + 1, acc2)
    }
}

/// The entries of `s` with, for each field name, only its first occurrence
/// kept, in order.
pub open spec fn dedup_keys(s: Seq<(Seq<char>, Seq<char>)>) -> Seq<(Seq<char>, Seq<char>)> {
    dedup_keys_from(s, 0, Seq::empty())
}

/// Ordered field map of one event: field name to value, keys unique, the
/// first occurrence of a name winning, unknown fields preserved for
/// forward compatibility.
#[derive(Debug, PartialEq, Eq)]
pub struct EventData {
    pairs: Vec<(String, String)>,
}

impl View for EventData {
    type V = Seq<(Seq<char>, Seq<char>)>;

    closed spec fn view(&self) -> Seq<(Seq<char>, Seq<char>)> {
        pair_views(self.pairs@)
    }
}

impl EventData {
    /// Keys are unique.
    pub open spec fn wf(&self) -> bool {
        keys_unique(self@)
    }

    /// An empty field map.
    pub fn new() -> (r: Self)
        ensures
            r@ == Seq::<(Seq<char>, Seq<char>)>::empty(),
            r.wf(),
    {
        let r = EventData { pairs: Vec::new() };
        assert(r@ =~= Seq::<(Seq<char>, Seq<char>)>::empty());
        r
    }

    /// The value of the field named `key`, if any.
    pub fn get(&self, key: &str) -> (r: Option<String>)
        ensures
            match r {
                Some(v) => lookup(self@, key@) == Some(v@),
                None => lookup(self@, key@) is None,
            },
    {
        let n = self.pairs.len();
        let mut i: usize = 0;
        proof {
            assert(self@.skip(0) =~= self@);
        }
        while i < n
            invariant
                i <= n,
                n == self.pairs@.len(),
                lookup(self@, key@) == lookup(self@.skip(i as int), key@),
            decreases n - i,
        {
            proof {
                assert(self@.skip(i as int)[0] == self@[i as int]);
                assert(self@[i as int] == (self.pairs@[i as int].0@, self.pairs@[i as int].1@));
            }
            if str_eq(self.pairs[i].0.as_str(), key) {
                let v = self.pairs[i].1.clone();
                return Some(v);
            }
            proof {
                assert(self@.skip(i as int).drop_first() =~= self@.skip(i + 1));
            }
            i += 1;
        }
        assert(self@.skip(n as int).len() == 0);
        None
    }

    /// Adds a field; a field name already present keeps its first value,
    /// and the map is left unchanged.
    pub fn insert(&mut self, key: String, value: String)
        requires
            old(self).wf(),
        ensures
            final(self).wf(),
            final(self)@ == (if contains_key(old(self)@, key@) {
                old(self)@
            } else {
                old(self)@.push((key@, value@))
            }),
    {
        proof {
            lemma_lookup_contains(self@, key@);
        }
        let present = self.get(key.as_str());
        if present.is_none() {
            let ghost prior = self@;
            self.pairs.push((key, value));
            assert(self@ =~= prior.push((self.pairs@.last().0@, self.pairs@.last().1@)));
        }
    }

    /// Builds a field map from pairs in order, first occurrence of each
    /// name winning.
    pub fn from_pairs(pairs: &Vec<(String, String)>) -> (r: Self)
        ensures
            r@ == dedup_keys(pair_views(pairs@)),
            r.wf(),
    {
        let mut data = EventData::new();
        let n = pairs.len();
        let mut i: usize = 0;
        while i < n
            invariant
                i <= n,
                n == pairs@.len(),
                data.wf(),
                dedup_keys(pair_views(pairs@)) == dedup_keys_from(
                    pair_views(pairs@),
                    i as int,
                    data@,
                ),
            decreases n - i,
        {
            proof {
                assert(pair_views(pairs@)[i as int] == (pairs@[i as int].0@, pairs@[i as int].1@));
            }
            let key = pairs[i].0.clone();
            let value = pairs[i].1.clone();
            data.insert(key, value);
            i += 1;
        }
        data
    }
}

/// A decoded telemetry event.
#[derive(Debug, PartialEq, Eq)]
pub struct SysmonEvent {
    pub event_id: SysmonEventId,
    pub time_created: Timestamp,
    pub event_data: EventData,
}

/// Mathematical model of a decoded telemetry event.
pub struct SysmonEventView {
    pub event_id: SysmonEventId,
    pub time_created: Timestamp,
    pub event_data: Seq<(Seq<char>, Seq<char>)>,
}

impl View for SysmonEvent {
    type V = SysmonEventView;

    open spec fn view(&self) -> SysmonEventView {
        SysmonEventView {
            event_id: self.event_id,
            time_created: self.time_created,
            event_data: self.event_data@,
        }
    }
}

/// The text enclosed between the first `open_tag` at or after `from` and
/// the first `close_tag` after it, with the position just past the close.
pub open spec fn spec_between(
    d: Seq<char>,
    open_tag: Seq<char>,
    close_tag: Seq<char>,
    from: int,
) -> Option<(int, Seq<char>)> {
    match find_from(d, open_tag, from) {
        None => None,
        Some(i) => {
            let start = i + open_tag.len();
            match find_from(d, close_tag, start) {
                None => None,
                Some(j) => Some((j + close_tag.len() as int, d.subrange(start, j))),
            }
        },
    }
}

/// Finds the text between `open_tag` and `close_tag`, at or after `from`.
fn find_between(d: &str, open_tag: &str, close_tag: &str, from: usize) -> (r: Option<
    (usize, String),
>)
    ensures
        match r {
            Some(pair) => {
                &&& spec_between(d@, open_tag@, close_tag@, from as int) == Some(
                    (pair.0 as int, pair.1@),
                )
                &&& from + open_tag@.len() + close_tag@.len() <= pair.0 <= d@.len()
            },
            None => spec_between(d@, open_tag@, close_tag@, from as int) is None,
        },
{
    let dlen = d.unicode_len();
    match find_substring_from(d, open_tag, from) {
        None => None,
        Some(i) => {
            proof {
                lemma_find_from(d@, open_tag@, from as int);
            }
            let start = i + open_tag.unicode_len();
            match find_substring_from(d, close_tag, start) {
                None => None,
                Some(j) => {
                    proof {
                        lemma_find_from(d@, close_tag@, start as int);
                    }
                    let content = String::from_str(d.substring_char(start, j));
                    Some((j + close_tag.unicode_len(), content))
                },
            }
        },
    }
}

/// The field pairs read from `d` at or after `pos`, in order: for each
/// field element, the name between its opening markers and the value up to
/// its closing tag; reading stops at the first incomplete element.
pub open spec fn spec_fields_from(d: Seq<char>, pos: int) -> Seq<(Seq<char>, Seq<char>)>
    decreases d.len() - pos,
    via spec_fields_from_dec
{
    if pos < 0 {
        Seq::empty()
    } else {
        match spec_between(d, "<Data Name=\""@, "\">"@, pos) {
            None => Seq::empty(),
            Some((vstart, key)) => {
                match find_from(d, "</Data>"@, vstart) {
                    None => Seq::empty(),
                    Some(l) => seq![(key, d.subrange(vstart, l))] + spec_fields_from(
                        d,
                        l + "</Data>"@.len(),
                    ),
                }
            },
        }
    }
}

#[via_fn]
proof fn spec_fields_from_dec(d: Seq<char>, pos: int) {
    if pos >= 0 {
        reveal_strlit("<Data Name=\"");
        reveal_strlit("\">");
        reveal_strlit("</Data>");
        if let Some(i) = find_from(d, "<Data Name=\""@, pos) {
            lemma_find_from(d, "<Data Name=\""@, pos);
            let start = i + "<Data Name=\""@.len();
            if let Some(j) = find_from(d, "\">"@, start) {
                lemma_find_from(d, "\">"@, start);
                let vstart = j + "\">"@.len() as int;
                if let Some(l) = find_from(d, "</Data>"@, vstart) {
                    lemma_find_from(d, "</Data>"@, vstart);
                }
            }
        }
    }
}

/// Reads the field pairs of `d`, exactly as `spec_fields_from` lists them.
fn parse_fields(d: &str) -> (r: Vec<(String, String)>)
    ensures
        pair_views(r@) == spec_fields_from(d@, 0),
{
    let dlen = d.unicode_len();
    let mut out: Vec<(String, String)> = Vec::new();
    let mut pos: usize = 0;
    proof {
        assert(pair_views(out@) =~= Seq::<(Seq<char>, Seq<char>)>::empty());
    }
    loop
        invariant
            pos <= dlen,
            dlen == d@.len(),
            spec_fields_from(d@, 0) == pair_views(out@) + spec_fields_from(d@, pos as int),
        decreases dlen - pos,
    {
        let found = find_between(d, "<Data Name=\"", "\">", pos);
        match found {
            None => {
                assert(spec_fields_from(d@, pos as int) =~= Seq::<(Seq<char>, Seq<char>)>::empty());
                assert(pair_views(out@) + spec_fields_from(d@, pos as int) =~= pair_views(out@));
                return out;
            },
            Some((vstart, key)) => {
                match find_substring_from(d, "</Data>", vstart) {
                    None => {
                        assert(spec_fields_from(d@, pos as int) =~= Seq::<
                            (Seq<char>, Seq<char>),
                        >::empty());
                        assert(pair_views(out@) + spec_fields_from(d@, pos as int) =~= pair_views(
                            out@,
                        ));
                        return out;
                    },
                    Some(l) => {
                        proof {
                            lemma_find_from(d@, "</Data>"@, vstart as int);
                            reveal_strlit("<Data Name=\"");
                            reveal_strlit("\">");
                            reveal_strlit("</Data>");
                        }
                        let value = String::from_str(d.substring_char(vstart, l));
                        let close_len = "</Data>".unicode_len();
                        let ghost prior = out@;
                        out.push((key, value));
                        let ghost kv = (out@.last().0@, out@.last().1@);
                        proof {
                            assert(pair_views(out@) =~= pair_views(prior) + seq![kv]);
                            assert(spec_fields_from(d@, pos as int) == seq![kv]
                                + spec_fields_from(d@, l + "</Data>"@.len()));
                            assert(pair_views(out@) + spec_fields_from(d@, l + "</Data>"@.len())
                                =~= (pair_views(prior) + spec_fields_from(d@, pos as int)));
                        }
                        pos = l + close_len;
                    },
                }
            },
        }
    }
}

/// The numeric value the whole text denotes: one to nine decimal digits.
pub open spec fn spec_parse_u32(t: Seq<char>) -> Option<u32> {
    if 1 <= t.len() <= 9 && all_digits(t, 0, t.len() as int) {
        Some(digits_val(t, 0, t.len() as int) as u32)
    } else {
        None
    }
}

/// Parses a small decimal number, exactly as `spec_parse_u32` reads it.
pub fn parse_u32(t: &str) -> (r: Option<u32>)
    ensures
        r == spec_parse_u32(t@),
{
    let tlen = t.unicode_len();
    if tlen < 1 || tlen > 9 {
        return None;
    }
    if !check_digits(t, 0, tlen) {
        return None;
    }
    Some(digits_value(t, 0, tlen))
}

/// What a structured event document denotes: its numeric event id between
/// the event-id tags, the timestamp quoted after the time-created marker,
/// and the field map, deduplicated first-wins. A document without a
/// readable id or timestamp denotes nothing.
pub open spec fn spec_from_xml(d: Seq<char>) -> Option<SysmonEventView> {
    match spec_between(d, "<EventID>"@, "</EventID>"@, 0) {
        None => None,
        Some((_pos, id_text)) => match spec_parse_u32(id_text) {
            None => None,
            Some(n) => match spec_between(d, "<TimeCreated SystemTime=\""@, "\""@, 0) {
                None => None,
                Some((_tpos, time_text)) => match spec_parse_timestamp(time_text) {
                    None => None,
                    Some(ts) => Some(
                        SysmonEventView {
                            event_id: event_id_of(n),
                            time_created: ts,
                            event_data: dedup_keys(spec_fields_from(d, 0)),
                        },
                    ),
                },
            },
        },
    }
}

impl SysmonEvent {
    /// Decodes a structured event document, exactly as `spec_from_xml`
    /// reads it. A decoded event has a well-formed timestamp and unique
    /// field names.
    pub fn from_xml(doc: &str) -> (r: Option<SysmonEvent>)
        ensures
            match r {
                Some(ev) => {
                    &&& spec_from_xml(doc@) == Some(ev@)
                    &&& timestamp_wf(ev.time_created)
                    &&& ev.event_data.wf()
                },
                None => spec_from_xml(doc@) is None,
            },
    {
        let id_text = match find_between(doc, "<EventID>", "</EventID>", 0) {
            None => {
                return None;
            },
            Some((_pos, s)) => s,
        };
        let n = match parse_u32(id_text.as_str()) {
            None => {
                return None;
            },
            Some(n) => n,
        };
        let time_text = match find_between(doc, "<TimeCreated SystemTime=\"", "\"", 0) {
            None => {
                return None;
            },
            Some((_tpos, s)) => s,
        };
        let ts = match parse_timestamp(time_text.as_str()) {
            None => {
                return None;
            },
            Some(ts) => ts,
        };
        let pairs = parse_fields(doc);
        let event_data = EventData::from_pairs(&pairs);
        Some(SysmonEvent { event_id: event_id_from_code(n), time_created: ts, event_data })
    }
}

} // verus!
