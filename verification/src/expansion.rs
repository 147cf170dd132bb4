//! Typing an expansion: the dynamic variables (`{date}`, `{heure}`,
//! `{datetime}`, `{clipboard}`, `{curseur}`) and the usage statistics.
use vstd::prelude::*;
use crate::model::Stats;
use crate::system::{
    clipboard_text, date_format, date_time_format, format_stamp, is_date_text, is_time_text, local_now,
    time_format,
};
use crate::text::{
    chars_of, find_first, first_occurrence, first_occurrence_from, occurs_at, replace_all, replace_chars,
    string_of,
};

verus! {

/// `{date}`: replaced by the current date, `dd/mm/yyyy`.
pub open spec fn date_marker() -> Seq<char> {
    seq!['{', 'd', 'a', 't', 'e', '}']
}

/// `{heure}`: replaced by the current time, `hh:mm`.
pub open spec fn time_marker() -> Seq<char> {
    seq!['{', 'h', 'e', 'u', 'r', 'e', '}']
}

/// `{datetime}`: replaced by the current date and time, `dd/mm/yyyy hh:mm`.
pub open spec fn datetime_marker() -> Seq<char> {
    seq!['{', 'd', 'a', 't', 'e', 't', 'i', 'm', 'e', '}']
}

/// `{clipboard}`: replaced by the text on the clipboard.
pub open spec fn clipboard_marker() -> Seq<char> {
    seq!['{', 'c', 'l', 'i', 'p', 'b', 'o', 'a', 'r', 'd', '}']
}

/// `{curseur}`: where the caret is left after the expansion is typed.
pub open spec fn cursor_marker() -> Seq<char> {
    seq!['{', 'c', 'u', 'r', 's', 'e', 'u', 'r', '}']
}

fn date_marker_chars() -> (v: Vec<char>)
    ensures
        v@ == date_marker(),
{
    let v = vec!['{', 'd', 'a', 't', 'e', '}'];
    assert(v@ =~= date_marker());
    v
}

fn time_marker_chars() -> (v: Vec<char>)
    ensures
        v@ == time_marker(),
{
    let v = vec!['{', 'h', 'e', 'u', 'r', 'e', '}'];
    assert(v@ =~= time_marker());
    v
}

fn datetime_marker_chars() -> (v: Vec<char>)
    ensures
        v@ == datetime_marker(),
{
    let v = vec!['{', 'd', 'a', 't', 'e', 't', 'i', 'm', 'e', '}'];
    assert(v@ =~= datetime_marker());
    v
}

fn clipboard_marker_chars() -> (v: Vec<char>)
    ensures
        v@ == clipboard_marker(),
{
    let v = vec!['{', 'c', 'l', 'i', 'p', 'b', 'o', 'a', 'r', 'd', '}'];
    assert(v@ =~= clipboard_marker());
    v
}

fn cursor_marker_chars() -> (v: Vec<char>)
    ensures
        v@ == cursor_marker(),
{
    let v = vec!['{', 'c', 'u', 'r', 's', 'e', 'u', 'r', '}'];
    assert(v@ =~= cursor_marker());
    v
}

/// `text` with `{date}`, then `{heure}`, then `{datetime}` replaced.
pub open spec fn dates_substituted(text: Seq<char>, date: Seq<char>, time: Seq<char>, datetime: Seq<char>) -> Seq<char> {
    replace_all(
        replace_all(replace_all(text, date_marker(), date), time_marker(), time),
        datetime_marker(),
        datetime,
    )
}

/// `text` with `{clipboard}` replaced by `clip`.
pub open spec fn clipboard_substituted(text: Seq<char>, clip: Seq<char>) -> Seq<char> {
    replace_all(text, clipboard_marker(), clip)
}

/// `text` cut around its first `{curseur}`: what comes before the marker and
/// what comes after it; `None` when there is no marker.
pub open spec fn cursor_parts(text: Seq<char>) -> Option<(Seq<char>, Seq<char>)> {
    match first_occurrence(text, cursor_marker()) {
        Some(i) => Some((text.take(i), text.skip(i + cursor_marker().len()))),
        None => None,
    }
}

/// The end of an expansion, from its text `s` with the clock variables
/// already resolved: the first `{curseur}` of `s` is taken out, `{clipboard}`
/// is replaced by `clip` on each side of it, and the offset is the number of
/// characters typed after the marker. A `{curseur}` inside the clipboard text
/// is typed as it is.
pub open spec fn finish_expansion(s: Seq<char>, clip: Seq<char>) -> (Seq<char>, Option<nat>) {
    match cursor_parts(s) {
        Some((before, after)) => (
            clipboard_substituted(before, clip) + clipboard_substituted(after, clip),
            Some(clipboard_substituted(after, clip).len()),
        ),
        None => (clipboard_substituted(s, clip), None),
    }
}

/// The text typed for an expansion and where the caret goes, given the
/// date, time, date-and-time and clipboard texts.
pub open spec fn expanded(
    text: Seq<char>,
    date: Seq<char>,
    time: Seq<char>,
    datetime: Seq<char>,
    clip: Seq<char>,
) -> (Seq<char>, Option<nat>) {
    finish_expansion(dates_substituted(text, date, time, datetime), clip)
}

/// An optional offset, as a natural number.
pub open spec fn offset_view(o: Option<usize>) -> Option<nat> {
    match o {
        Some(k) => Some(k as nat),
        None => None,
    }
}

/// Replaces `{date}`, `{heure}` and `{datetime}`, in that order, by the
/// given texts.
pub fn substitute_dates(text: &str, date: &str, time: &str, datetime: &str) -> (r: String)
    ensures
        r@ == dates_substituted(text@, date@, time@, datetime@),
{
    let t = chars_of(text);
    let d = chars_of(date);
    let h = chars_of(time);
    let dt = chars_of(datetime);
    let t1 = replace_chars(t.as_slice(), date_marker_chars().as_slice(), d.as_slice());
    let t2 = replace_chars(t1.as_slice(), time_marker_chars().as_slice(), h.as_slice());
    let t3 = replace_chars(t2.as_slice(), datetime_marker_chars().as_slice(), dt.as_slice());
    string_of(t3.as_slice())
}

/// Whether `text` holds `{clipboard}`.
pub fn mentions_clipboard(text: &str) -> (r: bool)
    ensures
        r == (first_occurrence(text@, clipboard_marker()) is Some),
{
    let t = chars_of(text);
    find_first(t.as_slice(), clipboard_marker_chars().as_slice()).is_some()
}

/// Replaces `{clipboard}` by `clip`.
pub fn substitute_clipboard(text: &str, clip: &str) -> (r: String)
    ensures
        r@ == clipboard_substituted(text@, clip@),
{
    let t = chars_of(text);
    let c = chars_of(clip);
    let r = replace_chars(t.as_slice(), clipboard_marker_chars().as_slice(), c.as_slice());
    string_of(r.as_slice())
}

/// Cuts `text` around its first `{curseur}`.
pub fn split_at_cursor(text: &str) -> (r: Option<(String, String)>)
    ensures
        match cursor_parts(text@) {
            Some((before, after)) => r matches Some(p) && p.0@ == before && p.1@ == after,
            None => r is None,
        },
{
    let t = chars_of(text);
    let marker = cursor_marker_chars();
    match find_first(t.as_slice(), marker.as_slice()) {
        Some(i) => {
            proof {
                crate::text::lemma_first_occurrence_from(t@, marker@, 0);
                assert(first_occurrence_from(t@, marker@, 0) == Some(i as int));
                assert(occurs_at(t@, marker@, i as int));
            }
            let tl = t.len();
            let ml = marker.len();
            assert(i + ml <= tl);
            let end = i + ml;
            let mut before: Vec<char> = Vec::new();
            let mut k: usize = 0;
            while k < i
                invariant
                    k <= i,
                    i <= t.len(),
                    before@ == t@.take(k as int),
                decreases i - k,
            {
                before.push(t[k]);
                assert(t@.take(k as int).push(t@[k as int]) =~= t@.take(k + 1));
                k += 1;
            }
            let mut after: Vec<char> = Vec::new();
            let mut j: usize = end;
            while j < t.len()
                invariant
                    end <= j <= t.len(),
                    after@ == t@.subrange(end as int, j as int),
                decreases t.len() - j,
            {
                after.push(t[j]);
                assert(t@.subrange(end as int, j as int).push(t@[j as int]) =~= t@.subrange(end as int, j + 1));
                j += 1;
            }
            assert(t@.subrange(end as int, t.len() as int) =~= t@.skip(end as int));
            Some((string_of(before.as_slice()), string_of(after.as_slice())))
        },
        None => None,
    }
}

/// Finishes an expansion whose clock variables are resolved: takes out the
/// first `{curseur}`, puts `clip` in place of `{clipboard}` on each side of it,
/// and returns how many characters follow the marker.
pub fn finish_with_clipboard(s: &str, clip: &str) -> (r: (String, Option<usize>))
    ensures
        (r.0@, offset_view(r.1)) == finish_expansion(s@, clip@),
{
    match split_at_cursor(s) {
        Some((before, after)) => {
            let b = substitute_clipboard(before.as_str(), clip);
            let a = substitute_clipboard(after.as_str(), clip);
            let mut out = chars_of(b.as_str());
            let tail = chars_of(a.as_str());
            let ghost head = out@;
            let mut k: usize = 0;
            while k < tail.len()
                invariant
                    k <= tail.len(),
                    out@ == head + tail@.take(k as int),
                decreases tail.len() - k,
            {
                out.push(tail[k]);
                assert(head + tail@.take(k + 1) =~= (head + tail@.take(k as int)).push(tail@[k as int]));
                k += 1;
            }
            assert(tail@.take(tail.len() as int) =~= tail@);
            (string_of(out.as_slice()), Some(tail.len()))
        },
        None => (substitute_clipboard(s, clip), None),
    }
}

/// The text of an expansion with its clock variables resolved from one
/// reading of the local clock; the text unchanged when the clock gives no
/// reading.
fn resolve_clock(text: &str) -> (r: String)
    ensures
        r@ == text@ || exists|d: Seq<char>, t: Seq<char>|
            is_date_text(d) && is_time_text(t)
            && r@ == #[trigger] dates_substituted(text@, d, t, d + seq![' '] + t),
{
    proof {
        reveal_strlit("%d/%m/%Y");
        reveal_strlit("%H:%M");
        reveal_strlit("%d/%m/%Y %H:%M");
        assert("%d/%m/%Y"@ =~= date_format());
        assert("%H:%M"@ =~= time_format());
        assert("%d/%m/%Y %H:%M"@ =~= date_time_format());
    }
    match local_now() {
        Some(now) => {
            let (date, time, datetime) = format_stamp(&now, "%d/%m/%Y", "%H:%M", "%d/%m/%Y %H:%M");
            let r = substitute_dates(text, date.as_str(), time.as_str(), datetime.as_str());
            assert(r@ == dates_substituted(text@, date@, time@, date@ + seq![' '] + time@));
            r
        },
        None => {
            let cs = chars_of(text);
            string_of(cs.as_slice())
        },
    }
}

/// Resolves the dynamic variables of an expansion: `{date}`, `{heure}` and
/// `{datetime}` from one reading of the local clock (left as they are when
/// the clock gives no reading), then takes out the first `{curseur}` and puts
/// the clipboard text in place of `{clipboard}` on each side of it (the
/// clipboard is read only when the text asks for it), returning how many
/// characters follow the marker.
pub fn process_variables(text: &str) -> (r: (String, Option<usize>))
    ensures
        exists|s: Seq<char>, c: Seq<char>|
            (s == text@ || exists|d: Seq<char>, t: Seq<char>|
                is_date_text(d) && is_time_text(t)
                && s == #[trigger] dates_substituted(text@, d, t, d + seq![' '] + t))
            && (r.0@, offset_view(r.1)) == #[trigger] finish_expansion(s, c),
{
    let with_dates = resolve_clock(text);
    let clip = if mentions_clipboard(with_dates.as_str()) {
        clipboard_text()
    } else {
        String::new()
    };
    let r = finish_with_clipboard(with_dates.as_str(), clip.as_str());
    assert((r.0@, offset_view(r.1)) == finish_expansion(with_dates@, clip@));
    r
}

/// The characters an expansion saved: what was typed beyond the
/// abbreviation, never negative.
pub open spec fn chars_saved_by(typed: nat, abbr_len: nat) -> int {
    if typed > abbr_len {
        typed - abbr_len
    } else {
        0
    }
}

impl Stats {
    /// Recording an expansion of `typed` characters for an abbreviation of
    /// `abbr_len` overflows no counter.
    pub open spec fn can_record(self, typed: nat, abbr_len: nat) -> bool {
        &&& self.total_expansions < u64::MAX
        &&& typed <= i64::MAX
        &&& abbr_len <= i64::MAX
        &&& self.chars_saved + chars_saved_by(typed, abbr_len) <= i64::MAX
    }

    /// Whether recording an expansion typing `text` for an abbreviation of
    /// `abbr_len` characters stays within the counters' range.
    pub fn can_record_expansion(&self, text: &str, abbr_len: usize) -> (r: bool)
        ensures
            r == self.can_record(text@.len(), abbr_len as nat),
    {
        let typed = chars_of(text).len();
        if self.total_expansions == u64::MAX || typed as u64 > i64::MAX as u64 || abbr_len as u64 > i64::MAX as u64 {
            return false;
        }
        let diff = typed as i64 - abbr_len as i64;
        if diff > 0 {
            self.chars_saved <= i64::MAX - diff
        } else {
            true
        }
    }

    /// Counts one more expansion, and the characters it saved: the characters
    /// of `text` beyond the `abbr_len` of the abbreviation, if any.
    pub fn record_expansion(&mut self, text: &str, abbr_len: usize)
        requires
            old(self).can_record(text@.len(), abbr_len as nat),
        ensures
            final(self).total_expansions == old(self).total_expansions + 1,
            final(self).chars_saved == old(self).chars_saved + chars_saved_by(text@.len(), abbr_len as nat),
    {
        self.total_expansions = self.total_expansions + 1;
        let typed = chars_of(text).len();
        let diff = typed as i64 - abbr_len as i64;
        if diff > 0 {
            self.chars_saved = self.chars_saved + diff;
        }
    }
}

} // verus!
