//! Properties of the library that span its functions.
use vstd::prelude::*;
use vstd::utf8::encode_utf8;
use crate::commands::{has_id, normalized_blacklist, without_id};
use crate::text::{char_is_alphanumeric, decimal, decimal_value, law_decimal_injective, law_decimal_round_trip, lowercase};
use crate::expansion::{
    chars_saved_by, clipboard_substituted, cursor_marker, cursor_parts, finish_expansion,
};
use crate::hook::{
    best_candidate, bound_buffer, buffer_after, drain_bytes, is_candidate, pushes_char, utf8_len,
    utf8_width, BUFFER_CAPACITY, EventKind,
};
use crate::model::{AppState, Settings, Snippet, Stats};
use crate::hook::KeyEvent;
use crate::text::{
    char_is_whitespace, first_occurrence, lemma_first_occurrence_from, occurs_at, trim, trim_end, trim_start,
};

verus! {

/// Of all the snippets that can expand at the end of the buffer, the one that
/// does has the longest abbreviation, and comes first among those as long;
/// when none can, none does.
pub proof fn law_longest_abbreviation_wins(snips: Seq<Snippet>, buf: Seq<char>, require_boundary: bool)
    ensures
        best_candidate(snips, buf, require_boundary) matches Some(i) ==> {
            &&& 0 <= i < snips.len()
            &&& is_candidate(snips[i], buf, require_boundary)
            &&& forall|j: int| 0 <= j < snips.len() && is_candidate(#[trigger] snips[j], buf, require_boundary)
                ==> snips[j].abbreviation@.len() <= snips[i].abbreviation@.len()
            &&& forall|j: int| 0 <= j < i && is_candidate(#[trigger] snips[j], buf, require_boundary)
                ==> snips[j].abbreviation@.len() < snips[i].abbreviation@.len()
        },
        best_candidate(snips, buf, require_boundary) is None ==> forall|j: int|
            0 <= j < snips.len() ==> !is_candidate(#[trigger] snips[j], buf, require_boundary),
    decreases snips.len(),
{
    if snips.len() > 0 {
        let prefix = snips.drop_last();
        let last = snips.len() - 1;
        law_longest_abbreviation_wins(prefix, buf, require_boundary);
        assert forall|j: int| 0 <= j < prefix.len() implies #[trigger] prefix[j] == snips[j] by {}
        let prev = best_candidate(prefix, buf, require_boundary);
        assert forall|j: int| 0 <= j < last && is_candidate(#[trigger] snips[j], buf, require_boundary)
            implies prev is Some && snips[j].abbreviation@.len() <= snips[prev->0].abbreviation@.len() by {
            assert(prefix[j] == snips[j]);
            assert(is_candidate(prefix[j], buf, require_boundary));
        }
        if let Some(p) = prev {
            assert(prefix[p] == snips[p]);
            assert forall|j: int| 0 <= j < p && is_candidate(#[trigger] snips[j], buf, require_boundary)
                implies snips[j].abbreviation@.len() < snips[p].abbreviation@.len() by {
                assert(prefix[j] == snips[j]);
                assert(is_candidate(prefix[j], buf, require_boundary));
            }
        }
    }
}

/// Removing `n` leading bytes at a character boundary leaves `n` fewer bytes.
proof fn lemma_drain_len(s: Seq<char>, n: nat)
    ensures
        drain_bytes(s, n) matches Some(t) ==> utf8_len(t) + n == utf8_len(s),
    decreases s.len(),
{
    if n > 0 && s.len() > 0 && utf8_width(s[0]) <= n {
        lemma_drain_len(s.drop_first(), (n - utf8_width(s[0])) as nat);
    }
}

/// Dropping the last character never adds bytes.
proof fn lemma_drop_last_len(s: Seq<char>)
    requires
        s.len() > 0,
    ensures
        utf8_len(s.drop_last()) <= utf8_len(s),
    decreases s.len(),
{
    if s.len() > 1 {
        lemma_drop_last_len(s.drop_first());
        assert(s.drop_last().drop_first() =~= s.drop_first().drop_last());
    } else {
        assert(s.drop_last().len() == 0);
    }
}

/// A buffer of at most `BUFFER_CAPACITY` bytes stays within that bound after
/// any event it can take.
pub proof fn law_buffer_within_capacity(buf: Seq<char>, kind: EventKind, ch: Option<char>)
    requires
        utf8_len(buf) <= BUFFER_CAPACITY,
    ensures
        buffer_after(buf, kind, ch) matches Some(t) ==> utf8_len(t) <= BUFFER_CAPACITY,
{
    if buf.len() > 0 {
        lemma_drop_last_len(buf);
    }
    assert(utf8_len(Seq::<char>::empty()) == 0);
    if let Some(c) = ch {
        let pushed = buf.push(c);
        if utf8_len(pushed) > BUFFER_CAPACITY {
            lemma_drain_len(pushed, (utf8_len(pushed) - BUFFER_CAPACITY) as nat);
        }
        assert(bound_buffer(pushed) matches Some(t) ==> utf8_len(t) <= BUFFER_CAPACITY);
    }
}

/// The byte length the buffer is bounded by is the length of its UTF-8
/// encoding, which is what `String::len` reports.
pub proof fn law_utf8_len_is_encoded_length(s: Seq<char>)
    ensures
        utf8_len(s) == encode_utf8(s).len(),
    decreases s.len(),
{
    if s.len() > 0 {
        law_utf8_len_is_encoded_length(s.drop_first());
        let c = s[0];
        vstd::utf8::char_is_scalar(c);
    }
}

/// The caret, moved back by the returned offset from the end of the typed
/// text, lands where the first `{curseur}` of the expansion stood: before it
/// is the clipboard-filled text that preceded the marker, after it the
/// clipboard-filled text that followed. A marker inside the clipboard text
/// therefore never moves the caret. Without a marker, the text is only
/// clipboard-filled.
pub proof fn law_cursor_lands_on_marker(s: Seq<char>, clip: Seq<char>)
    ensures
        cursor_parts(s) matches Some((before, after)) ==> {
            &&& s == before + cursor_marker() + after
            &&& forall|i: int| occurs_at(s, cursor_marker(), i) ==> i >= before.len()
            &&& finish_expansion(s, clip).1 == Some(clipboard_substituted(after, clip).len())
            &&& finish_expansion(s, clip).0 == clipboard_substituted(before, clip) + clipboard_substituted(after, clip)
        },
        cursor_parts(s) is None ==> {
            &&& forall|i: int| !occurs_at(s, cursor_marker(), i)
            &&& finish_expansion(s, clip).0 == clipboard_substituted(s, clip)
            &&& finish_expansion(s, clip).1 is None
        },
{
    lemma_first_occurrence_from(s, cursor_marker(), 0);
    if let Some(i) = first_occurrence(s, cursor_marker()) {
        let m = cursor_marker().len();
        assert(s.subrange(i, i + m) == cursor_marker());
        assert(s =~= s.take(i) + s.subrange(i, i + m) + s.skip(i + m));
    }
}

/// After a deletion no snippet has the deleted id, every kept snippet is
/// one of the old ones, and the list got shorter exactly when some snippet
/// had that id.
pub proof fn law_delete_removes_exactly(snips: Seq<Snippet>, id: Seq<char>)
    ensures
        forall|k: int| 0 <= k < without_id(snips, id).len() ==> (#[trigger] without_id(snips, id)[k]).id@ != id,
        forall|k: int| 0 <= k < without_id(snips, id).len() ==> snips.contains(#[trigger] without_id(snips, id)[k]),
        without_id(snips, id).len() <= snips.len(),
        (without_id(snips, id).len() < snips.len()) == has_id(snips, id),
    decreases snips.len(),
{
    if snips.len() > 0 {
        let prefix = snips.drop_last();
        law_delete_removes_exactly(prefix, id);
        let rest = without_id(prefix, id);
        assert forall|k: int| 0 <= k < rest.len() implies snips.contains(#[trigger] rest[k]) by {
            let j = choose|j: int| 0 <= j < prefix.len() && prefix[j] == rest[k];
            assert(snips[j] == rest[k]);
        }
        assert(snips[snips.len() - 1] == snips.last());
        if has_id(prefix, id) {
            let j = choose|j: int| 0 <= j < prefix.len() && (#[trigger] prefix[j]).id@ == id;
            assert(snips[j] == prefix[j]);
        }
        if has_id(snips, id) && snips.last().id@ != id {
            let j = choose|j: int| 0 <= j < snips.len() && (#[trigger] snips[j]).id@ == id;
            assert(prefix[j] == snips[j]);
        }
        if snips.last().id@ != id {
            let r = rest.push(snips.last());
            assert forall|k: int| 0 <= k < r.len() implies snips.contains(#[trigger] r[k]) by {
                if k < rest.len() {
                    assert(r[k] == rest[k]);
                }
            }
        }
    }
}

/// Every stored blacklist entry is non-empty, and there are no more entries
/// than were given.
pub proof fn law_blacklist_entries_non_empty(bl: Seq<String>)
    ensures
        forall|k: int| 0 <= k < normalized_blacklist(bl).len() ==> (#[trigger] normalized_blacklist(bl)[k]).len() > 0,
        normalized_blacklist(bl).len() <= bl.len(),
    decreases bl.len(),
{
    if bl.len() > 0 {
        law_blacklist_entries_non_empty(bl.drop_last());
    }
}

/// An expansion saves what was typed beyond the abbreviation, and never a
/// negative number of characters, so the saved-characters count never drops.
pub proof fn law_savings_never_negative(typed: nat, abbr_len: nat)
    ensures
        chars_saved_by(typed, abbr_len) >= 0,
        typed > abbr_len ==> chars_saved_by(typed, abbr_len) == typed - abbr_len,
        typed <= abbr_len ==> chars_saved_by(typed, abbr_len) == 0,
{
}

/// What the hook reports for a buffer: the abbreviation length and the
/// expansion of the snippet that expands, if any.
pub open spec fn match_value(snips: Seq<Snippet>, buf: Seq<char>, require_boundary: bool) -> Option<(nat, String)> {
    match best_candidate(snips, buf, require_boundary) {
        Some(i) => Some((snips[i].abbreviation@.len(), snips[i].expansion)),
        None => None,
    }
}

/// A disabled snippet, or one with an empty abbreviation, changes nothing the
/// hook does: removing it leaves the reported match the same for every buffer.
/// (The buffer itself never depends on the snippets: `buffer_after` does not
/// take them.)
pub proof fn law_inert_snippet_changes_nothing(snips: Seq<Snippet>, k: int, buf: Seq<char>, require_boundary: bool)
    requires
        0 <= k < snips.len(),
        !snips[k].enabled || snips[k].abbreviation@.len() == 0,
    ensures
        match_value(snips, buf, require_boundary) == match_value(snips.remove(k), buf, require_boundary),
    decreases snips.len(),
{
    let n = snips.len() - 1;
    let d = snips.drop_last();
    let r = snips.remove(k);
    assert(!is_candidate(snips[k], buf, require_boundary));
    if k == n {
        assert(r =~= d);
        if let Some(p) = best_candidate(d, buf, require_boundary) {
            law_longest_abbreviation_wins(d, buf, require_boundary);
            assert(snips[p] == d[p]);
        }
    } else {
        assert(d[k] == snips[k]);
        law_inert_snippet_changes_nothing(d, k, buf, require_boundary);
        let dr = d.remove(k);
        assert(r.drop_last() =~= dr);
        assert(r[r.len() - 1] == snips[n]);
        law_longest_abbreviation_wins(d, buf, require_boundary);
        law_longest_abbreviation_wins(dr, buf, require_boundary);
        if let Some(p) = best_candidate(d, buf, require_boundary) {
            assert(snips[p] == d[p]);
        }
        if let Some(q) = best_candidate(dr, buf, require_boundary) {
            assert(r[q] == dr[q]);
        }
    }
}

/// What the listening hook does with a run of events (each with the
/// character it types, if any) from a buffer: the buffer it ends with and what
/// it reports after each event. A reported match clears the buffer, as
/// `AppState::conclude_match` does; the run stops at an event the buffer
/// cannot take.
pub open spec fn hook_run(
    buf: Seq<char>,
    snips: Seq<Snippet>,
    require_boundary: bool,
    events: Seq<(EventKind, Option<char>)>,
) -> (Seq<char>, Seq<Option<(nat, String)>>)
    decreases events.len(),
{
    if events.len() == 0 {
        (buf, Seq::empty())
    } else {
        let (kind, ch) = events[0];
        match buffer_after(buf, kind, ch) {
            None => (buf, Seq::empty()),
            Some(next) => {
                let out = if pushes_char(kind, ch) {
                    match_value(snips, next, require_boundary)
                } else {
                    None
                };
                let kept = if out is Some { Seq::<char>::empty() } else { next };
                let rest = hook_run(kept, snips, require_boundary, events.drop_first());
                (rest.0, seq![out] + rest.1)
            },
        }
    }
}

/// Over any run of events, a disabled snippet or one with an empty
/// abbreviation changes nothing: the hook reports the same matches and ends
/// with the same buffer with or without it.
pub proof fn law_inert_snippet_changes_no_run(
    buf: Seq<char>,
    snips: Seq<Snippet>,
    k: int,
    require_boundary: bool,
    events: Seq<(EventKind, Option<char>)>,
)
    requires
        0 <= k < snips.len(),
        !snips[k].enabled || snips[k].abbreviation@.len() == 0,
    ensures
        hook_run(buf, snips, require_boundary, events) == hook_run(buf, snips.remove(k), require_boundary, events),
    decreases events.len(),
{
    if events.len() > 0 {
        let (kind, ch) = events[0];
        if let Some(next) = buffer_after(buf, kind, ch) {
            law_inert_snippet_changes_nothing(snips, k, next, require_boundary);
            let out = if pushes_char(kind, ch) {
                match_value(snips, next, require_boundary)
            } else {
                None
            };
            let kept = if out is Some { Seq::<char>::empty() } else { next };
            law_inert_snippet_changes_no_run(kept, snips, k, require_boundary, events.drop_first());
        }
    }
}

/// Only `set_active` and `toggle_active` change the on/off switch: every
/// other operation changes only the buffer, the snippets, the statistics or
/// the settings, and each of those keeps the switch.
pub proof fn law_switch_kept_by_other_operations(
    st: AppState,
    buffer: String,
    snippets: Vec<Snippet>,
    stats: Stats,
    settings: Settings,
)
    ensures
        st.with_buffer(buffer).active == st.active,
        st.with_snippets(snippets).active == st.active,
        st.with_stats(stats).active == st.active,
        st.with_settings(settings).active == st.active,
{
}

/// After dropping leading whitespace, the text is empty or starts with a
/// non-whitespace character.
proof fn lemma_trim_start_shape(s: Seq<char>)
    ensures
        trim_start(s).len() == 0 || !char_is_whitespace(trim_start(s)[0]),
    decreases s.len(),
{
    if s.len() > 0 && char_is_whitespace(s[0]) {
        lemma_trim_start_shape(s.drop_first());
    }
}

/// Dropping trailing whitespace keeps a prefix that is empty or ends with a
/// non-whitespace character.
proof fn lemma_trim_end_shape(s: Seq<char>)
    ensures
        trim_end(s).len() <= s.len(),
        trim_end(s) == s.take(trim_end(s).len() as int),
        trim_end(s).len() == 0 || !char_is_whitespace(trim_end(s).last()),
    decreases s.len(),
{
    if s.len() > 0 && char_is_whitespace(s.last()) {
        lemma_trim_end_shape(s.drop_last());
        let t = trim_end(s.drop_last());
        assert(s.drop_last().take(t.len() as int) =~= s.take(t.len() as int));
    } else {
        assert(s.take(s.len() as int) =~= s);
    }
}

/// Trimming a trimmed text changes nothing.
pub proof fn law_trim_idempotent(s: Seq<char>)
    ensures
        trim(trim(s)) == trim(s),
{
    let t = trim_start(s);
    let u = trim_end(t);
    lemma_trim_start_shape(s);
    lemma_trim_end_shape(t);
    if u.len() > 0 {
        assert(u[0] == t[0]);
    }
    assert(trim_start(u) == u);
}

/// An event that is not a key press (a key release, a mouse event) leaves
/// the buffer as it is and reports nothing, whatever the buffer and the text
/// the event carries.
pub proof fn law_non_key_press_keeps_buffer(
    before: AppState,
    after: AppState,
    event: KeyEvent,
    r: Option<(usize, String)>,
    buf: Seq<char>,
    ch: Option<char>,
)
    requires
        AppState::key_handled(before, after, event, r),
        event.kind == EventKind::Other,
    ensures
        buffer_after(buf, EventKind::Other, ch) == Some(buf),
        after.buffer@ == before.buffer@,
        r is None,
        after == before.with_buffer(after.buffer),
{
}

/// With the word-boundary setting on, no abbreviation expands in the middle
/// of a word: whenever a snippet is a candidate, or is the one that expands,
/// the character just before its abbreviation (if any) is not alphanumeric in
/// the sense of `char::is_alphanumeric`, whatever that character is. The
/// snippet that expands is enabled, has a non-empty abbreviation, and its
/// abbreviation is what the buffer ends with.
pub proof fn law_no_expansion_inside_a_word(snips: Seq<Snippet>, buf: Seq<char>, sn: Snippet)
    ensures
        is_candidate(sn, buf, true) && buf.len() > sn.abbreviation@.len() ==> !char_is_alphanumeric(
            buf[buf.len() - sn.abbreviation@.len() - 1],
        ),
        best_candidate(snips, buf, true) matches Some(i) ==> {
            let a = snips[i].abbreviation@;
            &&& snips[i].enabled
            &&& 0 < a.len() <= buf.len()
            &&& buf.subrange(buf.len() - a.len(), buf.len() as int) == a
            &&& buf.len() > a.len() ==> !char_is_alphanumeric(buf[buf.len() - a.len() - 1])
        },
{
    law_longest_abbreviation_wins(snips, buf, true);
}

/// The stored blacklist is exactly the given entries, each trimmed and then
/// lowercased, in their order, with the empty results left out.
pub proof fn law_blacklist_is_trimmed_and_lowercased(bl: Seq<String>)
    ensures
        normalized_blacklist(bl) == bl.map_values(|x: String| lowercase(trim(x@))).filter(
            |e: Seq<char>| e.len() > 0,
        ),
    decreases bl.len(),
{
    let f = |x: String| lowercase(trim(x@));
    let p = |e: Seq<char>| e.len() > 0;
    if bl.len() == 0 {
        assert(bl.map_values(f) =~= Seq::<Seq<char>>::empty());
        reveal(Seq::filter);
    } else {
        law_blacklist_is_trimmed_and_lowercased(bl.drop_last());
        assert(bl.map_values(f) =~= bl.drop_last().map_values(f).push(f(bl.last())));
        bl.drop_last().map_values(f).lemma_filter_push(f(bl.last()), p);
    }
}

/// Clock identifiers of different readings differ, and read back as the
/// readings, so their order follows the clock's.
pub proof fn law_clock_ids_follow_readings(a: u128, b: u128)
    ensures
        a != b ==> decimal(a as nat) != decimal(b as nat),
        decimal_value(decimal(a as nat)) == a,
        a < b ==> decimal_value(decimal(a as nat)) < decimal_value(decimal(b as nat)),
{
    law_decimal_injective(a as nat, b as nat);
    law_decimal_round_trip(a as nat);
    law_decimal_round_trip(b as nat);
}

} // verus!
