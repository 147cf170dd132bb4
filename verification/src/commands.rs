//! What the user interface asks of the state: reading and editing snippets,
//! importing them, the on/off switch, statistics and settings.
use vstd::prelude::*;
use crate::model::{string_views, AppState, Settings, Snippet, Stats};
use crate::system::{is_clock_id, unique_id};
use crate::text::{chars_of, decimal, decimal_chars, lowercase, string_of, to_lowercase, trim, trim_chars};

verus! {

/// The index of the first snippet at or after `k` whose id is `id`.
pub open spec fn first_with_id_from(snips: Seq<Snippet>, id: Seq<char>, k: int) -> Option<int>
    decreases snips.len() - k,
{
    if k < 0 || k >= snips.len() {
        None
    } else if snips[k].id@ == id {
        Some(k)
    } else {
        first_with_id_from(snips, id, k + 1)
    }
}

/// The index of the first snippet whose id is `id`.
pub open spec fn first_with_id(snips: Seq<Snippet>, id: Seq<char>) -> Option<int> {
    first_with_id_from(snips, id, 0)
}

/// Some snippet has the id `id`.
pub open spec fn has_id(snips: Seq<Snippet>, id: Seq<char>) -> bool {
    exists|i: int| 0 <= i < snips.len() && (#[trigger] snips[i]).id@ == id
}

/// The snippets whose id is not `id`, in their order.
pub open spec fn without_id(snips: Seq<Snippet>, id: Seq<char>) -> Seq<Snippet>
    decreases snips.len(),
{
    if snips.len() == 0 {
        snips
    } else {
        let rest = without_id(snips.drop_last(), id);
        if snips.last().id@ == id {
            rest
        } else {
            rest.push(snips.last())
        }
    }
}

/// An identifier given to the `j`-th imported snippet: a clock identifier,
/// a hyphen, and `j` in decimal.
pub open spec fn is_import_id(id: Seq<char>, j: nat) -> bool {
    exists|n: u128| id == #[trigger] decimal(n as nat) + seq!['-'] + decimal(j)
}

/// A blacklist entry as it is stored: trimmed and lowercased.
pub open spec fn normalize_entry(s: Seq<char>) -> Seq<char> {
    lowercase(trim(s))
}

/// The blacklist as it is stored: each entry normalized, the empty ones left out.
pub open spec fn normalized_blacklist(bl: Seq<String>) -> Seq<Seq<char>>
    decreases bl.len(),
{
    if bl.len() == 0 {
        Seq::<Seq<char>>::empty()
    } else {
        let prev = normalized_blacklist(bl.drop_last());
        let e = normalize_entry(bl.last()@);
        if e.len() > 0 {
            prev.push(e)
        } else {
            prev
        }
    }
}

/// One entry as the blacklist stores it, or `None` when it is empty after
/// normalization.
fn normalized_entry(s: &String) -> (r: Option<String>)
    ensures
        normalize_entry(s@).len() > 0 ==> (r matches Some(e) && e@ == normalize_entry(s@)),
        normalize_entry(s@).len() == 0 ==> r is None,
{
    let cs = chars_of(s.as_str());
    let t = trim_chars(cs.as_slice());
    let ts = string_of(t.as_slice());
    let low = to_lowercase(ts.as_str());
    if low.as_str().is_empty() {
        None
    } else {
        Some(low)
    }
}

impl AppState {
    /// All snippets.
    pub fn get_snippets(&self) -> (r: Vec<Snippet>)
        ensures
            r@ == self.snippets@,
    {
        let r = self.snippets.clone();
        proof {
            assert forall|i: int| 0 <= i < r@.len() implies r@[i] == self.snippets@[i] by {
                assert(cloned::<Snippet>(self.snippets@[i], r@[i]));
            }
            assert(r@ =~= self.snippets@);
        }
        r
    }

    /// Adds an enabled snippet with a fresh clock identifier at the end of the
    /// list, and returns it.
    pub fn add_snippet(&mut self, abbreviation: String, expansion: String, group: String) -> (r: Snippet)
        ensures
            r.abbreviation == abbreviation,
            r.expansion == expansion,
            r.group == group,
            r.enabled,
            is_clock_id(r.id@),
            final(self).snippets@ == old(self).snippets@.push(r),
            *final(self) == old(self).with_snippets(final(self).snippets),
    {
        let snippet = Snippet { id: unique_id(), abbreviation, expansion, enabled: true, group };
        self.snippets.push(snippet.clone());
        snippet
    }

    /// Replaces the abbreviation, expansion, enabled flag and group of the
    /// first snippet with the id `id`; returns whether there was one.
    pub fn update_snippet(
        &mut self,
        id: String,
        abbreviation: String,
        expansion: String,
        enabled: bool,
        group: String,
    ) -> (found: bool)
        ensures
            found == has_id(old(self).snippets@, id@),
            match first_with_id(old(self).snippets@, id@) {
                Some(i) => found && final(self).snippets@ == old(self).snippets@.update(
                    i,
                    Snippet {
                        id: old(self).snippets@[i].id,
                        abbreviation: abbreviation,
                        expansion: expansion,
                        enabled: enabled,
                        group: group,
                    },
                ),
                None => !found && final(self).snippets@ == old(self).snippets@,
            },
            *final(self) == old(self).with_snippets(final(self).snippets),
    {
        let mut i: usize = 0;
        while i < self.snippets.len()
            invariant
                i <= self.snippets.len(),
                self == old(self),
                first_with_id(self.snippets@, id@) == first_with_id_from(self.snippets@, id@, i as int),
                forall|j: int| 0 <= j < i ==> (#[trigger] self.snippets@[j]).id@ != id@,
            decreases self.snippets.len() - i,
        {
            if self.snippets[i].id == id {
                let sn = Snippet {
                    id: self.snippets[i].id.clone(),
                    abbreviation,
                    expansion,
                    enabled,
                    group,
                };
                self.snippets.set(i, sn);
                return true;
            }
            i += 1;
        }
        false
    }

    /// Removes every snippet with the id `id`, keeping the others in order;
    /// returns whether any was removed.
    pub fn delete_snippet(&mut self, id: String) -> (found: bool)
        ensures
            found == has_id(old(self).snippets@, id@),
            final(self).snippets@ == without_id(old(self).snippets@, id@),
            *final(self) == old(self).with_snippets(final(self).snippets),
    {
        let mut kept: Vec<Snippet> = Vec::new();
        let mut removed = false;
        let mut i: usize = 0;
        while i < self.snippets.len()
            invariant
                i <= self.snippets.len(),
                kept@ == without_id(self.snippets@.take(i as int), id@),
                removed == has_id(self.snippets@.take(i as int), id@),
            decreases self.snippets.len() - i,
        {
            let ghost t = self.snippets@.take(i + 1);
            assert(t.drop_last() =~= self.snippets@.take(i as int));
            assert(t.last() == self.snippets@[i as int]);
            if self.snippets[i].id == id {
                removed = true;
                assert(t[i as int].id@ == id@);
            } else {
                kept.push(self.snippets[i].clone());
                assert forall|j: int| 0 <= j < t.len() && (#[trigger] t[j]).id@ == id@ implies j < i by {}
            }
            proof {
                if has_id(self.snippets@.take(i as int), id@) {
                    let j = choose|j: int| 0 <= j < i && (#[trigger] self.snippets@.take(i as int)[j]).id@ == id@;
                    assert(t[j] == self.snippets@.take(i as int)[j]);
                }
                if has_id(t, id@) && t[i as int].id@ != id@ {
                    let j = choose|j: int| 0 <= j < t.len() && (#[trigger] t[j]).id@ == id@;
                    assert(self.snippets@.take(i as int)[j] == t[j]);
                }
            }
            i += 1;
        }
        assert(self.snippets@.take(self.snippets.len() as int) =~= self.snippets@);
        self.snippets = kept;
        removed
    }

    /// Appends the imported snippets in order, each under a new identifier
    /// made from the clock and its position; returns how many there were.
    pub fn import_snippets(&mut self, imported: Vec<Snippet>) -> (count: usize)
        ensures
            count == imported@.len(),
            final(self).snippets@.len() == old(self).snippets@.len() + count,
            final(self).snippets@.take(old(self).snippets@.len() as int) == old(self).snippets@,
            forall|j: int| 0 <= j < count ==> {
                let s = #[trigger] final(self).snippets@[old(self).snippets@.len() + j];
                let o = imported@[j];
                &&& s.abbreviation == o.abbreviation
                &&& s.expansion == o.expansion
                &&& s.enabled == o.enabled
                &&& s.group == o.group
                &&& is_import_id(s.id@, j as nat)
            },
            *final(self) == old(self).with_snippets(final(self).snippets),
    {
        let count = imported.len();
        let ghost base = self.snippets@;
        let mut i: usize = 0;
        while i < count
            invariant
                i <= count,
                count == imported@.len(),
                self.snippets@.len() == base.len() + i,
                self.snippets@.take(base.len() as int) == base,
                *self == old(self).with_snippets(self.snippets),
                base == old(self).snippets@,
                forall|j: int| 0 <= j < i ==> {
                    let s = #[trigger] self.snippets@[base.len() + j];
                    let o = imported@[j];
                    &&& s.abbreviation == o.abbreviation
                    &&& s.expansion == o.expansion
                    &&& s.enabled == o.enabled
                    &&& s.group == o.group
                    &&& is_import_id(s.id@, j as nat)
                },
            decreases count - i,
        {
            let uid = unique_id();
            let ghost n = choose|n: u128| uid@ == decimal(n as nat);
            let mut id_chars = chars_of(uid.as_str());
            id_chars.push('-');
            let suffix = decimal_chars(i as u128);
            let mut k: usize = 0;
            let ghost head = id_chars@;
            while k < suffix.len()
                invariant
                    k <= suffix.len(),
                    id_chars@ == head + suffix@.take(k as int),
                decreases suffix.len() - k,
            {
                id_chars.push(suffix[k]);
                assert(head + suffix@.take(k + 1) =~= (head + suffix@.take(k as int)).push(suffix@[k as int]));
                k += 1;
            }
            assert(suffix@.take(suffix.len() as int) =~= suffix@);
            let id = string_of(id_chars.as_slice());
            assert(id@ == decimal(n as nat) + seq!['-'] + decimal(i as nat));
            let o = &imported[i];
            let sn = Snippet {
                id,
                abbreviation: o.abbreviation.clone(),
                expansion: o.expansion.clone(),
                enabled: o.enabled,
                group: o.group.clone(),
            };
            let ghost before = self.snippets@;
            self.snippets.push(sn);
            assert(self.snippets@.take(base.len() as int) =~= before.take(base.len() as int));
            assert(self.snippets@[base.len() + i] == sn);
            assert forall|j: int| 0 <= j < i implies #[trigger] self.snippets@[base.len() + j] == before[base.len() + j] by {}
            i += 1;
        }
        count
    }

    /// Whether expansion is on.
    pub fn get_active(&self) -> (r: bool)
        ensures
            r == self.active,
    {
        self.active
    }

    /// Turns expansion on or off; the buffer starts afresh.
    pub fn set_active(&mut self, active: bool)
        ensures
            final(self).active == active,
            final(self).buffer@.len() == 0,
            *final(self) == old(self).with_switch(final(self).active, final(self).buffer),
    {
        self.active = active;
        self.buffer = String::new();
    }

    /// Flips expansion on or off (the tray's switch); the buffer starts afresh.
    /// Returns the new setting.
    pub fn toggle_active(&mut self) -> (now_active: bool)
        ensures
            now_active == !old(self).active,
            final(self).active == now_active,
            final(self).buffer@.len() == 0,
            *final(self) == old(self).with_switch(final(self).active, final(self).buffer),
    {
        self.active = !self.active;
        self.buffer = String::new();
        self.active
    }

    /// The usage statistics.
    pub fn get_stats(&self) -> (r: Stats)
        ensures
            r == self.stats,
    {
        self.stats.clone()
    }

    /// Sets both counters back to zero.
    pub fn reset_stats(&mut self)
        ensures
            final(self).stats.total_expansions == 0,
            final(self).stats.chars_saved == 0,
            *final(self) == old(self).with_stats(final(self).stats),
    {
        self.stats = Stats::default();
    }

    /// The settings.
    pub fn get_settings(&self) -> (r: Settings)
        ensures
            r.require_word_boundary == self.settings.require_word_boundary,
            r.blacklist@ == self.settings.blacklist@,
    {
        self.settings.clone()
    }

    /// Replaces the settings: the word-boundary rule as given, and the
    /// blacklist with each entry trimmed and lowercased, empty entries left out.
    pub fn update_settings(&mut self, require_word_boundary: bool, blacklist: Vec<String>)
        ensures
            final(self).settings.require_word_boundary == require_word_boundary,
            string_views(final(self).settings.blacklist@) == normalized_blacklist(blacklist@),
            *final(self) == old(self).with_settings(final(self).settings),
    {
        let mut out: Vec<String> = Vec::new();
        let mut i: usize = 0;
        assert(blacklist@.take(0) =~= Seq::<String>::empty());
        assert(string_views(out@) =~= Seq::<Seq<char>>::empty());
        while i < blacklist.len()
            invariant
                i <= blacklist.len(),
                string_views(out@) == normalized_blacklist(blacklist@.take(i as int)),
            decreases blacklist.len() - i,
        {
            let ghost t = blacklist@.take(i + 1);
            assert(t.drop_last() =~= blacklist@.take(i as int));
            assert(t.last() == blacklist@[i as int]);
            match normalized_entry(&blacklist[i]) {
                Some(e) => {
                    let ghost prev = out@;
                    out.push(e);
                    assert(string_views(out@) =~= string_views(prev).push(e@));
                },
                None => {},
            }
            i += 1;
        }
        assert(blacklist@.take(blacklist.len() as int) =~= blacklist@);
        self.settings = Settings { require_word_boundary, blacklist: out };
    }
}

} // verus!
