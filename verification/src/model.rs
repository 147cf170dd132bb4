//! The data of the application: snippets, usage statistics, settings and the
//! whole application state.
use std::path::PathBuf;
use vstd::prelude::*;

verus! {

/// A filesystem path; the library only stores it for the caller.
#[verifier::external_type_specification]
#[verifier::external_body]
pub struct ExPathBuf(PathBuf);

/// An abbreviation and the text that replaces it.
#[derive(Debug)]
pub struct Snippet {
    pub id: String,
    pub abbreviation: String,
    pub expansion: String,
    pub enabled: bool,
    pub group: String,
}

impl Clone for Snippet {
    fn clone(&self) -> (r: Self)
        ensures
            r == *self,
    {
        Snippet {
            id: self.id.clone(),
            abbreviation: self.abbreviation.clone(),
            expansion: self.expansion.clone(),
            enabled: self.enabled,
            group: self.group.clone(),
        }
    }
}

/// Usage statistics: how many expansions were typed and how many characters
/// they saved.
#[derive(Debug)]
pub struct Stats {
    pub total_expansions: u64,
    pub chars_saved: i64,
}

impl Clone for Stats {
    fn clone(&self) -> (r: Self)
        ensures
            r == *self,
    {
        Stats { total_expansions: self.total_expansions, chars_saved: self.chars_saved }
    }
}

impl Default for Stats {
    fn default() -> (r: Self)
        ensures
            r.total_expansions == 0,
            r.chars_saved == 0,
    {
        Stats { total_expansions: 0, chars_saved: 0 }
    }
}

/// User preferences.
#[derive(Debug)]
pub struct Settings {
    /// When true, an abbreviation only triggers if preceded by a non-alphanumeric
    /// character (or the start of the buffer) — prevents expansion mid-word.
    pub require_word_boundary: bool,
    /// Process executable names (e.g. "keepass.exe") where expansion is disabled.
    pub blacklist: Vec<String>,
}

/// The value a missing `require_word_boundary` setting takes.
pub fn default_true() -> (r: bool)
    ensures
        r,
{
    true
}

impl Default for Settings {
    fn default() -> (r: Self)
        ensures
            r.require_word_boundary,
            r.blacklist@.len() == 0,
    {
        Settings { require_word_boundary: default_true(), blacklist: Vec::new() }
    }
}

/// The characters of each string of a sequence.
pub open spec fn string_views(s: Seq<String>) -> Seq<Seq<char>> {
    s.map_values(|x: String| x@)
}

impl Clone for Settings {
    fn clone(&self) -> (r: Self)
        ensures
            r.require_word_boundary == self.require_word_boundary,
            r.blacklist@ == self.blacklist@,
    {
        let blacklist = self.blacklist.clone();
        proof {
            assert forall|i: int| 0 <= i < blacklist@.len() implies blacklist@[i] == self.blacklist@[i] by {
                assert(cloned::<String>(self.blacklist@[i], blacklist@[i]));
            }
            assert(blacklist@ =~= self.blacklist@);
        }
        Settings { require_word_boundary: self.require_word_boundary, blacklist }
    }
}

/// Everything the running application keeps: the snippets, the characters
/// typed since the last word boundary, the on/off switch, whether an
/// expansion is being typed, the statistics, the settings, and where each
/// is stored.
pub struct AppState {
    pub snippets: Vec<Snippet>,
    pub buffer: String,
    pub active: bool,
    pub is_expanding: bool,
    pub data_path: PathBuf,
    pub stats: Stats,
    pub stats_path: PathBuf,
    pub settings: Settings,
    pub settings_path: PathBuf,
}

impl AppState {
    /// This state with its buffer replaced.
    pub open spec fn with_buffer(self, buffer: String) -> AppState {
        AppState {
            snippets: self.snippets,
            buffer: buffer,
            active: self.active,
            is_expanding: self.is_expanding,
            data_path: self.data_path,
            stats: self.stats,
            stats_path: self.stats_path,
            settings: self.settings,
            settings_path: self.settings_path,
        }
    }

    /// This state with its snippets replaced.
    pub open spec fn with_snippets(self, snippets: Vec<Snippet>) -> AppState {
        AppState { snippets: snippets, ..self }
    }

    /// This state with its statistics replaced.
    pub open spec fn with_stats(self, stats: Stats) -> AppState {
        AppState { stats: stats, ..self }
    }

    /// This state with its settings replaced.
    pub open spec fn with_settings(self, settings: Settings) -> AppState {
        AppState { settings: settings, ..self }
    }

    /// This state with its on/off switch and its buffer replaced.
    pub open spec fn with_switch(self, active: bool, buffer: String) -> AppState {
        AppState { active: active, buffer: buffer, ..self }
    }

    /// The starting state, from what could be loaded from the three files:
    /// anything that could not be loaded takes its default value.
    pub fn new(
        data_path: PathBuf,
        stats_path: PathBuf,
        settings_path: PathBuf,
        loaded_snippets: Option<Vec<Snippet>>,
        loaded_stats: Option<Stats>,
        loaded_settings: Option<Settings>,
    ) -> (st: Self)
        ensures
            st.snippets@ == (match loaded_snippets {
                Some(v) => v@,
                None => Seq::<Snippet>::empty(),
            }),
            loaded_stats matches Some(s) ==> st.stats == s,
            loaded_stats is None ==> st.stats.total_expansions == 0 && st.stats.chars_saved == 0,
            loaded_settings matches Some(s) ==> st.settings == s,
            loaded_settings is None ==> st.settings.require_word_boundary
                && st.settings.blacklist@.len() == 0,
            st.buffer@.len() == 0,
            st.active,
            !st.is_expanding,
            st.data_path == data_path,
            st.stats_path == stats_path,
            st.settings_path == settings_path,
    {
        let snippets = match loaded_snippets {
            Some(v) => v,
            None => Vec::new(),
        };
        let stats = match loaded_stats {
            Some(s) => s,
            None => Stats::default(),
        };
        let settings = match loaded_settings {
            Some(s) => s,
            None => Settings::default(),
        };
        AppState {
            snippets,
            buffer: String::new(),
            active: true,
            is_expanding: false,
            data_path,
            stats,
            stats_path,
            settings,
            settings_path,
        }
    }
}

} // verus!
