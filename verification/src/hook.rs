//! The keystroke side of expansion: the buffer of characters typed since the
//! last word boundary, the choice of the snippet whose abbreviation it ends
//! with, and the application blacklist.
use vstd::prelude::*;
use crate::model::{AppState, Settings, Snippet};
use crate::text::{
    char_is_alphanumeric, char_is_control, chars_of, is_alphanumeric, is_control, lowercase,
    matches_at, occurs_at, string_of, to_lowercase,
};

verus! {

/// How many bytes of UTF-8 the keystroke buffer keeps at most.
pub const BUFFER_CAPACITY: usize = 128;

/// The keys the hook tells apart.
#[derive(Clone, Copy, Debug, PartialEq, Eq)]
pub enum KeyCode {
    Space,
    Return,
    Escape,
    Tab,
    CapsLock,
    Backspace,
    LeftArrow,
    RightArrow,
    UpArrow,
    DownArrow,
    Home,
    End,
    Delete,
    Other,
}

/// What happened on the keyboard.
#[derive(Clone, Copy, Debug, PartialEq, Eq)]
pub enum EventKind {
    KeyPress(KeyCode),
    Other,
}

/// Why a keyboard event was refused.
#[derive(Clone, Copy, Debug, PartialEq, Eq)]
pub enum KeyError {
    /// Keeping the last `BUFFER_CAPACITY` bytes would cut a character in two.
    CutInsideCharacter,
}

/// A keyboard event and the text the key produces, if any.
#[derive(Debug)]
pub struct KeyEvent {
    pub kind: EventKind,
    pub name: Option<String>,
}

/// Keys that end a word: the buffer starts afresh.
pub open spec fn ends_word(k: KeyCode) -> bool {
    match k {
        KeyCode::Space | KeyCode::Return | KeyCode::Escape | KeyCode::Tab | KeyCode::CapsLock => true,
        _ => false,
    }
}

/// Keys that move the caret or delete forward: what was typed before no longer
/// precedes the caret, so the buffer starts afresh.
pub open spec fn moves_caret(k: KeyCode) -> bool {
    match k {
        KeyCode::LeftArrow | KeyCode::RightArrow | KeyCode::UpArrow | KeyCode::DownArrow
        | KeyCode::Home | KeyCode::End | KeyCode::Delete => true,
        _ => false,
    }
}

/// The character a key press types: its name when that is a single
/// character that is not a control character.
pub open spec fn typed_char(name: Option<String>) -> Option<char> {
    match name {
        Some(n) => if n@.len() == 1 && !char_is_control(n@[0]) {
            Some(n@[0])
        } else {
            None
        },
        None => None,
    }
}

// ---------------------------------------------------------------------------
// Byte length of the buffer
// ---------------------------------------------------------------------------

/// The number of bytes of the UTF-8 encoding of `c`.
pub open spec fn utf8_width(c: char) -> nat {
    if (c as u32) < 0x80 {
        1
    } else if (c as u32) < 0x800 {
        2
    } else if (c as u32) < 0x10000 {
        3
    } else {
        4
    }
}

/// The number of bytes of the UTF-8 encoding of `s` (what `String::len` gives).
pub open spec fn utf8_len(s: Seq<char>) -> nat
    decreases s.len(),
{
    if s.len() == 0 {
        0
    } else {
        utf8_width(s[0]) + utf8_len(s.drop_first())
    }
}

/// `s` without its first `n` bytes, when they end on a character boundary
/// (`String::drain(..n)`); `None` when byte `n` falls inside a character.
pub open spec fn drain_bytes(s: Seq<char>, n: nat) -> Option<Seq<char>>
    decreases s.len(),
{
    if n == 0 {
        Some(s)
    } else if s.len() == 0 || utf8_width(s[0]) > n {
        None
    } else {
        drain_bytes(s.drop_first(), (n - utf8_width(s[0])) as nat)
    }
}

/// The buffer cut down to its last `BUFFER_CAPACITY` bytes; `None` when that
/// cut falls inside a character.
pub open spec fn bound_buffer(s: Seq<char>) -> Option<Seq<char>> {
    if utf8_len(s) > BUFFER_CAPACITY {
        drain_bytes(s, (utf8_len(s) - BUFFER_CAPACITY) as nat)
    } else {
        Some(s)
    }
}

/// The buffer after an event; `None` when the event cannot be handled because
/// the cut to `BUFFER_CAPACITY` bytes would fall inside a character.
pub open spec fn buffer_after(buf: Seq<char>, kind: EventKind, ch: Option<char>) -> Option<Seq<char>> {
    match kind {
        EventKind::Other => Some(buf),
        EventKind::KeyPress(k) => if ends_word(k) || moves_caret(k) {
            Some(Seq::<char>::empty())
        } else if k == KeyCode::Backspace {
            Some(if buf.len() > 0 { buf.drop_last() } else { buf })
        } else {
            match ch {
                Some(c) => bound_buffer(buf.push(c)),
                None => Some(buf),
            }
        },
    }
}

/// The event types a character into the buffer.
pub open spec fn pushes_char(kind: EventKind, ch: Option<char>) -> bool {
    &&& kind matches EventKind::KeyPress(k)
    &&& !ends_word(k)
    &&& !moves_caret(k)
    &&& k != KeyCode::Backspace
    &&& ch is Some
}

fn char_width(c: char) -> (w: u128)
    ensures
        w == utf8_width(c),
{
    let u = c as u32;
    if u < 0x80 {
        1
    } else if u < 0x800 {
        2
    } else if u < 0x10000 {
        3
    } else {
        4
    }
}

/// The number of bytes of the UTF-8 encoding of `s`.
pub fn utf8_length(s: &[char]) -> (n: u128)
    ensures
        n == utf8_len(s@),
{
    let mut total: u128 = 0;
    let mut i: usize = 0;
    assert(s@.skip(0) =~= s@);
    while i < s.len()
        invariant
            i <= s.len(),
            total + utf8_len(s@.skip(i as int)) == utf8_len(s@),
            total <= 4 * i,
        decreases s.len() - i,
    {
        assert(s@.skip(i as int).drop_first() =~= s@.skip(i + 1));
        total = total + char_width(s[i]);
        i += 1;
    }
    assert(s@.skip(i as int) =~= Seq::<char>::empty());
    total
}

/// `s` without its first `n` bytes, or `None` when byte `n` falls inside a
/// character or beyond the end.
pub fn drain_front_bytes(s: &[char], n: u128) -> (r: Option<Vec<char>>)
    ensures
        r matches Some(v) ==> drain_bytes(s@, n as nat) == Some(v@),
        r is None ==> drain_bytes(s@, n as nat) is None,
{
    let mut i: usize = 0;
    let mut rem: u128 = n;
    assert(s@.skip(0) =~= s@);
    while rem > 0
        invariant
            i <= s.len(),
            drain_bytes(s@, n as nat) == drain_bytes(s@.skip(i as int), rem as nat),
        decreases rem,
    {
        if i == s.len() {
            return None;
        }
        let w = char_width(s[i]);
        assert(s@.skip(i as int)[0] == s@[i as int]);
        if w > rem {
            return None;
        }
        assert(s@.skip(i as int).drop_first() =~= s@.skip(i + 1));
        rem = rem - w;
        i += 1;
    }
    let mut v: Vec<char> = Vec::new();
    let mut k: usize = i;
    while k < s.len()
        invariant
            i <= k <= s.len(),
            v@ == s@.subrange(i as int, k as int),
        decreases s.len() - k,
    {
        v.push(s[k]);
        assert(s@.subrange(i as int, k as int).push(s@[k as int]) =~= s@.subrange(i as int, k + 1));
        k += 1;
    }
    assert(s@.subrange(i as int, s.len() as int) =~= s@.skip(i as int));
    Some(v)
}

/// The buffer cut down to its last `BUFFER_CAPACITY` bytes, or `None` when the
/// cut would fall inside a character.
pub fn bound_chars(s: &[char]) -> (r: Option<Vec<char>>)
    ensures
        r matches Some(v) ==> bound_buffer(s@) == Some(v@),
        r is None ==> bound_buffer(s@) is None,
{
    let len = utf8_length(s);
    if len > 128 {
        drain_front_bytes(s, len - 128)
    } else {
        let mut v: Vec<char> = Vec::new();
        let mut k: usize = 0;
        while k < s.len()
            invariant
                k <= s.len(),
                v@ == s@.take(k as int),
            decreases s.len() - k,
        {
            v.push(s[k]);
            assert(s@.take(k as int).push(s@[k as int]) =~= s@.take(k + 1));
            k += 1;
        }
        assert(s@.take(s.len() as int) =~= s@);
        Some(v)
    }
}

/// The character a key with the given name types, if any.
pub fn typed_char_of(name: &Option<String>) -> (r: Option<char>)
    ensures
        r == typed_char(*name),
{
    match name {
        Some(n) => {
            let cs = chars_of(n.as_str());
            if cs.len() == 1 && !is_control(cs[0]) {
                Some(cs[0])
            } else {
                None
            }
        },
        None => None,
    }
}

// ---------------------------------------------------------------------------
// Choosing the snippet
// ---------------------------------------------------------------------------

/// `sn` can expand at the end of `buf`: it is enabled, its abbreviation is
/// non-empty and ends the buffer, and, when word boundaries are required, the
/// character before the abbreviation (if any) is not alphanumeric.
pub open spec fn is_candidate(sn: Snippet, buf: Seq<char>, require_boundary: bool) -> bool {
    let a = sn.abbreviation@;
    let start = buf.len() - a.len();
    &&& sn.enabled
    &&& a.len() > 0
    &&& a.len() <= buf.len()
    &&& buf.subrange(start, buf.len() as int) == a
    &&& (require_boundary && start > 0 ==> !char_is_alphanumeric(buf[start - 1]))
}

/// The snippet that expands: among the candidates, one with the longest
/// abbreviation, the earliest of those when several are as long.
pub open spec fn best_candidate(snips: Seq<Snippet>, buf: Seq<char>, require_boundary: bool) -> Option<int>
    decreases snips.len(),
{
    if snips.len() == 0 {
        None
    } else {
        let i = snips.len() - 1;
        let prev = best_candidate(snips.drop_last(), buf, require_boundary);
        if is_candidate(snips[i], buf, require_boundary) {
            match prev {
                Some(p) => if snips[i].abbreviation@.len() > snips[p].abbreviation@.len() {
                    Some(i)
                } else {
                    prev
                },
                None => Some(i),
            }
        } else {
            prev
        }
    }
}

/// The length in characters of the abbreviation of `sn` when it is a
/// candidate at the end of `buf`.
fn candidate_len(sn: &Snippet, buf: &[char], require_boundary: bool) -> (r: Option<usize>)
    ensures
        r is Some <==> is_candidate(*sn, buf@, require_boundary),
        r matches Some(n) ==> n == sn.abbreviation@.len(),
{
    if !sn.enabled {
        return None;
    }
    let a = chars_of(sn.abbreviation.as_str());
    if a.len() == 0 || a.len() > buf.len() {
        return None;
    }
    let start = buf.len() - a.len();
    if !matches_at(buf, start, a.as_slice()) {
        return None;
    }
    if require_boundary && start > 0 && is_alphanumeric(buf[start - 1]) {
        return None;
    }
    Some(a.len())
}

/// The abbreviation length (in characters) and expansion of the snippet that
/// expands at the end of `buf`, if any.
pub fn find_match(snippets: &Vec<Snippet>, buf: &[char], require_boundary: bool) -> (r: Option<(usize, String)>)
    ensures
        match best_candidate(snippets@, buf@, require_boundary) {
            Some(i) => r == Some((snippets@[i].abbreviation@.len() as usize, snippets@[i].expansion)),
            None => r is None,
        },
{
    let mut best: Option<usize> = None;
    let mut best_len: usize = 0;
    let mut i: usize = 0;
    assert(snippets@.take(0) =~= Seq::<Snippet>::empty());
    while i < snippets.len()
        invariant
            i <= snippets.len(),
            match best {
                Some(b) => best_candidate(snippets@.take(i as int), buf@, require_boundary)
                    == Some(b as int) && b < i && best_len == snippets@[b as int].abbreviation@.len(),
                None => best_candidate(snippets@.take(i as int), buf@, require_boundary) is None,
            },
        decreases snippets.len() - i,
    {
        let ghost t = snippets@.take(i + 1);
        assert(t.drop_last() =~= snippets@.take(i as int));
        assert(t[i as int] == snippets@[i as int]);
        match candidate_len(&snippets[i], buf, require_boundary) {
            Some(n) => {
                match best {
                    Some(b) => {
                        assert(t[b as int] == snippets@[b as int]);
                        if n > best_len {
                            best = Some(i);
                            best_len = n;
                        }
                    },
                    None => {
                        best = Some(i);
                        best_len = n;
                    },
                }
            },
            None => {},
        }
        i += 1;
    }
    assert(snippets@.take(snippets.len() as int) =~= snippets@);
    match best {
        Some(b) => Some((best_len, snippets[b].expansion.clone())),
        None => None,
    }
}

// ---------------------------------------------------------------------------
// The hook's decisions
// ---------------------------------------------------------------------------

impl AppState {
    /// The hook reacts to keys: the expander is on and not typing an expansion.
    pub open spec fn listening(self) -> bool {
        self.active && !self.is_expanding
    }

    /// The state can take `event` (the cut of the buffer to its last
    /// `BUFFER_CAPACITY` bytes lands on a character boundary).
    pub open spec fn accepts(self, event: KeyEvent) -> bool {
        self.listening() ==> buffer_after(self.buffer@, event.kind, typed_char(event.name)) is Some
    }

    /// Whether the state can take `event`; where it cannot, the buffer would
    /// have to be cut inside a character.
    pub fn can_accept(&self, event: &KeyEvent) -> (r: bool)
        ensures
            r == self.accepts(*event),
    {
        if self.is_expanding || !self.active {
            return true;
        }
        match event.kind {
            EventKind::KeyPress(KeyCode::Other) => match typed_char_of(&event.name) {
                Some(c) => {
                    let mut cs = chars_of(self.buffer.as_str());
                    cs.push(c);
                    bound_chars(cs.as_slice()).is_some()
                },
                None => true,
            },
            _ => true,
        }
    }

    /// `after` and `r` are what handling `event` in `before` gives: only the
    /// buffer changes, as `buffer_after` says when the hook is listening; and
    /// when a character was typed, `r` is the abbreviation length and
    /// expansion of the best candidate for the new buffer.
    pub open spec fn key_handled(before: AppState, after: AppState, event: KeyEvent, r: Option<(usize, String)>) -> bool {
        &&& after == before.with_buffer(after.buffer)
        &&& !before.listening() ==> after.buffer@ == before.buffer@ && r is None
        &&& before.listening() ==> Some(after.buffer@) == buffer_after(
            before.buffer@,
            event.kind,
            typed_char(event.name),
        )
        &&& before.listening() && pushes_char(event.kind, typed_char(event.name)) ==> match best_candidate(
            before.snippets@,
            after.buffer@,
            before.settings.require_word_boundary,
        ) {
            Some(i) => r == Some(
                (before.snippets@[i].abbreviation@.len() as usize, before.snippets@[i].expansion),
            ),
            None => r is None,
        }
        &&& !(before.listening() && pushes_char(event.kind, typed_char(event.name))) ==> r is None
    }

    /// Feeds one keyboard event to the buffer, or refuses it, changing
    /// nothing, when the buffer would have to be cut inside a character.
    pub fn try_handle_key(&mut self, event: &KeyEvent) -> (r: Result<Option<(usize, String)>, KeyError>)
        ensures
            !old(self).accepts(*event) ==> r == Err::<Option<(usize, String)>, KeyError>(
                KeyError::CutInsideCharacter,
            ) && *final(self) == *old(self),
            old(self).accepts(*event) ==> (r matches Ok(m) && AppState::key_handled(
                *old(self),
                *final(self),
                *event,
                m,
            )),
    {
        if self.can_accept(event) {
            Ok(self.handle_key(event))
        } else {
            Err(KeyError::CutInsideCharacter)
        }
    }

    /// Feeds one keyboard event to the buffer. Returns the abbreviation length
    /// and expansion of the snippet the buffer now ends with, if the event typed
    /// a character and some snippet matches.
    pub fn handle_key(&mut self, event: &KeyEvent) -> (r: Option<(usize, String)>)
        requires
            old(self).accepts(*event),
        ensures
            AppState::key_handled(*old(self), *final(self), *event, r),
    {
        if self.is_expanding || !self.active {
            return None;
        }
        match event.kind {
            EventKind::Other => None,
            EventKind::KeyPress(k) => match k {
                KeyCode::Space | KeyCode::Return | KeyCode::Escape | KeyCode::Tab | KeyCode::CapsLock
                | KeyCode::LeftArrow | KeyCode::RightArrow | KeyCode::UpArrow | KeyCode::DownArrow
                | KeyCode::Home | KeyCode::End | KeyCode::Delete => {
                    self.buffer = String::new();
                    None
                },
                KeyCode::Backspace => {
                    let mut cs = chars_of(self.buffer.as_str());
                    cs.pop();
                    self.buffer = string_of(cs.as_slice());
                    None
                },
                KeyCode::Other => match typed_char_of(&event.name) {
                    Some(c) => {
                        let mut cs = chars_of(self.buffer.as_str());
                        cs.push(c);
                        match bound_chars(cs.as_slice()) {
                            Some(kept) => {
                                self.buffer = string_of(kept.as_slice());
                                find_match(&self.snippets, kept.as_slice(), self.settings.require_word_boundary)
                            },
                            None => None,
                        }
                    },
                    None => None,
                },
            },
        }
    }

    /// After a match: the buffer starts afresh, and the expansion is typed
    /// unless the foreground application (named `process_name`) is blacklisted.
    pub fn conclude_match(&mut self, process_name: Option<String>) -> (dispatch: bool)
        ensures
            dispatch == !old(self).settings.blocks(process_name),
            final(self).buffer@.len() == 0,
            *final(self) == old(self).with_buffer(final(self).buffer),
    {
        let blocked = self.settings.is_blacklisted(&process_name);
        self.buffer = String::new();
        !blocked
    }
}

// ---------------------------------------------------------------------------
// Blacklist
// ---------------------------------------------------------------------------

impl Settings {
    /// Expansion is off in the application named `process_name`: the blacklist
    /// is not empty and holds that exact name.
    pub open spec fn blocks(self, process_name: Option<String>) -> bool {
        &&& self.blacklist@.len() > 0
        &&& process_name matches Some(n)
        &&& exists|i: int| 0 <= i < self.blacklist@.len() && (#[trigger] self.blacklist@[i])@ == n@
    }

    /// The blacklist has entries, so the foreground application must be known.
    pub fn needs_process_name(&self) -> (r: bool)
        ensures
            r == (self.blacklist@.len() > 0),
    {
        !self.blacklist.is_empty()
    }

    /// Whether expansion is off in the application named `process_name`.
    pub fn is_blacklisted(&self, process_name: &Option<String>) -> (r: bool)
        ensures
            r == self.blocks(*process_name),
    {
        if self.blacklist.is_empty() {
            return false;
        }
        match process_name {
            Some(n) => {
                let mut i: usize = 0;
                while i < self.blacklist.len()
                    invariant
                        i <= self.blacklist.len(),
                        self.blacklist@.len() > 0,
                        *process_name == Some(*n),
                        forall|j: int| 0 <= j < i ==> (#[trigger] self.blacklist@[j])@ != n@,
                    decreases self.blacklist.len() - i,
                {
                    if self.blacklist[i] == *n {
                        assert(self.blacklist@[i as int]@ == n@);
                        return true;
                    }
                    i += 1;
                }
                false
            },
            None => false,
        }
    }
}

// ---------------------------------------------------------------------------
// Foreground process name
// ---------------------------------------------------------------------------

/// Whether `u` is a leading (high) surrogate.
pub open spec fn is_high_surrogate(u: u16) -> bool {
    0xD800 <= u && u <= 0xDBFF
}

/// Whether `u` is a trailing (low) surrogate.
pub open spec fn is_low_surrogate(u: u16) -> bool {
    0xDC00 <= u && u <= 0xDFFF
}

/// UTF-16 decoding with every unpaired surrogate replaced by U+FFFD
/// (`String::from_utf16_lossy`): a high surrogate followed by a low one makes
/// one supplementary character, any other surrogate unit is replaced, and
/// every other unit is the character with that code.
pub open spec fn utf16_lossy(units: Seq<u16>) -> Seq<char>
    decreases units.len(),
{
    if units.len() == 0 {
        Seq::<char>::empty()
    } else if units.len() >= 2 && is_high_surrogate(units[0]) && is_low_surrogate(units[1]) {
        seq![(0x10000 + (units[0] - 0xD800) * 0x400 + (units[1] - 0xDC00)) as char]
            + utf16_lossy(units.skip(2))
    } else if 0xD800 <= units[0] && units[0] <= 0xDFFF {
        seq!['\u{FFFD}'] + utf16_lossy(units.skip(1))
    } else {
        seq![units[0] as char] + utf16_lossy(units.skip(1))
    }
}

/// `String::from_utf16_lossy`: UTF-16 decoding, with U+FFFD in place of each
/// unpaired surrogate, as `utf16_lossy` spells out.
#[verifier::external_body]
fn from_utf16_lossy(units: &[u16]) -> (s: String)
    ensures
        s@ == utf16_lossy(units@),
{
    String::from_utf16_lossy(units)
}

/// The process name the blacklist is matched against, from the first `len`
/// UTF-16 units of a module base name: decoded and lowercased; `None` when
/// the name is empty.
pub fn process_name_from_utf16(buffer: &[u16], len: u32) -> (r: Option<String>)
    requires
        len as int <= buffer@.len(),
    ensures
        len == 0 ==> r is None,
        len > 0 ==> (r matches Some(s) && s@ == lowercase(utf16_lossy(buffer@.take(len as int)))),
{
    if len == 0 {
        return None;
    }
    let n = len as usize;
    let mut units: Vec<u16> = Vec::new();
    let mut k: usize = 0;
    while k < n
        invariant
            k <= n,
            n == len,
            n <= buffer@.len(),
            units@ == buffer@.take(k as int),
        decreases n - k,
    {
        units.push(buffer[k]);
        assert(buffer@.take(k as int).push(buffer@[k as int]) =~= buffer@.take(k + 1));
        k += 1;
    }
    let decoded = from_utf16_lossy(units.as_slice());
    Some(to_lowercase(decoded.as_str()))
}

} // verus!
