//! Application state: the active editor buffer, the per-model store and the
//! exchange and scroll flags that the renderer reads.
use std::time::Duration;
use std::time::Instant;
use vstd::prelude::*;
use vstd::string::StrSliceExecFns;
use vstd::string::StringExecFns;
use vstd::utf8::encode_utf8;

use crate::store::empty_buffer;
use crate::store::BufferView;
use crate::store::ModelBuffer;
use crate::store::ModelStore;
use crate::text::is_word_char;
use crate::text::word_char;
use crate::text::ascii_alphanumeric;
use crate::text::string_from_chars;
use crate::text::word_left;
use crate::text::word_left_index;
use crate::text::word_right;
use crate::text::word_right_index;
use crate::text::byte_offset;
use crate::text::char_width;
use crate::text::chars_of;
use crate::ui::slice_chars;
use crate::text::lemma_byte_offset_clamped;
use crate::text::lemma_byte_offset_is_encoding;
use crate::text::lemma_byte_offset_monotone;
use crate::text::lemma_word_left_bounds;
use crate::text::lemma_word_right_bounds;

verus! {

#[verifier::external_type_specification]
#[verifier::external_body]
pub struct ExInstant(Instant);

/// Relies on `Instant::now`; nothing is known of the instant it returns.
pub assume_specification[ Instant::now ]() -> Instant;

/// Relies on `Instant::elapsed`; the span depends on the clock.
pub assume_specification[ Instant::elapsed ](t: &Instant) -> Duration;

/// Relies on `Duration::as_millis`; nothing is stated of an unknown span.
pub assume_specification[ Duration::as_millis ](d: &Duration) -> u128;

/// Milliseconds after which the caret changes visibility.
pub const BLINK_INTERVAL_MS: u128 = 500;

/// Lines moved by one page-scroll key press.
pub const PAGE_SCROLL: u16 = 5;

/// The session as plain values: the model list, the selection, the active
/// scalars and the stored records.
pub struct SessionView {
    pub models: Seq<Seq<char>>,
    pub selected: Option<usize>,
    pub active: BufferView,
    pub store: Map<Seq<char>, BufferView>,
}

impl SessionView {
    /// The identifier of the selected model, if the selection is valid.
    pub open spec fn current_key(self) -> Option<Seq<char>> {
        match self.selected {
            Some(i) => if i < self.models.len() {
                Some(self.models[i as int])
            } else {
                None
            },
            None => None,
        }
    }

    /// The record for `k`, or an empty one where there is none.
    pub open spec fn record(self, k: Seq<char>) -> BufferView {
        if self.store.contains_key(k) {
            self.store[k]
        } else {
            empty_buffer()
        }
    }

    /// The same session with another selection.
    pub open spec fn with_selected(self, sel: Option<usize>) -> SessionView {
        SessionView { selected: sel, ..self }
    }

    /// The same session with other active scalars.
    pub open spec fn with_active(self, active: BufferView) -> SessionView {
        SessionView { active: active, ..self }
    }
}

/// Copying the active scalars into the record of the selected model.
pub open spec fn save_spec(s: SessionView) -> SessionView {
    match s.current_key() {
        Some(k) => SessionView { store: s.store.insert(k, s.active), ..s },
        None => s,
    }
}

/// A record with its cursor clamped into its input.
pub open spec fn clamped(b: BufferView) -> BufferView {
    BufferView {
        cursor_pos: if b.cursor_pos <= b.input.len() {
            b.cursor_pos
        } else {
            b.input.len() as usize
        },
        ..b
    }
}

/// Copying the record of the selected model into the active scalars.
pub open spec fn load_spec(s: SessionView) -> SessionView {
    match s.current_key() {
        Some(k) => s.with_active(clamped(s.record(k))),
        None => s,
    }
}

/// The index after `sel` in a list of `n`, wrapping round.
pub open spec fn next_index(sel: Option<usize>, n: nat) -> usize {
    match sel {
        Some(i) => if i + 1 >= n {
            0
        } else {
            (i + 1) as usize
        },
        None => 0,
    }
}

/// The index before `sel` in a list of `n`, wrapping round.
pub open spec fn previous_index(sel: Option<usize>, n: nat) -> usize {
    match sel {
        Some(i) => if i == 0 {
            (n - 1) as usize
        } else {
            (i - 1) as usize
        },
        None => 0,
    }
}

/// Save, select the next model, load; nothing on an empty list.
pub open spec fn select_next_spec(s: SessionView) -> SessionView {
    if s.models.len() == 0 {
        s
    } else {
        load_spec(save_spec(s).with_selected(Some(next_index(s.selected, s.models.len()))))
    }
}

/// Save, select the previous model, load; nothing on an empty list.
pub open spec fn select_previous_spec(s: SessionView) -> SessionView {
    if s.models.len() == 0 {
        s
    } else {
        load_spec(save_spec(s).with_selected(Some(previous_index(s.selected, s.models.len()))))
    }
}

/// Records for every identifier of `keys`: existing records are kept and
/// new identifiers get an empty one.
pub open spec fn with_records(m: Map<Seq<char>, BufferView>, keys: Seq<Seq<char>>) -> Map<
    Seq<char>,
    BufferView,
> {
    Map::new(
        |k: Seq<char>| m.contains_key(k) || keys.contains(k),
        |k: Seq<char>|
            if m.contains_key(k) {
                m[k]
            } else {
                empty_buffer()
            },
    )
}

/// The largest scroll offset: the lines that do not fit the viewport.
pub open spec fn max_scroll(total_lines: u16, visible_height: u16) -> u16 {
    if total_lines > visible_height {
        (total_lines - visible_height) as u16
    } else {
        0
    }
}

/// The text a submitted prompt adds to the transcript.
pub open spec fn prompt_block(prompt: Seq<char>) -> Seq<char> {
    "\nYOU: "@ + prompt + "\n\nAI: "@
}

/// The separator that closes an exchange.
pub open spec fn exchange_end() -> Seq<char> {
    "\n---\n"@
}

/// Inserting a character and then deleting the character before the cursor
/// gives back the input and the cursor as they were: `insert_char` leaves
/// `s.insert(k, c)` with the cursor at `k + 1`, and `backspace` there removes
/// the character at `k` and moves the cursor back to `k`.
pub proof fn law_insert_then_backspace(s: Seq<char>, k: nat, c: char)
    requires
        k <= s.len(),
    ensures
        s.insert(k as int, c).remove((k + 1) - 1) == s,
        (k + 1) - 1 == k,
{
    assert(s.insert(k as int, c).remove(k as int) =~= s);
}

/// Saving the active state of a model, switching to another model and
/// editing there, then switching back (which saves the other model first)
/// restores exactly the input, cursor, transcript and scroll that were saved.
pub proof fn law_save_switch_load(s: SessionView, i: usize, j: usize, edited: BufferView)
    requires
        s.selected == Some(i),
        i < s.models.len(),
        j < s.models.len(),
        s.models[j as int] != s.models[i as int],
        s.active.cursor_pos <= s.active.input.len(),
    ensures
        ({
            let saved = save_spec(s);
            let away = load_spec(saved.with_selected(Some(j))).with_active(edited);
            let back = load_spec(save_spec(away).with_selected(Some(i)));
            back.active == s.active
        }),
{
    let saved = save_spec(s);
    let away = load_spec(saved.with_selected(Some(j))).with_active(edited);
    let stored = save_spec(away).with_selected(Some(i));
    assert(stored.store.contains_key(s.models[i as int]));
    assert(stored.store[s.models[i as int]] == s.active);
}

/// Switching to the next model and straight back to the previous one
/// restores the selection and exactly the input, cursor, transcript and
/// scroll that were active.
pub proof fn law_next_then_previous(s: SessionView, i: usize)
    requires
        s.selected == Some(i),
        i < s.models.len() <= usize::MAX,
        s.active.cursor_pos <= s.active.input.len(),
    ensures
        select_previous_spec(select_next_spec(s)).selected == s.selected,
        select_previous_spec(select_next_spec(s)).active == s.active,
{
    let n = s.models.len();
    let j = next_index(s.selected, n);
    if i + 1 >= n {
        assert(j == 0);
        assert(i == n - 1);
    } else {
        assert(j == i + 1);
    }
    assert(previous_index(Some(j), n) == i);
    let saved = save_spec(s);
    let there = select_next_spec(s);
    assert(saved.store[s.models[i as int]] == s.active);
    assert(there.selected == Some(j));
    if s.models[j as int] == s.models[i as int] {
        assert(there.active == s.active);
    }
    let back_saved = save_spec(there);
    assert(back_saved.store.contains_key(s.models[i as int]));
    assert(back_saved.store[s.models[i as int]] == s.active);
}

/// With no models, saving, loading and switching in either direction leave
/// the session as it is.
pub proof fn law_empty_model_list(s: SessionView)
    requires
        s.models.len() == 0,
    ensures
        save_spec(s) == s,
        load_spec(s) == s,
        select_next_spec(s) == s,
        select_previous_spec(s) == s,
{
}

/// What a submitted prompt asks of the model-serving side.
pub struct QueryRequest {
    pub model: String,
    pub prompt: String,
}

/// Main application state.
pub struct App {
    /// Model identifiers, in discovery order.
    pub models: Vec<String>,
    /// Index of the selected model; `None` only when `models` is empty.
    pub selected: Option<usize>,
    /// Input text of the active model.
    pub input: String,
    /// Transcript of the active model.
    pub history: String,
    /// Saved records of every model seen.
    pub buffers: ModelStore,
    /// Scroll offset into the rendered transcript.
    pub scroll: u16,
    /// Cursor position in `input`, as a character index.
    pub cursor_pos: usize,
    /// Whether the view follows the end of the transcript.
    pub autoscroll: bool,
    /// Whether an exchange is in flight.
    pub is_loading: bool,
    /// When the application started (drives the loading animation).
    pub start_time: Instant,
    /// When the caret last changed visibility.
    pub last_cursor_blink: Instant,
    /// Whether the caret is drawn this frame.
    pub cursor_visible: bool,
    /// Whether extra debug information is shown.
    pub debug_keys: bool,
    /// Description of the last key event, when debugging.
    pub debug_last_key: Option<String>,
    /// Frames drawn, when debugging.
    pub render_count: u64,
}

impl App {
    /// The store is well formed and the selection is valid exactly when there are models.
    pub open spec fn wf(&self) -> bool {
        &&& self.buffers.wf()
        &&& (self.selected is None <==> self.models@.len() == 0)
        &&& (self.selected matches Some(i) ==> i < self.models@.len())
    }

    /// The cursor, clamped into the input.
    pub open spec fn clamped_cursor(&self) -> usize {
        if self.cursor_pos <= self.input@.len() {
            self.cursor_pos
        } else {
            self.input@.len() as usize
        }
    }

    /// The cursor lies within the input.
    pub open spec fn cursor_ok(&self) -> bool {
        self.cursor_pos <= self.input@.len()
    }

    pub open spec fn model_keys(&self) -> Seq<Seq<char>> {
        self.models@.map_values(|m: String| m@)
    }

    pub open spec fn active(&self) -> BufferView {
        BufferView {
            input: self.input@,
            cursor_pos: self.cursor_pos,
            history: self.history@,
            scroll: self.scroll,
        }
    }

    pub open spec fn session(&self) -> SessionView {
        SessionView {
            models: self.model_keys(),
            selected: self.selected,
            active: self.active(),
            store: self.buffers.view(),
        }
    }

    /// Everything but the input, the cursor and the caret state is the same.
    pub open spec fn same_but_editor(&self, other: &App) -> bool {
        &&& self.models == other.models
        &&& self.selected == other.selected
        &&& self.history == other.history
        &&& self.buffers == other.buffers
        &&& self.scroll == other.scroll
        &&& self.autoscroll == other.autoscroll
        &&& self.is_loading == other.is_loading
        &&& self.start_time == other.start_time
        &&& self.debug_keys == other.debug_keys
        &&& self.debug_last_key == other.debug_last_key
        &&& self.render_count == other.render_count
    }

    /// The models, the selection, the active scalars and the records are the same.
    pub open spec fn same_content(&self, other: &App) -> bool {
        &&& self.models == other.models
        &&& self.selected == other.selected
        &&& self.input == other.input
        &&& self.cursor_pos == other.cursor_pos
        &&& self.history == other.history
        &&& self.buffers == other.buffers
    }

    /// The loading flag, the caret state and the debug fields are the same.
    pub open spec fn same_display(&self, other: &App) -> bool {
        &&& self.is_loading == other.is_loading
        &&& self.start_time == other.start_time
        &&& self.last_cursor_blink == other.last_cursor_blink
        &&& self.cursor_visible == other.cursor_visible
        &&& self.debug_keys == other.debug_keys
        &&& self.debug_last_key == other.debug_last_key
        &&& self.render_count == other.render_count
    }

    /// The flags and the caret state are the same.
    pub open spec fn same_flags(&self, other: &App) -> bool {
        &&& self.autoscroll == other.autoscroll
        &&& self.is_loading == other.is_loading
        &&& self.start_time == other.start_time
        &&& self.last_cursor_blink == other.last_cursor_blink
        &&& self.cursor_visible == other.cursor_visible
        &&& self.debug_keys == other.debug_keys
        &&& self.debug_last_key == other.debug_last_key
        &&& self.render_count == other.render_count
    }

    /// A session with no models, empty buffers and the view following the transcript.
    pub fn new(debug_keys: bool) -> (r: App)
        ensures
            r.wf(),
            r.cursor_ok(),
            r.models@.len() == 0,
            r.selected is None,
            r.input@.len() == 0,
            r.history@.len() == 0,
            r.buffers.view().is_empty(),
            r.scroll == 0,
            r.cursor_pos == 0,
            r.autoscroll,
            !r.is_loading,
            r.cursor_visible,
            r.debug_keys == debug_keys,
            r.debug_last_key is None,
            r.render_count == 0,
    {
        let store = ModelStore::new();
        proof {
            assert(store.view() =~= Map::<Seq<char>, BufferView>::empty());
        }
        App {
            models: Vec::new(),
            selected: None,
            input: String::new(),
            history: String::new(),
            buffers: store,
            scroll: 0,
            cursor_pos: 0,
            autoscroll: true,
            is_loading: false,
            start_time: Instant::now(),
            last_cursor_blink: Instant::now(),
            cursor_visible: true,
            debug_keys,
            debug_last_key: None,
            render_count: 0,
        }
    }

    /// Makes the caret visible and restarts its blink timer.
    pub fn reset_cursor_blink(&mut self)
        ensures
            final(self).cursor_visible,
            final(self).same_but_editor(old(self)),
            final(self).input == old(self).input,
            final(self).cursor_pos == old(self).cursor_pos,
    {
        self.cursor_visible = true;
        self.last_cursor_blink = Instant::now();
    }

    /// One blink step after `elapsed_ms` milliseconds since the last toggle:
    /// from the blink interval on, the caret changes visibility and the timer
    /// restarts, and `true` asks for a redraw.
    pub fn blink_after(&mut self, elapsed_ms: u128) -> (r: bool)
        ensures
            r == (elapsed_ms >= BLINK_INTERVAL_MS),
            final(self).cursor_visible == (if r {
                !old(self).cursor_visible
            } else {
                old(self).cursor_visible
            }),
            !r ==> final(self).last_cursor_blink == old(self).last_cursor_blink,
            final(self).same_but_editor(old(self)),
            final(self).input == old(self).input,
            final(self).cursor_pos == old(self).cursor_pos,
    {
        if elapsed_ms >= BLINK_INTERVAL_MS {
            self.cursor_visible = !self.cursor_visible;
            self.last_cursor_blink = Instant::now();
            true
        } else {
            false
        }
    }

    /// Toggles the caret when the blink interval has passed; `true` when it did.
    pub fn update_cursor_blink(&mut self) -> (r: bool)
        ensures
            final(self).cursor_visible == (if r {
                !old(self).cursor_visible
            } else {
                old(self).cursor_visible
            }),
            !r ==> final(self).last_cursor_blink == old(self).last_cursor_blink,
            final(self).same_but_editor(old(self)),
            final(self).input == old(self).input,
            final(self).cursor_pos == old(self).cursor_pos,
    {
        let elapsed = self.last_cursor_blink.elapsed().as_millis();
        self.blink_after(elapsed)
    }

    /// Whether `c` is a word character: alphanumeric or an underscore.
    pub fn is_word_char(c: char) -> (r: bool)
        ensures
            r == word_char(c),
            (c as u32) < 0x80 ==> r == (ascii_alphanumeric(c) || c == '_'),
    {
        is_word_char(c)
    }

    /// The input split at the clamped cursor: the text before it, the
    /// character under it (none at the end) and the text after that.
    pub fn input_parts(&self) -> (r: (String, Option<char>, String))
        ensures
            ({
                let s = self.input@;
                let k = self.clamped_cursor() as int;
                &&& r.0@ == s.take(k)
                &&& r.1 == (if k < s.len() {
                    Some(s[k])
                } else {
                    None
                })
                &&& r.2@ == (if k < s.len() {
                    s.skip(k + 1)
                } else {
                    Seq::empty()
                })
            }),
    {
        let chars = chars_of(self.input.as_str());
        let n = chars.len();
        let k = if self.cursor_pos <= n {
            self.cursor_pos
        } else {
            n
        };
        let before = slice_chars(&chars, 0, k);
        if k < n {
            let after = slice_chars(&chars, k + 1, n);
            proof {
                assert(before@ =~= self.input@.take(k as int));
                assert(after@ =~= self.input@.skip(k + 1));
            }
            (string_from_chars(&before), Some(chars[k]), string_from_chars(&after))
        } else {
            proof {
                assert(before@ =~= self.input@.take(k as int));
            }
            (string_from_chars(&before), None, String::new())
        }
    }

    /// Number of characters in the input.
    pub fn input_len(&self) -> (r: usize)
        ensures
            r == self.input@.len(),
    {
        self.input.as_str().unicode_len()
    }

    /// Forces the cursor into the input.
    pub fn clamp_cursor(&mut self)
        ensures
            final(self).cursor_pos == (if old(self).cursor_pos <= old(self).input@.len() {
                old(self).cursor_pos
            } else {
                old(self).input@.len() as usize
            }),
            final(self).input == old(self).input,
            final(self).same_but_editor(old(self)),
            final(self).same_flags(old(self)),
    {
        let len = self.input_len();
        if self.cursor_pos > len {
            self.cursor_pos = len;
        }
    }

    /// Inserts `c` before the cursor and moves the cursor past it.
    pub fn insert_char(&mut self, c: char)
        requires
            old(self).input@.len() < usize::MAX,
        ensures
            final(self).input@ == old(self).input@.insert(old(self).clamped_cursor() as int, c),
            final(self).cursor_pos == old(self).clamped_cursor() + 1,
            final(self).cursor_ok(),
            final(self).cursor_visible,
            final(self).same_but_editor(old(self)),
    {
        self.clamp_cursor();
        let mut chars = chars_of(self.input.as_str());
        chars.insert(self.cursor_pos, c);
        self.input = string_from_chars(&chars);
        self.cursor_pos = self.cursor_pos + 1;
        self.reset_cursor_blink();
    }

    /// Removes the character before the cursor; nothing at the start.
    pub fn backspace(&mut self)
        ensures
            old(self).clamped_cursor() == 0 ==> final(self).input == old(self).input
                && final(self).cursor_pos == 0 && final(self).same_flags(old(self)),
            old(self).clamped_cursor() > 0 ==> final(self).input@ == old(self).input@.remove(
                old(self).clamped_cursor() - 1,
            ) && final(self).cursor_pos == old(self).clamped_cursor() - 1
                && final(self).cursor_visible,
            final(self).cursor_ok(),
            final(self).same_but_editor(old(self)),
    {
        self.clamp_cursor();
        if self.cursor_pos == 0 {
            return;
        }
        let mut chars = chars_of(self.input.as_str());
        chars.remove(self.cursor_pos - 1);
        self.input = string_from_chars(&chars);
        self.cursor_pos = self.cursor_pos - 1;
        self.reset_cursor_blink();
    }

    /// Removes the character at the cursor; nothing at the end.
    pub fn delete_forward(&mut self)
        ensures
            old(self).clamped_cursor() == old(self).input@.len() ==> final(self).input
                == old(self).input && final(self).same_flags(old(self)),
            old(self).clamped_cursor() < old(self).input@.len() ==> final(self).input@
                == old(self).input@.remove(old(self).clamped_cursor() as int)
                && final(self).cursor_visible,
            final(self).cursor_pos == old(self).clamped_cursor(),
            final(self).cursor_ok(),
            final(self).same_but_editor(old(self)),
    {
        self.clamp_cursor();
        let mut chars = chars_of(self.input.as_str());
        if self.cursor_pos >= chars.len() {
            return;
        }
        chars.remove(self.cursor_pos);
        self.input = string_from_chars(&chars);
        self.reset_cursor_blink();
    }

    /// Removes the separators and then the word left of the cursor.
    pub fn delete_word_left(&mut self)
        ensures
            ({
                let s = old(self).input@;
                let k = old(self).clamped_cursor();
                let j = word_left(s, k as nat);
                &&& final(self).input@ == s.take(j as int) + s.skip(k as int)
                &&& final(self).cursor_pos == j
                &&& j == k ==> final(self).same_flags(old(self))
                &&& j < k ==> final(self).cursor_visible
            }),
            final(self).cursor_ok(),
            final(self).same_but_editor(old(self)),
    {
        self.clamp_cursor();
        let ghost s = self.input@;
        let chars = chars_of(self.input.as_str());
        let k = self.cursor_pos;
        let j = word_left_index(&chars, k);
        proof {
            lemma_word_left_bounds(s, k as nat);
        }
        if j != k {
            let mut kept: Vec<char> = Vec::new();
            let mut i: usize = 0;
            while i < chars.len()
                invariant
                    chars@ == s,
                    j < k <= s.len(),
                    i <= s.len(),
                    kept@ == (if i <= j {
                        s.take(i as int)
                    } else if i <= k {
                        s.take(j as int)
                    } else {
                        s.take(j as int) + s.subrange(k as int, i as int)
                    }),
                decreases s.len() - i,
            {
                if i < j || i >= k {
                    kept.push(chars[i]);
                }
                proof {
                    if i < j {
                        assert(s.take(i + 1) =~= s.take(i as int).push(s[i as int]));
                    } else if i == k {
                        assert(s.subrange(k as int, i + 1) =~= seq![s[i as int]]);
                    } else if i > k {
                        assert(s.subrange(k as int, i + 1) =~= s.subrange(k as int, i as int).push(s[i as int]));
                    }
                }
                i = i + 1;
            }
            proof {
                if k == s.len() {
                    assert(s.skip(k as int) =~= Seq::<char>::empty());
                    assert(kept@ =~= s.take(j as int) + s.skip(k as int));
                } else {
                    assert(s.subrange(k as int, s.len() as int) =~= s.skip(k as int));
                }
            }
            self.input = string_from_chars(&kept);
            self.cursor_pos = j;
            self.reset_cursor_blink();
        } else {
            proof {
                assert(s.take(j as int) + s.skip(k as int) =~= s);
            }
        }
    }

    /// Removes the separators and then the word right of the cursor.
    pub fn delete_word_right(&mut self)
        ensures
            ({
                let s = old(self).input@;
                let k = old(self).clamped_cursor();
                let j = word_right(s, k as nat);
                &&& final(self).input@ == s.take(k as int) + s.skip(j as int)
                &&& j == k ==> final(self).same_flags(old(self))
                &&& j > k ==> final(self).cursor_visible
            }),
            final(self).cursor_pos == old(self).clamped_cursor(),
            final(self).cursor_ok(),
            final(self).same_but_editor(old(self)),
    {
        self.clamp_cursor();
        let ghost s = self.input@;
        let chars = chars_of(self.input.as_str());
        let k = self.cursor_pos;
        let j = word_right_index(&chars, k);
        proof {
            lemma_word_right_bounds(s, k as nat);
        }
        if j != k {
            let mut kept: Vec<char> = Vec::new();
            let mut i: usize = 0;
            while i < chars.len()
                invariant
                    chars@ == s,
                    k < j <= s.len(),
                    i <= s.len(),
                    kept@ == (if i <= k {
                        s.take(i as int)
                    } else if i <= j {
                        s.take(k as int)
                    } else {
                        s.take(k as int) + s.subrange(j as int, i as int)
                    }),
                decreases s.len() - i,
            {
                if i < k || i >= j {
                    kept.push(chars[i]);
                }
                proof {
                    if i < k {
                        assert(s.take(i + 1) =~= s.take(i as int).push(s[i as int]));
                    } else if i == j {
                        assert(s.subrange(j as int, i + 1) =~= seq![s[i as int]]);
                    } else if i > j {
                        assert(s.subrange(j as int, i + 1) =~= s.subrange(j as int, i as int).push(s[i as int]));
                    }
                }
                i = i + 1;
            }
            proof {
                if j == s.len() {
                    assert(s.skip(j as int) =~= Seq::<char>::empty());
                    assert(kept@ =~= s.take(k as int) + s.skip(j as int));
                } else {
                    assert(s.subrange(j as int, s.len() as int) =~= s.skip(j as int));
                }
            }
            self.input = string_from_chars(&kept);
            self.reset_cursor_blink();
        } else {
            proof {
                assert(s.take(k as int) + s.skip(j as int) =~= s);
            }
        }
    }


    /// Moves the cursor one character left; nothing at the start.
    pub fn move_cursor_left(&mut self)
        ensures
            final(self).cursor_pos == (if old(self).clamped_cursor() > 0 {
                old(self).clamped_cursor() - 1
            } else {
                0
            }),
            old(self).clamped_cursor() == 0 ==> final(self).same_flags(old(self)),
            old(self).clamped_cursor() > 0 ==> final(self).cursor_visible,
            final(self).input == old(self).input,
            final(self).cursor_ok(),
            final(self).same_but_editor(old(self)),
    {
        self.clamp_cursor();
        if self.cursor_pos > 0 {
            self.cursor_pos = self.cursor_pos - 1;
            self.reset_cursor_blink();
        }
    }

    /// Moves the cursor one character right; nothing at the end.
    pub fn move_cursor_right(&mut self)
        ensures
            final(self).cursor_pos == (if old(self).clamped_cursor() < old(self).input@.len() {
                old(self).clamped_cursor() + 1
            } else {
                old(self).clamped_cursor() as int
            }),
            old(self).clamped_cursor() == old(self).input@.len() ==> final(self).same_flags(old(self)),
            old(self).clamped_cursor() < old(self).input@.len() ==> final(self).cursor_visible,
            final(self).input == old(self).input,
            final(self).cursor_ok(),
            final(self).same_but_editor(old(self)),
    {
        self.clamp_cursor();
        let len = self.input_len();
        if self.cursor_pos < len {
            self.cursor_pos = self.cursor_pos + 1;
            self.reset_cursor_blink();
        }
    }

    /// Moves the cursor to the start of the input.
    pub fn move_cursor_home(&mut self)
        ensures
            final(self).cursor_pos == 0,
            old(self).cursor_pos == 0 ==> final(self).same_flags(old(self)),
            old(self).cursor_pos != 0 ==> final(self).cursor_visible,
            final(self).input == old(self).input,
            final(self).same_but_editor(old(self)),
    {
        if self.cursor_pos != 0 {
            self.cursor_pos = 0;
            self.reset_cursor_blink();
        }
    }

    /// Moves the cursor to the end of the input.
    pub fn move_cursor_end(&mut self)
        ensures
            final(self).cursor_pos == old(self).input@.len(),
            old(self).cursor_pos == old(self).input@.len() ==> final(self).same_flags(old(self)),
            old(self).cursor_pos != old(self).input@.len() ==> final(self).cursor_visible,
            final(self).input == old(self).input,
            final(self).same_but_editor(old(self)),
    {
        let len = self.input_len();
        if self.cursor_pos != len {
            self.cursor_pos = len;
            self.reset_cursor_blink();
        }
    }

    /// Moves the cursor over the separators and then the word to its left.
    pub fn move_cursor_word_left(&mut self)
        ensures
            final(self).cursor_pos == word_left(old(self).input@, old(self).clamped_cursor() as nat),
            final(self).cursor_pos == old(self).clamped_cursor() ==> final(self).same_flags(old(self)),
            final(self).cursor_pos != old(self).clamped_cursor() ==> final(self).cursor_visible,
            final(self).input == old(self).input,
            final(self).cursor_ok(),
            final(self).same_but_editor(old(self)),
    {
        self.clamp_cursor();
        let chars = chars_of(self.input.as_str());
        let j = word_left_index(&chars, self.cursor_pos);
        proof {
            lemma_word_left_bounds(self.input@, self.cursor_pos as nat);
        }
        if j != self.cursor_pos {
            self.cursor_pos = j;
            self.reset_cursor_blink();
        }
    }

    /// Moves the cursor over the separators and then the word to its right.
    pub fn move_cursor_word_right(&mut self)
        ensures
            final(self).cursor_pos == word_right(old(self).input@, old(self).clamped_cursor() as nat),
            final(self).cursor_pos == old(self).clamped_cursor() ==> final(self).same_flags(old(self)),
            final(self).cursor_pos != old(self).clamped_cursor() ==> final(self).cursor_visible,
            final(self).input == old(self).input,
            final(self).cursor_ok(),
            final(self).same_but_editor(old(self)),
    {
        self.clamp_cursor();
        let chars = chars_of(self.input.as_str());
        let j = word_right_index(&chars, self.cursor_pos);
        proof {
            lemma_word_right_bounds(self.input@, self.cursor_pos as nat);
        }
        if j != self.cursor_pos {
            self.cursor_pos = j;
            self.reset_cursor_blink();
        }
    }

    /// The byte offset in `input` at which the character with index
    /// `char_index` starts; the byte length of `input` past its end.
    pub fn char_index_to_byte_index(&self, char_index: usize) -> (r: usize)
        requires
            byte_offset(self.input@, self.input@.len()) <= usize::MAX,
        ensures
            r == byte_offset(self.input@, char_index as nat),
            char_index <= self.input@.len() ==> r == encode_utf8(
                self.input@.take(char_index as int),
            ).len(),
    {
        let ghost s = self.input@;
        let chars = chars_of(self.input.as_str());
        let stop = if char_index < chars.len() {
            char_index
        } else {
            chars.len()
        };
        let mut i: usize = 0;
        let mut b: usize = 0;
        while i < stop
            invariant
                chars@ == s,
                stop <= s.len(),
                i <= stop,
                b == byte_offset(s, i as nat),
                byte_offset(s, s.len()) <= usize::MAX,
            decreases stop - i,
        {
            proof {
                lemma_byte_offset_monotone(s, (i + 1) as nat, s.len());
            }
            b = b + char_width(chars[i]);
            i = i + 1;
        }
        proof {
            lemma_byte_offset_clamped(s, char_index as nat);
            if char_index <= s.len() {
                lemma_byte_offset_is_encoding(s, char_index as nat);
            }
        }
        b
    }

    /// The identifier of the selected model, if any.
    pub fn current_model(&self) -> (r: Option<&String>)
        requires
            self.wf(),
        ensures
            r is Some <==> self.session().current_key() is Some,
            r matches Some(m) ==> Some(m@) == self.session().current_key(),
    {
        match self.selected {
            Some(i) => {
                if i < self.models.len() {
                    Some(&self.models[i])
                } else {
                    None
                }
            },
            None => None,
        }
    }

    /// Copies the active input, cursor, transcript and scroll into the
    /// record of the selected model; nothing without a selection.
    pub fn save_current_model_buffers(&mut self)
        requires
            old(self).wf(),
        ensures
            final(self).wf(),
            final(self).session() == save_spec(old(self).session()),
            final(self).models == old(self).models,
            final(self).selected == old(self).selected,
            final(self).same_flags(old(self)),
    {
        if let Some(i) = self.selected {
            if i < self.models.len() {
                let buf = ModelBuffer {
                    input: self.input.clone(),
                    cursor_pos: self.cursor_pos,
                    history: self.history.clone(),
                    scroll: self.scroll,
                };
                let model = self.models[i].clone();
                self.buffers.put(&model, buf);
                proof {
                    assert(self.session().store == save_spec(old(self).session()).store);
                }
            }
        }
    }

    /// Copies the record of the selected model (empty where it has none) into
    /// the active scalars and clamps the cursor; nothing without a selection.
    pub fn load_current_model_buffers(&mut self)
        requires
            old(self).wf(),
        ensures
            final(self).wf(),
            old(self).cursor_ok() || old(self).selected is Some ==> final(self).cursor_ok(),
            final(self).session() == load_spec(old(self).session()),
            final(self).models == old(self).models,
            final(self).selected == old(self).selected,
            final(self).same_flags(old(self)),
    {
        if let Some(i) = self.selected {
            if i < self.models.len() {
                let rec = self.buffers.get_or_default(&self.models[i]);
                self.input = rec.input;
                self.cursor_pos = rec.cursor_pos;
                self.history = rec.history;
                self.scroll = rec.scroll;
                self.clamp_cursor();
                proof {
                    assert(self.session().active == load_spec(old(self).session()).active);
                    assert(self.session() == load_spec(old(self).session()));
                }
            }
        }
    }


    /// Saves the current model, selects the next one (the first after the
    /// last, or the first without a selection) and loads it; nothing on an
    /// empty list.
    pub fn select_next_model(&mut self)
        requires
            old(self).wf(),
        ensures
            final(self).wf(),
            final(self).session() == select_next_spec(old(self).session()),
            old(self).models@.len() > 0 ==> final(self).cursor_ok(),
            old(self).models@.len() == 0 ==> *final(self) == *old(self),
            final(self).models == old(self).models,
            final(self).same_flags(old(self)),
    {
        if self.models.len() == 0 {
            return;
        }
        self.save_current_model_buffers();
        let n = self.models.len();
        let i: usize = match self.selected {
            Some(i) => if i >= n - 1 {
                0
            } else {
                i + 1
            },
            None => 0,
        };
        self.selected = Some(i);
        self.load_current_model_buffers();
    }

    /// Saves the current model, selects the previous one (the last before
    /// the first, or the first without a selection) and loads it; nothing on
    /// an empty list.
    pub fn select_previous_model(&mut self)
        requires
            old(self).wf(),
        ensures
            final(self).wf(),
            final(self).session() == select_previous_spec(old(self).session()),
            old(self).models@.len() > 0 ==> final(self).cursor_ok(),
            old(self).models@.len() == 0 ==> *final(self) == *old(self),
            final(self).models == old(self).models,
            final(self).same_flags(old(self)),
    {
        if self.models.len() == 0 {
            return;
        }
        self.save_current_model_buffers();
        let n = self.models.len();
        let i: usize = match self.selected {
            Some(i) => if i == 0 {
                n - 1
            } else {
                i - 1
            },
            None => 0,
        };
        self.selected = Some(i);
        self.load_current_model_buffers();
    }

    /// Takes a freshly listed set of models; `None` (the listing failed)
    /// leaves everything as it is. Otherwise the active state is saved, the
    /// list is replaced, every new identifier gets an empty record (existing
    /// records are kept), and the first model is selected and loaded.
    pub fn refresh_models(&mut self, listed: Option<Vec<String>>)
        requires
            old(self).wf(),
        ensures
            final(self).wf(),
            listed is None ==> *final(self) == *old(self),
            listed matches Some(l) ==> ({
                let saved = save_spec(old(self).session());
                let keys = l@.map_values(|m: String| m@);
                let refreshed = SessionView {
                    models: keys,
                    selected: if keys.len() > 0 {
                        Some(0usize)
                    } else {
                        None
                    },
                    active: saved.active,
                    store: with_records(saved.store, keys),
                };
                &&& final(self).session() == load_spec(refreshed)
                &&& keys.len() > 0 ==> final(self).cursor_ok()
            }),
            final(self).same_flags(old(self)),
    {
        let list = match listed {
            Some(l) => l,
            None => {
                return;
            },
        };
        self.save_current_model_buffers();
        let ghost saved = self.session();
        let ghost keys = list@.map_values(|m: String| m@);
        let mut i: usize = 0;
        while i < list.len()
            invariant
                i <= list@.len(),
                keys == list@.map_values(|m: String| m@),
                self.buffers.wf(),
                self.buffers.view() == with_records(saved.store, keys.take(i as int)),
                self.session().active == saved.active,
                self.models == old(self).models,
                self.selected == old(self).selected,
                self.same_flags(old(self)),
            decreases list@.len() - i,
        {
            self.buffers.ensure(&list[i]);
            proof {
                assert(keys.take(i + 1) =~= keys.take(i as int).push(keys[i as int]));
                assert forall|k: Seq<char>|
                    keys.take(i + 1).contains(k) == (keys.take(i as int).contains(k) || k
                        == keys[i as int]) by {
                    vstd::seq_lib::lemma_seq_contains_after_push(
                        keys.take(i as int),
                        keys[i as int],
                        k,
                    );
                }
                assert(self.buffers.view() =~= with_records(saved.store, keys.take(i + 1)));
            }
            i = i + 1;
        }
        proof {
            assert(keys.take(list@.len() as int) =~= keys);
        }
        self.models = list;
        if self.models.len() > 0 {
            self.selected = Some(0);
        } else {
            self.selected = None;
        }
        proof {
            assert(self.model_keys() =~= keys);
        }
        self.load_current_model_buffers();
    }

    /// Starts an exchange: with a model selected and none in flight, the
    /// prompt block for the input is appended to the transcript, the input
    /// and cursor are cleared, the record is saved, and the session is marked
    /// loading with the view following the transcript; the request to send is
    /// returned. Otherwise nothing changes and `None` comes back.
    pub fn send_query(&mut self) -> (r: Option<QueryRequest>)
        requires
            old(self).wf(),
        ensures
            final(self).wf(),
            (old(self).session().current_key() is None || old(self).is_loading) ==> r is None
                && *final(self) == *old(self),
            (old(self).session().current_key() is Some && !old(self).is_loading) ==> ({
                let started = BufferView {
                    input: Seq::empty(),
                    cursor_pos: 0,
                    history: old(self).history@ + prompt_block(old(self).input@),
                    scroll: old(self).scroll,
                };
                &&& r matches Some(q) && Some(q.model@) == old(self).session().current_key()
                    && q.prompt@ == old(self).input@
                &&& final(self).session() == save_spec(old(self).session().with_active(started))
                &&& final(self).is_loading
                &&& final(self).autoscroll
            }),
            final(self).cursor_ok() || *final(self) == *old(self),
            final(self).start_time == old(self).start_time,
            final(self).last_cursor_blink == old(self).last_cursor_blink,
            final(self).cursor_visible == old(self).cursor_visible,
            final(self).debug_keys == old(self).debug_keys,
            final(self).debug_last_key == old(self).debug_last_key,
            final(self).render_count == old(self).render_count,
    {
        if self.is_loading {
            return None;
        }
        let model = match self.current_model() {
            Some(m) => m.clone(),
            None => {
                return None;
            },
        };
        let prompt = self.input.clone();
        self.history.append("\nYOU: ");
        self.history.append(prompt.as_str());
        self.history.append("\n\nAI: ");
        self.input = String::new();
        self.cursor_pos = 0;
        proof {
            assert(self.history@ == old(self).history@ + prompt_block(old(self).input@));
        }
        self.save_current_model_buffers();
        self.is_loading = true;
        self.autoscroll = true;
        Some(QueryRequest { model, prompt })
    }

    /// Appends one streamed fragment to the transcript while an exchange is
    /// in flight; nothing otherwise.
    pub fn append_fragment(&mut self, fragment: &str)
        ensures
            old(self).is_loading ==> final(self).history@ == old(self).history@ + fragment@,
            !old(self).is_loading ==> final(self).history == old(self).history,
            final(self).models == old(self).models,
            final(self).selected == old(self).selected,
            final(self).input == old(self).input,
            final(self).cursor_pos == old(self).cursor_pos,
            final(self).buffers == old(self).buffers,
            final(self).scroll == old(self).scroll,
            final(self).same_flags(old(self)),
    {
        if self.is_loading {
            self.history.append(fragment);
        }
    }

    /// Ends an exchange in flight: the separator is appended, loading ends
    /// and the record is saved. Nothing when no exchange is in flight.
    pub fn finish_query(&mut self)
        requires
            old(self).wf(),
        ensures
            final(self).wf(),
            !old(self).is_loading ==> *final(self) == *old(self),
            old(self).is_loading ==> ({
                let done = BufferView {
                    history: old(self).history@ + exchange_end(),
                    ..old(self).active()
                };
                &&& final(self).session() == save_spec(old(self).session().with_active(done))
                &&& !final(self).is_loading
            }),
            final(self).autoscroll == old(self).autoscroll,
            final(self).cursor_visible == old(self).cursor_visible,
            final(self).last_cursor_blink == old(self).last_cursor_blink,
            final(self).start_time == old(self).start_time,
            final(self).debug_keys == old(self).debug_keys,
            final(self).debug_last_key == old(self).debug_last_key,
            final(self).render_count == old(self).render_count,
    {
        if !self.is_loading {
            return;
        }
        self.history.append("\n---\n");
        self.is_loading = false;
        self.save_current_model_buffers();
    }

    /// Ends an exchange whose stream could not be opened: loading ends and
    /// the transcript keeps the prompt that was already committed.
    pub fn abort_query(&mut self)
        ensures
            !final(self).is_loading,
            final(self).session() == old(self).session(),
            final(self).autoscroll == old(self).autoscroll,
            final(self).cursor_visible == old(self).cursor_visible,
            final(self).last_cursor_blink == old(self).last_cursor_blink,
            final(self).same_content(old(self)),
            final(self).scroll == old(self).scroll,
    {
        self.is_loading = false;
    }

    /// Clears the transcript of the active model, resets the scroll, makes
    /// the view follow the transcript again and saves the record.
    pub fn clear_history(&mut self)
        requires
            old(self).wf(),
        ensures
            final(self).wf(),
            final(self).session() == save_spec(old(self).session().with_active(
                BufferView { history: Seq::empty(), scroll: 0, ..old(self).active() },
            )),
            final(self).autoscroll,
            final(self).is_loading == old(self).is_loading,
            final(self).cursor_visible == old(self).cursor_visible,
    {
        self.history = String::new();
        self.scroll = 0;
        self.autoscroll = true;
        self.save_current_model_buffers();
    }

    /// Switches between following the transcript and manual scrolling.
    pub fn toggle_autoscroll(&mut self)
        ensures
            final(self).autoscroll == !old(self).autoscroll,
            final(self).same_content(old(self)),
            final(self).scroll == old(self).scroll,
            final(self).same_display(old(self)),
    {
        self.autoscroll = !self.autoscroll;
    }

    /// Scrolls one page up by hand (never above the top).
    pub fn scroll_up(&mut self)
        ensures
            !final(self).autoscroll,
            final(self).scroll == (if old(self).scroll >= PAGE_SCROLL {
                old(self).scroll - PAGE_SCROLL
            } else {
                0
            }),
            final(self).same_content(old(self)),
            final(self).same_display(old(self)),
    {
        self.autoscroll = false;
        self.scroll = if self.scroll >= PAGE_SCROLL {
            self.scroll - PAGE_SCROLL
        } else {
            0
        };
    }

    /// Scrolls one page down by hand (rendering clamps it to the bottom).
    pub fn scroll_down(&mut self)
        ensures
            !final(self).autoscroll,
            final(self).scroll == (if old(self).scroll <= u16::MAX - PAGE_SCROLL {
                old(self).scroll + PAGE_SCROLL
            } else {
                u16::MAX as int
            }),
            final(self).same_content(old(self)),
            final(self).same_display(old(self)),
    {
        self.autoscroll = false;
        self.scroll = if self.scroll <= u16::MAX - PAGE_SCROLL {
            self.scroll + PAGE_SCROLL
        } else {
            u16::MAX
        };
    }

    /// Fits the scroll offset to a transcript of `total_lines` rendered
    /// lines in a viewport of `visible_height`: pinned to the bottom when the
    /// view follows the transcript, otherwise never past the bottom.
    pub fn fit_scroll(&mut self, total_lines: u16, visible_height: u16)
        ensures
            final(self).scroll == (if old(self).autoscroll {
                max_scroll(total_lines, visible_height)
            } else if old(self).scroll <= max_scroll(total_lines, visible_height) {
                old(self).scroll
            } else {
                max_scroll(total_lines, visible_height)
            }),
            final(self).autoscroll == old(self).autoscroll,
            final(self).same_content(old(self)),
            final(self).same_display(old(self)),
    {
        let max = if total_lines > visible_height {
            total_lines - visible_height
        } else {
            0
        };
        if self.autoscroll {
            self.scroll = max;
        } else if self.scroll > max {
            self.scroll = max;
        }
    }

} // impl App

} // verus!
