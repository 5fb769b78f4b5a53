//! Bitset-backed keyboard and mouse state. The event collaborator (the
//! embedding application's window loop) mutates it through the frame
//! orchestrator; game logic only reads it.

use vstd::prelude::*;

verus! {

/// The closed enumeration of key identifiers delivered by the event
/// collaborator.
#[derive(Debug, Hash, Ord, PartialOrd, PartialEq, Eq, Clone, Copy, Structural)]
pub enum Key {
    /// The '1' key over the letters.
    Key1,
    /// The '2' key over the letters.
    Key2,
    /// The '3' key over the letters.
    Key3,
    /// The '4' key over the letters.
    Key4,
    /// The '5' key over the letters.
    Key5,
    /// The '6' key over the letters.
    Key6,
    /// The '7' key over the letters.
    Key7,
    /// The '8' key over the letters.
    Key8,
    /// The '9' key over the letters.
    Key9,
    /// The '0' key over the 'O' and 'P' keys.
    Key0,

    A,
    B,
    C,
    D,
    E,
    F,
    G,
    H,
    I,
    J,
    K,
    L,
    M,
    N,
    O,
    P,
    Q,
    R,
    S,
    T,
    U,
    V,
    W,
    X,
    Y,
    Z,

    /// The Escape key, next to F1.
    Escape,

    F1,
    F2,
    F3,
    F4,
    F5,
    F6,
    F7,
    F8,
    F9,
    F10,
    F11,
    F12,
    F13,
    F14,
    F15,
    F16,
    F17,
    F18,
    F19,
    F20,
    F21,
    F22,
    F23,
    F24,

    /// Print Screen/SysRq.
    Snapshot,
    /// Scroll Lock.
    Scroll,
    /// Pause/Break key, next to Scroll lock.
    Pause,

    /// `Insert`, next to Backspace.
    Insert,
    Home,
    Delete,
    End,
    PageDown,
    PageUp,

    Left,
    Up,
    Right,
    Down,

    /// The Backspace key, right over Enter.
    Back,
    /// The Enter key.
    Return,
    /// The space bar.
    Space,

    /// The "Compose" key on Linux.
    Compose,

    Caret,

    Numlock,
    Numpad0,
    Numpad1,
    Numpad2,
    Numpad3,
    Numpad4,
    Numpad5,
    Numpad6,
    Numpad7,
    Numpad8,
    Numpad9,
    NumpadAdd,
    NumpadDivide,
    NumpadDecimal,
    NumpadComma,
    NumpadEnter,
    NumpadEquals,
    NumpadMultiply,
    NumpadSubtract,

    AbntC1,
    AbntC2,
    Apostrophe,
    Apps,
    Asterisk,
    At,
    Ax,
    Backslash,
    Calculator,
    Capital,
    Colon,
    Comma,
    Convert,
    Equals,
    Grave,
    Kana,
    Kanji,
    LAlt,
    LBracket,
    LControl,
    LShift,
    LWin,
    Mail,
    MediaSelect,
    MediaStop,
    Minus,
    Mute,
    MyComputer,
    // also called "Next"
    NavigateForward,
    // also called "Prior"
    NavigateBackward,
    NextTrack,
    NoConvert,
    OEM102,
    Period,
    PlayPause,
    Plus,
    Power,
    PrevTrack,
    RAlt,
    RBracket,
    RControl,
    RShift,
    RWin,
    Semicolon,
    Slash,
    Sleep,
    Stop,
    Sysrq,
    Tab,
    Underline,
    Unlabeled,
    VolumeDown,
    VolumeUp,
    Wake,
    WebBack,
    WebFavorites,
    WebForward,
    WebHome,
    WebRefresh,
    WebSearch,
    WebStop,
    Yen,
    Copy,
    Paste,
    Cut,
}

/// Number of 64-bit words in the key bitset; all key codes fit below
/// `64 * KEY_WORDS`.
pub const KEY_WORDS: usize = 4;

/// The bit index that stands for a key in the pressed-key bitset.
pub open spec fn key_code(k: Key) -> u32 {
    k as u32
}

/// Every key code fits in the bitset.
pub proof fn lemma_key_code_bound(k: Key)
    ensures
        key_code(k) < 256,
{
}

/// Distinct keys occupy distinct bits.
pub proof fn lemma_key_code_injective(k1: Key, k2: Key)
    requires
        key_code(k1) == key_code(k2),
    ensures
        k1 == k2,
{
}

/// Executable counterpart of `key_code`.
fn key_code_exec(k: Key) -> (c: u32)
    ensures
        c == key_code(k),
        c < 64 * KEY_WORDS,
{
    k as u32
}

/// One bit of a 64-bit word.
spec fn word_bit(w: u64, b: u64) -> bool
    recommends
        b < 64,
{
    (w >> b) & 1u64 == 1u64
}

/// The bit that stands for code `c` in the word vector.
spec fn code_bit(words: Seq<u64>, c: u32) -> bool
    recommends
        c < 64 * KEY_WORDS,
        words.len() == KEY_WORDS,
{
    word_bit(words[c as int / 64], (c % 64) as u64)
}

/// The sequence `s` with every occurrence of `key` removed, keeping the
/// order of the rest.
pub open spec fn without_key(s: Seq<Key>, key: Key) -> Seq<Key> {
    s.filter(|k2: Key| k2 != key)
}

/// The bitset has its fixed size and the pressed list holds exactly the
/// pressed keys, each at most once.
spec fn words_list_wf(words: Seq<u64>, list: Seq<Key>) -> bool {
    &&& words.len() == KEY_WORDS
    &&& forall|i: int| 0 <= i < list.len() ==> code_bit(words, key_code(#[trigger] list[i]))
    &&& forall|i: int, j: int| 0 <= i < j < list.len() ==> list[i] != list[j]
    &&& forall|k: Key| #[trigger] code_bit(words, key_code(k)) ==> list.contains(k)
}

/// The relation a key press establishes between the input state before and
/// after: the key is held, no other key changed, the key was appended to
/// the pressed list unless already held, and the mouse state is untouched.
pub open spec fn press_effect(pre: &Input, post: &Input, key: Key) -> bool {
    &&& post.spec_pressed(key)
    &&& forall|k2: Key| k2 != key ==> post.spec_pressed(k2) == pre.spec_pressed(k2)
    &&& post.pressed_seq() == if pre.spec_pressed(key) {
        pre.pressed_seq()
    } else {
        pre.pressed_seq().push(key)
    }
    &&& Input::mouse_eq(post, pre)
}

/// The relation a key release establishes: the key is no longer held, no
/// other key changed, the key left the pressed list with the order of the
/// rest kept, and the mouse state is untouched.
pub open spec fn release_effect(pre: &Input, post: &Input, key: Key) -> bool {
    &&& !post.spec_pressed(key)
    &&& forall|k2: Key| k2 != key ==> post.spec_pressed(k2) == pre.spec_pressed(k2)
    &&& post.pressed_seq() == without_key(pre.pressed_seq(), key)
    &&& Input::mouse_eq(post, pre)
}

/// The relation a focus loss establishes: every key and mouse button is
/// released at once and the cursor position is forgotten; the scroll
/// accumulator is kept.
pub open spec fn clear_effect(pre: &Input, post: &Input) -> bool {
    &&& forall|k: Key| !post.spec_pressed(k)
    &&& post.pressed_seq() == Seq::<Key>::empty()
    &&& post.spec_mouse_pos() is None
    &&& !post.spec_mouse_left()
    &&& !post.spec_mouse_right()
    &&& post.spec_scroll() == pre.spec_scroll()
}

/// The relation one scroll step establishes: the accumulator moves by
/// `delta`, saturating at the ends of its range, and nothing else changes.
pub open spec fn scroll_effect(pre: &Input, post: &Input, delta: i64) -> bool {
    &&& post.spec_scroll() == if pre.spec_scroll() + delta > i64::MAX {
        i64::MAX as int
    } else if pre.spec_scroll() + delta < i64::MIN {
        i64::MIN as int
    } else {
        pre.spec_scroll() + delta
    }
    &&& post.spec_mouse_pos() == pre.spec_mouse_pos()
    &&& post.spec_mouse_left() == pre.spec_mouse_left()
    &&& post.spec_mouse_right() == pre.spec_mouse_right()
    &&& Input::keys_eq(post, pre)
}

/// Keyboard and mouse state: a fixed-size key bitset, the pressed keys in
/// press order, mouse button flags, an optional cursor position and the
/// accumulated scroll delta (sign-normalized, one unit per discrete event).
pub struct Input {
    key_state: Vec<u64>,
    pressed_list: Vec<Key>,
    mouse_pos: Option<(u32, u32)>,
    mouse_left_pressed: bool,
    mouse_right_pressed: bool,
    scroll_pos: i64,
}

impl Input {
    /// Whether `k` is currently held down.
    pub closed spec fn spec_pressed(&self, k: Key) -> bool {
        code_bit(self.key_state@, key_code(k))
    }

    /// The currently pressed keys, in press order.
    pub closed spec fn pressed_seq(&self) -> Seq<Key> {
        self.pressed_list@
    }

    pub closed spec fn spec_mouse_pos(&self) -> Option<(u32, u32)> {
        self.mouse_pos
    }

    pub closed spec fn spec_mouse_left(&self) -> bool {
        self.mouse_left_pressed
    }

    pub closed spec fn spec_mouse_right(&self) -> bool {
        self.mouse_right_pressed
    }

    pub closed spec fn spec_scroll(&self) -> i64 {
        self.scroll_pos
    }

    /// The mouse state and scroll accumulator of `a` and `b` agree.
    pub open spec fn mouse_eq(a: &Input, b: &Input) -> bool {
        &&& a.spec_mouse_pos() == b.spec_mouse_pos()
        &&& a.spec_mouse_left() == b.spec_mouse_left()
        &&& a.spec_mouse_right() == b.spec_mouse_right()
        &&& a.spec_scroll() == b.spec_scroll()
    }

    /// The key state of `a` and `b` agree.
    pub open spec fn keys_eq(a: &Input, b: &Input) -> bool {
        &&& forall|k: Key| a.spec_pressed(k) == b.spec_pressed(k)
        &&& a.pressed_seq() == b.pressed_seq()
    }

    /// Internal invariant: the bitset has its fixed size, and the pressed
    /// list holds exactly the pressed keys, each at most once.
    pub closed spec fn wf(&self) -> bool {
        words_list_wf(self.key_state@, self.pressed_list@)
    }

    /// Fresh input state: nothing pressed, no cursor position, zero scroll.
    pub fn new() -> (inp: Input)
        ensures
            inp.wf(),
            forall|k: Key| !inp.spec_pressed(k),
            inp.pressed_seq() == Seq::<Key>::empty(),
            inp.spec_mouse_pos() is None,
            !inp.spec_mouse_left(),
            !inp.spec_mouse_right(),
            inp.spec_scroll() == 0,
    {
        let mut words: Vec<u64> = Vec::new();
        words.push(0);
        words.push(0);
        words.push(0);
        words.push(0);
        let inp = Input {
            key_state: words,
            pressed_list: Vec::new(),
            mouse_pos: None,
            mouse_left_pressed: false,
            mouse_right_pressed: false,
            scroll_pos: 0,
        };
        proof {
            assert forall|k: Key| !code_bit(inp.key_state@, key_code(k)) by {
                lemma_key_code_bound(k);
                let b = (key_code(k) % 64) as u64;
                assert(!word_bit(0u64, b)) by (bit_vector);
            }
        }
        inp
    }

    pub fn is_pressed(&self, key: Key) -> (pressed: bool)
        requires
            self.wf(),
        ensures
            pressed == self.spec_pressed(key),
    {
        proof {
            lemma_key_code_bound(key);
        }
        self.get_bit(key_code_exec(key))
    }

    pub fn is_mouse_left_pressed(&self) -> (pressed: bool)
        ensures
            pressed == self.spec_mouse_left(),
    {
        self.mouse_left_pressed
    }

    pub fn is_mouse_right_pressed(&self) -> (pressed: bool)
        ensures
            pressed == self.spec_mouse_right(),
    {
        self.mouse_right_pressed
    }

    pub fn mouse_pos(&self) -> (pos: Option<(u32, u32)>)
        ensures
            pos == self.spec_mouse_pos(),
    {
        self.mouse_pos
    }

    pub fn scroll_pos(&self) -> (scroll: i64)
        ensures
            scroll == self.spec_scroll(),
    {
        self.scroll_pos
    }

    /// The pressed keys in press order, without duplicates.
    pub fn pressed_keys(&self) -> (keys: &Vec<Key>)
        ensures
            keys@ == self.pressed_seq(),
    {
        &self.pressed_list
    }

    /// Record a key press. A repeated press while the key is already held is
    /// a no-op; otherwise the key's bit is set and the key is appended to the
    /// pressed list.
    pub fn press_key(&mut self, key: Key)
        requires
            old(self).wf(),
        ensures
            final(self).wf(),
            press_effect(old(self), final(self), key),
    {
        proof {
            lemma_key_code_bound(key);
        }
        let code = key_code_exec(key);
        if !self.get_bit(code) {
            self.set_bit(code, true);
            self.pressed_list.push(key);
            proof {
                lemma_other_keys_unchanged(old(self).key_state@, self.key_state@, key);
                assert(final(self).wf()) by {
                    let new_list = self.pressed_list@;
                    let old_list = old(self).pressed_list@;
                    assert forall|i: int|
                        0 <= i < new_list.len() implies self.spec_pressed(new_list[i]) by {
                        if i < old_list.len() {
                            if new_list[i] != key {
                            }
                        }
                    }
                    assert forall|i: int, j: int|
                        0 <= i < j < new_list.len() implies new_list[i] != new_list[j] by {
                        if j == new_list.len() - 1 {
                            if new_list[i] == key {
                                assert(old_list.contains(old_list[i]));
                            }
                        }
                    }
                    assert forall|k: Key| self.spec_pressed(k) implies new_list.contains(k) by {
                        if k == key {
                            assert(new_list[new_list.len() - 1] == key);
                        } else {
                            assert(old_list.contains(k) ==> new_list.contains(k)) by {
                                if old_list.contains(k) {
                                    let i = choose|i: int|
                                        0 <= i < old_list.len() && old_list[i] == k;
                                    assert(new_list[i] == k);
                                }
                            }
                        }
                    }
                }
            }
        }
    }

    /// Record a key release. Releasing a key that is not held is a no-op;
    /// otherwise the key's bit is cleared and the key is removed from the
    /// pressed list, keeping the order of the remaining keys.
    pub fn release_key(&mut self, key: Key)
        requires
            old(self).wf(),
        ensures
            final(self).wf(),
            release_effect(old(self), final(self), key),
    {
        proof {
            lemma_key_code_bound(key);
        }
        let code = key_code_exec(key);
        if self.get_bit(code) {
            self.set_bit(code, false);
            self.retain_except(key);
            proof {
                lemma_other_keys_unchanged(old(self).key_state@, self.key_state@, key);
                let new_list = self.pressed_list@;
                let old_list = old(self).pressed_list@;
                assert(final(self).wf()) by {
                    lemma_without_key_props(old_list, key);
                    assert forall|i: int|
                        0 <= i < new_list.len() implies self.spec_pressed(new_list[i]) by {
                        assert(old_list.contains(new_list[i]));
                        let j = choose|j: int|
                            0 <= j < old_list.len() && old_list[j] == new_list[i];
                        assert(old(self).spec_pressed(old_list[j]));
                    }
                    lemma_without_key_distinct(old_list, key);
                    assert forall|k: Key| self.spec_pressed(k) implies new_list.contains(k) by {
                        assert(!code_bit(self.key_state@, key_code(key)));
                        if k == key {
                            assert(false);
                        } else {
                            assert(old(self).spec_pressed(k));
                            assert(old_list.contains(k));
                            let i = choose|i: int| 0 <= i < old_list.len() && old_list[i] == k;
                            assert(old_list[i] != key);
                            assert(without_key(old_list, key).contains(old_list[i]));
                        }
                    }
                }
            }
        } else {
            proof {
                lemma_without_key_absent(old(self).pressed_list@, key);
            }
        }
    }

    /// Forget all pressed keys and mouse state at once (focus loss). The
    /// scroll accumulator is kept.
    pub fn release_all(&mut self)
        ensures
            final(self).wf(),
            clear_effect(old(self), final(self)),
    {
        let mut words: Vec<u64> = Vec::new();
        words.push(0);
        words.push(0);
        words.push(0);
        words.push(0);
        self.key_state = words;
        self.pressed_list = Vec::new();
        self.mouse_left_pressed = false;
        self.mouse_right_pressed = false;
        self.mouse_pos = None;
        proof {
            assert forall|k: Key| !code_bit(self.key_state@, key_code(k)) by {
                lemma_key_code_bound(k);
                let b = (key_code(k) % 64) as u64;
                assert(!word_bit(0u64, b)) by (bit_vector);
            }
        }
    }

    pub fn set_mouse_left_press(&mut self, pressed: bool)
        ensures
            final(self).spec_mouse_left() == pressed,
            final(self).spec_mouse_right() == old(self).spec_mouse_right(),
            final(self).spec_mouse_pos() == old(self).spec_mouse_pos(),
            final(self).spec_scroll() == old(self).spec_scroll(),
            Input::keys_eq(final(self), old(self)),
            old(self).wf() ==> final(self).wf(),
    {
        self.mouse_left_pressed = pressed;
    }

    pub fn set_mouse_right_press(&mut self, pressed: bool)
        ensures
            final(self).spec_mouse_right() == pressed,
            final(self).spec_mouse_left() == old(self).spec_mouse_left(),
            final(self).spec_mouse_pos() == old(self).spec_mouse_pos(),
            final(self).spec_scroll() == old(self).spec_scroll(),
            Input::keys_eq(final(self), old(self)),
            old(self).wf() ==> final(self).wf(),
    {
        self.mouse_right_pressed = pressed;
    }

    pub fn set_mouse_pos(&mut self, pos: Option<(u32, u32)>)
        ensures
            final(self).spec_mouse_pos() == pos,
            final(self).spec_mouse_left() == old(self).spec_mouse_left(),
            final(self).spec_mouse_right() == old(self).spec_mouse_right(),
            final(self).spec_scroll() == old(self).spec_scroll(),
            Input::keys_eq(final(self), old(self)),
            old(self).wf() ==> final(self).wf(),
    {
        self.mouse_pos = pos;
    }

    /// Accumulate a sign-normalized scroll step, saturating at the ends of
    /// the counter's range.
    pub fn add_mouse_scroll(&mut self, delta: i64)
        ensures
            scroll_effect(old(self), final(self), delta),
            old(self).wf() ==> final(self).wf(),
    {
        if delta >= 0 {
            if self.scroll_pos > i64::MAX - delta {
                self.scroll_pos = i64::MAX;
            } else {
                self.scroll_pos = self.scroll_pos + delta;
            }
        } else {
            if self.scroll_pos < i64::MIN - delta {
                self.scroll_pos = i64::MIN;
            } else {
                self.scroll_pos = self.scroll_pos + delta;
            }
        }
    }

    fn get_bit(&self, code: u32) -> (set: bool)
        requires
            self.key_state@.len() == KEY_WORDS,
            code < 64 * KEY_WORDS,
        ensures
            set == code_bit(self.key_state@, code),
    {
        let entry = self.key_state[(code / 64) as usize];
        (entry >> ((code % 64) as u64)) & 1u64 == 1u64
    }

    fn set_bit(&mut self, code: u32, state: bool)
        requires
            old(self).key_state@.len() == KEY_WORDS,
            code < 64 * KEY_WORDS,
        ensures
            final(self).key_state@.len() == KEY_WORDS,
            forall|c2: u32|
                c2 < 64 * KEY_WORDS ==> #[trigger] code_bit(final(self).key_state@, c2) == if c2
                    == code {
                    state
                } else {
                    code_bit(old(self).key_state@, c2)
                },
            final(self).pressed_list == old(self).pressed_list,
            final(self).mouse_pos == old(self).mouse_pos,
            final(self).mouse_left_pressed == old(self).mouse_left_pressed,
            final(self).mouse_right_pressed == old(self).mouse_right_pressed,
            final(self).scroll_pos == old(self).scroll_pos,
    {
        let idx = (code / 64) as usize;
        let bit: u64 = (code % 64) as u64;
        let entry = self.key_state[idx];
        let mask: u64 = 1u64 << bit;
        let updated = if state {
            entry | mask
        } else {
            entry & !mask
        };
        self.key_state.set(idx, updated);
        proof {
            assert(forall|b2: u64|
                b2 < 64 && b2 != bit ==> word_bit(entry | mask, b2) == word_bit(entry, b2)
                    && word_bit(entry & !mask, b2) == word_bit(entry, b2)) by (bit_vector)
                requires
                    mask == 1u64 << bit,
                    bit < 64,
            ;
            assert(word_bit(entry | mask, bit) && !word_bit(entry & !mask, bit)) by (bit_vector)
                requires
                    mask == 1u64 << bit,
                    bit < 64,
            ;
            assert forall|c2: u32|
                c2 < 64 * KEY_WORDS implies #[trigger] code_bit(self.key_state@, c2) == if c2
                == code {
                state
            } else {
                code_bit(old(self).key_state@, c2)
            } by {
                if c2 as int / 64 == idx as int {
                    if c2 != code {
                        assert((c2 % 64) as u64 != bit);
                    }
                }
            }
        }
    }

    /// Remove every occurrence of `key` from the pressed list, keeping the
    /// order of the rest.
    fn retain_except(&mut self, key: Key)
        ensures
            final(self).pressed_list@ == without_key(old(self).pressed_list@, key),
            final(self).key_state == old(self).key_state,
            final(self).mouse_pos == old(self).mouse_pos,
            final(self).mouse_left_pressed == old(self).mouse_left_pressed,
            final(self).mouse_right_pressed == old(self).mouse_right_pressed,
            final(self).scroll_pos == old(self).scroll_pos,
    {
        let mut kept: Vec<Key> = Vec::new();
        let n = self.pressed_list.len();
        let mut i: usize = 0;
        proof {
            assert(old(self).pressed_list@.subrange(0, 0) =~= Seq::<Key>::empty());
            lemma_without_key_empty(key);
        }
        while i < n
            invariant
                n == self.pressed_list@.len(),
                self.pressed_list@ == old(self).pressed_list@,
                i <= n,
                kept@ == without_key(self.pressed_list@.subrange(0, i as int), key),
            decreases n - i,
        {
            let k = self.pressed_list[i];
            proof {
                broadcast use vstd::prelude::Seq::lemma_filter_push;

                assert(self.pressed_list@.subrange(0, i + 1) =~= self.pressed_list@.subrange(
                    0,
                    i as int,
                ).push(self.pressed_list@[i as int]));
            }
            if !(k == key) {
                kept.push(k);
            }
            i += 1;
        }
        proof {
            assert(self.pressed_list@.subrange(0, n as int) =~= self.pressed_list@);
        }
        self.pressed_list = kept;
    }
}

/// Codes other than `key`'s are untouched, so other keys keep their state.
proof fn lemma_other_keys_unchanged(before: Seq<u64>, after: Seq<u64>, key: Key)
    requires
        before.len() == KEY_WORDS,
        after.len() == KEY_WORDS,
        forall|c2: u32|
            c2 < 64 * KEY_WORDS && c2 != key_code(key) ==> #[trigger] code_bit(after, c2)
                == code_bit(before, c2),
    ensures
        forall|k2: Key|
            k2 != key ==> #[trigger] code_bit(after, key_code(k2)) == code_bit(
                before,
                key_code(k2),
            ),
{
    assert forall|k2: Key|
        k2 != key implies #[trigger] code_bit(after, key_code(k2)) == code_bit(
        before,
        key_code(k2),
    ) by {
        lemma_key_code_bound(k2);
        if key_code(k2) == key_code(key) {
            lemma_key_code_injective(k2, key);
        }
    }
}

/// Every element of `without_key(s, key)` is an element of `s` and is not
/// `key`, and conversely every other element of `s` survives.
proof fn lemma_without_key_props(s: Seq<Key>, key: Key)
    ensures
        forall|i: int|
            0 <= i < without_key(s, key).len() ==> s.contains(#[trigger] without_key(s, key)[i])
                && without_key(s, key)[i] != key,
        forall|i: int|
            0 <= i < s.len() && s[i] != key ==> without_key(s, key).contains(#[trigger] s[i]),
    decreases s.len(),
{
    broadcast use vstd::prelude::Seq::lemma_filter_push;

    let out = without_key(s, key);
    if s.len() == 0 {
        lemma_without_key_empty(key);
    } else {
        let rest = s.drop_last();
        let last = s.last();
        lemma_without_key_props(rest, key);
        let out_rest = without_key(rest, key);
        assert(s =~= rest.push(last));
        assert(out == if last != key {
            out_rest.push(last)
        } else {
            out_rest
        });
        assert forall|i: int|
            0 <= i < out.len() implies s.contains(#[trigger] out[i]) && out[i] != key by {
            if last != key && i == out.len() - 1 {
                assert(out[i] == s[s.len() - 1]);
            } else {
                assert(out[i] == out_rest[i]);
                assert(rest.contains(out_rest[i]));
                let m = choose|m: int| 0 <= m < rest.len() && rest[m] == out_rest[i];
                assert(s[m] == out[i]);
            }
        }
        assert forall|i: int|
            0 <= i < s.len() && s[i] != key implies out.contains(#[trigger] s[i]) by {
            if i == s.len() - 1 {
                assert(out[out.len() - 1] == s[i]);
            } else {
                assert(rest[i] == s[i]);
                assert(out_rest.contains(s[i]));
                let m = choose|m: int| 0 <= m < out_rest.len() && out_rest[m] == s[i];
                assert(out[m] == s[i]);
            }
        }
    }
}

/// Removing a key from an empty list yields an empty list.
proof fn lemma_without_key_empty(key: Key)
    ensures
        without_key(Seq::<Key>::empty(), key) == Seq::<Key>::empty(),
{
    reveal(Seq::filter);
}

/// Removing a key from a duplicate-free list keeps it duplicate-free.
proof fn lemma_without_key_distinct(s: Seq<Key>, key: Key)
    requires
        forall|i: int, j: int| 0 <= i < j < s.len() ==> s[i] != s[j],
    ensures
        forall|i: int, j: int|
            0 <= i < j < without_key(s, key).len() ==> without_key(s, key)[i] != without_key(
                s,
                key,
            )[j],
    decreases s.len(),
{
    broadcast use vstd::prelude::Seq::lemma_filter_push;

    if s.len() > 0 {
        let rest = s.drop_last();
        lemma_without_key_distinct(rest, key);
        lemma_without_key_props(rest, key);
        assert(s =~= rest.push(s.last()));
        let out = without_key(s, key);
        let out_rest = without_key(rest, key);
        if s.last() != key {
            assert(out == out_rest.push(s.last()));
            assert forall|i: int, j: int|
                0 <= i < j < out.len() implies out[i] != out[j] by {
                if j == out.len() - 1 {
                    assert(out[j] == s.last());
                    assert(out[i] == out_rest[i]);
                    assert(rest.contains(out_rest[i]));
                    let m = choose|m: int| 0 <= m < rest.len() && rest[m] == out_rest[i];
                    assert(s[m] == rest[m]);
                    assert(s[s.len() - 1] == s.last());
                } else {
                    assert(out[i] == out_rest[i] && out[j] == out_rest[j]);
                }
            }
        } else {
            assert(out == out_rest);
        }
    }
}

/// Removing a key that a list does not contain changes nothing.
proof fn lemma_without_key_absent(s: Seq<Key>, key: Key)
    requires
        !s.contains(key),
    ensures
        without_key(s, key) == s,
    decreases s.len(),
{
    broadcast use vstd::prelude::Seq::lemma_filter_push;

    if s.len() > 0 {
        let rest = s.drop_last();
        assert forall|i: int| 0 <= i < rest.len() implies rest[i] != key by {
            assert(s[i] == rest[i]);
        }
        assert(!rest.contains(key));
        lemma_without_key_absent(rest, key);
        assert(s =~= rest.push(s.last()));
        assert(s[s.len() - 1] != key);
        assert(without_key(s, key) =~= s);
    } else {
        lemma_without_key_empty(key);
        assert(s =~= Seq::<Key>::empty());
    }
}

} // verus!

