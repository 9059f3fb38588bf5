use vstd::prelude::*;
use crate::mods::{Mods, EventModifiers};
use crate::text::{push_chars, string_from_chars};

verus! {

/// Whether `c` is an ASCII capital letter.
pub open spec fn is_upper_spec(c: char) -> bool {
    65 <= (c as u32) <= 90
}

/// Whether `c` is an ASCII small letter.
pub open spec fn is_lower_spec(c: char) -> bool {
    97 <= (c as u32) <= 122
}

/// `c` with an ASCII capital letter made small.
pub open spec fn to_lower_spec(c: char) -> char {
    if is_upper_spec(c) {
        ((c as u32) + 32) as char
    } else {
        c
    }
}

/// `c` with an ASCII small letter made capital.
pub open spec fn to_upper_spec(c: char) -> char {
    if is_lower_spec(c) {
        ((c as u32) - 32) as char
    } else {
        c
    }
}

pub fn ascii_lowercase(c: char) -> (r: char)
    ensures
        r == to_lower_spec(c),
{
    if 'A' <= c && c <= 'Z' {
        let b: u8 = c as u8;
        (b + 32) as char
    } else {
        c
    }
}

pub fn ascii_uppercase(c: char) -> (r: char)
    ensures
        r == to_upper_spec(c),
{
    if 'a' <= c && c <= 'z' {
        let b: u8 = c as u8;
        (b - 32) as char
    } else {
        c
    }
}


/// Whether `c` is an ASCII letter.
pub open spec fn is_alpha_spec(c: char) -> bool {
    is_upper_spec(c) || is_lower_spec(c)
}

/// What a key is, apart from its modifiers.
#[derive(Debug, Clone, Copy, PartialEq, Eq, Hash, Structural)]
pub enum Code {
    Char(char),
    Esc,
    Enter,
    Tab,
    Backspace,
    Delete,
    Insert,
    Home,
    End,
    PageUp,
    PageDown,
    Up,
    Down,
    Left,
    Right,
    F(u8),
}

/// A key together with the modifiers held with it.
#[derive(Debug, Clone, Copy, PartialEq, Eq, Hash, Structural)]
pub struct Key {
    pub code: Code,
    pub modifiers: Mods,
}

/// The key codes that a terminal reports.
#[derive(Debug, Clone, Copy, PartialEq, Eq, Hash, Structural)]
pub enum KeyCode {
    Char(char),
    Esc,
    Enter,
    Tab,
    BackTab,
    Backspace,
    Delete,
    Insert,
    Home,
    End,
    PageUp,
    PageDown,
    Up,
    Down,
    Left,
    Right,
    F(u8),
    /// A code that no key names (media keys, lock keys and the like).
    Other,
}

/// Whether a key went down, repeats, or went up.
#[derive(Debug, Clone, Copy, PartialEq, Eq, Hash, Structural)]
pub enum KeyEventKind {
    Press,
    Repeat,
    Release,
}

/// A key event as the terminal reports it.
#[derive(Debug, Clone, Copy, PartialEq, Eq, Hash, Structural)]
pub struct KeyEvent {
    pub code: KeyCode,
    pub modifiers: EventModifiers,
    pub kind: KeyEventKind,
}

/// A key with an ASCII capital letter made small with Shift added, and Shift
/// dropped from a character that is no letter.
pub open spec fn normalize_spec(k: Key) -> Key {
    match k.code {
        Code::Char(c) => if is_upper_spec(c) {
            Key { code: Code::Char(to_lower_spec(c)), modifiers: Mods(k.modifiers.0 | 4) }
        } else if !is_alpha_spec(c) {
            Key { code: k.code, modifiers: Mods(k.modifiers.0 & !4u8) }
        } else {
            k
        },
        _ => k,
    }
}

/// `k` with `m` added, then normalized.
pub open spec fn modified_spec(k: Key, m: Mods) -> Key {
    normalize_spec(Key { code: k.code, modifiers: Mods(k.modifiers.0 | m.0) })
}

/// The key that a character names.
pub open spec fn key_from_char_spec(c: char) -> Key {
    normalize_spec(Key { code: Code::Char(c), modifiers: Mods(0) })
}

/// The character of a decimal digit.
pub open spec fn digit_spec(d: int) -> char {
    (48 + d) as char
}

/// `n` written in decimal.
pub open spec fn decimal_spec(n: u8) -> Seq<char> {
    if n < 10 {
        seq![digit_spec(n as int)]
    } else if n < 100 {
        seq![digit_spec((n / 10) as int), digit_spec((n % 10) as int)]
    } else {
        seq![digit_spec((n / 100) as int), digit_spec(((n / 10) % 10) as int), digit_spec((n % 10) as int)]
    }
}

/// The name of a key, without its modifiers.
pub open spec fn base_label_spec(k: Key) -> Seq<char> {
    match k.code {
        Code::Char(c) => if c == ' ' {
            seq!['S', 'p', 'a', 'c', 'e']
        } else if k.modifiers.0 == 0 {
            seq![c]
        } else {
            seq![to_upper_spec(c)]
        },
        Code::Esc => seq!['E', 's', 'c'],
        Code::Enter => seq!['E', 'n', 't', 'e', 'r'],
        Code::Tab => seq!['T', 'a', 'b'],
        Code::Backspace => seq!['B', 'a', 'c', 'k', 's', 'p', 'a', 'c', 'e'],
        Code::Delete => seq!['D', 'e', 'l', 'e', 't', 'e'],
        Code::Insert => seq!['I', 'n', 's', 'e', 'r', 't'],
        Code::Home => seq!['H', 'o', 'm', 'e'],
        Code::End => seq!['E', 'n', 'd'],
        Code::PageUp => seq!['P', 'a', 'g', 'e', 'U', 'p'],
        Code::PageDown => seq!['P', 'a', 'g', 'e', 'D', 'o', 'w', 'n'],
        Code::Up => seq!['U', 'p'],
        Code::Down => seq!['D', 'o', 'w', 'n'],
        Code::Left => seq!['L', 'e', 'f', 't'],
        Code::Right => seq!['R', 'i', 'g', 'h', 't'],
        Code::F(n) => seq!['F'] + decimal_spec(n),
    }
}

/// The label of a key: its held modifiers among Ctrl, Alt and Shift, in that
/// order, each followed by `+`, then its name.
pub open spec fn label_spec(k: Key) -> Seq<char> {
    if k.modifiers.0 == 0 {
        base_label_spec(k)
    } else {
        (if k.modifiers.contains_spec(Mods(1)) { seq!['C', 't', 'r', 'l', '+'] } else { Seq::empty() })
            + (if k.modifiers.contains_spec(Mods(2)) { seq!['A', 'l', 't', '+'] } else { Seq::empty() })
            + (if k.modifiers.contains_spec(Mods(4)) { seq!['S', 'h', 'i', 'f', 't', '+'] } else { Seq::empty() })
            + base_label_spec(k)
    }
}

/// The key that a terminal event names, if any key does.
pub open spec fn from_event_spec(event: KeyEvent) -> Option<Key> {
    match Mods::from_modifiers_spec(event.modifiers) {
        None => None,
        Some(m) => match event.code {
            KeyCode::Char(c) => Some(normalize_spec(Key { code: Code::Char(c), modifiers: m })),
            KeyCode::Esc => Some(Key { code: Code::Esc, modifiers: m }),
            KeyCode::Enter => Some(Key { code: Code::Enter, modifiers: m }),
            KeyCode::Tab => Some(Key { code: Code::Tab, modifiers: m }),
            KeyCode::BackTab => Some(Key { code: Code::Tab, modifiers: Mods(m.0 | 4) }),
            KeyCode::Backspace => Some(Key { code: Code::Backspace, modifiers: m }),
            KeyCode::Delete => Some(Key { code: Code::Delete, modifiers: m }),
            KeyCode::Insert => Some(Key { code: Code::Insert, modifiers: m }),
            KeyCode::Home => Some(Key { code: Code::Home, modifiers: m }),
            KeyCode::End => Some(Key { code: Code::End, modifiers: m }),
            KeyCode::PageUp => Some(Key { code: Code::PageUp, modifiers: m }),
            KeyCode::PageDown => Some(Key { code: Code::PageDown, modifiers: m }),
            KeyCode::Up => Some(Key { code: Code::Up, modifiers: m }),
            KeyCode::Down => Some(Key { code: Code::Down, modifiers: m }),
            KeyCode::Left => Some(Key { code: Code::Left, modifiers: m }),
            KeyCode::Right => Some(Key { code: Code::Right, modifiers: m }),
            KeyCode::F(n) => Some(Key { code: Code::F(n), modifiers: m }),
            KeyCode::Other => None,
        },
    }
}

/// Normalizing a key twice is normalizing it once.
pub proof fn law_normalize_idempotent(k: Key)
    ensures
        normalize_spec(normalize_spec(k)) == normalize_spec(k),
{
    let m = k.modifiers.0;
    assert((m & !4u8) & !4u8 == m & !4u8) by (bit_vector);
    if let Code::Char(c) = k.code {
        if is_upper_spec(c) {
            let l = to_lower_spec(c);
            assert((l as u32) == (c as u32) + 32);
            assert(is_lower_spec(l) && !is_upper_spec(l));
        }
    }
}

/// A capital letter names the same key as its small letter with Shift.
pub proof fn law_capital_is_shifted_small(c: char)
    requires
        is_lower_spec(c),
    ensures
        key_from_char_spec(to_upper_spec(c)) == modified_spec(key_from_char_spec(c), Mods(4)),
{
    let u = to_upper_spec(c);
    assert((u as u32) == (c as u32) - 32);
    assert(is_upper_spec(u));
    assert((to_lower_spec(u) as u32) == (c as u32));
    assert(to_lower_spec(u) == c);
    assert(0u8 | 4u8 == 4u8) by (bit_vector);
}

/// Shift is dropped from a character that is no letter: it names the same
/// key with Shift as without.
pub proof fn law_shift_dropped_from_symbols(c: char)
    requires
        !is_alpha_spec(c),
    ensures
        modified_spec(key_from_char_spec(c), Mods(4)) == key_from_char_spec(c),
{
    assert(((0u8 & !4u8) | 4u8) & !4u8 == 0u8 & !4u8) by (bit_vector);
}

/// A terminal event keeps its key code: an event of a named key with
/// modifiers that keys can name gives that key with those modifiers (Left
/// gives Left, Up gives Up, and so on); BackTab gives Tab with Shift; a
/// character gives its normalized key; a code that no key names, or a
/// modifier that keys cannot name, gives none.
pub proof fn law_from_event_keeps_code(event: KeyEvent)
    ensures
        Mods::from_modifiers_spec(event.modifiers) is None ==> from_event_spec(event) is None,
        event.code == KeyCode::Other ==> from_event_spec(event) is None,
        Mods::from_modifiers_spec(event.modifiers) matches Some(m) ==> {
            &&& event.code == KeyCode::Esc ==> from_event_spec(event) == Some(Key { code: Code::Esc, modifiers: m })
            &&& event.code == KeyCode::Enter ==> from_event_spec(event) == Some(Key { code: Code::Enter, modifiers: m })
            &&& event.code == KeyCode::Tab ==> from_event_spec(event) == Some(Key { code: Code::Tab, modifiers: m })
            &&& event.code == KeyCode::BackTab ==> from_event_spec(event) == Some(Key { code: Code::Tab, modifiers: Mods(m.0 | 4) })
            &&& event.code == KeyCode::Backspace ==> from_event_spec(event) == Some(Key { code: Code::Backspace, modifiers: m })
            &&& event.code == KeyCode::Delete ==> from_event_spec(event) == Some(Key { code: Code::Delete, modifiers: m })
            &&& event.code == KeyCode::Insert ==> from_event_spec(event) == Some(Key { code: Code::Insert, modifiers: m })
            &&& event.code == KeyCode::Home ==> from_event_spec(event) == Some(Key { code: Code::Home, modifiers: m })
            &&& event.code == KeyCode::End ==> from_event_spec(event) == Some(Key { code: Code::End, modifiers: m })
            &&& event.code == KeyCode::PageUp ==> from_event_spec(event) == Some(Key { code: Code::PageUp, modifiers: m })
            &&& event.code == KeyCode::PageDown ==> from_event_spec(event) == Some(Key { code: Code::PageDown, modifiers: m })
            &&& event.code == KeyCode::Up ==> from_event_spec(event) == Some(Key { code: Code::Up, modifiers: m })
            &&& event.code == KeyCode::Down ==> from_event_spec(event) == Some(Key { code: Code::Down, modifiers: m })
            &&& event.code == KeyCode::Left ==> from_event_spec(event) == Some(Key { code: Code::Left, modifiers: m })
            &&& event.code == KeyCode::Right ==> from_event_spec(event) == Some(Key { code: Code::Right, modifiers: m })
            &&& event.code matches KeyCode::F(n) ==> from_event_spec(event) == Some(Key { code: Code::F(n), modifiers: m })
            &&& event.code matches KeyCode::Char(c) ==> from_event_spec(event) == Some(normalize_spec(Key { code: Code::Char(c), modifiers: m }))
        },
{
}

/// The modifiers an event holds become the key's: Ctrl, Alt and Shift as
/// they were held, and no other.
pub proof fn law_from_event_modifiers(event: KeyEvent)
    requires
        !event.modifiers.other,
        !(event.code is Char),
        event.code != KeyCode::BackTab,
        event.code != KeyCode::Other,
    ensures
        from_event_spec(event) matches Some(k) && {
            &&& k.modifiers.contains_spec(Mods(1)) == event.modifiers.control
            &&& k.modifiers.contains_spec(Mods(2)) == event.modifiers.alt
            &&& k.modifiers.contains_spec(Mods(4)) == event.modifiers.shift
            &&& k.modifiers.0 & !7u8 == 0
        },
{
    let c: u8 = if event.modifiers.control { 1u8 } else { 0u8 };
    let a: u8 = if event.modifiers.alt { 2u8 } else { 0u8 };
    let s: u8 = if event.modifiers.shift { 4u8 } else { 0u8 };
    let b: u8 = (c | a) | s;
    assert((c == 0 || c == 1) && (a == 0 || a == 2) && (s == 0 || s == 4) ==> {
        &&& ((b & 1u8) == 1u8) == (c == 1)
        &&& ((b & 2u8) == 2u8) == (a == 2)
        &&& ((b & 4u8) == 4u8) == (s == 4)
        &&& b & !7u8 == 0
    }) by (bit_vector)
        requires
            b == (c | a) | s,
    ;
}

/// `s` ends with `t`.
pub open spec fn ends_with(s: Seq<char>, t: Seq<char>) -> bool {
    s.len() >= t.len() && s.subrange(s.len() - t.len(), s.len() as int) == t
}

/// The value of a string of decimal digits.
pub open spec fn decimal_value(s: Seq<char>) -> int
    decreases s.len(),
{
    if s.len() == 0 {
        0
    } else {
        decimal_value(s.drop_last()) * 10 + ((s.last() as u32) - 48)
    }
}

/// `decimal_spec(n)` writes `n` in decimal: digits only, with no leading
/// zero, whose value is `n`.
pub proof fn law_decimal_writes_value(n: u8)
    ensures
        1 <= decimal_spec(n).len() <= 3,
        forall|i: int| 0 <= i < decimal_spec(n).len() ==> 48 <= (#[trigger] decimal_spec(n)[i] as u32) <= 57,
        decimal_spec(n).len() > 1 ==> decimal_spec(n)[0] != '0',
        decimal_value(decimal_spec(n)) == n,
{
    let d = decimal_spec(n);
    lemma_digit((n % 10) as int);
    if n < 10 {
        assert(d.drop_last().len() == 0);
        assert(decimal_value(d) == decimal_value(d.drop_last()) * 10 + ((d.last() as u32) - 48));
    } else if n < 100 {
        lemma_digit((n / 10) as int);
        let d1 = d.drop_last();
        assert(d1 =~= seq![digit_spec((n / 10) as int)]);
        assert(d1.drop_last().len() == 0);
        assert(decimal_value(d1) == decimal_value(d1.drop_last()) * 10 + ((d1.last() as u32) - 48));
        assert(decimal_value(d) == decimal_value(d1) * 10 + ((d.last() as u32) - 48));
        assert(n == (n / 10) * 10 + n % 10);
    } else {
        lemma_digit((n / 100) as int);
        lemma_digit(((n / 10) % 10) as int);
        let d1 = d.drop_last();
        let d2 = d1.drop_last();
        assert(d1 =~= seq![digit_spec((n / 100) as int), digit_spec(((n / 10) % 10) as int)]);
        assert(d2 =~= seq![digit_spec((n / 100) as int)]);
        assert(d2.drop_last().len() == 0);
        assert(decimal_value(d2) == decimal_value(d2.drop_last()) * 10 + ((d2.last() as u32) - 48));
        assert(decimal_value(d1) == decimal_value(d2) * 10 + ((d1.last() as u32) - 48));
        assert(decimal_value(d) == decimal_value(d1) * 10 + ((d.last() as u32) - 48));
        assert(n == (n / 10) * 10 + n % 10);
        assert(n / 10 == (n / 100) * 10 + (n / 10) % 10);
    }
}

/// The character of a decimal digit is the digit's ASCII code.
proof fn lemma_digit(x: int)
    requires
        0 <= x < 10,
    ensures
        digit_spec(x) as u32 == 48 + x,
        48 <= digit_spec(x) as u32 <= 57,
{
}

/// The label of a key ends with the key's name.
proof fn lemma_label_ends_with_name(k: Key)
    ensures
        ends_with(label_spec(k), base_label_spec(k)),
{
    let b = base_label_spec(k);
    if k.modifiers.0 != 0 {
        let pre = (if k.modifiers.contains_spec(Mods(1)) { seq!['C', 't', 'r', 'l', '+'] } else { Seq::empty() })
            + (if k.modifiers.contains_spec(Mods(2)) { seq!['A', 'l', 't', '+'] } else { Seq::empty() })
            + (if k.modifiers.contains_spec(Mods(4)) { seq!['S', 'h', 'i', 'f', 't', '+'] } else { Seq::empty() });
        assert(label_spec(k) == pre + b);
        assert((pre + b).subrange(pre.len() as int, (pre + b).len() as int) =~= b);
    } else {
        assert(label_spec(k).subrange(0, b.len() as int) =~= b);
    }
}

/// Each named key is labelled by its name, after whatever modifiers are
/// held with it: `Up` for Up, `Down` for Down, `Left` for Left, and so on,
/// and `F` with the number in decimal for a function key; held without
/// modifiers, the label is the name alone.
pub proof fn law_key_label_names(m: Mods, n: u8)
    ensures
        ends_with(label_spec(Key { code: Code::Esc, modifiers: m }), seq!['E', 's', 'c']),
        ends_with(label_spec(Key { code: Code::Enter, modifiers: m }), seq!['E', 'n', 't', 'e', 'r']),
        ends_with(label_spec(Key { code: Code::Tab, modifiers: m }), seq!['T', 'a', 'b']),
        ends_with(label_spec(Key { code: Code::Backspace, modifiers: m }), seq!['B', 'a', 'c', 'k', 's', 'p', 'a', 'c', 'e']),
        ends_with(label_spec(Key { code: Code::Delete, modifiers: m }), seq!['D', 'e', 'l', 'e', 't', 'e']),
        ends_with(label_spec(Key { code: Code::Insert, modifiers: m }), seq!['I', 'n', 's', 'e', 'r', 't']),
        ends_with(label_spec(Key { code: Code::Home, modifiers: m }), seq!['H', 'o', 'm', 'e']),
        ends_with(label_spec(Key { code: Code::End, modifiers: m }), seq!['E', 'n', 'd']),
        ends_with(label_spec(Key { code: Code::PageUp, modifiers: m }), seq!['P', 'a', 'g', 'e', 'U', 'p']),
        ends_with(label_spec(Key { code: Code::PageDown, modifiers: m }), seq!['P', 'a', 'g', 'e', 'D', 'o', 'w', 'n']),
        ends_with(label_spec(Key { code: Code::Up, modifiers: m }), seq!['U', 'p']),
        ends_with(label_spec(Key { code: Code::Down, modifiers: m }), seq!['D', 'o', 'w', 'n']),
        ends_with(label_spec(Key { code: Code::Left, modifiers: m }), seq!['L', 'e', 'f', 't']),
        ends_with(label_spec(Key { code: Code::Right, modifiers: m }), seq!['R', 'i', 'g', 'h', 't']),
        ends_with(label_spec(Key { code: Code::F(n), modifiers: m }), seq!['F'] + decimal_spec(n)),
        ends_with(label_spec(Key { code: Code::Char(' '), modifiers: m }), seq!['S', 'p', 'a', 'c', 'e']),
        m.0 == 0 ==> {
            &&& label_spec(Key { code: Code::Esc, modifiers: m }) == seq!['E', 's', 'c']
            &&& label_spec(Key { code: Code::Enter, modifiers: m }) == seq!['E', 'n', 't', 'e', 'r']
            &&& label_spec(Key { code: Code::Tab, modifiers: m }) == seq!['T', 'a', 'b']
            &&& label_spec(Key { code: Code::Backspace, modifiers: m }) == seq!['B', 'a', 'c', 'k', 's', 'p', 'a', 'c', 'e']
            &&& label_spec(Key { code: Code::Delete, modifiers: m }) == seq!['D', 'e', 'l', 'e', 't', 'e']
            &&& label_spec(Key { code: Code::Insert, modifiers: m }) == seq!['I', 'n', 's', 'e', 'r', 't']
            &&& label_spec(Key { code: Code::Home, modifiers: m }) == seq!['H', 'o', 'm', 'e']
            &&& label_spec(Key { code: Code::End, modifiers: m }) == seq!['E', 'n', 'd']
            &&& label_spec(Key { code: Code::PageUp, modifiers: m }) == seq!['P', 'a', 'g', 'e', 'U', 'p']
            &&& label_spec(Key { code: Code::PageDown, modifiers: m }) == seq!['P', 'a', 'g', 'e', 'D', 'o', 'w', 'n']
            &&& label_spec(Key { code: Code::Up, modifiers: m }) == seq!['U', 'p']
            &&& label_spec(Key { code: Code::Down, modifiers: m }) == seq!['D', 'o', 'w', 'n']
            &&& label_spec(Key { code: Code::Left, modifiers: m }) == seq!['L', 'e', 'f', 't']
            &&& label_spec(Key { code: Code::Right, modifiers: m }) == seq!['R', 'i', 'g', 'h', 't']
            &&& label_spec(Key { code: Code::F(n), modifiers: m }) == seq!['F'] + decimal_spec(n)
        },
{
    assert(ends_with(label_spec(Key { code: Code::Esc, modifiers: m }), base_label_spec(Key { code: Code::Esc, modifiers: m }))) by {
        lemma_label_ends_with_name(Key { code: Code::Esc, modifiers: m });
    }
    assert(ends_with(label_spec(Key { code: Code::Enter, modifiers: m }), base_label_spec(Key { code: Code::Enter, modifiers: m }))) by {
        lemma_label_ends_with_name(Key { code: Code::Enter, modifiers: m });
    }
    assert(ends_with(label_spec(Key { code: Code::Tab, modifiers: m }), base_label_spec(Key { code: Code::Tab, modifiers: m }))) by {
        lemma_label_ends_with_name(Key { code: Code::Tab, modifiers: m });
    }
    assert(ends_with(label_spec(Key { code: Code::Backspace, modifiers: m }), base_label_spec(Key { code: Code::Backspace, modifiers: m }))) by {
        lemma_label_ends_with_name(Key { code: Code::Backspace, modifiers: m });
    }
    assert(ends_with(label_spec(Key { code: Code::Delete, modifiers: m }), base_label_spec(Key { code: Code::Delete, modifiers: m }))) by {
        lemma_label_ends_with_name(Key { code: Code::Delete, modifiers: m });
    }
    assert(ends_with(label_spec(Key { code: Code::Insert, modifiers: m }), base_label_spec(Key { code: Code::Insert, modifiers: m }))) by {
        lemma_label_ends_with_name(Key { code: Code::Insert, modifiers: m });
    }
    assert(ends_with(label_spec(Key { code: Code::Home, modifiers: m }), base_label_spec(Key { code: Code::Home, modifiers: m }))) by {
        lemma_label_ends_with_name(Key { code: Code::Home, modifiers: m });
    }
    assert(ends_with(label_spec(Key { code: Code::End, modifiers: m }), base_label_spec(Key { code: Code::End, modifiers: m }))) by {
        lemma_label_ends_with_name(Key { code: Code::End, modifiers: m });
    }
    assert(ends_with(label_spec(Key { code: Code::PageUp, modifiers: m }), base_label_spec(Key { code: Code::PageUp, modifiers: m }))) by {
        lemma_label_ends_with_name(Key { code: Code::PageUp, modifiers: m });
    }
    assert(ends_with(label_spec(Key { code: Code::PageDown, modifiers: m }), base_label_spec(Key { code: Code::PageDown, modifiers: m }))) by {
        lemma_label_ends_with_name(Key { code: Code::PageDown, modifiers: m });
    }
    assert(ends_with(label_spec(Key { code: Code::Up, modifiers: m }), base_label_spec(Key { code: Code::Up, modifiers: m }))) by {
        lemma_label_ends_with_name(Key { code: Code::Up, modifiers: m });
    }
    assert(ends_with(label_spec(Key { code: Code::Down, modifiers: m }), base_label_spec(Key { code: Code::Down, modifiers: m }))) by {
        lemma_label_ends_with_name(Key { code: Code::Down, modifiers: m });
    }
    assert(ends_with(label_spec(Key { code: Code::Left, modifiers: m }), base_label_spec(Key { code: Code::Left, modifiers: m }))) by {
        lemma_label_ends_with_name(Key { code: Code::Left, modifiers: m });
    }
    assert(ends_with(label_spec(Key { code: Code::Right, modifiers: m }), base_label_spec(Key { code: Code::Right, modifiers: m }))) by {
        lemma_label_ends_with_name(Key { code: Code::Right, modifiers: m });
    }
    assert(ends_with(label_spec(Key { code: Code::F(n), modifiers: m }), base_label_spec(Key { code: Code::F(n), modifiers: m }))) by {
        lemma_label_ends_with_name(Key { code: Code::F(n), modifiers: m });
    }
    assert(ends_with(label_spec(Key { code: Code::Char(' '), modifiers: m }), base_label_spec(Key { code: Code::Char(' '), modifiers: m }))) by {
        lemma_label_ends_with_name(Key { code: Code::Char(' '), modifiers: m });
    }
}

/// Held modifiers come first in a key's label, in the order Ctrl, Alt,
/// Shift: with all three held, the label is `Ctrl+Alt+Shift+` and the name.
pub proof fn law_label_modifier_order(k: Key)
    requires
        k.modifiers.0 == 7,
    ensures
        label_spec(k) == seq!['C', 't', 'r', 'l', '+', 'A', 'l', 't', '+', 'S', 'h', 'i', 'f', 't', '+'] + base_label_spec(k),
{
    assert(7u8 & 1u8 == 1u8 && 7u8 & 2u8 == 2u8 && 7u8 & 4u8 == 4u8) by (bit_vector);
    assert(seq!['C', 't', 'r', 'l', '+'] + seq!['A', 'l', 't', '+'] + seq!['S', 'h', 'i', 'f', 't', '+']
        =~= seq!['C', 't', 'r', 'l', '+', 'A', 'l', 't', '+', 'S', 'h', 'i', 'f', 't', '+']);
}

/// A named key reported with Ctrl, Alt or Shift held is labelled with them,
/// as `Ctrl+`, `Alt+` and `Shift+` in that order, before its name.
pub proof fn law_event_label_shows_held_modifiers(event: KeyEvent)
    requires
        !event.modifiers.other,
        !(event.code is Char),
        event.code != KeyCode::BackTab,
        event.code != KeyCode::Other,
    ensures
        from_event_spec(event) matches Some(k) && label_spec(k)
            == (if event.modifiers.control { seq!['C', 't', 'r', 'l', '+'] } else { Seq::empty() })
            + (if event.modifiers.alt { seq!['A', 'l', 't', '+'] } else { Seq::empty() })
            + (if event.modifiers.shift { seq!['S', 'h', 'i', 'f', 't', '+'] } else { Seq::empty() })
            + base_label_spec(k),
{
    law_from_event_modifiers(event);
    let k = from_event_spec(event).unwrap();
    let x = k.modifiers.0;
    assert(x == 0 ==> (x & 1u8) != 1u8 && (x & 2u8) != 2u8 && (x & 4u8) != 4u8) by (bit_vector);
    let pre = (if event.modifiers.control { seq!['C', 't', 'r', 'l', '+'] } else { Seq::<char>::empty() })
        + (if event.modifiers.alt { seq!['A', 'l', 't', '+'] } else { Seq::<char>::empty() })
        + (if event.modifiers.shift { seq!['S', 'h', 'i', 'f', 't', '+'] } else { Seq::<char>::empty() });
    if x == 0 {
        assert(pre =~= Seq::<char>::empty());
        assert(label_spec(k) =~= pre + base_label_spec(k));
    }
}

/// Text input: a typed character or pasted text.
#[derive(Debug, Clone, PartialEq, Eq)]
pub enum Text {
    Char(char),
    Paste(String),
}

/// The character that a key event types: none with Ctrl or Alt held.
pub open spec fn char_from_event_spec(event: KeyEvent) -> Option<char> {
    if event.modifiers.control || event.modifiers.alt {
        None
    } else {
        match event.code {
            KeyCode::Char(c) => Some(c),
            _ => None,
        }
    }
}

pub fn char_from_event(event: &KeyEvent) -> (r: Option<char>)
    ensures
        r == char_from_event_spec(*event),
{
    if event.modifiers.control || event.modifiers.alt {
        return None;
    }
    match event.code {
        KeyCode::Char(c) => Some(c),
        _ => None,
    }
}

fn digit(d: u8) -> (r: char)
    requires
        d < 10,
    ensures
        r == digit_spec(d as int),
{
    (48u8 + d) as char
}

impl Key {
    pub fn esc() -> (r: Key)
        ensures
            r == (Key { code: Code::Esc, modifiers: Mods(0) }),
    {
        Self::plain(Code::Esc)
    }

    pub fn enter() -> (r: Key)
        ensures
            r == (Key { code: Code::Enter, modifiers: Mods(0) }),
    {
        Self::plain(Code::Enter)
    }

    pub fn tab() -> (r: Key)
        ensures
            r == (Key { code: Code::Tab, modifiers: Mods(0) }),
    {
        Self::plain(Code::Tab)
    }

    /// Tab with Shift, which terminals report as a key of its own.
    pub fn backtab() -> (r: Key)
        ensures
            r == (Key { code: Code::Tab, modifiers: Mods(4) }),
    {
        Self::modified_code(Code::Tab, Mods::shift())
    }

    pub fn backspace() -> (r: Key)
        ensures
            r == (Key { code: Code::Backspace, modifiers: Mods(0) }),
    {
        Self::plain(Code::Backspace)
    }

    pub fn delete() -> (r: Key)
        ensures
            r == (Key { code: Code::Delete, modifiers: Mods(0) }),
    {
        Self::plain(Code::Delete)
    }

    pub fn insert() -> (r: Key)
        ensures
            r == (Key { code: Code::Insert, modifiers: Mods(0) }),
    {
        Self::plain(Code::Insert)
    }

    pub fn home() -> (r: Key)
        ensures
            r == (Key { code: Code::Home, modifiers: Mods(0) }),
    {
        Self::plain(Code::Home)
    }

    pub fn end() -> (r: Key)
        ensures
            r == (Key { code: Code::End, modifiers: Mods(0) }),
    {
        Self::plain(Code::End)
    }

    pub fn page_up() -> (r: Key)
        ensures
            r == (Key { code: Code::PageUp, modifiers: Mods(0) }),
    {
        Self::plain(Code::PageUp)
    }

    pub fn page_down() -> (r: Key)
        ensures
            r == (Key { code: Code::PageDown, modifiers: Mods(0) }),
    {
        Self::plain(Code::PageDown)
    }

    pub fn up() -> (r: Key)
        ensures
            r == (Key { code: Code::Up, modifiers: Mods(0) }),
    {
        Self::plain(Code::Up)
    }

    pub fn down() -> (r: Key)
        ensures
            r == (Key { code: Code::Down, modifiers: Mods(0) }),
    {
        Self::plain(Code::Down)
    }

    pub fn left() -> (r: Key)
        ensures
            r == (Key { code: Code::Left, modifiers: Mods(0) }),
    {
        Self::plain(Code::Left)
    }

    pub fn right() -> (r: Key)
        ensures
            r == (Key { code: Code::Right, modifiers: Mods(0) }),
    {
        Self::plain(Code::Right)
    }

    /// The function key `F<n>`.
    pub fn f(n: u8) -> (r: Key)
        ensures
            r == (Key { code: Code::F(n), modifiers: Mods(0) }),
    {
        Self::plain(Code::F(n))
    }

    /// `c`, made small if it is an ASCII capital, with Ctrl.
    pub fn ctrl(c: char) -> (r: Key)
        ensures
            r == (Key { code: Code::Char(to_lower_spec(c)), modifiers: Mods(1) }),
    {
        Self::modified_code(Code::Char(ascii_lowercase(c)), Mods::ctrl())
    }

    /// `c`, made small if it is an ASCII capital, with Alt.
    pub fn alt(c: char) -> (r: Key)
        ensures
            r == (Key { code: Code::Char(to_lower_spec(c)), modifiers: Mods(2) }),
    {
        Self::modified_code(Code::Char(ascii_lowercase(c)), Mods::alt())
    }

    pub fn shift(key: Key) -> (r: Key)
        ensures
            r == modified_spec(key, Mods(4)),
    {
        Self::modified(key, Mods::shift())
    }

    /// `key` with `modifiers` added, normalized.
    pub fn modified(key: Key, modifiers: Mods) -> (r: Key)
        ensures
            r == modified_spec(key, modifiers),
    {
        let mut key = key;
        key.modifiers.bitor_assign(modifiers);
        key.normalize()
    }

    pub fn with_ctrl(self) -> (r: Key)
        ensures
            r == modified_spec(self, Mods(1)),
    {
        Self::modified(self, Mods::ctrl())
    }

    pub fn with_alt(self) -> (r: Key)
        ensures
            r == modified_spec(self, Mods(2)),
    {
        Self::modified(self, Mods::alt())
    }

    pub fn with_shift(self) -> (r: Key)
        ensures
            r == modified_spec(self, Mods(4)),
    {
        Self::modified(self, Mods::shift())
    }

    pub fn modifiers(self) -> (r: Mods)
        ensures
            r == self.modifiers,
    {
        self.modifiers
    }

    /// The key that a terminal event names; `None` where it holds a modifier
    /// other than Ctrl, Alt and Shift, or a code that no key names.
    pub fn from_event(event: KeyEvent) -> (r: Option<Key>)
        ensures
            r == from_event_spec(event),
    {
        let modifiers = match Mods::from_modifiers(event.modifiers) {
            Some(m) => m,
            None => return None,
        };
        match event.code {
            KeyCode::Char(c) => Some(Self::modified_code(Code::Char(c), modifiers).normalize()),
            KeyCode::Esc => Some(Self::modified_code(Code::Esc, modifiers)),
            KeyCode::Enter => Some(Self::modified_code(Code::Enter, modifiers)),
            KeyCode::Tab => Some(Self::modified_code(Code::Tab, modifiers)),
            KeyCode::BackTab => Some(Self::modified_code(Code::Tab, modifiers.bitor(Mods::shift()))),
            KeyCode::Backspace => Some(Self::modified_code(Code::Backspace, modifiers)),
            KeyCode::Delete => Some(Self::modified_code(Code::Delete, modifiers)),
            KeyCode::Insert => Some(Self::modified_code(Code::Insert, modifiers)),
            KeyCode::Home => Some(Self::modified_code(Code::Home, modifiers)),
            KeyCode::End => Some(Self::modified_code(Code::End, modifiers)),
            KeyCode::PageUp => Some(Self::modified_code(Code::PageUp, modifiers)),
            KeyCode::PageDown => Some(Self::modified_code(Code::PageDown, modifiers)),
            KeyCode::Up => Some(Self::modified_code(Code::Up, modifiers)),
            KeyCode::Down => Some(Self::modified_code(Code::Down, modifiers)),
            KeyCode::Left => Some(Self::modified_code(Code::Left, modifiers)),
            KeyCode::Right => Some(Self::modified_code(Code::Right, modifiers)),
            KeyCode::F(n) => Some(Self::modified_code(Code::F(n), modifiers)),
            KeyCode::Other => None,
        }
    }

    /// Appends the name of the key, without its modifiers, to `out`.
    fn push_base_label(self, out: &mut Vec<char>)
        ensures
            final(out)@ == old(out)@ + base_label_spec(self),
    {
        match self.code {
            Code::Char(c) => {
                if c == ' ' {
                    push_chars(out, &['S', 'p', 'a', 'c', 'e']);
                } else if self.modifiers.is_empty() {
                    out.push(c);
                } else {
                    out.push(ascii_uppercase(c));
                }
            },
            Code::Esc => push_chars(out, &['E', 's', 'c']),
            Code::Enter => push_chars(out, &['E', 'n', 't', 'e', 'r']),
            Code::Tab => push_chars(out, &['T', 'a', 'b']),
            Code::Backspace => push_chars(out, &['B', 'a', 'c', 'k', 's', 'p', 'a', 'c', 'e']),
            Code::Delete => push_chars(out, &['D', 'e', 'l', 'e', 't', 'e']),
            Code::Insert => push_chars(out, &['I', 'n', 's', 'e', 'r', 't']),
            Code::Home => push_chars(out, &['H', 'o', 'm', 'e']),
            Code::End => push_chars(out, &['E', 'n', 'd']),
            Code::PageUp => push_chars(out, &['P', 'a', 'g', 'e', 'U', 'p']),
            Code::PageDown => push_chars(out, &['P', 'a', 'g', 'e', 'D', 'o', 'w', 'n']),
            Code::Up => push_chars(out, &['U', 'p']),
            Code::Down => push_chars(out, &['D', 'o', 'w', 'n']),
            Code::Left => push_chars(out, &['L', 'e', 'f', 't']),
            Code::Right => push_chars(out, &['R', 'i', 'g', 'h', 't']),
            Code::F(n) => {
                out.push('F');
                if n < 10 {
                    out.push(digit(n));
                } else if n < 100 {
                    out.push(digit(n / 10));
                    out.push(digit(n % 10));
                } else {
                    out.push(digit(n / 100));
                    out.push(digit((n / 10) % 10));
                    out.push(digit(n % 10));
                }
            },
        }
        proof {
            assert(final(out)@ =~= old(out)@ + base_label_spec(self));
        }
    }

    /// Appends the label of the key to `out`.
    pub fn push_label(self, out: &mut Vec<char>)
        ensures
            final(out)@ == old(out)@ + label_spec(self),
    {
        if self.modifiers.is_empty() {
            self.push_base_label(out);
            return;
        }
        let ghost start = out@;
        if self.modifiers.contains(Mods::ctrl()) {
            push_chars(out, &['C', 't', 'r', 'l', '+']);
        }
        if self.modifiers.contains(Mods::alt()) {
            push_chars(out, &['A', 'l', 't', '+']);
        }
        if self.modifiers.contains(Mods::shift()) {
            push_chars(out, &['S', 'h', 'i', 'f', 't', '+']);
        }
        self.push_base_label(out);
        proof {
            assert(out@ =~= start + label_spec(self));
        }
    }

    /// The label of the key, such as `Ctrl+Shift+X`, `Space` or `F5`.
    pub fn label(&self) -> (r: String)
        ensures
            r@ == label_spec(*self),
    {
        let mut chars: Vec<char> = Vec::new();
        self.push_label(&mut chars);
        assert(chars@ =~= label_spec(*self));
        string_from_chars(&chars)
    }

    fn plain(code: Code) -> (r: Key)
        ensures
            r == (Key { code, modifiers: Mods(0) }),
    {
        Key { code, modifiers: Mods(0) }
    }

    fn modified_code(code: Code, modifiers: Mods) -> (r: Key)
        ensures
            r == (Key { code, modifiers }),
    {
        Key { code, modifiers }
    }

    fn normalize(self) -> (r: Key)
        ensures
            r == normalize_spec(self),
    {
        match self.code {
            Code::Char(c) => {
                if 'A' <= c && c <= 'Z' {
                    let mut m = self.modifiers;
                    m.bitor_assign(Mods::shift());
                    Key { code: Code::Char(ascii_lowercase(c)), modifiers: m }
                } else if !(('a' <= c && c <= 'z') || ('A' <= c && c <= 'Z')) {
                    let mut m = self.modifiers;
                    m.remove(Mods::shift());
                    Key { code: self.code, modifiers: m }
                } else {
                    self
                }
            },
            _ => self,
        }
    }
}

impl From<char> for Key {
    fn from(c: char) -> (r: Key) {
        Key::modified_code(Code::Char(c), Mods::none()).normalize()
    }
}

impl vstd::std_specs::convert::FromSpecImpl<char> for Key {
    open spec fn obeys_from_spec() -> bool {
        true
    }

    open spec fn from_spec(c: char) -> Key {
        key_from_char_spec(c)
    }
}

} // verus!
