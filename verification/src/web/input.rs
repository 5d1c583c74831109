//! What a key event of the browser front end does.

use vstd::prelude::*;

use crate::keymap::keymap_entry;
use crate::romajikana::fold_upper;
use crate::text::str_equals;
use crate::web::keymap::{code_to_hid, spec_code_to_hid};

verus! {

/// The characters are all decimal digits, and there is at least one.
pub open spec fn all_digits(s: Seq<char>) -> bool {
    s.len() > 0 && forall|i: int| 0 <= i < s.len() ==> '0' <= #[trigger] s[i] <= '9'
}

/// The number that decimal digits spell.
pub open spec fn digits_value(s: Seq<char>) -> int
    decreases s.len(),
{
    if s.len() == 0 { 0 } else { digits_value(s.drop_last()) * 10 + (s.last() as int - 48) }
}

/// `u8` parsing: an optional `+`, then digits whose value fits in a byte.
pub open spec fn parse_u8(s: Seq<char>) -> Option<u8> {
    let d = if s.len() > 0 && s[0] == '+' { s.drop_first() } else { s };
    if all_digits(d) && digits_value(d) <= 255 { Some(digits_value(d) as u8) } else { None }
}

/// The number of a function key code `F1`..`F9`.
pub open spec fn spec_fkey_number(code: Seq<char>) -> Option<u8> {
    if code.len() >= 1 && code[0] == 'F' {
        match parse_u8(code.drop_first()) {
            Some(n) => if 1 <= n <= 9 { Some(n) } else { None },
            None => None,
        }
    } else {
        None
    }
}

/// What one key press does in the browser front end.
#[derive(Clone, Copy, Debug, PartialEq, Eq, Structural)]
pub enum WebKeyAction {
    /// Enter (either key): the session takes the line.
    Enter,
    /// Escape: break or cancel.
    Escape,
    /// F10: kana input on or off.
    ToggleKana,
    /// F1-F9: the key's command.
    FunctionKey(u8),
    /// This character is typed.
    Type(u8),
    /// Nothing happens.
    Ignore,
}

/// The key press with `KeyboardEvent.code` `code`: host keys first, else the
/// layout's character with letters in capitals.
pub open spec fn spec_web_key_action(code: Seq<char>, keyboard_id: u8, shift: bool, alt: bool) -> WebKeyAction {
    if code == "Enter"@ || code == "NumpadEnter"@ {
        WebKeyAction::Enter
    } else if code == "Escape"@ {
        WebKeyAction::Escape
    } else if code == "F10"@ {
        WebKeyAction::ToggleKana
    } else if spec_fkey_number(code) is Some {
        WebKeyAction::FunctionKey(spec_fkey_number(code)->0)
    } else {
        match spec_code_to_hid(code, keyboard_id) {
            None => WebKeyAction::Ignore,
            Some(hid) => {
                let c = keymap_entry(keyboard_id, hid,
                    (if alt { 2int } else { 0int }) + (if shift { 1int } else { 0int }));
                if c == 0 { WebKeyAction::Ignore } else { WebKeyAction::Type(fold_upper(c)) }
            },
        }
    }
}

/// Digits spell a number of at least 0.
proof fn lemma_digits_value_nonneg(s: Seq<char>)
    requires
        forall|i: int| 0 <= i < s.len() ==> '0' <= #[trigger] s[i] <= '9',
    ensures
        digits_value(s) >= 0,
    decreases s.len(),
{
    if s.len() > 0 {
        assert forall|i: int| 0 <= i < s.drop_last().len() implies '0' <= #[trigger] s.drop_last()[i] <= '9' by {
            assert(s.drop_last()[i] == s[i]);
        }
        lemma_digits_value_nonneg(s.drop_last());
        assert('0' <= s[s.len() - 1] <= '9');
    }
}

/// Appending a digit never makes the value smaller.
proof fn lemma_digits_value_grows(s: Seq<char>, i: int)
    requires
        all_digits(s),
        0 < i <= s.len(),
    ensures
        digits_value(s.subrange(0, i)) <= digits_value(s),
    decreases s.len() - i,
{
    if i < s.len() {
        lemma_digits_value_grows(s, i + 1);
        assert(s.subrange(0, i + 1).drop_last() =~= s.subrange(0, i));
        assert('0' <= s[i] <= '9');
        let p = s.subrange(0, i);
        assert forall|j: int| 0 <= j < p.len() implies '0' <= #[trigger] p[j] <= '9' by {
            assert(p[j] == s[j]);
        }
        lemma_digits_value_nonneg(p);
        assert(s.subrange(0, i + 1).last() == s[i]);
    } else {
        assert(s.subrange(0, i) =~= s);
    }
}

/// `F1`..`F9` to the key number; any other code gives `None`.
pub fn fkey_number(code: &str) -> (r: Option<u8>)
    ensures
        r == spec_fkey_number(code@),
{
    let n = code.unicode_len();
    if n < 1 || code.get_char(0) != 'F' {
        return None;
    }
    let ghost rest = code@.drop_first();
    let mut i: usize = 1;
    if n >= 2 && code.get_char(1) == '+' {
        i = 2;
    }
    let ghost d = if rest.len() > 0 && rest[0] == '+' { rest.drop_first() } else { rest };
    let ghost start = i as int;
    assert(d =~= code@.subrange(start, n as int));
    if i >= n {
        return None;
    }
    proof {
        if all_digits(d) {
            lemma_digits_value_nonneg(d);
        }
        assert(code@[0] == 'F');
    }
    assert(spec_fkey_number(code@) == (if all_digits(d) && 1 <= digits_value(d) <= 9 {
        Some(digits_value(d) as u8) } else { None }));
    let mut value: u32 = 0;
    while i < n
        invariant
            spec_fkey_number(code@) == (if all_digits(d) && 1 <= digits_value(d) <= 9 {
                Some(digits_value(d) as u8) } else { None }),
            n == code@.len(),
            1 <= start <= i <= n,
            start < n,
            d == code@.subrange(start, n as int),
            value <= 9,
            forall|j: int| start <= j < i ==> '0' <= #[trigger] code@[j] <= '9',
            value == digits_value(code@.subrange(start, i as int)),
        decreases n - i,
    {
        let c = code.get_char(i);
        if !('0' <= c && c <= '9') {
            proof {
                assert(code@[i as int] == c);
                assert(code@.subrange(start, n as int)[i - start] == code@[i as int]);
                assert(d[i - start] == c);
                assert(!all_digits(d));
            }
            return None;
        }
        let next = value * 10 + (c as u32 - 48);
        proof {
            assert(code@.subrange(start, i + 1).drop_last() =~= code@.subrange(start, i as int));
        }
        if next > 9 {
            proof {
                assert forall|j: int| 0 <= j < d.len() && j < i + 1 - start implies '0' <= #[trigger] d[j] <= '9' by {
                    assert(d[j] == code@[start + j]);
                }
                if all_digits(d) {
                    lemma_digits_value_grows(d, i + 1 - start);
                    assert(d.subrange(0, i + 1 - start) =~= code@.subrange(start, i + 1));
                }
            }
            return None;
        }
        value = next;
        i = i + 1;
    }
    proof {
        assert(code@.subrange(start, n as int) =~= d);
        assert forall|j: int| 0 <= j < d.len() implies '0' <= #[trigger] d[j] <= '9' by {
            assert(d[j] == code@[start + j]);
        }
    }
    if value >= 1 { Some(value as u8) } else { None }
}

/// What a key press does (see [`spec_web_key_action`]).
pub fn web_key_action(code: &str, keyboard_id: u8, shift: bool, alt: bool) -> (r: WebKeyAction)
    ensures
        r == spec_web_key_action(code@, keyboard_id, shift, alt),
{
    if str_equals(code, "Enter") || str_equals(code, "NumpadEnter") {
        return WebKeyAction::Enter;
    }
    if str_equals(code, "Escape") {
        return WebKeyAction::Escape;
    }
    if str_equals(code, "F10") {
        return WebKeyAction::ToggleKana;
    }
    if let Some(n) = fkey_number(code) {
        return WebKeyAction::FunctionKey(n);
    }
    match code_to_hid(code, keyboard_id) {
        None => WebKeyAction::Ignore,
        Some(hid) => {
            let c = crate::keymap::lookup(keyboard_id, hid, shift, alt);
            if c == 0 {
                WebKeyAction::Ignore
            } else {
                WebKeyAction::Type(crate::machine::basic_toupper(c))
            }
        },
    }
}

} // verus!
