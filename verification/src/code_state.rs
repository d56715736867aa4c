//! The state of the code in a typing session: what was typed already and
//! what is still to be typed.

use vstd::prelude::*;
use vstd::string::*;
use vstd::utf8::encode_utf8;

verus! {

/// The code of a session, split where the caret stands.
#[derive(Debug, Clone)]
pub struct CodeState {
    /// Code that still needs to be typed.
    pub current_code: String,
    /// Code that has already been typed.
    pub printed_code: String,
}

/// The number of bytes of `s` in UTF-8.
pub open spec fn byte_len(s: Seq<char>) -> nat {
    encode_utf8(s).len()
}

/// The lesser of two numbers.
pub open spec fn least(a: int, b: int) -> int {
    if a <= b {
        a
    } else {
        b
    }
}

impl CodeState {
    /// All the code, whether typed or not.
    pub open spec fn whole(&self) -> Seq<char> {
        self.printed_code@ + self.current_code@
    }

    /// A state with all of `initial_code` still to be typed.
    pub fn new(initial_code: String) -> (s: CodeState)
        ensures
            s.current_code@ == initial_code@,
            s.printed_code@ == Seq::<char>::empty(),
    {
        CodeState { current_code: initial_code, printed_code: String::new() }
    }

    /// Types the next character: it moves from the code to be typed to the
    /// typed code. Returns it, or `None` if nothing is left to type.
    pub fn type_character(&mut self) -> (r: Option<char>)
        ensures
            old(self).current_code@.len() == 0 ==> r is None && final(self).current_code@ == old(self).current_code@ && final(self).printed_code@ == old(self).printed_code@,
            old(self).current_code@.len() > 0 ==> r == Some(old(self).current_code@[0]) && final(self).current_code@ == old(self).current_code@.drop_first() && final(self).printed_code@ == old(self).printed_code@.push(old(self).current_code@[0]),
            final(self).whole() == old(self).whole(),
    {
        let n = self.current_code.as_str().unicode_len();
        if n == 0 {
            return None;
        }
        let ch = self.current_code.as_str().get_char(0);
        let rest = self.current_code.as_str().substring_char(1, n).to_owned();
        assert(rest@ =~= old(self).current_code@.drop_first());
        self.current_code = rest;
        self.printed_code.push(ch);
        assert(self.whole() =~= old(self).whole());
        Some(ch)
    }

    /// Takes back the last typed character: it moves from the typed code
    /// to the front of the code to be typed. Returns it, or `None` if nothing
    /// was typed.
    pub fn backspace(&mut self) -> (r: Option<char>)
        ensures
            old(self).printed_code@.len() == 0 ==> r is None && final(self).current_code@ == old(self).current_code@ && final(self).printed_code@ == old(self).printed_code@,
            old(self).printed_code@.len() > 0 ==> r == Some(old(self).printed_code@.last()) && final(self).printed_code@ == old(self).printed_code@.drop_last() && final(self).current_code@ == seq![
                old(self).printed_code@.last(),
            ] + old(self).current_code@,
            final(self).whole() == old(self).whole(),
    {
        match self.printed_code.pop() {
            None => None,
            Some(ch) => {
                let mut code = String::new();
                code.push(ch);
                code.append(self.current_code.as_str());
                assert(code@ =~= seq![ch] + old(self).current_code@);
                self.current_code = code;
                assert(self.whole() =~= old(self).whole());
                Some(ch)
            },
        }
    }

    /// All the code: the typed code and, after it, the code to be typed.
    pub fn get_full_code(&self) -> (r: String)
        ensures
            r@ == self.whole(),
    {
        let mut r = self.printed_code.clone();
        r.append(self.current_code.as_str());
        r
    }

    /// Where the caret stands: the length of the typed code in bytes.
    pub fn get_cursor_position(&self) -> (r: usize)
        ensures
            r == byte_len(self.printed_code@),
    {
        self.printed_code.as_str().as_bytes().len()
    }

    /// The length of all the code in bytes.
    pub fn get_total_length(&self) -> (r: usize)
        requires
            byte_len(self.printed_code@) + byte_len(self.current_code@) <= usize::MAX,
        ensures
            r == byte_len(self.printed_code@) + byte_len(self.current_code@),
    {
        self.printed_code.as_str().as_bytes().len() + self.current_code.as_str().as_bytes().len()
    }

    /// The typed share of the code as a fraction: the bytes typed, and the
    /// bytes in all. Code without bytes counts as typed: 1 of 1.
    pub fn progress_fraction(&self) -> (r: (usize, usize))
        requires
            byte_len(self.printed_code@) + byte_len(self.current_code@) <= usize::MAX,
        ensures
            byte_len(self.whole()) == 0 ==> r == (1usize, 1usize),
            byte_len(self.whole()) > 0 ==> r.0 == byte_len(self.printed_code@) && r.1 == byte_len(
                self.whole(),
            ),
            r.0 <= r.1,
            r.1 > 0,
    {
        proof {
            lemma_byte_len_concat(self.printed_code@, self.current_code@);
        }
        let total = self.get_total_length();
        if total == 0 {
            (1, 1)
        } else {
            (self.get_cursor_position(), total)
        }
    }

    /// Whether all the code has been typed.
    pub fn is_complete(&self) -> (r: bool)
        ensures
            r == (self.current_code@.len() == 0),
    {
        self.current_code.as_str().is_empty()
    }

    /// Starts over with `new_code`, nothing of it typed.
    pub fn reset(&mut self, new_code: String)
        ensures
            final(self).current_code@ == new_code@,
            final(self).printed_code@ == Seq::<char>::empty(),
    {
        self.current_code = new_code;
        self.printed_code = String::new();
    }

    /// The next character to type, which stays where it is.
    pub fn peek_next_character(&self) -> (r: Option<char>)
        ensures
            r == if self.current_code@.len() == 0 {
                None
            } else {
                Some(self.current_code@[0])
            },
    {
        if self.current_code.as_str().is_empty() {
            None
        } else {
            Some(self.current_code.as_str().get_char(0))
        }
    }

    /// The next `count` characters to type, or all that are left if they
    /// are fewer.
    pub fn peek_next_chars(&self, count: usize) -> (r: String)
        ensures
            r@ == self.current_code@.take(least(count as int, self.current_code@.len() as int)),
    {
        let n = self.current_code.as_str().unicode_len();
        let k = if count < n {
            count
        } else {
            n
        };
        self.current_code.as_str().substring_char(0, k).to_owned()
    }
}

/// The bytes of two strings, one after the other, are the bytes of the
/// strings joined.
pub proof fn lemma_byte_len_concat(a: Seq<char>, b: Seq<char>)
    ensures
        byte_len(a + b) == byte_len(a) + byte_len(b),
    decreases a.len(),
{
    reveal_with_fuel(encode_utf8, 2);
    if a.len() == 0 {
        assert(a + b =~= b);
    } else {
        lemma_byte_len_concat(a.drop_first(), b);
        assert((a + b).drop_first() =~= a.drop_first() + b);
        assert((a + b)[0] == a[0]);
    }
}

} // verus!
