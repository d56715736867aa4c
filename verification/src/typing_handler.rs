//! What a key does to the typing state: the rules of the game.
//!
//! A typed character counts when it is the next character of the code.
//! Characters that no US keyboard can type may be skipped, by themselves
//! before the next typed character or by a key of their own.

use crate::char_utils::{is_typeable_on_us_keyboard, typeable};
use crate::code_state::CodeState;
use crate::input::InputAction;
use vstd::prelude::*;
use vstd::string::*;

verus! {

/// The rules that can be switched on and off.
#[derive(Debug, Clone, Copy, PartialEq, Eq)]
pub struct TypingRules {
    /// Whether typed characters can be taken back.
    pub allow_backspace: bool,
    /// Whether untypeable characters are skipped before a typed one.
    pub auto_skip_untypeable: bool,
    /// Whether the next character can be skipped by a key.
    pub enable_manual_skip: bool,
    /// How many lines a scroll key moves the view.
    pub scroll_lines: usize,
}

/// What a key has done.
#[derive(Debug, Clone, Copy, PartialEq, Eq)]
pub struct TypingOutcome {
    /// How many characters moved to the typed code.
    pub advanced: usize,
    /// The character that was taken back, if one was.
    pub taken_back: Option<char>,
    /// Whether the key was wrong: a character other than the next one.
    pub mistake: bool,
}

/// The number of untypeable characters that `s` starts with.
pub open spec fn untypeable_prefix(s: Seq<char>) -> nat
    decreases s.len(),
{
    if s.len() == 0 || typeable(s[0]) {
        0
    } else {
        1 + untypeable_prefix(s.drop_first())
    }
}

/// The number of line feeds in `s`.
pub open spec fn line_feeds(s: Seq<char>) -> nat
    decreases s.len(),
{
    if s.len() == 0 {
        0
    } else {
        line_feeds(s.drop_last()) + if s.last() == '\n' {
            1nat
        } else {
            0nat
        }
    }
}

/// The untypeable characters at the start of `s` are no more than `s` has.
pub proof fn lemma_untypeable_prefix_bound(s: Seq<char>)
    ensures
        untypeable_prefix(s) <= s.len(),
    decreases s.len(),
{
    if !(s.len() == 0 || typeable(s[0])) {
        lemma_untypeable_prefix_bound(s.drop_first());
    }
}

/// The state after `k` characters were typed.
pub open spec fn advanced_by(old_state: CodeState, new_state: CodeState, k: int) -> bool {
    &&& 0 <= k <= old_state.current_code@.len()
    &&& new_state.printed_code@ == old_state.printed_code@ + old_state.current_code@.take(k)
    &&& new_state.current_code@ == old_state.current_code@.skip(k)
}

/// The number of line feeds in `text`.
pub fn count_line_feeds(text: &str) -> (n: usize)
    ensures
        n == line_feeds(text@),
{
    let len = text.unicode_len();
    let mut n: usize = 0;
    for ch in it: text.chars()
        invariant
            it.seq() == text@,
            len == text@.len(),
            n <= it.index(),
            n == line_feeds(text@.take(it.index() as int)),
    {
        assert(text@.take(it.index() + 1).drop_last() =~= text@.take(it.index() as int));
        if ch == '\n' {
            n += 1;
        }
    }
    assert(text@.take(text@.len() as int) =~= text@);
    n
}

/// The scroll offset after the view has moved down by `scroll_lines`: no
/// further than the last of `total_lines` line breaks, and not at all from
/// beyond it.
pub fn handle_scroll_down(scroll_offset: usize, scroll_lines: usize, total_lines: usize) -> (r: usize)
    ensures
        r == if scroll_offset + scroll_lines <= total_lines {
            scroll_offset + scroll_lines
        } else if scroll_offset < total_lines {
            total_lines as int
        } else {
            scroll_offset as int
        },
{
    if scroll_offset <= total_lines && scroll_lines <= total_lines - scroll_offset {
        scroll_offset + scroll_lines
    } else if scroll_offset < total_lines {
        total_lines
    } else {
        scroll_offset
    }
}

/// The scroll offset after the view has moved up by `scroll_lines`, or to
/// the top if that is nearer.
pub fn handle_scroll_up(scroll_offset: usize, scroll_lines: usize) -> (r: usize)
    ensures
        r == if scroll_offset >= scroll_lines {
            scroll_offset - scroll_lines
        } else {
            0
        },
{
    if scroll_offset >= scroll_lines {
        scroll_offset - scroll_lines
    } else {
        0
    }
}

/// Skips the untypeable characters that the code to be typed starts with,
/// and returns their number.
pub fn skip_untypeable(code_state: &mut CodeState) -> (skipped: usize)
    ensures
        skipped == untypeable_prefix(old(code_state).current_code@),
        advanced_by(*old(code_state), *final(code_state), skipped as int),
{
    let total = code_state.current_code.as_str().unicode_len();
    let mut skipped: usize = 0;
    proof {
        lemma_untypeable_prefix_bound(code_state.current_code@);
        assert(code_state.current_code@.take(0) =~= Seq::<char>::empty());
        assert(code_state.printed_code@ + Seq::<char>::empty() =~= code_state.printed_code@);
        assert(code_state.current_code@.skip(0) =~= code_state.current_code@);
    }
    loop
        invariant
            total == old(code_state).current_code@.len(),
            skipped <= total,
            advanced_by(*old(code_state), *code_state, skipped as int),
            untypeable_prefix(old(code_state).current_code@) == skipped + untypeable_prefix(
                code_state.current_code@,
            ),
        ensures
            untypeable_prefix(code_state.current_code@) == 0,
        decreases code_state.current_code@.len(),
    {
        let next = code_state.peek_next_character();
        let stop = match next {
            Some(ch) => is_typeable_on_us_keyboard(ch),
            None => true,
        };
        if stop {
            break;
        }
        code_state.type_character();
        proof {
            let all = old(code_state).current_code@;
            assert(all.take(skipped + 1) =~= all.take(skipped as int).push(all[skipped as int]));
            assert(all.skip(skipped as int).drop_first() =~= all.skip(skipped + 1));
            assert(code_state.printed_code@ =~= old(code_state).printed_code@ + all.take(skipped + 1));
        }
        skipped += 1;
    }
    skipped
}

/// The state and the outcome after the character `typed_char` was typed.
/// With `auto_skip` the untypeable characters before the next typeable one
/// are skipped first. The typed character advances the state if it is the
/// next character, and is a mistake if another character is next.
pub open spec fn typed_outcome(old_state: CodeState, new_state: CodeState, typed_char: char, auto_skip: bool, r:
    TypingOutcome) -> bool {
    let skipped = if auto_skip {
        untypeable_prefix(old_state.current_code@) as int
    } else {
        0
    };
    let rest = old_state.current_code@.skip(skipped);
    let hit = rest.len() > 0 && rest[0] == typed_char;
    &&& r.taken_back is None
    &&& r.mistake == (rest.len() > 0 && rest[0] != typed_char)
    &&& r.advanced == skipped + if hit {
        1int
    } else {
        0int
    }
    &&& advanced_by(old_state, new_state, r.advanced as int)
}

/// Types `typed_char`. See [`typed_outcome`].
pub fn handle_type_character(code_state: &mut CodeState, typed_char: char, auto_skip: bool) -> (r: TypingOutcome)
    ensures
        typed_outcome(*old(code_state), *final(code_state), typed_char, auto_skip, r),
{
    let total = code_state.current_code.as_str().unicode_len();
    proof {
        assert(code_state.current_code@.take(0) =~= Seq::<char>::empty());
        assert(code_state.printed_code@ + Seq::<char>::empty() =~= code_state.printed_code@);
        assert(code_state.current_code@.skip(0) =~= code_state.current_code@);
    }
    let skipped = if auto_skip {
        skip_untypeable(code_state)
    } else {
        0
    };
    match code_state.peek_next_character() {
        Some(expected) => {
            assert(skipped < total);
            if expected == typed_char {
                code_state.type_character();
                proof {
                    let all = old(code_state).current_code@;
                    assert(all.take(skipped + 1) =~= all.take(skipped as int).push(all[skipped as int]));
                    assert(all.skip(skipped as int).drop_first() =~= all.skip(skipped + 1));
                    assert(code_state.printed_code@ =~= old(code_state).printed_code@ + all.take(skipped + 1));
                }
                TypingOutcome { advanced: skipped + 1, taken_back: None, mistake: false }
            } else {
                TypingOutcome { advanced: skipped, taken_back: None, mistake: true }
            }
        },
        None => TypingOutcome { advanced: skipped, taken_back: None, mistake: false },
    }
}

/// Takes the last typed character back, if that is allowed and one was typed.
pub fn handle_backspace(code_state: &mut CodeState, allow_backspace: bool) -> (r: TypingOutcome)
    ensures
        r.advanced == 0,
        !r.mistake,
        allow_backspace && old(code_state).printed_code@.len() > 0 ==> r.taken_back == Some(
            old(code_state).printed_code@.last(),
        ) && final(code_state).printed_code@ == old(code_state).printed_code@.drop_last() && final(code_state).current_code@ == seq![old(code_state).printed_code@.last()] + old(code_state).current_code@,
        !(allow_backspace && old(code_state).printed_code@.len() > 0) ==> r.taken_back is None && final(code_state).printed_code@ == old(code_state).printed_code@ && final(code_state).current_code@ == old(code_state).current_code@,
{
    if !allow_backspace {
        return TypingOutcome { advanced: 0, taken_back: None, mistake: false };
    }
    let taken_back = code_state.backspace();
    TypingOutcome { advanced: 0, taken_back, mistake: false }
}

/// Types a line feed: it counts when the next character is one.
pub fn handle_enter(code_state: &mut CodeState) -> (r: TypingOutcome)
    ensures
        typed_outcome(*old(code_state), *final(code_state), '\n', false, r),
{
    handle_type_character(code_state, '\n', false)
}

/// Skips the next character, whatever it is, if skipping by key is
/// allowed and a character is left.
pub fn handle_skip_character(code_state: &mut CodeState, enable_manual_skip: bool) -> (r: TypingOutcome)
    ensures
        r.taken_back is None,
        !r.mistake,
        r.advanced == if enable_manual_skip && old(code_state).current_code@.len() > 0 {
            1int
        } else {
            0int
        },
        advanced_by(*old(code_state), *final(code_state), r.advanced as int),
{
    proof {
        assert(code_state.current_code@.take(0) =~= Seq::<char>::empty());
        assert(code_state.printed_code@ + Seq::<char>::empty() =~= code_state.printed_code@);
        assert(code_state.current_code@.skip(0) =~= code_state.current_code@);
    }
    if !enable_manual_skip {
        return TypingOutcome { advanced: 0, taken_back: None, mistake: false };
    }
    match code_state.type_character() {
        Some(_) => {
            proof {
                let all = old(code_state).current_code@;
                assert(all.take(1) =~= seq![all[0]]);
                assert(all.drop_first() =~= all.skip(1));
                assert(code_state.printed_code@ =~= old(code_state).printed_code@ + all.take(1));
            }
            TypingOutcome { advanced: 1, taken_back: None, mistake: false }
        },
        None => TypingOutcome { advanced: 0, taken_back: None, mistake: false },
    }
}

/// Applies the action of a key to the typing state: a character is typed,
/// enter types a line feed, backspace takes a character back, and any
/// other key does nothing.
pub fn handle_typing_input(code_state: &mut CodeState, action: &InputAction, rules: &TypingRules) -> (r:
    TypingOutcome)
    ensures
        match *action {
            InputAction::TypeCharacter(c) => typed_outcome(
                *old(code_state),
                *final(code_state),
                c,
                rules.auto_skip_untypeable,
                r,
            ),
            InputAction::Enter => typed_outcome(*old(code_state), *final(code_state), '\n', false, r),
            InputAction::Backspace => r.advanced == 0 && !r.mistake && (r.taken_back is Some <==> rules.allow_backspace
                && old(code_state).printed_code@.len() > 0) && final(code_state).whole() == old(code_state).whole(),
            InputAction::Other => r == (TypingOutcome { advanced: 0, taken_back: None, mistake: false })
                && final(code_state).printed_code@ == old(code_state).printed_code@ && final(code_state).current_code@ == old(code_state).current_code@,
        },
{
    match action {
        InputAction::TypeCharacter(c) => handle_type_character(code_state, *c, rules.auto_skip_untypeable),
        InputAction::Enter => handle_enter(code_state),
        InputAction::Backspace => {
            let r = handle_backspace(code_state, rules.allow_backspace);
            proof {
                if r.taken_back is Some {
                    assert(code_state.whole() =~= old(code_state).whole());
                }
            }
            r
        },
        InputAction::Other => TypingOutcome { advanced: 0, taken_back: None, mistake: false },
    }
}

} // verus!
