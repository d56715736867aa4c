//! Rich text as lines of colored characters.
//!
//! A [`ColoredText`] always has at least one line. Characters are appended at
//! its end; a line feed is never stored but ends the last line and starts an
//! empty one. Joining the lines with line feeds gives back what was pushed.

use crate::color::Rgba;
use vstd::prelude::*;

verus! {

/// One character with its foreground color and an optional highlight behind it.
#[derive(Clone, Copy, Debug, PartialEq, Eq)]
pub struct ColoredChar {
    pub ch: char,
    pub color: Rgba,
    pub background_color: Option<Rgba>,
}

/// A run of colored characters that is laid out on one line.
#[derive(Clone, Debug)]
pub struct ColoredLine {
    pub chars: Vec<ColoredChar>,
}

/// Lines of colored characters.
#[derive(Clone, Debug)]
pub struct ColoredText {
    pub lines: Vec<ColoredLine>,
}

/// `ch` in `color`, without a highlight.
pub open spec fn plain_char(ch: char, color: Rgba) -> ColoredChar {
    ColoredChar { ch, color, background_color: None }
}

/// Every character of `chars` in `color`, without a highlight.
pub open spec fn colored(chars: Seq<char>, color: Rgba) -> Seq<ColoredChar> {
    Seq::new(chars.len(), |i: int| plain_char(chars[i], color))
}

/// The characters of a line, without their colors.
pub open spec fn char_seq(line: Seq<ColoredChar>) -> Seq<char> {
    Seq::new(line.len(), |i: int| line[i].ch)
}

/// The lines joined by line feeds, without colors.
pub open spec fn plain_text(lines: Seq<Seq<ColoredChar>>) -> Seq<char>
    decreases lines.len(),
{
    if lines.len() == 0 {
        Seq::empty()
    } else if lines.len() == 1 {
        char_seq(lines[0])
    } else {
        plain_text(lines.drop_last()) + seq!['\n'] + char_seq(lines.last())
    }
}

/// The lines after one more character: a line feed starts an empty line,
/// any other character joins the last line.
pub open spec fn push_char(lines: Seq<Seq<ColoredChar>>, c: ColoredChar) -> Seq<Seq<ColoredChar>> {
    if c.ch == '\n' {
        lines.push(Seq::empty())
    } else {
        lines.update(lines.len() - 1, lines.last().push(c))
    }
}

/// The lines after the characters of `chars`, pushed in order.
pub open spec fn push_all(lines: Seq<Seq<ColoredChar>>, chars: Seq<ColoredChar>) -> Seq<
    Seq<ColoredChar>,
>
    decreases chars.len(),
{
    if chars.len() == 0 {
        lines
    } else {
        push_char(push_all(lines, chars.drop_last()), chars.last())
    }
}

/// The number of characters in all lines together; line breaks do not count.
pub open spec fn total_len(lines: Seq<Seq<ColoredChar>>) -> nat
    decreases lines.len(),
{
    if lines.len() == 0 {
        0
    } else {
        total_len(lines.drop_last()) + lines.last().len()
    }
}

/// The flat index of the first character of line `l`, where every line
/// before it takes one slot per character and one for its line break.
pub open spec fn line_start(lines: Seq<Seq<ColoredChar>>, l: int) -> int
    decreases l,
{
    if l <= 0 {
        0
    } else {
        line_start(lines, l - 1) + lines[l - 1].len() + 1
    }
}

/// Whether the flat index `index` is that of character `c` of line `l`.
pub open spec fn addresses(lines: Seq<Seq<ColoredChar>>, index: int, l: int, c: int) -> bool {
    &&& 0 <= l < lines.len()
    &&& 0 <= c < lines[l].len()
    &&& line_start(lines, l) + c == index
}

/// Whether no line holds a line feed.
pub open spec fn no_line_feeds(lines: Seq<Seq<ColoredChar>>) -> bool {
    forall|l: int, c: int| 0 <= l < lines.len() && 0 <= c < lines[l].len() ==> #[trigger] lines[l][c].ch != '\n'
}

/// Pushing a character appends it to the joined text.
pub proof fn lemma_push_char_plain_text(lines: Seq<Seq<ColoredChar>>, c: ColoredChar)
    requires
        lines.len() >= 1,
    ensures
        push_char(lines, c).len() >= 1,
        plain_text(push_char(lines, c)) == plain_text(lines).push(c.ch),
{
    let after = push_char(lines, c);
    if c.ch == '\n' {
        assert(after.drop_last() =~= lines);
        assert(char_seq(after.last()) =~= Seq::<char>::empty());
        assert(plain_text(after) =~= plain_text(lines).push(c.ch));
    } else {
        assert(char_seq(after.last()) =~= char_seq(lines.last()).push(c.ch));
        if lines.len() == 1 {
            assert(plain_text(after) =~= plain_text(lines).push(c.ch));
        } else {
            assert(after.drop_last() =~= lines.drop_last());
            assert(plain_text(after) =~= plain_text(lines).push(c.ch));
        }
    }
}

/// Pushing characters appends them, in order, to the joined text.
pub proof fn lemma_push_all_plain_text(lines: Seq<Seq<ColoredChar>>, chars: Seq<ColoredChar>)
    requires
        lines.len() >= 1,
    ensures
        push_all(lines, chars).len() >= 1,
        plain_text(push_all(lines, chars)) == plain_text(lines) + char_seq(chars),
    decreases chars.len(),
{
    if chars.len() == 0 {
        assert(plain_text(lines) + char_seq(chars) =~= plain_text(lines));
    } else {
        lemma_push_all_plain_text(lines, chars.drop_last());
        lemma_push_char_plain_text(push_all(lines, chars.drop_last()), chars.last());
        assert(char_seq(chars) =~= char_seq(chars.drop_last()).push(chars.last().ch));
        assert(plain_text(push_all(lines, chars)) =~= plain_text(lines) + char_seq(chars));
    }
}

/// Pushing two runs of characters, one after the other, is pushing the
/// runs joined.
pub proof fn lemma_push_all_concat(lines: Seq<Seq<ColoredChar>>, a: Seq<ColoredChar>, b: Seq<ColoredChar>)
    ensures
        push_all(push_all(lines, a), b) == push_all(lines, a + b),
    decreases b.len(),
{
    if b.len() == 0 {
        assert(a + b =~= a);
    } else {
        lemma_push_all_concat(lines, a, b.drop_last());
        assert((a + b).drop_last() =~= a + b.drop_last());
        assert((a + b).last() == b.last());
    }
}

/// Pushing characters never stores a line feed.
pub proof fn lemma_push_all_no_line_feeds(lines: Seq<Seq<ColoredChar>>, chars: Seq<ColoredChar>)
    requires
        lines.len() >= 1,
        no_line_feeds(lines),
    ensures
        no_line_feeds(push_all(lines, chars)),
    decreases chars.len(),
{
    if chars.len() > 0 {
        lemma_push_all_no_line_feeds(lines, chars.drop_last());
        lemma_push_all_plain_text(lines, chars.drop_last());
        let before = push_all(lines, chars.drop_last());
        let after = push_char(before, chars.last());
        assert forall|l: int, c: int| 0 <= l < after.len() && 0 <= c < after[l].len() implies #[trigger] after[l][c].ch != '\n' by {
            if chars.last().ch != '\n' && l == before.len() - 1 && c < before[l].len() {
                assert(after[l][c] == before[l][c]);
            } else if l < before.len() {
                assert(after[l][c] == if chars.last().ch == '\n' || l < before.len() - 1 {
                    before[l][c]
                } else {
                    chars.last()
                });
            }
        }
    }
}

/// Round trip: a text built from a string in one color, joined back with
/// line feeds, is that string.
pub proof fn lemma_from_str_round_trip(text: Seq<char>, color: Rgba)
    ensures
        plain_text(push_all(seq![Seq::<ColoredChar>::empty()], colored(text, color))) == text,
        no_line_feeds(push_all(seq![Seq::<ColoredChar>::empty()], colored(text, color))),
{
    let start = seq![Seq::<ColoredChar>::empty()];
    lemma_push_all_plain_text(start, colored(text, color));
    lemma_push_all_no_line_feeds(start, colored(text, color));
    assert(char_seq(start[0]) =~= Seq::<char>::empty());
    assert(char_seq(colored(text, color)) =~= text);
    assert(plain_text(start) + char_seq(colored(text, color)) =~= text);
}

/// Lines start further on the later they come.
pub proof fn lemma_line_start_monotonic(lines: Seq<Seq<ColoredChar>>, a: int, b: int)
    requires
        0 <= a <= b,
    ensures
        line_start(lines, a) <= line_start(lines, b),
        a < b ==> line_start(lines, a) + lines[a].len() < line_start(lines, b),
    decreases b - a,
{
    if a < b {
        lemma_line_start_monotonic(lines, a, b - 1);
    }
}

/// A flat index addresses at most one character.
pub proof fn lemma_address_unique(lines: Seq<Seq<ColoredChar>>, index: int, l1: int, c1: int, l2: int, c2: int)
    requires
        addresses(lines, index, l1, c1),
        addresses(lines, index, l2, c2),
    ensures
        l1 == l2,
        c1 == c2,
{
    if l1 < l2 {
        lemma_line_start_monotonic(lines, l1, l2);
    } else if l2 < l1 {
        lemma_line_start_monotonic(lines, l2, l1);
    }
}

impl ColoredChar {
    /// `ch` in `color`, without a highlight.
    pub fn new(ch: char, color: Rgba) -> (c: ColoredChar)
        ensures
            c == plain_char(ch, color),
    {
        ColoredChar { ch, color, background_color: None }
    }

    /// `ch` in `color` on a highlight of `background`.
    pub fn with_background(ch: char, color: Rgba, background: Rgba) -> (c: ColoredChar)
        ensures
            c == (ColoredChar { ch, color, background_color: Some(background) }),
    {
        ColoredChar { ch, color, background_color: Some(background) }
    }
}

impl View for ColoredLine {
    type V = Seq<ColoredChar>;

    open spec fn view(&self) -> Seq<ColoredChar> {
        self.chars@
    }
}

impl ColoredLine {
    /// The empty line.
    pub fn new() -> (line: ColoredLine)
        ensures
            line@ == Seq::<ColoredChar>::empty(),
    {
        ColoredLine { chars: Vec::new() }
    }

    /// Appends `ch` in `color`.
    pub fn push(&mut self, ch: char, color: Rgba)
        ensures
            final(self)@ == old(self)@.push(plain_char(ch, color)),
    {
        self.chars.push(ColoredChar { ch, color, background_color: None });
    }

    /// Appends the characters of `text`, each in `color`.
    pub fn push_str(&mut self, text: &str, color: Rgba)
        ensures
            final(self)@ == old(self)@ + colored(text@, color),
    {
        for ch in it: text.chars()
            invariant
                it.seq() == text@,
                self@ == old(self)@ + colored(text@.take(it.index() as int), color),
        {
            self.chars.push(ColoredChar { ch, color, background_color: None });
            assert(text@.take(it.index() + 1) =~= text@.take(it.index() as int).push(ch));
            assert(colored(text@.take(it.index() + 1), color) =~= colored(
                text@.take(it.index() as int),
                color,
            ).push(plain_char(ch, color)));
            assert(self@ =~= old(self)@ + colored(text@.take(it.index() + 1), color));
        }
        assert(text@.take(text@.len() as int) =~= text@);
    }

    /// The number of characters.
    pub fn len(&self) -> (n: usize)
        ensures
            n == self@.len(),
    {
        self.chars.len()
    }

    /// A copy of the line.
    pub fn copy(&self) -> (line: ColoredLine)
        ensures
            line@ == self@,
    {
        let mut chars: Vec<ColoredChar> = Vec::new();
        let mut i: usize = 0;
        while i < self.chars.len()
            invariant
                i <= self.chars.len(),
                chars@ == self.chars@.take(i as int),
            decreases self.chars.len() - i,
        {
            chars.push(self.chars[i]);
            assert(self.chars@.take(i + 1) =~= self.chars@.take(i as int).push(self.chars@[i as int]));
            i += 1;
        }
        assert(self.chars@.take(self.chars@.len() as int) =~= self.chars@);
        ColoredLine { chars }
    }
}

impl View for ColoredText {
    type V = Seq<Seq<ColoredChar>>;

    open spec fn view(&self) -> Seq<Seq<ColoredChar>> {
        Seq::new(self.lines@.len(), |i: int| self.lines@[i]@)
    }
}

impl ColoredText {
    /// A text is well formed when it has at least one line.
    pub open spec fn wf(&self) -> bool {
        self.lines@.len() >= 1
    }

    /// The text of one empty line.
    pub fn new() -> (text: ColoredText)
        ensures
            text.wf(),
            text@ == seq![Seq::<ColoredChar>::empty()],
    {
        let mut lines: Vec<ColoredLine> = Vec::new();
        lines.push(ColoredLine::new());
        let text = ColoredText { lines };
        assert(text@ =~= seq![Seq::<ColoredChar>::empty()]);
        text
    }

    /// Appends a character with its colors: a line feed starts an empty
    /// line, any other character joins the last line.
    pub fn push_colored_char(&mut self, c: ColoredChar)
        requires
            old(self).wf(),
        ensures
            final(self).wf(),
            final(self)@ == push_char(old(self)@, c),
            plain_text(final(self)@) == plain_text(old(self)@).push(c.ch),
    {
        proof {
            lemma_push_char_plain_text(self@, c);
        }
        if c.ch == '\n' {
            self.lines.push(ColoredLine::new());
        } else {
            let n = self.lines.len();
            self.lines[n - 1].chars.push(c);
        }
        assert(self@ =~= push_char(old(self)@, c));
    }

    /// Appends `ch` in `color`; a line feed starts an empty line instead.
    pub fn push(&mut self, ch: char, color: Rgba)
        requires
            old(self).wf(),
        ensures
            final(self).wf(),
            final(self)@ == push_char(old(self)@, plain_char(ch, color)),
            plain_text(final(self)@) == plain_text(old(self)@).push(ch),
    {
        self.push_colored_char(ColoredChar { ch, color, background_color: None });
    }

    /// Appends `ch` in `color` on a highlight of `background`; a line feed
    /// starts an empty line instead.
    pub fn push_with_background(&mut self, ch: char, color: Rgba, background: Rgba)
        requires
            old(self).wf(),
        ensures
            final(self).wf(),
            final(self)@ == push_char(
                old(self)@,
                ColoredChar { ch, color, background_color: Some(background) },
            ),
            plain_text(final(self)@) == plain_text(old(self)@).push(ch),
    {
        self.push_colored_char(ColoredChar { ch, color, background_color: Some(background) });
    }

    /// Appends the characters of `text` in order, each in `color`.
    pub fn push_str(&mut self, text: &str, color: Rgba)
        requires
            old(self).wf(),
        ensures
            final(self).wf(),
            final(self)@ == push_all(old(self)@, colored(text@, color)),
            plain_text(final(self)@) == plain_text(old(self)@) + text@,
    {
        for ch in it: text.chars()
            invariant
                it.seq() == text@,
                self.wf(),
                self@ == push_all(old(self)@, colored(text@.take(it.index() as int), color)),
        {
            self.push(ch, color);
            proof {
                let before = colored(text@.take(it.index() as int), color);
                let after = colored(text@.take(it.index() + 1), color);
                assert(after.drop_last() =~= before);
                assert(after.last() == plain_char(ch, color));
            }
        }
        proof {
            assert(text@.take(text@.len() as int) =~= text@);
            lemma_push_all_plain_text(old(self)@, colored(text@, color));
            assert(char_seq(colored(text@, color)) =~= text@);
        }
    }

    /// The text that `text` splits into at its line feeds, every character
    /// in `color`.
    pub fn from_str_with_color(text: &str, color: Rgba) -> (r: ColoredText)
        ensures
            r.wf(),
            r@ == push_all(seq![Seq::<ColoredChar>::empty()], colored(text@, color)),
            plain_text(r@) == text@,
            no_line_feeds(r@),
    {
        let mut r = ColoredText::new();
        r.push_str(text, color);
        proof {
            lemma_from_str_round_trip(text@, color);
        }
        r
    }

    /// The line and column that the flat index `index` addresses, if any.
    pub fn locate(&self, index: usize) -> (r: Option<(usize, usize)>)
        ensures
            match r {
                Some((l, c)) => addresses(self@, index as int, l as int, c as int),
                None => forall|l: int, c: int| !addresses(self@, index as int, l, c),
            },
    {
        let mut l: usize = 0;
        let mut start: usize = 0;
        while l < self.lines.len()
            invariant
                l <= self.lines.len(),
                start == line_start(self@, l as int),
                start <= index,
                forall|l2: int, c: int| l2 < l ==> !addresses(self@, index as int, l2, c),
            decreases self.lines.len() - l,
        {
            let len = self.lines[l].chars.len();
            if index - start < len {
                return Some((l, index - start));
            }
            if index - start == len {
                proof {
                    assert forall|l2: int, c: int| !addresses(self@, index as int, l2, c) by {
                        if l < l2 < self@.len() {
                            lemma_line_start_monotonic(self@, l as int, l2);
                        }
                    }
                }
                return None;
            }
            proof {
                assert forall|l2: int, c: int| l2 < l + 1 implies !addresses(self@, index as int, l2, c) by {}
            }
            start = start + len + 1;
            l += 1;
        }
        None
    }

    /// The character at the flat index `index`, where every line break takes
    /// one slot that holds no character.
    pub fn get_char(&self, index: usize) -> (r: Option<&ColoredChar>)
        ensures
            match r {
                Some(ch) => exists|l: int, c: int| addresses(self@, index as int, l, c) && *ch == self@[l][c],
                None => forall|l: int, c: int| !addresses(self@, index as int, l, c),
            },
    {
        match self.locate(index) {
            Some((l, c)) => {
                assert(addresses(self@, index as int, l as int, c as int));
                Some(&self.lines[l].chars[c])
            },
            None => None,
        }
    }

    /// The character at the flat index `index`, to be changed in place.
    pub fn get_char_mut(&mut self, index: usize) -> (r: Option<&mut ColoredChar>)
        ensures
            match r {
                Some(ch) => exists|l: int, c: int| #![trigger addresses(old(self)@, index as int, l, c)]
                    addresses(old(self)@, index as int, l, c) && *ch == old(self)@[l][c] && final(self)@
                        == old(self)@.update(l, old(self)@[l].update(c, *final(ch))),
                None => final(self)@ == old(self)@ && forall|l: int, c: int| !addresses(old(self)@, index as int, l, c),
            },
            final(self).wf() == old(self).wf(),
    {
        match self.locate(index) {
            Some((l, c)) => {
                assert(addresses(self@, index as int, l as int, c as int));
                let r = &mut self.lines[l].chars[c];
                proof {
                    assert(after_borrow(self)@ =~= old(self)@.update(l as int, old(self)@[l as int].update(c as int, *final(r))));
                }
                Some(r)
            },
            None => None,
        }
    }

    /// The number of characters in all lines together.
    pub fn total_char_count(&self) -> (n: usize)
        requires
            total_len(self@) <= usize::MAX,
        ensures
            n == total_len(self@),
    {
        let mut n: usize = 0;
        let mut i: usize = 0;
        while i < self.lines.len()
            invariant
                i <= self.lines.len(),
                n == total_len(self@.take(i as int)),
                total_len(self@) <= usize::MAX,
            decreases self.lines.len() - i,
        {
            proof {
                assert(self@.take(i + 1).drop_last() =~= self@.take(i as int));
                lemma_total_len_prefix(self@, i + 1);
            }
            n = n + self.lines[i].chars.len();
            i += 1;
        }
        assert(self@.take(self@.len() as int) =~= self@);
        n
    }

    /// A copy of the text.
    pub fn copy(&self) -> (text: ColoredText)
        ensures
            text@ == self@,
            text.wf() == self.wf(),
    {
        let mut lines: Vec<ColoredLine> = Vec::new();
        let mut i: usize = 0;
        while i < self.lines.len()
            invariant
                i <= self.lines.len(),
                lines@.len() == i,
                forall|j: int| 0 <= j < i ==> (#[trigger] lines@[j])@ == self@[j],
            decreases self.lines.len() - i,
        {
            lines.push(self.lines[i].copy());
            i += 1;
        }
        let text = ColoredText { lines };
        assert(text@ =~= self@);
        text
    }

    /// The number of lines; at least one in a well-formed text.
    pub fn line_count(&self) -> (n: usize)
        ensures
            n == self@.len(),
    {
        self.lines.len()
    }
}

/// A prefix of the lines holds no more characters than all of them.
pub proof fn lemma_total_len_prefix(lines: Seq<Seq<ColoredChar>>, k: int)
    requires
        0 <= k <= lines.len(),
    ensures
        total_len(lines.take(k)) <= total_len(lines),
    decreases lines.len() - k,
{
    if k < lines.len() {
        lemma_total_len_prefix(lines, k + 1);
        assert(lines.take(k + 1).drop_last() =~= lines.take(k));
    } else {
        assert(lines.take(k) =~= lines);
    }
}

} // verus!
