//! Colors for Rust code: a pass over the characters that tells strings,
//! comments, words and punctuation apart.
//!
//! A double quote that no backslash precedes opens or closes a string. Two
//! slashes open a comment to the end of the line, a slash and a star one
//! to the next star and slash. Outside of both, letters, digits and
//! underscores gather into words, which are colored by what they are once
//! they end; every other character has the color of its kind.
//!
//! A word ends at the next character of another kind that is neither in a
//! string nor in a comment, and is written out there: a word that stands
//! right before a string comes out behind the string.

use crate::color::Rgba;
use crate::std_specs::alphanumeric;
use crate::strings::str_eq;
use crate::text::{ColoredChar, ColoredText, colored, plain_char, push_all};
use vstd::prelude::*;
use vstd::string::*;

verus! {

/// The comment that the pass is in.
#[derive(Clone, Copy, Debug, PartialEq, Eq)]
pub enum CommentType {
    /// No comment: code.
    Code,
    /// A comment to the end of the line.
    Line,
    /// A comment to the next star and slash.
    Block,
}

/// The color of comments.
pub open spec fn comment_color() -> Rgba {
    Rgba { r: 128, g: 128, b: 128, a: 255 }
}

/// The color of the quotes around a string.
pub open spec fn quote_color() -> Rgba {
    Rgba { r: 255, g: 153, b: 153, a: 255 }
}

/// The color of what stands in a string.
pub open spec fn string_color() -> Rgba {
    Rgba { r: 255, g: 204, b: 102, a: 255 }
}

/// Whether `word` is one of `words`.
pub open spec fn one_of(word: Seq<char>, words: Seq<Seq<char>>) -> bool {
    exists|i: int| 0 <= i < words.len() && #[trigger] words[i] == word
}

/// The keywords that steer the flow of control.
pub open spec fn control_words() -> Seq<Seq<char>> {
    seq!["if"@, "else"@, "match"@, "loop"@, "while"@, "for"@, "break"@, "continue"@, "return"@]
}

/// The keywords that declare.
pub open spec fn declaration_words() -> Seq<Seq<char>> {
    seq!["fn"@, "let"@, "mut"@, "const"@, "static"@, "struct"@, "enum"@, "impl"@, "trait"@]
}

/// The keywords of visibility and modules.
pub open spec fn module_words() -> Seq<Seq<char>> {
    seq!["pub"@, "mod"@, "use"@, "crate"@, "super"@, "self"@]
}

/// The names of common types.
pub open spec fn type_words() -> Seq<Seq<char>> {
    seq![
        "i8"@,
        "i16"@,
        "i32"@,
        "i64"@,
        "i128"@,
        "isize"@,
        "u8"@,
        "u16"@,
        "u32"@,
        "u64"@,
        "u128"@,
        "usize"@,
        "f32"@,
        "f64"@,
        "bool"@,
        "char"@,
        "str"@,
        "String"@,
        "Vec"@,
        "Option"@,
        "Result"@,
    ]
}

/// The names of common functions and macros.
pub open spec fn function_words() -> Seq<Seq<char>> {
    seq!["println"@, "print"@, "dbg"@, "panic"@, "todo"@, "unimplemented"@, "main"@, "new"@, "default"@]
}

/// The words that stand for values.
pub open spec fn literal_words() -> Seq<Seq<char>> {
    seq!["true"@, "false"@, "None"@, "Some"@, "Ok"@, "Err"@]
}

/// The color of a word by the list that it is in; that of a name, if it
/// is in none.
pub open spec fn keyword_color(word: Seq<char>) -> Rgba {
    if one_of(word, control_words()) {
        Rgba { r: 102, g: 153, b: 255, a: 255 }
    } else if one_of(word, declaration_words()) {
        Rgba { r: 204, g: 102, b: 255, a: 255 }
    } else if one_of(word, module_words()) {
        Rgba { r: 255, g: 102, b: 204, a: 255 }
    } else if one_of(word, type_words()) {
        Rgba { r: 102, g: 255, b: 102, a: 255 }
    } else if one_of(word, function_words()) {
        Rgba { r: 51, g: 255, b: 255, a: 255 }
    } else if one_of(word, literal_words()) {
        Rgba { r: 255, g: 178, b: 51, a: 255 }
    } else {
        Rgba { r: 229, g: 229, b: 229, a: 255 }
    }
}

/// The color of a character that belongs to no word, by its kind:
/// brackets, separators, operators, and a few of their own.
pub open spec fn punctuation_color(ch: char) -> Rgba {
    if ch == '{' || ch == '}' || ch == '(' || ch == ')' || ch == '[' || ch == ']' {
        Rgba { r: 255, g: 204, b: 102, a: 255 }
    } else if ch == ';' || ch == ',' {
        Rgba { r: 204, g: 204, b: 204, a: 255 }
    } else if ch == '=' || ch == '+' || ch == '-' || ch == '*' || ch == '/' || ch == '%' {
        Rgba { r: 255, g: 255, b: 102, a: 255 }
    } else if ch == '!' {
        Rgba { r: 255, g: 102, b: 255, a: 255 }
    } else if ch == '.' {
        Rgba { r: 204, g: 204, b: 255, a: 255 }
    } else if ch == ':' {
        Rgba { r: 255, g: 204, b: 204, a: 255 }
    } else {
        Rgba { r: 204, g: 204, b: 204, a: 255 }
    }
}

/// Whether `ch` belongs to a word.
pub open spec fn word_char(ch: char) -> bool {
    alphanumeric(ch) || ch == '_'
}

/// Where the pass stands: the colored characters so far, the word that is
/// being gathered, whether a string is open, the comment that is open, and
/// the character before.
pub struct Pass {
    pub out: Seq<ColoredChar>,
    pub word: Seq<char>,
    pub in_string: bool,
    pub comment: CommentType,
    pub prev: char,
}

/// The pass before the first character.
pub open spec fn pass_start() -> Pass {
    Pass { out: Seq::empty(), word: Seq::empty(), in_string: false, comment: CommentType::Code, prev: '\0' }
}

/// The characters so far with the gathered word, colored as what it is.
pub open spec fn flushed(s: Pass) -> Seq<ColoredChar> {
    s.out + colored(s.word, keyword_color(s.word))
}

/// The characters so far with the slash before recolored as the start of
/// a comment.
pub open spec fn with_comment_start(out: Seq<ColoredChar>) -> Seq<ColoredChar> {
    if out.len() > 0 {
        out.drop_last().push(plain_char('/', comment_color()))
    } else {
        out
    }
}

/// The pass after the character `ch`.
pub open spec fn pass_step(s: Pass, ch: char) -> Pass {
    if ch == '"' && s.comment == CommentType::Code && s.prev != '\\' {
        Pass { out: s.out.push(plain_char(ch, quote_color())), in_string: !s.in_string, prev: ch, ..s }
    } else if s.in_string {
        Pass { out: s.out.push(plain_char(ch, string_color())), prev: ch, ..s }
    } else if s.comment == CommentType::Code && (ch == '/' || ch == '*') && s.prev == '/' {
        Pass {
            out: with_comment_start(s.out).push(plain_char(ch, comment_color())),
            comment: if ch == '/' {
                CommentType::Line
            } else {
                CommentType::Block
            },
            prev: ch,
            ..s
        }
    } else if s.comment != CommentType::Code {
        Pass {
            out: s.out.push(plain_char(ch, comment_color())),
            comment: if s.comment == CommentType::Line && ch == '\n' {
                CommentType::Code
            } else if s.comment == CommentType::Block && ch == '/' && s.prev == '*' {
                CommentType::Code
            } else {
                s.comment
            },
            prev: ch,
            ..s
        }
    } else if word_char(ch) {
        Pass { word: s.word.push(ch), prev: ch, ..s }
    } else {
        Pass { out: flushed(s).push(plain_char(ch, punctuation_color(ch))), word: Seq::empty(), prev: ch, ..s }
    }
}

/// The pass after the first `n` characters of `code`.
pub open spec fn pass_prefix(code: Seq<char>, n: int) -> Pass
    decreases n,
{
    if n <= 0 {
        pass_start()
    } else {
        pass_step(pass_prefix(code, n - 1), code[n - 1])
    }
}

/// The characters of `code` in their colors.
pub open spec fn highlighted(code: Seq<char>) -> Seq<ColoredChar> {
    flushed(pass_prefix(code, code.len() as int))
}

/// Whether `word` is one of `words`.
fn among(word: &str, words: &Vec<&str>) -> (r: bool)
    ensures
        r == one_of(word@, Seq::new(words@.len(), |i: int| words@[i]@)),
{
    let mut i: usize = 0;
    while i < words.len()
        invariant
            i <= words@.len(),
            forall|j: int| 0 <= j < i ==> words@[j]@ != word@,
        decreases words.len() - i,
    {
        if str_eq(word, words[i]) {
            assert(Seq::new(words@.len(), |i: int| words@[i]@)[i as int] == word@);
            return true;
        }
        i += 1;
    }
    false
}

/// The color of `word` as a word of Rust.
pub fn get_keyword_color(word: &str) -> (c: Rgba)
    ensures
        c == keyword_color(word@),
{
    let control: Vec<&str> = vec!["if", "else", "match", "loop", "while", "for", "break", "continue", "return"];
    let declaration: Vec<&str> = vec!["fn", "let", "mut", "const", "static", "struct", "enum", "impl", "trait"];
    let module: Vec<&str> = vec!["pub", "mod", "use", "crate", "super", "self"];
    let types: Vec<&str> = vec![
        "i8",
        "i16",
        "i32",
        "i64",
        "i128",
        "isize",
        "u8",
        "u16",
        "u32",
        "u64",
        "u128",
        "usize",
        "f32",
        "f64",
        "bool",
        "char",
        "str",
        "String",
        "Vec",
        "Option",
        "Result",
    ];
    let function: Vec<&str> = vec!["println", "print", "dbg", "panic", "todo", "unimplemented", "main", "new", "default"];
    let literal: Vec<&str> = vec!["true", "false", "None", "Some", "Ok", "Err"];
    assert(Seq::new(control@.len(), |i: int| control@[i]@) =~= control_words());
    assert(Seq::new(declaration@.len(), |i: int| declaration@[i]@) =~= declaration_words());
    assert(Seq::new(module@.len(), |i: int| module@[i]@) =~= module_words());
    assert(Seq::new(types@.len(), |i: int| types@[i]@) =~= type_words());
    assert(Seq::new(function@.len(), |i: int| function@[i]@) =~= function_words());
    assert(Seq::new(literal@.len(), |i: int| literal@[i]@) =~= literal_words());
    if among(word, &control) {
        Rgba { r: 102, g: 153, b: 255, a: 255 }
    } else if among(word, &declaration) {
        Rgba { r: 204, g: 102, b: 255, a: 255 }
    } else if among(word, &module) {
        Rgba { r: 255, g: 102, b: 204, a: 255 }
    } else if among(word, &types) {
        Rgba { r: 102, g: 255, b: 102, a: 255 }
    } else if among(word, &function) {
        Rgba { r: 51, g: 255, b: 255, a: 255 }
    } else if among(word, &literal) {
        Rgba { r: 255, g: 178, b: 51, a: 255 }
    } else {
        Rgba { r: 229, g: 229, b: 229, a: 255 }
    }
}

/// The color of a character that belongs to no word.
pub fn get_punctuation_color(ch: char) -> (c: Rgba)
    ensures
        c == punctuation_color(ch),
{
    if ch == '{' || ch == '}' || ch == '(' || ch == ')' || ch == '[' || ch == ']' {
        Rgba { r: 255, g: 204, b: 102, a: 255 }
    } else if ch == ';' || ch == ',' {
        Rgba { r: 204, g: 204, b: 204, a: 255 }
    } else if ch == '=' || ch == '+' || ch == '-' || ch == '*' || ch == '/' || ch == '%' {
        Rgba { r: 255, g: 255, b: 102, a: 255 }
    } else if ch == '!' {
        Rgba { r: 255, g: 102, b: 255, a: 255 }
    } else if ch == '.' {
        Rgba { r: 204, g: 204, b: 255, a: 255 }
    } else if ch == ':' {
        Rgba { r: 255, g: 204, b: 204, a: 255 }
    } else {
        Rgba { r: 204, g: 204, b: 204, a: 255 }
    }
}

/// Appends the characters of `word` in the color of the word.
fn flush_word(out: &mut Vec<ColoredChar>, word: &str)
    ensures
        final(out)@ == old(out)@ + colored(word@, keyword_color(word@)),
{
    let color = get_keyword_color(word);
    for ch in it: word.chars()
        invariant
            it.seq() == word@,
            color == keyword_color(word@),
            out@ == old(out)@ + colored(word@.take(it.index() as int), color),
    {
        out.push(ColoredChar { ch, color, background_color: None });
        assert(word@.take(it.index() + 1) =~= word@.take(it.index() as int).push(ch));
        assert(colored(word@.take(it.index() + 1), color) =~= colored(
            word@.take(it.index() as int),
            color,
        ).push(plain_char(ch, color)));
        assert(out@ =~= old(out)@ + colored(word@.take(it.index() + 1), color));
    }
    assert(word@.take(word@.len() as int) =~= word@);
}

/// The characters of `code` in their colors, one after the other.
pub fn highlight_chars(code: &str) -> (out: Vec<ColoredChar>)
    ensures
        out@ == highlighted(code@),
{
    let gray = Rgba { r: 128, g: 128, b: 128, a: 255 };
    let mut out: Vec<ColoredChar> = Vec::new();
    let mut word = String::new();
    let mut in_string = false;
    let mut comment = CommentType::Code;
    let mut prev = '\0';
    for ch in it: code.chars()
        invariant
            it.seq() == code@,
            gray == comment_color(),
            pass_prefix(code@, it.index() as int) == (Pass { out: out@, word: word@, in_string, comment, prev }),
    {
        let ghost s = pass_prefix(code@, it.index() as int);
        let no_comment = matches!(comment, CommentType::Code);
        if ch == '"' && no_comment && prev != '\\' {
            in_string = !in_string;
            out.push(ColoredChar { ch, color: Rgba { r: 255, g: 153, b: 153, a: 255 }, background_color: None });
        } else if in_string {
            out.push(ColoredChar { ch, color: Rgba { r: 255, g: 204, b: 102, a: 255 }, background_color: None });
        } else if no_comment && (ch == '/' || ch == '*') && prev == '/' {
            comment = if ch == '/' {
                CommentType::Line
            } else {
                CommentType::Block
            };
            if out.len() > 0 {
                let _ = out.pop();
                out.push(ColoredChar { ch: '/', color: gray, background_color: None });
            }
            out.push(ColoredChar { ch, color: gray, background_color: None });
        } else if !no_comment {
            let line_ends = matches!(comment, CommentType::Line) && ch == '\n';
            let block_ends = matches!(comment, CommentType::Block) && ch == '/' && prev == '*';
            if line_ends || block_ends {
                comment = CommentType::Code;
            }
            out.push(ColoredChar { ch, color: gray, background_color: None });
        } else if ch.is_alphanumeric() || ch == '_' {
            word.push(ch);
        } else {
            flush_word(&mut out, word.as_str());
            word = String::new();
            out.push(ColoredChar { ch, color: get_punctuation_color(ch), background_color: None });
        }
        prev = ch;
        assert(pass_step(s, ch) == (Pass { out: out@, word: word@, in_string, comment, prev }));
    }
    flush_word(&mut out, word.as_str());
    out
}

/// Rust code in colors: its characters as [`highlighted`], broken into
/// lines at the line feeds.
pub fn create_syntax_highlighted_rust(code: &str) -> (r: ColoredText)
    ensures
        r.wf(),
        r@ == push_all(seq![Seq::<ColoredChar>::empty()], highlighted(code@)),
{
    let chars = highlight_chars(code);
    let mut r = ColoredText::new();
    let mut i: usize = 0;
    while i < chars.len()
        invariant
            i <= chars@.len(),
            r.wf(),
            r@ == push_all(seq![Seq::<ColoredChar>::empty()], chars@.take(i as int)),
        decreases chars.len() - i,
    {
        r.push_colored_char(chars[i]);
        assert(chars@.take(i + 1).drop_last() =~= chars@.take(i as int));
        i += 1;
    }
    assert(chars@.take(chars@.len() as int) =~= chars@);
    r
}

} // verus!
