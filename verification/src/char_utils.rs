//! Which characters can be typed on a US keyboard, and why the others cannot.

use vstd::prelude::*;
use vstd::string::*;

verus! {

/// Why a character cannot be typed.
#[derive(Debug, Clone, Copy, PartialEq, Eq)]
pub enum UnTypeableReason {
    Emoji,
    Arabic,
    Hebrew,
    /// Chinese, Japanese or Korean.
    CJK,
    Cyrillic,
    MathSymbol,
    BoxDrawing,
    OtherSymbol,
}

/// Whether `ch` is typeable: printable ASCII, tab, line feed, carriage
/// return, or the upper half of Latin-1 from the no-break space on.
pub open spec fn typeable(ch: char) -> bool {
    let c = ch as u32;
    ||| 0x20 <= c <= 0x7E
    ||| c == 0x09
    ||| c == 0x0A
    ||| c == 0x0D
    ||| 0xA0 <= c <= 0xFF
}

/// The block of Unicode that the untypeable character `ch` belongs to.
pub open spec fn reason_of(ch: char) -> UnTypeableReason {
    let c = ch as u32;
    if 0x1F300 <= c <= 0x1F9FF || 0x1FA00 <= c <= 0x1FAFF || 0x2600 <= c <= 0x26FF || 0x2700 <= c
        <= 0x27BF {
        UnTypeableReason::Emoji
    } else if 0x0600 <= c <= 0x06FF || 0x0750 <= c <= 0x077F || 0x08A0 <= c <= 0x08FF {
        UnTypeableReason::Arabic
    } else if 0x0590 <= c <= 0x05FF {
        UnTypeableReason::Hebrew
    } else if 0x4E00 <= c <= 0x9FFF || 0x3040 <= c <= 0x309F || 0x30A0 <= c <= 0x30FF || 0xAC00 <= c
        <= 0xD7AF {
        UnTypeableReason::CJK
    } else if 0x0400 <= c <= 0x04FF || 0x0500 <= c <= 0x052F {
        UnTypeableReason::Cyrillic
    } else if 0x2200 <= c <= 0x22FF {
        UnTypeableReason::MathSymbol
    } else if 0x2500 <= c <= 0x257F {
        UnTypeableReason::BoxDrawing
    } else {
        UnTypeableReason::OtherSymbol
    }
}

/// The words for a reason in a description.
pub open spec fn category_of(reason: UnTypeableReason) -> Seq<char> {
    match reason {
        UnTypeableReason::Emoji => "emoji"@,
        UnTypeableReason::Arabic => "Arabic script"@,
        UnTypeableReason::Hebrew => "Hebrew script"@,
        UnTypeableReason::CJK => "CJK character (Chinese/Japanese/Korean)"@,
        UnTypeableReason::Cyrillic => "Cyrillic script"@,
        UnTypeableReason::MathSymbol => "mathematical symbol"@,
        UnTypeableReason::BoxDrawing => "box-drawing character"@,
        UnTypeableReason::OtherSymbol => "special Unicode symbol"@,
    }
}

/// The description of the untypeable character `ch`: the character in
/// single quotes, the words for its reason in brackets, and what is wrong
/// with it.
pub open spec fn description_of(ch: char) -> Seq<char> {
    seq!['\'', ch] + "' ("@ + category_of(reason_of(ch)) + ") - not typeable on US keyboard"@
}

/// Determines if a character can be easily typed on a US keyboard.
pub fn is_typeable_on_us_keyboard(ch: char) -> (r: bool)
    ensures
        r == typeable(ch),
{
    let c: u32 = ch as u32;
    (0x20 <= c && c <= 0x7E) || c == 0x09 || c == 0x0A || c == 0x0D || (0xA0 <= c && c <= 0xFF)
}

/// Why `ch` cannot be typed; `None` if it can.
pub fn get_untypeable_reason(ch: char) -> (r: Option<UnTypeableReason>)
    ensures
        r == if typeable(ch) {
            None
        } else {
            Some(reason_of(ch))
        },
{
    if is_typeable_on_us_keyboard(ch) {
        return None;
    }
    let c: u32 = ch as u32;
    let reason = if (0x1F300 <= c && c <= 0x1F9FF) || (0x1FA00 <= c && c <= 0x1FAFF) || (0x2600 <= c && c
        <= 0x26FF) || (0x2700 <= c && c <= 0x27BF) {
        UnTypeableReason::Emoji
    } else if (0x0600 <= c && c <= 0x06FF) || (0x0750 <= c && c <= 0x077F) || (0x08A0 <= c && c <= 0x08FF) {
        UnTypeableReason::Arabic
    } else if 0x0590 <= c && c <= 0x05FF {
        UnTypeableReason::Hebrew
    } else if (0x4E00 <= c && c <= 0x9FFF) || (0x3040 <= c && c <= 0x309F) || (0x30A0 <= c && c <= 0x30FF)
        || (0xAC00 <= c && c <= 0xD7AF) {
        UnTypeableReason::CJK
    } else if (0x0400 <= c && c <= 0x04FF) || (0x0500 <= c && c <= 0x052F) {
        UnTypeableReason::Cyrillic
    } else if 0x2200 <= c && c <= 0x22FF {
        UnTypeableReason::MathSymbol
    } else if 0x2500 <= c && c <= 0x257F {
        UnTypeableReason::BoxDrawing
    } else {
        UnTypeableReason::OtherSymbol
    };
    Some(reason)
}

/// The words for a reason in a description.
pub fn category_name(reason: UnTypeableReason) -> (name: &'static str)
    ensures
        name@ == category_of(reason),
{
    match reason {
        UnTypeableReason::Emoji => "emoji",
        UnTypeableReason::Arabic => "Arabic script",
        UnTypeableReason::Hebrew => "Hebrew script",
        UnTypeableReason::CJK => "CJK character (Chinese/Japanese/Korean)",
        UnTypeableReason::Cyrillic => "Cyrillic script",
        UnTypeableReason::MathSymbol => "mathematical symbol",
        UnTypeableReason::BoxDrawing => "box-drawing character",
        UnTypeableReason::OtherSymbol => "special Unicode symbol",
    }
}

/// A description, for a reader, of why `ch` cannot be typed; `None` if it can.
pub fn get_untypeable_description(ch: char) -> (r: Option<String>)
    ensures
        typeable(ch) ==> r is None,
        !typeable(ch) ==> r is Some && r->0@ == description_of(ch),
{
    match get_untypeable_reason(ch) {
        None => None,
        Some(reason) => {
            let mut text = String::new();
            text.push('\'');
            text.push(ch);
            text.append("' (");
            text.append(category_name(reason));
            text.append(") - not typeable on US keyboard");
            assert(text@ =~= description_of(ch));
            Some(text)
        },
    }
}

} // verus!
