use icu_properties::props::EastAsianWidth;
use icu_properties::CodePointMapData;
use vstd::prelude::*;
use vstd::string::StrSliceExecFns;

verus! {

/// East Asian Width category of a character, as the Unicode database gives it.
#[derive(Clone, Copy, Debug, PartialEq, Eq, Structural)]
pub enum WidthClass {
    Neutral,
    Ambiguous,
    Halfwidth,
    Fullwidth,
    Narrow,
    Wide,
    /// A value that none of the categories above names.
    Unrecognized,
}

/// The East Asian Width category that the Unicode character database assigns to `c`.
pub uninterp spec fn east_asian_width_of(c: char) -> WidthClass;

/// The Unicode lowercase mapping of the whole string `s`.
pub uninterp spec fn lowercase_of(s: Seq<char>) -> Seq<char>;

/// Relies on icu_properties' `CodePointMapData::<EastAsianWidth>::new().get`: the
/// East_Asian_Width value of `c` from the compiled Unicode data, which depends on `c` alone.
#[verifier::external_body]
fn east_asian_width(c: char) -> (r: WidthClass)
    ensures
        r == east_asian_width_of(c),
{
    match CodePointMapData::<EastAsianWidth>::new().get(c) {
        EastAsianWidth::Neutral => WidthClass::Neutral,
        EastAsianWidth::Ambiguous => WidthClass::Ambiguous,
        EastAsianWidth::Halfwidth => WidthClass::Halfwidth,
        EastAsianWidth::Fullwidth => WidthClass::Fullwidth,
        EastAsianWidth::Narrow => WidthClass::Narrow,
        EastAsianWidth::Wide => WidthClass::Wide,
        _ => WidthClass::Unrecognized,
    }
}

/// Relies on `str::to_lowercase`: the Unicode lowercase mapping of `s`, which depends on
/// the characters of `s` alone.
#[verifier::external_body]
fn to_lowercase(s: &str) -> (r: String)
    ensures
        r@ == lowercase_of(s@),
{
    s.to_lowercase()
}

/// True when `s` starts with one of the East Asian language subtags `ja`, `zh` or `ko`
/// (compared as written, so `s` is expected in lowercase already).
pub open spec fn has_east_asian_prefix(s: Seq<char>) -> bool {
    s.len() >= 2 && {
        ||| s[0] == 'j' && s[1] == 'a'
        ||| s[0] == 'z' && s[1] == 'h'
        ||| s[0] == 'k' && s[1] == 'o'
    }
}

/// True when the locale hint names an East Asian language, case-insensitively.
pub open spec fn is_east_asian(locale: Option<Seq<char>>) -> bool {
    match locale {
        Some(l) => has_east_asian_prefix(lowercase_of(l)),
        None => false,
    }
}

/// The display width of a character of category `class`; `east_asian` says whether the
/// locale is East Asian, which decides the ambiguous category.
pub open spec fn display_width(class: WidthClass, east_asian: bool) -> int {
    match class {
        WidthClass::Fullwidth | WidthClass::Wide => 2,
        WidthClass::Ambiguous => if east_asian { 2 } else { 1 },
        _ => 1,
    }
}

/// The view of an optional string hint.
pub open spec fn hint_view(locale: Option<String>) -> Option<Seq<char>> {
    match locale {
        Some(l) => Some(l@),
        None => None,
    }
}

/// The width that `width_of_text` gives for `text` under the locale hint `locale`.
pub open spec fn text_width(text: Seq<char>, locale: Option<Seq<char>>) -> int {
    if text.len() == 0 {
        -1
    } else {
        display_width(east_asian_width_of(text[0]), is_east_asian(locale))
    }
}

/// Whether an already lowercased locale identifier starts with `ja`, `zh` or `ko`.
pub fn has_east_asian_lowercase_prefix(lowered: &str) -> (r: bool)
    ensures
        r == has_east_asian_prefix(lowered@),
{
    if lowered.unicode_len() < 2 {
        return false;
    }
    let a = lowered.get_char(0);
    let b = lowered.get_char(1);
    (a == 'j' && b == 'a') || (a == 'z' && b == 'h') || (a == 'k' && b == 'o')
}

/// Whether the locale hint names an East Asian language: its identifier starts with
/// `ja`, `zh` or `ko`, case-insensitively.
pub fn is_east_asian_locale(locale: Option<String>) -> (r: bool)
    ensures
        r == is_east_asian(hint_view(locale)),
{
    match locale {
        Some(loc) => {
            let lowered = to_lowercase(loc.as_str());
            has_east_asian_lowercase_prefix(lowered.as_str())
        },
        None => false,
    }
}

/// The display width of a character of category `eaw` under the locale hint `locale`.
pub fn calculate_display_width(eaw: WidthClass, locale: Option<String>) -> (r: i32)
    ensures
        r == display_width(eaw, is_east_asian(hint_view(locale))),
        r == 1 || r == 2,
{
    match eaw {
        WidthClass::Fullwidth | WidthClass::Wide => 2,
        WidthClass::Ambiguous => {
            if is_east_asian_locale(locale) {
                2
            } else {
                1
            }
        },
        _ => 1,
    }
}

/// The display width of the first character of `input` under the locale hint `locale`,
/// or -1 when `input` is empty.
pub fn eaw_width(input: String, locale: Option<String>) -> (r: i32)
    ensures
        r == text_width(input@, hint_view(locale)),
        r == -1 <==> input@.len() == 0,
        input@.len() > 0 ==> (r == 1 || r == 2),
{
    let text = input.as_str();
    if text.is_empty() {
        return -1;
    }
    let first = text.get_char(0);
    let class = east_asian_width(first);
    calculate_display_width(class, locale)
}

/// For a character whose category is not ambiguous, the display width does not depend on
/// the locale.
pub proof fn width_ignores_locale_unless_ambiguous(c: char, a: Option<Seq<char>>, b: Option<Seq<char>>)
    requires
        east_asian_width_of(c) != WidthClass::Ambiguous,
    ensures
        text_width(seq![c], a) == text_width(seq![c], b),
        text_width(seq![c], a) == 1 || text_width(seq![c], a) == 2,
{
}

} // verus!
