//! The escape sequences that style a line of the menu.
//!
//! The sequences are those that `nu_ansi_term` writes for a style that is
//! italic, struck through, both or neither, when it is built without its
//! feature `gnu_legacy`, as it is here.

use nu_ansi_term::Style;
use vstd::prelude::*;

verus! {

/// The sequence that ends all styling.
pub const RESET: &'static str = "\x1b[0m";

/// The sequence that `nu_ansi_term` writes in front of styled text: nothing
/// for the plain style, else the codes of what is set, 3 for italic and 9
/// for struck through, between `ESC [` and `m`.
pub open spec fn prefix_text(italic: bool, strikethrough: bool) -> Seq<char> {
    if italic && strikethrough {
        "\x1b[3;9m"@
    } else if italic {
        "\x1b[3m"@
    } else if strikethrough {
        "\x1b[9m"@
    } else {
        ""@
    }
}

/// The sequence that `nu_ansi_term` writes behind styled text: nothing for
/// the plain style, else the reset.
pub open spec fn suffix_text(italic: bool, strikethrough: bool) -> Seq<char> {
    if italic || strikethrough {
        RESET@
    } else {
        ""@
    }
}

/// `nu_ansi_term::Style::prefix`, written out, for the style that has only
/// `is_italic` and `is_strikethrough` set as given.
#[verifier::external_body]
pub(crate) fn style_prefix(italic: bool, strikethrough: bool) -> (text: String)
    ensures
        text@ == prefix_text(italic, strikethrough),
{
    let style = Style { is_italic: italic, is_strikethrough: strikethrough, ..Style::default() };
    style.prefix().to_string()
}

/// `nu_ansi_term::Style::suffix`, written out, for the style that has only
/// `is_italic` and `is_strikethrough` set as given.
#[verifier::external_body]
pub(crate) fn style_suffix(italic: bool, strikethrough: bool) -> (text: String)
    ensures
        text@ == suffix_text(italic, strikethrough),
{
    let style = Style { is_italic: italic, is_strikethrough: strikethrough, ..Style::default() };
    style.suffix().to_string()
}

/// `nu_ansi_term::ansi::RESET`: the sequence that ends all styling.
#[verifier::external_body]
pub(crate) fn reset() -> (text: &'static str)
    ensures
        text@ == RESET@,
{
    nu_ansi_term::ansi::RESET
}

} // verus!
