use owo_colors::AnsiColors;
use vstd::prelude::*;

verus! {

/// The decimal digit for `n`, for `n` below eight.
pub open spec fn digit(n: u8) -> char {
    seq!['0', '1', '2', '3', '4', '5', '6', '7'][n as int]
}

/// `text` between the escape sequence that selects basic colours `fg` and
/// `bg` and the one that resets all attributes.
pub open spec fn painted(text: Seq<char>, fg: u8, bg: u8) -> Seq<char> {
    seq!['\u{1b}', '[', '3', digit(fg), ';', '4', digit(bg), 'm'] + text + seq!['\u{1b}', '[', '0', 'm']
}

/// Relies on owo_colors' `Style::style` with `AnsiColors` foreground and
/// background, listed in palette order: its `Display` writes
/// `ESC[3<fg>;4<bg>m`, the text, then `ESC[0m`.
#[verifier::external_body]
pub(crate) fn paint(text: &str, fg: u8, bg: u8) -> (r: String)
    requires
        fg < 8,
        bg < 8,
    ensures
        r@ == painted(text@, fg, bg),
{
    let palette = [
        AnsiColors::Black, AnsiColors::Red, AnsiColors::Green, AnsiColors::Yellow,
        AnsiColors::Blue, AnsiColors::Magenta, AnsiColors::Cyan, AnsiColors::White,
    ];
    let style = owo_colors::Style::new().color(palette[fg as usize]).on_color(palette[bg as usize]);
    style.style(text).to_string()
}

} // verus!
