use owo_colors::OwoColorize;
use vstd::prelude::*;

verus! {

/// `s` in the terminal foreground colour whose SGR code is `code`, followed
/// by the code that restores the default foreground.
pub open spec fn ansi_fg(code: Seq<char>, s: Seq<char>) -> Seq<char> {
    seq!['\x1b', '['] + code + seq!['m'] + s + seq!['\x1b', '[', '3', '9', 'm']
}

/// Relies on `owo_colors::OwoColorize::blue`: its display writes the blue
/// foreground code 34 before the text and code 39 after it.
#[verifier::external_body]
fn paint_blue(s: &str) -> (r: String)
    ensures
        r@ == ansi_fg(seq!['3', '4'], s@),
{
    s.blue().to_string()
}

/// Relies on `owo_colors::OwoColorize::bright_black`: its display writes the
/// bright-black foreground code 90 before the text and code 39 after it.
#[verifier::external_body]
fn paint_bright_black(s: &str) -> (r: String)
    ensures
        r@ == ansi_fg(seq!['9', '0'], s@),
{
    s.bright_black().to_string()
}

/// `u8::is_ascii_control`.
pub open spec fn is_control(b: u8) -> bool {
    b < 0x20 || b == 0x7f
}

/// How a byte shows in the text column of a dump: a printable byte as its
/// character in blue, a control byte as a dimmed `.`.
pub fn to_avl_ascii(b: u8) -> (r: String)
    ensures
        r@ == if is_control(b) {
            ansi_fg(seq!['9', '0'], seq!['.'])
        } else {
            ansi_fg(seq!['3', '4'], seq![b as char])
        },
{
    let mut s = String::new();
    if b < 0x20 || b == 0x7f {
        s.push('.');
        paint_bright_black(s.as_str())
    } else {
        s.push(b as char);
        paint_blue(s.as_str())
    }
}

} // verus!
