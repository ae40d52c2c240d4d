//! The terminal colour palette shared by every command's human-readable
//! output:
//!   green = inserted/added diff lines
//!   red   = deleted/removed diff lines, and the "error:" prefix
//!   cyan  = tag names
//!   bold  = headings/confirmations
//!   dim   = de-emphasized metadata (commit hashes)
use vstd::prelude::*;
use owo_colors::OwoColorize;

verus! {

/// `s` wrapped in the escape sequences `open` and `close`.
pub open spec fn styled(open: Seq<char>, s: Seq<char>, close: Seq<char>) -> Seq<char> {
    open + s + close
}

/// `OwoColorize::green` on a `str`, rendered with `to_string`: owo-colors
/// writes `ESC[32m`, the text, then `ESC[39m` (foreground back to default).
#[verifier::external_body]
fn paint_green(s: &str) -> (r: String)
    ensures
        r@ == styled("\x1b[32m"@, s@, "\x1b[39m"@),
{
    s.green().to_string()
}

/// `OwoColorize::red` on a `str`, rendered with `to_string`: `ESC[31m`, the
/// text, then `ESC[39m`.
#[verifier::external_body]
fn paint_red(s: &str) -> (r: String)
    ensures
        r@ == styled("\x1b[31m"@, s@, "\x1b[39m"@),
{
    s.red().to_string()
}

/// `OwoColorize::cyan` on a `str`, rendered with `to_string`: `ESC[36m`, the
/// text, then `ESC[39m`.
#[verifier::external_body]
fn paint_cyan(s: &str) -> (r: String)
    ensures
        r@ == styled("\x1b[36m"@, s@, "\x1b[39m"@),
{
    s.cyan().to_string()
}

/// `OwoColorize::bold` on a `str`, rendered with `to_string`: `ESC[1m`, the
/// text, then `ESC[0m` (all attributes reset).
#[verifier::external_body]
fn paint_bold(s: &str) -> (r: String)
    ensures
        r@ == styled("\x1b[1m"@, s@, "\x1b[0m"@),
{
    s.bold().to_string()
}

/// `OwoColorize::dimmed` on a `str`, rendered with `to_string`: `ESC[2m`,
/// the text, then `ESC[0m`.
#[verifier::external_body]
fn paint_dimmed(s: &str) -> (r: String)
    ensures
        r@ == styled("\x1b[2m"@, s@, "\x1b[0m"@),
{
    s.dimmed().to_string()
}

/// An inserted/added diff line, in green.
pub fn inserted(s: &str) -> (r: String)
    ensures
        r@ == styled("\x1b[32m"@, s@, "\x1b[39m"@),
{
    paint_green(s)
}

/// A deleted/removed diff line (and the "error:" prefix), in red.
pub fn deleted(s: &str) -> (r: String)
    ensures
        r@ == styled("\x1b[31m"@, s@, "\x1b[39m"@),
{
    paint_red(s)
}

/// A tag name, in cyan.
pub fn tag_name(s: &str) -> (r: String)
    ensures
        r@ == styled("\x1b[36m"@, s@, "\x1b[39m"@),
{
    paint_cyan(s)
}

/// A heading or confirmation, in bold.
pub fn heading(s: &str) -> (r: String)
    ensures
        r@ == styled("\x1b[1m"@, s@, "\x1b[0m"@),
{
    paint_bold(s)
}

/// De-emphasized metadata such as a commit hash, dimmed.
pub fn dim(s: &str) -> (r: String)
    ensures
        r@ == styled("\x1b[2m"@, s@, "\x1b[0m"@),
{
    paint_dimmed(s)
}

} // verus!
