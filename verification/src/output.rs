//! The styled lines that the commands print.
//!
//! Each function returns the line (or lines) that the command-line tool
//! writes; printing them is left to the caller.

use vstd::prelude::*;

use crate::text::{cat, cat3, strings_view};

verus! {

/// ANSI escape for red text.
pub const RED: &'static str = "\x1b[0;31m";
/// ANSI escape for green text.
pub const GREEN: &'static str = "\x1b[0;32m";
/// ANSI escape for yellow text.
pub const YELLOW: &'static str = "\x1b[0;33m";
/// ANSI escape for blue text.
pub const BLUE: &'static str = "\x1b[0;34m";
/// ANSI escape for bold text.
pub const BOLD: &'static str = "\x1b[1m";
/// ANSI escape that ends styling.
pub const RESET: &'static str = "\x1b[0m";
/// The horizontal rule between sections.
pub const SEPARATOR: &'static str = "━━━━━━━━━━━━━━━━━━━━━━━━━━━━━━━━━━━━━━━━";

/// `text` in bold.
pub open spec fn bold_view(text: Seq<char>) -> Seq<char> {
    BOLD@ + text + RESET@
}

/// A line that starts with a styled marker.
pub open spec fn marked_view(style: Seq<char>, marker: Seq<char>, msg: Seq<char>) -> Seq<char> {
    style + marker + RESET@ + " "@ + msg
}

fn marked(style: &str, marker: &str, msg: &str) -> (r: String)
    ensures
        r@ == marked_view(style@, marker@, msg@),
{
    let head = cat3(style, marker, RESET);
    cat3(head.as_str(), " ", msg)
}

/// Format text as bold.
pub fn bold(text: &str) -> (r: String)
    ensures
        r@ == bold_view(text@),
{
    cat3(BOLD, text, RESET)
}

/// An informational line (ℹ).
pub fn info(msg: &str) -> (r: String)
    ensures
        r@ == marked_view(BLUE@, "ℹ"@, msg@),
{
    marked(BLUE, "ℹ", msg)
}

/// A success line (✓).
pub fn success(msg: &str) -> (r: String)
    ensures
        r@ == marked_view(GREEN@, "✓"@, msg@),
{
    marked(GREEN, "✓", msg)
}

/// A warning line (⚠).
pub fn warn(msg: &str) -> (r: String)
    ensures
        r@ == marked_view(YELLOW@, "⚠"@, msg@),
{
    marked(YELLOW, "⚠", msg)
}

/// An error line (✗), meant for standard error.
pub fn error(msg: &str) -> (r: String)
    ensures
        r@ == marked_view(RED@, "✗"@, msg@),
{
    marked(RED, "✗", msg)
}

/// An action or suggestion line (→).
pub fn action(msg: &str) -> (r: String)
    ensures
        r@ == marked_view(BOLD@, "→"@, msg@),
{
    marked(BOLD, "→", msg)
}

/// The horizontal separator line.
pub fn separator() -> (r: String)
    ensures
        r@ == SEPARATOR@,
{
    SEPARATOR.to_string()
}

/// The lines of a "ready" header naming the branch.
pub open spec fn ready_view(message: Seq<char>, branch: Seq<char>) -> Seq<Seq<char>> {
    seq![
        Seq::empty(),
        SEPARATOR@,
        GREEN@ + BOLD@ + message + RESET@ + " on "@ + BOLD@ + branch + RESET@,
    ]
}

/// The lines of a "ready" header naming the branch.
pub fn ready(message: &str, branch: &str) -> (r: Vec<String>)
    ensures
        strings_view(r@) == ready_view(message@, branch@),
{
    let mut v: Vec<String> = Vec::new();
    v.push(String::new());
    v.push(SEPARATOR.to_string());
    let a = cat3(GREEN, BOLD, message);
    let b = cat3(a.as_str(), RESET, " on ");
    let c = cat3(b.as_str(), BOLD, branch);
    v.push(cat(c.as_str(), RESET));
    assert(strings_view(v@) =~= ready_view(message@, branch@));
    v
}

/// Each text indented by two spaces.
pub open spec fn indented_view(lines: Seq<Seq<char>>) -> Seq<Seq<char>> {
    lines.map_values(|l: Seq<char>| "  "@ + l)
}

fn indent_all(lines: &Vec<String>, out: &mut Vec<String>)
    ensures
        strings_view(final(out)@) == strings_view(old(out)@) + indented_view(strings_view(lines@)),
{
    let mut i: usize = 0;
    while i < lines.len()
        invariant
            i <= lines.len(),
            strings_view(out@) == strings_view(old(out)@) + indented_view(
                strings_view(lines@).take(i as int),
            ),
        decreases lines.len() - i,
    {
        let ghost before = out@;
        out.push(cat("  ", lines[i].as_str()));
        proof {
            assert(strings_view(out@) =~= strings_view(before).push("  "@ + lines@[i as int]@));
            assert(indented_view(strings_view(lines@).take(i + 1)) =~= indented_view(
                strings_view(lines@).take(i as int),
            ).push("  "@ + lines@[i as int]@));
        }
        i = i + 1;
    }
    assert(strings_view(lines@).take(lines.len() as int) =~= strings_view(lines@));
}

/// The lines of a "Next:" block that lists commands.
pub open spec fn hints_view(lines: Seq<Seq<char>>) -> Seq<Seq<char>> {
    seq![Seq::empty(), BOLD@ + "Next:"@ + RESET@] + indented_view(lines)
}

/// The lines of a "Next:" block that lists commands.
pub fn hints(lines: &Vec<String>) -> (r: Vec<String>)
    ensures
        strings_view(r@) == hints_view(strings_view(lines@)),
{
    let mut v: Vec<String> = Vec::new();
    v.push(String::new());
    v.push(cat3(BOLD, "Next:", RESET));
    indent_all(lines, &mut v);
    v
}

/// The lines of a "Try:" block, printed to standard error after an error.
pub open spec fn error_footer_view(lines: Seq<Seq<char>>) -> Seq<Seq<char>> {
    seq![Seq::empty(), BOLD@ + "Try:"@ + RESET@] + indented_view(lines)
}

/// The lines of a "Try:" block, printed to standard error after an error.
pub fn error_footer(lines: &Vec<String>) -> (r: Vec<String>)
    ensures
        strings_view(r@) == error_footer_view(strings_view(lines@)),
{
    let mut v: Vec<String> = Vec::new();
    v.push(String::new());
    v.push(cat3(BOLD, "Try:", RESET));
    indent_all(lines, &mut v);
    v
}

} // verus!
