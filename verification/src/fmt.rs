//! Terminal text helpers: ANSI colouring and block indentation.

use vstd::prelude::*;
use vstd::string::StringExecFns;

use crate::text::{chars_to_string, spec_lines, lines_of, to_chars};

verus! {

/// A terminal colour.
#[derive(Clone, Copy, PartialEq, Eq, Structural, Debug)]
pub enum Color {
    Red,
    Green,
    Blue,
    Yellow,
    Cyan,
    Magenta,
    White,
    Black,
    Grey,
}

/// The ANSI escape code that switches to `color`.
pub open spec fn spec_color_code(color: Color) -> Seq<char> {
    match color {
        Color::Red => seq!['\u{1b}', '[', '3', '1', 'm'],
        Color::Green => seq!['\u{1b}', '[', '3', '2', 'm'],
        Color::Blue => seq!['\u{1b}', '[', '3', '4', 'm'],
        Color::Yellow => seq!['\u{1b}', '[', '3', '3', 'm'],
        Color::Cyan => seq!['\u{1b}', '[', '3', '6', 'm'],
        Color::Magenta => seq!['\u{1b}', '[', '3', '5', 'm'],
        Color::White => seq!['\u{1b}', '[', '3', '7', 'm'],
        Color::Black => seq!['\u{1b}', '[', '3', '0', 'm'],
        Color::Grey => seq!['\u{1b}', '[', '9', '0', 'm'],
    }
}

/// The ANSI escape code that resets the colour.
pub open spec fn spec_color_reset() -> Seq<char> {
    seq!['\u{1b}', '[', '0', 'm']
}

/// Wraps `input` in the escape codes for `color`.
pub fn colorize_string(input: &str, color: Color) -> (r: String)
    ensures
        r@ == spec_color_code(color) + input@ + spec_color_reset(),
{
    let code: &str = match color {
        Color::Red => "\u{1b}[31m",
        Color::Green => "\u{1b}[32m",
        Color::Blue => "\u{1b}[34m",
        Color::Yellow => "\u{1b}[33m",
        Color::Cyan => "\u{1b}[36m",
        Color::Magenta => "\u{1b}[35m",
        Color::White => "\u{1b}[37m",
        Color::Black => "\u{1b}[30m",
        Color::Grey => "\u{1b}[90m",
    };
    proof {
        reveal_strlit("\u{1b}[31m");
        reveal_strlit("\u{1b}[32m");
        reveal_strlit("\u{1b}[34m");
        reveal_strlit("\u{1b}[33m");
        reveal_strlit("\u{1b}[36m");
        reveal_strlit("\u{1b}[35m");
        reveal_strlit("\u{1b}[37m");
        reveal_strlit("\u{1b}[30m");
        reveal_strlit("\u{1b}[90m");
        reveal_strlit("\u{1b}[0m");
        assert(code@ =~= spec_color_code(color));
    }
    let mut r = String::new();
    r.append(code);
    r.append(input);
    r.append("\u{1b}[0m");
    proof {
        assert(r@ =~= spec_color_code(color) + input@ + spec_color_reset());
    }
    r
}

/// Each line of `s`, indented by `n` spaces and closed with a newline.
pub open spec fn spec_indent_lines(lines: Seq<Seq<char>>, n: int) -> Seq<char>
    decreases lines.len(),
{
    if lines.len() == 0 {
        Seq::empty()
    } else {
        spec_indent_lines(lines.drop_last(), n) + Seq::new(n as nat, |i: int| ' ') + lines.last()
            + seq!['\n']
    }
}

/// The indented form of `s`: every line prefixed with `n` spaces and
/// closed with a newline.
pub open spec fn spec_indent(s: Seq<char>, n: int) -> Seq<char> {
    spec_indent_lines(spec_lines(s), n)
}

/// Indents every line of `input` by `indent` spaces.
pub fn indent_string(input: &str, indent: usize) -> (r: String)
    ensures
        r@ == spec_indent(input@, indent as int),
{
    let cs = to_chars(input);
    let lines = lines_of(&cs);
    let mut out: Vec<char> = Vec::new();
    let mut i: usize = 0;
    while i < lines.len()
        invariant
            i <= lines@.len(),
            out@ == spec_indent_lines(lines.deep_view().take(i as int), indent as int),
        decreases lines@.len() - i,
    {
        let ghost base = out@;
        let mut k: usize = 0;
        while k < indent
            invariant
                k <= indent,
                out@ == base + Seq::new(k as nat, |x: int| ' '),
            decreases indent - k,
        {
            out.push(' ');
            k += 1;
            proof {
                assert(out@ =~= base + Seq::new(k as nat, |x: int| ' '));
            }
        }
        let line = &lines[i];
        let mut k: usize = 0;
        let ghost base2 = out@;
        while k < line.len()
            invariant
                k <= line@.len(),
                i < lines@.len(),
                line == &lines@[i as int],
                out@ == base2 + line@.take(k as int),
            decreases line@.len() - k,
        {
            out.push(line[k]);
            k += 1;
            proof {
                assert(out@ =~= base2 + line@.take(k as int));
            }
        }
        out.push('\n');
        i += 1;
        proof {
            let dv = lines.deep_view();
            assert(line@.take(line@.len() as int) =~= line@);
            assert(line@ =~= dv[i - 1]);
            assert(dv.take(i as int).drop_last() =~= dv.take(i - 1));
            assert(dv.take(i as int).last() =~= dv[i - 1]);
            assert(out@ =~= spec_indent_lines(dv.take(i as int), indent as int));
        }
    }
    proof {
        assert(lines.deep_view().take(lines@.len() as int) =~= lines.deep_view());
        assert(out@ =~= spec_indent(input@, indent as int));
    }
    chars_to_string(&out)
}

} // verus!
