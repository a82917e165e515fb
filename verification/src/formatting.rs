//! Human-readable rendering of durations and simple tables, each pinned
//! to a spec-level text.

use vstd::prelude::*;
use vstd::string::*;

use crate::numeral::dec_rep;
use crate::numeral::u64_to_string;

verus! {

/// The human-readable text of a duration in seconds: seconds alone under
/// a minute, then minutes and seconds, then hours and minutes, then days
/// and hours.
pub open spec fn duration_rep(seconds: u64) -> Seq<char> {
    if seconds <= 59 {
        dec_rep(seconds as nat) + seq!['s']
    } else if seconds <= 3599 {
        dec_rep((seconds / 60) as nat) + seq!['m', ' '] + dec_rep((seconds % 60) as nat)
            + seq!['s']
    } else if seconds <= 86399 {
        dec_rep((seconds / 3600) as nat) + seq!['h', ' '] + dec_rep(
            ((seconds % 3600) / 60) as nat,
        ) + seq!['m']
    } else {
        dec_rep((seconds / 86400) as nat) + seq!['d', ' '] + dec_rep(
            ((seconds % 86400) / 3600) as nat,
        ) + seq!['h']
    }
}

/// Renders a duration in seconds as human-readable text.
pub fn format_duration(seconds: u64) -> (r: String)
    ensures
        r@ == duration_rep(seconds),
{
    let mut out = String::new();
    if seconds <= 59 {
        let n = u64_to_string(seconds);
        out.append(n.as_str());
        out.push('s');
    } else if seconds <= 3599 {
        let m = u64_to_string(seconds / 60);
        out.append(m.as_str());
        out.push('m');
        out.push(' ');
        let s = u64_to_string(seconds % 60);
        out.append(s.as_str());
        out.push('s');
    } else if seconds <= 86399 {
        let h = u64_to_string(seconds / 3600);
        out.append(h.as_str());
        out.push('h');
        out.push(' ');
        let m = u64_to_string((seconds % 3600) / 60);
        out.append(m.as_str());
        out.push('m');
    } else {
        let d = u64_to_string(seconds / 86400);
        out.append(d.as_str());
        out.push('d');
        out.push(' ');
        let h = u64_to_string((seconds % 86400) / 3600);
        out.append(h.as_str());
        out.push('h');
    }
    assert(out@ =~= duration_rep(seconds));
    out
}

/// A run of `n` copies of one character.
pub open spec fn char_run(c: char, n: int) -> Seq<char> {
    Seq::new(if n < 0 {
        0
    } else {
        n as nat
    }, |i: int| c)
}

/// A column text padded on the right with spaces up to `w`; text already
/// that wide is kept whole.
pub open spec fn pad_spec(c: Seq<char>, w: int) -> Seq<char> {
    if c.len() >= w {
        c
    } else {
        c + char_run(' ', w - c.len())
    }
}

/// How many columns a row renders: as many as both lists cover.
pub open spec fn row_len(cols: Seq<Seq<char>>, widths: Seq<usize>) -> int {
    if cols.len() <= widths.len() {
        cols.len() as int
    } else {
        widths.len() as int
    }
}

/// The rendered row from column `i` on: padded columns joined by
/// ` | `.
pub open spec fn row_from(cols: Seq<Seq<char>>, widths: Seq<usize>, i: int) -> Seq<char>
    decreases row_len(cols, widths) - i,
{
    let n = row_len(cols, widths);
    if i < 0 || i >= n {
        Seq::empty()
    } else if i == n - 1 {
        pad_spec(cols[i], widths[i] as int)
    } else {
        pad_spec(cols[i], widths[i] as int) + seq![' ', '|', ' '] + row_from(cols, widths, i + 1)
    }
}

/// The rendered separator from width `i` on: dash runs joined by `-+-`.
pub open spec fn sep_from(widths: Seq<usize>, i: int) -> Seq<char>
    decreases widths.len() - i,
{
    if i < 0 || i >= widths.len() {
        Seq::empty()
    } else if i == widths.len() - 1 {
        char_run('-', widths[i] as int)
    } else {
        char_run('-', widths[i] as int) + seq!['-', '+', '-'] + sep_from(widths, i + 1)
    }
}

/// Pads a column with spaces on the right up to `w` characters.
fn pad_col(c: &str, w: usize) -> (r: String)
    ensures
        r@ == pad_spec(c@, w as int),
{
    let mut out = String::from_str(c);
    let len = c.unicode_len();
    if len >= w {
        return out;
    }
    let mut k = len;
    assert(out@ =~= c@ + char_run(' ', 0));
    while k < w
        invariant
            c@.len() <= k <= w,
            out@ == c@ + char_run(' ', k - c@.len()),
        decreases w - k,
    {
        out.push(' ');
        k += 1;
        assert(out@ =~= c@ + char_run(' ', k - c@.len()));
    }
    assert(out@ =~= pad_spec(c@, w as int));
    out
}

/// The rendered row from column `i` on, as runtime code.
fn row_part(columns: &[&str], widths: &[usize], i: usize) -> (r: String)
    ensures
        r@ == row_from(columns.deep_view(), widths@, i as int),
    decreases columns.deep_view().len() + widths@.len() - i,
{
    let ncols = columns.len();
    let nwidths = widths.len();
    let n = if ncols <= nwidths {
        ncols
    } else {
        nwidths
    };
    assert(n == row_len(columns.deep_view(), widths@));
    if i >= n {
        String::new()
    } else {
        let padded = pad_col(columns[i], widths[i]);
        assert(columns.deep_view()[i as int] == columns@[i as int]@);
        if i == n - 1 {
            padded
        } else {
            let mut out = padded;
            out.append(" | ");
            proof {
                reveal_strlit(" | ");
                assert(" | "@ =~= seq![' ', '|', ' ']);
            }
            let rest = row_part(columns, widths, i + 1);
            out.append(rest.as_str());
            assert(out@ =~= row_from(columns.deep_view(), widths@, i as int));
            out
        }
    }
}

/// Renders one table row: each column padded to its width, the columns
/// joined by ` | `.
pub fn format_table_row(columns: &[&str], widths: &[usize]) -> (r: String)
    ensures
        r@ == row_from(columns.deep_view(), widths@, 0),
{
    row_part(columns, widths, 0)
}

/// The rendered separator from width `i` on, as runtime code.
fn sep_part(widths: &[usize], i: usize) -> (r: String)
    ensures
        r@ == sep_from(widths@, i as int),
    decreases widths@.len() - i,
{
    let n = widths.len();
    if i >= n {
        String::new()
    } else {
        let w = widths[i];
        let mut out = String::new();
        let mut k: usize = 0;
        while k < w
            invariant
                k <= w,
                out@ == char_run('-', k as int),
            decreases w - k,
        {
            out.push('-');
            k += 1;
            assert(out@ =~= char_run('-', k as int));
        }
        if i == n - 1 {
            out
        } else {
            out.append("-+-");
            proof {
                reveal_strlit("-+-");
                assert("-+-"@ =~= seq!['-', '+', '-']);
            }
            let rest = sep_part(widths, i + 1);
            out.append(rest.as_str());
            assert(out@ =~= sep_from(widths@, i as int));
            out
        }
    }
}

/// Renders a table separator: a dash run per width, the runs joined by
/// `-+-`.
pub fn format_table_separator(widths: &[usize]) -> (r: String)
    ensures
        r@ == sep_from(widths@, 0),
{
    sep_part(widths, 0)
}

} // verus!
