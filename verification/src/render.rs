//! Rendering of output records into aligned lines.
//!
//! Each line shows a display text, padding, a styled arrow and a secondary
//! text. The padding equalizes visual width, not raw length: the width of
//! a display text is the number of grapheme clusters left after stripping
//! ANSI escape sequences, so embedded styling does not disturb alignment.

use vstd::prelude::*;
use unicode_segmentation::UnicodeSegmentation;
use crate::matcher::row_view;
use crate::matcher::rows_view;

verus! {

/// What strip_ansi_escapes leaves of a string: its text with ANSI escape
/// sequences removed. The result depends on the characters alone.
pub uninterp spec fn stripped_of(s: Seq<char>) -> Seq<char>;

/// Relies on strip_ansi_escapes::strip_str: returns the input with ANSI
/// escape sequences stripped out.
#[verifier::external_body]
fn strip_ansi(s: &str) -> (r: String)
    ensures
        r@ == stripped_of(s@),
{
    strip_ansi_escapes::strip_str(s)
}

/// The number of extended grapheme clusters of a string, as
/// unicode_segmentation counts them. The result depends on the characters
/// alone.
pub uninterp spec fn grapheme_count_of(s: Seq<char>) -> int;

/// Relies on unicode_segmentation's graphemes: iterates the extended
/// grapheme clusters of the string; here only their number is taken.
#[verifier::external_body]
fn grapheme_count(s: &str) -> (r: usize)
    ensures
        r == grapheme_count_of(s@),
{
    s.graphemes(true).count()
}

/// The visual width of a display text: the grapheme clusters of the text
/// once ANSI escape sequences are stripped, so styling adds nothing.
pub open spec fn vis_width(s: Seq<char>) -> int {
    grapheme_count_of(stripped_of(s))
}

/// Measures the visual width of a display text.
pub fn visible_width(s: &str) -> (w: usize)
    ensures
        w == vis_width(s@),
{
    let stripped = strip_ansi(s);
    grapheme_count(stripped.as_str())
}

/// The widest visual width among the display texts of the records; zero
/// for no records.
pub open spec fn max_vis(rows: Seq<(Seq<char>, Seq<char>)>) -> int
    decreases rows.len(),
{
    if rows.len() == 0 {
        0
    } else {
        let m = max_vis(rows.drop_last());
        let v = vis_width(rows.last().0);
        if v > m {
            v
        } else {
            m
        }
    }
}

/// No record's display text is visually wider than the widest.
pub proof fn lemma_max_vis_ge(rows: Seq<(Seq<char>, Seq<char>)>, i: int)
    requires
        0 <= i < rows.len(),
    ensures
        vis_width(rows[i].0) <= max_vis(rows),
    decreases rows.len(),
{
    if i < rows.len() - 1 {
        lemma_max_vis_ge(rows.drop_last(), i);
    }
}

/// A run of `n` spaces.
pub open spec fn spaces(n: nat) -> Seq<char>
    decreases n,
{
    if n == 0 {
        Seq::empty()
    } else {
        spaces((n - 1) as nat).push(' ')
    }
}

/// Appends `n` spaces to the string.
fn push_spaces(out: &mut String, n: usize)
    ensures
        final(out)@ == old(out)@ + spaces(n as nat),
{
    proof {
        reveal_strlit(" ");
    }
    let mut k: usize = 0;
    proof {
        assert(out@ =~= old(out)@ + spaces(0));
    }
    while k < n
        invariant
            k <= n,
            " "@ == seq![' '],
            out@ == old(out)@ + spaces(k as nat),
        decreases n - k,
    {
        out.append(" ");
        proof {
            assert(out@ =~= old(out)@ + spaces((k + 1) as nat));
        }
        k += 1;
    }
}

/// The styled arrow separating the two texts of a line.
pub open spec fn arrow_sep() -> Seq<char> {
    " \x1B[1;32m->\x1B[0m "@
}

/// One rendered line: the display text padded with exactly as many spaces
/// as its visual width falls short of the target, then the arrow, then the
/// secondary text.
pub open spec fn line_view(row: (Seq<char>, Seq<char>), target: int) -> Seq<char> {
    row.0 + spaces((target - vis_width(row.0)) as nat) + arrow_sep() + row.1
}

/// Renders the records into lines whose display texts are padded to a
/// common visual width: the number of spaces added to each is the widest
/// visual width minus the record's own, never a difference of raw lengths.
pub fn render_lines(rows: &Vec<(String, String)>) -> (r: Vec<String>)
    ensures
        r@.len() == rows@.len(),
        forall|i: int| 0 <= i < rows@.len() ==> (#[trigger] r@[i])@ == line_view(
            row_view(rows@[i]),
            max_vis(rows_view(rows@)),
        ),
{
    let ghost rv = rows_view(rows@);
    let mut widths: Vec<usize> = Vec::new();
    let mut i: usize = 0;
    while i < rows.len()
        invariant
            i <= rows.len(),
            rv == rows_view(rows@),
            rv.len() == rows.len(),
            widths@.len() == i,
            forall|k: int| 0 <= k < i ==> #[trigger] widths@[k] == vis_width(rv[k].0),
        decreases rows.len() - i,
    {
        let w = visible_width(rows[i].0.as_str());
        proof {
            assert(rv[i as int].0 == rows@[i as int].0@);
        }
        widths.push(w);
        i += 1;
    }
    let mut target: usize = 0;
    let mut j: usize = 0;
    proof {
        assert(rv.take(0) =~= Seq::<(Seq<char>, Seq<char>)>::empty());
    }
    while j < rows.len()
        invariant
            j <= rows.len(),
            rv == rows_view(rows@),
            rv.len() == rows.len(),
            widths@.len() == rows.len(),
            forall|k: int| 0 <= k < rows.len() ==> #[trigger] widths@[k] == vis_width(rv[k].0),
            target == max_vis(rv.take(j as int)),
        decreases rows.len() - j,
    {
        if widths[j] > target {
            target = widths[j];
        }
        proof {
            assert(rv.take(j + 1).drop_last() =~= rv.take(j as int));
            assert(rv.take(j + 1).last() == rv[j as int]);
        }
        j += 1;
    }
    proof {
        assert(rv.take(rows.len() as int) =~= rv);
    }
    let mut r: Vec<String> = Vec::new();
    let mut i2: usize = 0;
    while i2 < rows.len()
        invariant
            i2 <= rows.len(),
            rv == rows_view(rows@),
            rv.len() == rows.len(),
            widths@.len() == rows.len(),
            forall|k: int| 0 <= k < rows.len() ==> #[trigger] widths@[k] == vis_width(rv[k].0),
            target == max_vis(rv),
            r@.len() == i2,
            forall|k: int| 0 <= k < i2 ==> (#[trigger] r@[k])@ == line_view(rv[k], target as int),
        decreases rows.len() - i2,
    {
        proof {
            lemma_max_vis_ge(rv, i2 as int);
            assert(rv[i2 as int] == row_view(rows@[i2 as int]));
        }
        let mut line = rows[i2].0.clone();
        push_spaces(&mut line, target - widths[i2]);
        line.append(" \x1B[1;32m->\x1B[0m ");
        line.append(rows[i2].1.as_str());
        proof {
            assert(line@ =~= line_view(rv[i2 as int], target as int));
        }
        r.push(line);
        i2 += 1;
    }
    r
}

} // verus!
