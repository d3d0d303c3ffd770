//! What holds of every rendered frame.

use vstd::prelude::*;
use crate::ansi::reset_text;
use crate::grid::GridView;
use crate::img::{
    glyph_cell, lemma_ramp_index_nearest, ramp_index, rendered, row_cells, row_text,
    rows_text, truecolor_text,
};
use crate::text::{decimal, lemma_decimal_digits};

verus! {

/// Two grids of one size agree on every pixel outside the last column.
pub open spec fn agree_but_last_column(a: GridView, b: GridView) -> bool {
    &&& a.width == b.width
    &&& a.height == b.height
    &&& forall|x: int, y: int, c: int|
        0 <= x < a.width - 1 && 0 <= y < a.height && 0 <= c < 3 ==> #[trigger] a.channel(x, y, c)
            == b.channel(x, y, c)
}

/// The cells of a row depend on the pixels that they draw alone.
proof fn lemma_row_cells_agree(a: GridView, b: GridView, color: bool, ramp: Seq<char>, y: int, n: nat)
    requires
        agree_but_last_column(a, b),
        0 <= y < a.height,
        n <= a.width - 1,
    ensures
        row_cells(a, color, ramp, y, n) == row_cells(b, color, ramp, y, n),
    decreases n,
{
    if n > 0 {
        lemma_row_cells_agree(a, b, color, ramp, y, (n - 1) as nat);
        assert(a.channel(n - 1, y, 0) == b.channel(n - 1, y, 0));
        assert(a.channel(n - 1, y, 1) == b.channel(n - 1, y, 1));
        assert(a.channel(n - 1, y, 2) == b.channel(n - 1, y, 2));
    }
}

/// The rows of a frame depend on the pixels that they draw alone.
proof fn lemma_rows_agree(a: GridView, b: GridView, color: bool, ramp: Seq<char>, n: nat)
    requires
        agree_but_last_column(a, b),
        a.width >= 1,
        n <= a.height,
    ensures
        rows_text(a, color, ramp, n) == rows_text(b, color, ramp, n),
    decreases n,
{
    if n > 0 {
        lemma_rows_agree(a, b, color, ramp, (n - 1) as nat);
        lemma_row_cells_agree(a, b, color, ramp, n - 1, (a.width - 1) as nat);
    }
}

/// The last pixel of every row is discarded: two grids that differ in their
/// last column at most render as the same frame.
pub proof fn lemma_last_column_discarded(a: GridView, b: GridView, color: bool, ramp: Seq<char>)
    requires
        agree_but_last_column(a, b),
    ensures
        rendered(a, color, ramp) == rendered(b, color, ramp),
{
    if a.width >= 1 {
        lemma_rows_agree(a, b, color, ramp, a.height);
    }
}

/// Without color, the first `n` cells of a row take two characters each.
proof fn lemma_plain_cells_length(grid: GridView, ramp: Seq<char>, y: int, n: nat)
    ensures
        row_cells(grid, false, ramp, y, n).len() == 2 * n,
    decreases n,
{
    if n > 0 {
        lemma_plain_cells_length(grid, ramp, y, (n - 1) as nat);
    }
}

/// Without color, the first `n` rows take `2 * (width - 1) + 1` characters
/// each.
proof fn lemma_plain_rows_length(grid: GridView, ramp: Seq<char>, n: nat)
    requires
        grid.width >= 1,
    ensures
        rows_text(grid, false, ramp, n).len() == n * (2 * (grid.width - 1) + 1),
    decreases n,
{
    let row = 2 * (grid.width - 1) + 1;
    if n > 0 {
        lemma_plain_rows_length(grid, ramp, (n - 1) as nat);
        lemma_plain_cells_length(grid, ramp, n - 1, (grid.width - 1) as nat);
        assert(row_text(grid, false, ramp, n - 1).len() == row);
        assert(n * row == (n - 1) * row + row) by (nonlinear_arith);
    } else {
        assert(n * row == 0) by (nonlinear_arith)
            requires
                n == 0,
        ;
    }
}

/// Without color, a frame of a grid with columns holds, for each row, two
/// characters for every pixel but the last and one line break, and then the
/// four characters of the reset escape.
pub proof fn lemma_plain_frame_length(grid: GridView, ramp: Seq<char>)
    requires
        grid.width >= 1,
    ensures
        rendered(grid, false, ramp).len() == grid.height * (2 * (grid.width - 1) + 1) + 4,
{
    lemma_plain_rows_length(grid, ramp, grid.height);
}

/// The character `c` does not occur in `s`.
pub open spec fn free_of(s: Seq<char>, c: char) -> bool {
    forall|i: int| 0 <= i < s.len() ==> #[trigger] s[i] != c
}

/// How often the character `c` occurs in `s`.
pub open spec fn count_of(s: Seq<char>, c: char) -> nat
    decreases s.len(),
{
    if s.len() == 0 {
        0
    } else {
        count_of(s.drop_last(), c) + if s.last() == c {
            1nat
        } else {
            0nat
        }
    }
}

/// The occurrences in two texts add up in the text made of both.
proof fn lemma_count_concat(a: Seq<char>, b: Seq<char>, c: char)
    ensures
        count_of(a + b, c) == count_of(a, c) + count_of(b, c),
    decreases b.len(),
{
    if b.len() == 0 {
        assert(a + b == a);
    } else {
        assert((a + b).drop_last() == a + b.drop_last());
        lemma_count_concat(a, b.drop_last(), c);
    }
}

/// A character that does not occur is counted zero times.
proof fn lemma_count_free(s: Seq<char>, c: char)
    requires
        free_of(s, c),
    ensures
        count_of(s, c) == 0,
    decreases s.len(),
{
    if s.len() > 0 {
        assert(s.last() == s[s.len() - 1]);
        assert forall|i: int| 0 <= i < s.drop_last().len() implies #[trigger] s.drop_last()[i]
            != c by {
            assert(s.drop_last()[i] == s[i]);
        }
        lemma_count_free(s.drop_last(), c);
    }
}

/// A numeral holds no character that is not a digit.
proof fn lemma_decimal_free(n: nat, c: char)
    requires
        !('0' <= c <= '9'),
    ensures
        free_of(decimal(n), c),
{
    lemma_decimal_digits(n);
}

/// What stands between the first character of a truecolor cell, which is
/// the escape character, and its last two, which are the glyph.
spec fn color_body(r: u8, g: u8, b: u8) -> Seq<char> {
    seq!['[', '3', '8', ';', '2', ';'] + decimal(r as nat) + seq![';'] + decimal(g as nat) + seq![
        ';',
    ] + decimal(b as nat) + seq!['m']
}

/// A truecolor cell is the escape character, a body that begins with `[3`
/// and holds neither an escape character nor a line break, and the glyph
/// twice.
proof fn lemma_truecolor_shape(r: u8, g: u8, b: u8, glyph: char)
    ensures
        truecolor_text(r, g, b, glyph) == seq!['\x1b'] + color_body(r, g, b) + seq![glyph, glyph],
        color_body(r, g, b).len() >= 2,
        color_body(r, g, b)[0] == '[',
        color_body(r, g, b)[1] == '3',
        free_of(color_body(r, g, b), '\x1b'),
        free_of(color_body(r, g, b), '\n'),
{
    lemma_decimal_free(r as nat, '\x1b');
    lemma_decimal_free(g as nat, '\x1b');
    lemma_decimal_free(b as nat, '\x1b');
    lemma_decimal_free(r as nat, '\n');
    lemma_decimal_free(g as nat, '\n');
    lemma_decimal_free(b as nat, '\n');
    assert(truecolor_text(r, g, b, glyph) =~= seq!['\x1b'] + color_body(r, g, b) + seq![
        glyph,
        glyph,
    ]);
}

/// The glyph of a cell is one of the ramp's.
proof fn lemma_glyph_in_ramp(color: bool, ramp: Seq<char>, r: u8, g: u8, b: u8)
    requires
        ramp.len() >= 1,
    ensures
        0 <= ramp_index(color, r, g, b, ramp.len()) < ramp.len(),
{
    lemma_ramp_index_nearest(color, r, g, b, ramp.len());
}

/// A cell holds no line break unless the ramp does.
proof fn lemma_cell_has_no_break(color: bool, ramp: Seq<char>, r: u8, g: u8, b: u8)
    requires
        ramp.len() >= 1,
        free_of(ramp, '\n'),
    ensures
        count_of(glyph_cell(color, ramp, r, g, b), '\n') == 0,
{
    lemma_glyph_in_ramp(color, ramp, r, g, b);
    let glyph = ramp[ramp_index(color, r, g, b, ramp.len())];
    let cell = glyph_cell(color, ramp, r, g, b);
    if color {
        lemma_truecolor_shape(r, g, b, glyph);
        let body = color_body(r, g, b);
        lemma_count_free(body, '\n');
        lemma_count_free(seq!['\x1b'], '\n');
        lemma_count_free(seq![glyph, glyph], '\n');
        lemma_count_concat(seq!['\x1b'], body, '\n');
        lemma_count_concat(seq!['\x1b'] + body, seq![glyph, glyph], '\n');
    } else {
        lemma_count_free(cell, '\n');
    }
}

/// The cells of a row hold no line break unless the ramp does.
proof fn lemma_cells_have_no_break(grid: GridView, color: bool, ramp: Seq<char>, y: int, n: nat)
    requires
        ramp.len() >= 1,
        free_of(ramp, '\n'),
    ensures
        count_of(row_cells(grid, color, ramp, y, n), '\n') == 0,
    decreases n,
{
    if n > 0 {
        lemma_cells_have_no_break(grid, color, ramp, y, (n - 1) as nat);
        lemma_cell_has_no_break(
            color,
            ramp,
            grid.channel(n - 1, y, 0),
            grid.channel(n - 1, y, 1),
            grid.channel(n - 1, y, 2),
        );
        lemma_count_concat(
            row_cells(grid, color, ramp, y, (n - 1) as nat),
            glyph_cell(
                color,
                ramp,
                grid.channel(n - 1, y, 0),
                grid.channel(n - 1, y, 1),
                grid.channel(n - 1, y, 2),
            ),
            '\n',
        );
    } else {
        lemma_count_free(row_cells(grid, color, ramp, y, n), '\n');
    }
}

/// The first `n` rows hold `n` line breaks unless the ramp holds one.
proof fn lemma_rows_breaks(grid: GridView, color: bool, ramp: Seq<char>, n: nat)
    requires
        ramp.len() >= 1,
        free_of(ramp, '\n'),
    ensures
        count_of(rows_text(grid, color, ramp, n), '\n') == n,
    decreases n,
{
    if n > 0 {
        lemma_rows_breaks(grid, color, ramp, (n - 1) as nat);
        let cells = row_cells(grid, color, ramp, n - 1, (grid.width - 1) as nat);
        lemma_cells_have_no_break(grid, color, ramp, n - 1, (grid.width - 1) as nat);
        lemma_count_concat(cells, seq!['\n'], '\n');
        let one = seq!['\n'];
        assert(count_of(one, '\n') == 1) by {
            assert(one.len() == 1 && one.last() == '\n');
            assert(one.drop_last() =~= Seq::<char>::empty());
            assert(count_of(one.drop_last(), '\n') == 0);
        }
        lemma_count_concat(
            rows_text(grid, color, ramp, (n - 1) as nat),
            row_text(grid, color, ramp, n - 1),
            '\n',
        );
    }
}

/// A frame has as many rows as its grid: with a ramp that holds no line
/// break itself, the frame of a grid with columns holds one line break for
/// each row of the grid and no other.
pub proof fn lemma_row_count(grid: GridView, color: bool, ramp: Seq<char>)
    requires
        grid.width >= 1,
        ramp.len() >= 1,
        free_of(ramp, '\n'),
    ensures
        count_of(rendered(grid, color, ramp), '\n') == grid.height,
{
    lemma_rows_breaks(grid, color, ramp, grid.height);
    lemma_count_free(reset_text(), '\n');
    lemma_count_concat(rows_text(grid, color, ramp, grid.height), reset_text(), '\n');
}

/// The reset escape stands in `s` at index `i`.
pub open spec fn reset_at(s: Seq<char>, i: int) -> bool {
    &&& 0 <= i
    &&& i + 4 <= s.len()
    &&& s[i] == '\x1b'
    &&& s[i + 1] == '['
    &&& s[i + 2] == '0'
    &&& s[i + 3] == 'm'
}

/// `s` ends with the reset escape, holds it nowhere else, and does not begin
/// with what would complete one: its last three characters.
spec fn ends_clean(s: Seq<char>) -> bool {
    &&& s.len() >= 4
    &&& forall|i: int| #[trigger] reset_at(s, i) <==> i == s.len() - 4
    &&& !(s[0] == '[' && s[1] == '0' && s[2] == 'm')
}

/// A text in which no reset escape begins, and which does not begin like
/// the end of one, keeps a clean text behind it clean.
proof fn lemma_block_then(p: Seq<char>, s: Seq<char>)
    requires
        ends_clean(s),
        forall|k: int| 0 <= k < p.len() ==> !reset_at(p + s, k),
        p.len() > 0 ==> !((p + s)[0] == '[' && (p + s)[1] == '0' && (p + s)[2] == 'm'),
    ensures
        ends_clean(p + s),
{
    let t = p + s;
    if p.len() == 0 {
        assert(t == s);
    } else {
        assert forall|i: int| #[trigger] reset_at(t, i) <==> i == t.len() - 4 by {
            if i >= p.len() {
                let j = i - p.len();
                if i + 4 <= t.len() {
                    assert(t[i] == s[j] && t[i + 1] == s[j + 1] && t[i + 2] == s[j + 2] && t[i + 3]
                        == s[j + 3]);
                }
                assert(reset_at(t, i) <==> reset_at(s, j));
            }
        }
    }
}

/// A line break before a clean text leaves it clean.
proof fn lemma_break_then(s: Seq<char>)
    requires
        ends_clean(s),
    ensures
        ends_clean(seq!['\n'] + s),
{
    lemma_block_then(seq!['\n'], s);
}

/// A cell before a clean text leaves it clean.
proof fn lemma_cell_then(color: bool, ramp: Seq<char>, r: u8, g: u8, b: u8, s: Seq<char>)
    requires
        ends_clean(s),
    ensures
        ends_clean(glyph_cell(color, ramp, r, g, b) + s),
{
    let glyph = ramp[ramp_index(color, r, g, b, ramp.len())];
    let cell = glyph_cell(color, ramp, r, g, b);
    let t = cell + s;
    if color {
        lemma_truecolor_shape(r, g, b, glyph);
        let body = color_body(r, g, b);
        let n = body.len() as int;
        assert(cell.len() == n + 3);
        assert(cell[0] == '\x1b');
        assert forall|k: int| 1 <= k <= n implies cell[k] == body[k - 1] by {}
        assert(cell[n + 1] == glyph && cell[n + 2] == glyph);
        assert forall|k: int| 0 <= k < cell.len() implies !reset_at(t, k) by {
            if k == 0 {
                assert(t[2] == cell[2] && cell[2] == body[1]);
            } else if k <= n {
                assert(t[k] == cell[k] && cell[k] == body[k - 1]);
            } else if k == n + 1 {
                assert(t[k] == glyph && t[k + 1] == cell[k + 1]);
            } else {
                assert(t[k + 1] == s[0] && t[k + 2] == s[1] && t[k + 3] == s[2]);
            }
        }
        assert(t[0] == '\x1b');
        lemma_block_then(cell, s);
    } else {
        assert(cell.len() == 2 && cell[0] == glyph && cell[1] == glyph);
        assert forall|k: int| 0 <= k < cell.len() implies !reset_at(t, k) by {
            if k == 0 {
                assert(t[0] == glyph && t[1] == glyph);
            } else {
                assert(t[2] == s[0] && t[3] == s[1] && t[4] == s[2]);
            }
        }
        assert(t[0] == glyph && t[1] == glyph);
        lemma_block_then(cell, s);
    }
}

/// The cells of a row before a clean text leave it clean.
proof fn lemma_cells_then(
    grid: GridView,
    color: bool,
    ramp: Seq<char>,
    y: int,
    n: nat,
    s: Seq<char>,
)
    requires
        ends_clean(s),
    ensures
        ends_clean(row_cells(grid, color, ramp, y, n) + s),
    decreases n,
{
    if n == 0 {
        assert(row_cells(grid, color, ramp, y, n) + s == s);
    } else {
        let cell = glyph_cell(
            color,
            ramp,
            grid.channel(n - 1, y, 0),
            grid.channel(n - 1, y, 1),
            grid.channel(n - 1, y, 2),
        );
        lemma_cell_then(
            color,
            ramp,
            grid.channel(n - 1, y, 0),
            grid.channel(n - 1, y, 1),
            grid.channel(n - 1, y, 2),
            s,
        );
        lemma_cells_then(grid, color, ramp, y, (n - 1) as nat, cell + s);
        assert(row_cells(grid, color, ramp, y, n) + s == row_cells(
            grid,
            color,
            ramp,
            y,
            (n - 1) as nat,
        ) + (cell + s));
    }
}

/// Rows before a clean text leave it clean.
proof fn lemma_rows_then(grid: GridView, color: bool, ramp: Seq<char>, n: nat, s: Seq<char>)
    requires
        ends_clean(s),
    ensures
        ends_clean(rows_text(grid, color, ramp, n) + s),
    decreases n,
{
    if n == 0 {
        assert(rows_text(grid, color, ramp, n) + s == s);
    } else {
        let cells = row_cells(grid, color, ramp, n - 1, (grid.width - 1) as nat);
        lemma_break_then(s);
        lemma_cells_then(grid, color, ramp, n - 1, (grid.width - 1) as nat, seq!['\n'] + s);
        let row_on = cells + (seq!['\n'] + s);
        lemma_rows_then(grid, color, ramp, (n - 1) as nat, row_on);
        assert(rows_text(grid, color, ramp, n) + s == rows_text(grid, color, ramp, (n - 1) as nat)
            + row_on);
    }
}

/// The reset escape appears in a frame exactly once, at its end: whatever
/// the grid, the ramp and the color mode, it stands at the last four
/// characters and begins at no other index.
pub proof fn lemma_reset_once(grid: GridView, color: bool, ramp: Seq<char>)
    ensures
        rendered(grid, color, ramp).len() >= 4,
        forall|i: int| #[trigger]
            reset_at(rendered(grid, color, ramp), i) <==> i == rendered(grid, color, ramp).len()
                - 4,
{
    let reset = reset_text();
    assert(ends_clean(reset)) by {
        assert(reset.len() == 4);
        assert(reset_at(reset, 0));
    }
    if grid.width >= 1 {
        lemma_rows_then(grid, color, ramp, grid.height, reset);
    }
}

} // verus!
