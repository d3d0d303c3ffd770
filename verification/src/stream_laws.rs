//! What holds of every raw stream and of the frames taken from it.

use vstd::prelude::*;
use crate::ansi::reset_text;
use crate::grid::{frame_len, GridView};
use crate::img::{glyph_cell, rendered, row_cells, rows_text};
use crate::settings::PaxciiSettings;
use crate::video::{demuxed, frame_count, frame_view, rendered_frames};

verus! {

/// The raw stream made of `frames`, one behind the other.
pub open spec fn concat_frames(frames: Seq<Seq<u8>>) -> Seq<u8>
    decreases frames.len(),
{
    if frames.len() == 0 {
        Seq::empty()
    } else {
        concat_frames(frames.drop_last()) + frames.last()
    }
}

/// Every one of `frames` holds the bytes of `width` by `height` pixels.
pub open spec fn frames_of_size(frames: Seq<Seq<u8>>, width: u32, height: u32) -> bool {
    forall|k: int| 0 <= k < frames.len() ==> (#[trigger] frames[k]).len() == frame_len(
        width,
        height,
    )
}

/// A stream of frames of one size is as long as all of them, and each
/// frame stands in it at its own place.
proof fn lemma_concat_places(frames: Seq<Seq<u8>>, width: u32, height: u32)
    requires
        frames_of_size(frames, width, height),
    ensures
        concat_frames(frames).len() == frames.len() * frame_len(width, height),
        forall|k: int|
            0 <= k < frames.len() ==> concat_frames(frames).subrange(
                k * frame_len(width, height),
                (k + 1) * frame_len(width, height),
            ) == #[trigger] frames[k],
    decreases frames.len(),
{
    let size = frame_len(width, height) as int;
    let n = frames.len() as int;
    if n == 0 {
        assert(n * size == 0) by (nonlinear_arith)
            requires
                n == 0,
        ;
    } else {
        let before = frames.drop_last();
        lemma_concat_places(before, width, height);
        let head = concat_frames(before);
        let all = concat_frames(frames);
        assert(n * size == (n - 1) * size + size) by (nonlinear_arith);
        assert forall|k: int| 0 <= k < n implies all.subrange(k * size, (k + 1) * size)
            == #[trigger] frames[k] by {
            assert((k + 1) * size == k * size + size) by (nonlinear_arith);
            assert(0 <= k * size && (k + 1) * size <= n * size) by (nonlinear_arith)
                requires
                    0 <= k < n,
                    0 <= size,
            ;
            if k < n - 1 {
                assert((k + 1) * size <= (n - 1) * size) by (nonlinear_arith)
                    requires
                        k + 1 <= n - 1,
                        0 <= size,
                ;
                assert(before[k] == frames[k]);
                assert(all.subrange(k * size, (k + 1) * size) =~= head.subrange(
                    k * size,
                    (k + 1) * size,
                ));
            } else {
                assert(all.subrange(k * size, (k + 1) * size) =~= frames.last());
            }
        }
    }
}

/// Demultiplexing undoes concatenation: a stream made of frames of one
/// size, with fewer bytes behind them than a frame has, is split into
/// exactly those frames, in order.
pub proof fn lemma_demux_concat(frames: Seq<Seq<u8>>, rest: Seq<u8>, width: u32, height: u32)
    requires
        width >= 1,
        height >= 1,
        frames_of_size(frames, width, height),
        rest.len() < frame_len(width, height),
    ensures
        demuxed(concat_frames(frames) + rest, width, height) == frames.map_values(
            |pixels: Seq<u8>| GridView { width: width as nat, height: height as nat, pixels },
        ),
{
    let size = frame_len(width, height) as int;
    let n = frames.len() as int;
    let raw = concat_frames(frames) + rest;
    lemma_concat_places(frames, width, height);
    assert(size > 0) by (nonlinear_arith)
        requires
            size == 3 * width * height,
            width >= 1,
            height >= 1,
    ;
    assert(raw.len() == n * size + rest.len());
    assert(frame_count(raw.len(), width, height) == n) by {
        vstd::arithmetic::div_mod::lemma_fundamental_div_mod_converse(
            raw.len() as int,
            size,
            n,
            rest.len() as int,
        );
    }
    let expected = frames.map_values(
        |pixels: Seq<u8>| GridView { width: width as nat, height: height as nat, pixels },
    );
    assert forall|k: int| 0 <= k < n implies #[trigger] demuxed(raw, width, height)[k]
        == expected[k] by {
        assert(0 <= k * size && (k + 1) * size <= n * size && (k + 1) * size == k * size + size)
            by (nonlinear_arith)
            requires
                0 <= k < n,
                0 <= size,
        ;
        assert(concat_frames(frames).len() == n * size);
        assert(raw.subrange(k * size, (k + 1) * size) =~= concat_frames(frames).subrange(
            k * size,
            (k + 1) * size,
        ));
        assert(frames[k] == concat_frames(frames).subrange(k * size, (k + 1) * size));
    }
    assert(demuxed(raw, width, height) =~= expected);
}

/// Rendering the frames of a concatenated stream gives, frame by frame,
/// what rendering each of the frames alone gives.
pub proof fn lemma_demux_then_render(frames: Seq<Seq<u8>>, rest: Seq<u8>, settings: PaxciiSettings)
    requires
        settings.width >= 1,
        settings.height >= 1,
        frames_of_size(frames, settings.width, settings.height),
        rest.len() < frame_len(settings.width, settings.height),
    ensures
        rendered_frames(concat_frames(frames) + rest, settings) == frames.map_values(
            |pixels: Seq<u8>|
                rendered(
                    GridView {
                        width: settings.width as nat,
                        height: settings.height as nat,
                        pixels,
                    },
                    settings.color,
                    settings.char_set@,
                ),
        ),
{
    let raw = concat_frames(frames) + rest;
    lemma_demux_concat(frames, rest, settings.width, settings.height);
    let grids = demuxed(raw, settings.width, settings.height);
    let expected = frames.map_values(
        |pixels: Seq<u8>|
            rendered(
                GridView { width: settings.width as nat, height: settings.height as nat, pixels },
                settings.color,
                settings.char_set@,
            ),
    );
    assert(grids.len() == frames.len());
    assert forall|k: int| 0 <= k < frames.len() implies #[trigger] rendered_frames(raw, settings)[k]
        == expected[k] by {
        assert(grids[k] == frame_view(raw, settings.width, settings.height, k));
    }
    assert(rendered_frames(raw, settings) =~= expected);
}

/// Every pixel of `grid` has the channels `r`, `g` and `b`.
pub open spec fn solid(grid: GridView, r: u8, g: u8, b: u8) -> bool {
    forall|x: int, y: int|
        0 <= x < grid.width && 0 <= y < grid.height ==> #[trigger] grid.channel(x, y, 0) == r
            && grid.channel(x, y, 1) == g && grid.channel(x, y, 2) == b
}

/// `cell`, `n` times.
pub open spec fn repeated(cell: Seq<char>, n: nat) -> Seq<char>
    decreases n,
{
    if n == 0 {
        Seq::empty()
    } else {
        repeated(cell, (n - 1) as nat) + cell
    }
}

/// In a grid of one color every cell of a row is the cell of that color.
proof fn lemma_solid_cells(
    grid: GridView,
    color: bool,
    ramp: Seq<char>,
    r: u8,
    g: u8,
    b: u8,
    y: int,
    n: nat,
)
    requires
        solid(grid, r, g, b),
        0 <= y < grid.height,
        n <= grid.width,
    ensures
        row_cells(grid, color, ramp, y, n) == repeated(glyph_cell(color, ramp, r, g, b), n),
    decreases n,
{
    if n > 0 {
        lemma_solid_cells(grid, color, ramp, r, g, b, y, (n - 1) as nat);
        assert(grid.channel(n - 1, y, 0) == r);
    }
}

/// In a grid of one color every row is the same text.
proof fn lemma_solid_rows(grid: GridView, color: bool, ramp: Seq<char>, r: u8, g: u8, b: u8, n: nat)
    requires
        solid(grid, r, g, b),
        grid.width >= 1,
        n <= grid.height,
    ensures
        rows_text(grid, color, ramp, n) == repeated(
            repeated(glyph_cell(color, ramp, r, g, b), (grid.width - 1) as nat) + seq!['\n'],
            n,
        ),
    decreases n,
{
    if n > 0 {
        lemma_solid_rows(grid, color, ramp, r, g, b, (n - 1) as nat);
        lemma_solid_cells(grid, color, ramp, r, g, b, n - 1, (grid.width - 1) as nat);
    }
}

/// The frame of a grid of one color draws nothing but the glyph for that
/// color's brightness: each row is the cell of the color, once for every
/// pixel but the last, and a line break.
pub proof fn lemma_solid_frame(grid: GridView, color: bool, ramp: Seq<char>, r: u8, g: u8, b: u8)
    requires
        solid(grid, r, g, b),
        grid.width >= 1,
    ensures
        rendered(grid, color, ramp) == repeated(
            repeated(glyph_cell(color, ramp, r, g, b), (grid.width - 1) as nat) + seq!['\n'],
            grid.height,
        ) + reset_text(),
{
    lemma_solid_rows(grid, color, ramp, r, g, b, grid.height);
}

} // verus!
