//! Tiled frame assembly.
//!
//! A frame is rendered by partitioning the image into equal-width vertical
//! strips, shading each strip into a private tile, and joining the tiles
//! back into the frame canvas in strip-index order.  The shading of a pixel
//! is floating-point work done by the driver; what is verified here is that
//! a tile is filled exactly from its list of shaded colours and that the
//! reassembled canvas is a function of the tiles' contents alone — pixel
//! placement cannot depend on the order in which workers finish.

use vstd::arithmetic::div_mod::lemma_fundamental_div_mod_converse;
use vstd::prelude::*;

use crate::canvas::{Canvas, canvas_dims, canvas_pixels, rgb_channels, unchanged_at};

verus! {

/// `q` lies in the `w`-by-`h` pixel grid.
pub open spec fn in_grid(q: (int, int), w: int, h: int) -> bool {
    0 <= q.0 < w && 0 <= q.1 < h
}

/// `q` lies in the vertical strip of width `w` whose left edge is column
/// `xoff`, over rows `0` to `h`.
pub open spec fn in_strip(q: (int, int), xoff: int, w: int, h: int) -> bool {
    xoff <= q.0 < xoff + w && 0 <= q.1 < h
}

/// The coordinates of the `w`-by-`h` pixel grid.
pub open spec fn grid_dom(w: int, h: int) -> Set<(int, int)> {
    Set::new(|q: (int, int)| in_grid(q, w, h))
}

/// Width of the vertical strip each of `threads` workers shades.
pub fn strip_width(horizontal_res: u32, threads: u32) -> (w: u32)
    requires
        threads >= 1,
    ensures
        w as int == horizontal_res as int / threads as int,
{
    horizontal_res / threads
}

/// Fills the whole tile from a row-major list of shaded colours: pixel
/// `(x, y)` receives `colors[y * width + x]`, and the tile afterwards holds
/// nothing else than what the list prescribes.
pub fn paint_tile(tile: &mut Canvas, colors: &Vec<image::Rgb<u8>>)
    requires
        colors@.len() == canvas_dims(*old(tile)).0 as int * canvas_dims(*old(tile)).1 as int,
    ensures
        canvas_dims(*final(tile)) == canvas_dims(*old(tile)),
        forall|q: (int, int)|
            #[trigger] in_grid(q, canvas_dims(*old(tile)).0 as int, canvas_dims(*old(tile)).1 as int)
                ==> canvas_pixels(*final(tile)).dom().contains(q) && canvas_pixels(*final(tile))[q]
                == rgb_channels(colors@[q.1 * canvas_dims(*old(tile)).0 as int + q.0]),
        forall|q: (int, int)|
            !#[trigger] in_grid(q, canvas_dims(*old(tile)).0 as int, canvas_dims(*old(tile)).1 as int)
                ==> unchanged_at(canvas_pixels(*old(tile)), canvas_pixels(*final(tile)), q),
{
    let width = tile.width();
    let height = tile.height();
    let n_colors = colors.len();
    let ghost w = width as int;
    let ghost h = height as int;
    let mut y: u32 = 0;
    while y < height
        invariant
            canvas_dims(*tile) == canvas_dims(*old(tile)),
            w == canvas_dims(*tile).0 as int,
            h == canvas_dims(*tile).1 as int,
            width as int == w,
            height as int == h,
            colors@.len() == w * h,
            n_colors as int == w * h,
            y <= height,
            forall|q: (int, int)|
                #[trigger] in_grid(q, w, h) && q.1 < y as int ==> canvas_pixels(
                    *tile,
                ).dom().contains(q) && canvas_pixels(*tile)[q] == rgb_channels(
                    colors@[q.1 * w + q.0],
                ),
            forall|q: (int, int)|
                !(#[trigger] in_grid(q, w, h) && q.1 < y as int) ==> unchanged_at(
                    canvas_pixels(*old(tile)),
                    canvas_pixels(*tile),
                    q,
                ),
        decreases height - y,
    {
        let mut x: u32 = 0;
        while x < width
            invariant
                canvas_dims(*tile) == canvas_dims(*old(tile)),
                w == canvas_dims(*tile).0 as int,
                h == canvas_dims(*tile).1 as int,
                width as int == w,
                height as int == h,
                colors@.len() == w * h,
                n_colors as int == w * h,
                y < height,
                x <= width,
                forall|q: (int, int)|
                    #[trigger] in_grid(q, w, h) && (q.1 < y as int || (q.1 == y as int && q.0
                        < x as int)) ==> canvas_pixels(*tile).dom().contains(q) && canvas_pixels(
                        *tile,
                    )[q] == rgb_channels(colors@[q.1 * w + q.0]),
                forall|q: (int, int)|
                    !(#[trigger] in_grid(q, w, h) && (q.1 < y as int || (q.1 == y as int && q.0
                        < x as int))) ==> unchanged_at(
                        canvas_pixels(*old(tile)),
                        canvas_pixels(*tile),
                        q,
                    ),
            decreases width - x,
        {
            proof {
                assert((y as int) * w + (x as int) < w * h && 0 <= (y as int) * w + (x as int))
                    by (nonlinear_arith)
                    requires
                        0 <= (y as int) < h,
                        0 <= (x as int) < w,
                ;
            }
            let idx = (y as usize) * (width as usize) + (x as usize);
            let color = colors[idx];
            tile.put_pixel(x, y, color);
            x = x + 1;
        }
        y = y + 1;
    }
}

/// Copies a tile into the canvas at a horizontal offset: canvas pixel
/// `(x_offset + x, y)` receives tile pixel `(x, y)`, and nothing outside the
/// tile's strip changes.
pub fn copy_tile(canvas: &mut Canvas, tile: &Canvas, x_offset: u32)
    requires
        canvas_dims(*tile).1 == canvas_dims(*old(canvas)).1,
        x_offset as int + canvas_dims(*tile).0 as int <= canvas_dims(*old(canvas)).0 as int,
    ensures
        canvas_dims(*final(canvas)) == canvas_dims(*old(canvas)),
        forall|q: (int, int)|
            #[trigger] in_strip(q, x_offset as int, canvas_dims(*tile).0 as int, canvas_dims(*tile).1 as int)
                ==> canvas_pixels(*final(canvas)).dom().contains(q) && canvas_pixels(
                *final(canvas),
            )[q] == canvas_pixels(*tile)[(q.0 - x_offset as int, q.1)],
        forall|q: (int, int)|
            !#[trigger] in_strip(q, x_offset as int, canvas_dims(*tile).0 as int, canvas_dims(*tile).1 as int)
                ==> unchanged_at(canvas_pixels(*old(canvas)), canvas_pixels(*final(canvas)), q),
{
    let tile_w = tile.width();
    let tile_h = tile.height();
    let ghost xo = x_offset as int;
    let ghost w = tile_w as int;
    let ghost h = tile_h as int;
    let mut y: u32 = 0;
    while y < tile_h
        invariant
            canvas_dims(*canvas) == canvas_dims(*old(canvas)),
            w == canvas_dims(*tile).0 as int,
            h == canvas_dims(*tile).1 as int,
            tile_w as int == w,
            tile_h as int == h,
            h == canvas_dims(*canvas).1 as int,
            xo == x_offset as int,
            xo + w <= canvas_dims(*canvas).0 as int,
            y <= tile_h,
            forall|q: (int, int)|
                #[trigger] in_strip(q, xo, w, h) && q.1 < y as int ==> canvas_pixels(
                    *canvas,
                ).dom().contains(q) && canvas_pixels(*canvas)[q] == canvas_pixels(*tile)[
                    (q.0 - xo, q.1)
                ],
            forall|q: (int, int)|
                !(#[trigger] in_strip(q, xo, w, h) && q.1 < y as int) ==> unchanged_at(
                    canvas_pixels(*old(canvas)),
                    canvas_pixels(*canvas),
                    q,
                ),
        decreases tile_h - y,
    {
        let mut x: u32 = 0;
        while x < tile_w
            invariant
                canvas_dims(*canvas) == canvas_dims(*old(canvas)),
                w == canvas_dims(*tile).0 as int,
                h == canvas_dims(*tile).1 as int,
                tile_w as int == w,
                tile_h as int == h,
                h == canvas_dims(*canvas).1 as int,
                xo == x_offset as int,
                xo + w <= canvas_dims(*canvas).0 as int,
                y < tile_h,
                x <= tile_w,
                forall|q: (int, int)|
                    #[trigger] in_strip(q, xo, w, h) && (q.1 < y as int || (q.1 == y as int && q.0
                        < xo + x as int)) ==> canvas_pixels(*canvas).dom().contains(q)
                        && canvas_pixels(*canvas)[q] == canvas_pixels(*tile)[(q.0 - xo, q.1)],
                forall|q: (int, int)|
                    !(#[trigger] in_strip(q, xo, w, h) && (q.1 < y as int || (q.1 == y as int && q.0
                        < xo + x as int))) ==> unchanged_at(
                        canvas_pixels(*old(canvas)),
                        canvas_pixels(*canvas),
                        q,
                    ),
            decreases tile_w - x,
        {
            let color = tile.get_pixel(x, y);
            canvas.put_pixel(x_offset + x, y, color);
            x = x + 1;
        }
        y = y + 1;
    }
}

/// All tiles have width `w` and height `h`.
pub open spec fn tiles_sized(tiles: Seq<Canvas>, w: int, h: int) -> bool {
    forall|i: int|
        0 <= i < tiles.len() ==> (#[trigger] canvas_dims(tiles[i])).0 as int == w && canvas_dims(
            tiles[i],
        ).1 as int == h
}

/// `q` is covered by `n` tiles of width `w` joined left to right.
pub open spec fn covered_by_tiles(q: (int, int), n: int, w: int, h: int) -> bool {
    in_grid(q, n * w, h)
}

/// Which tile content an assembled pixel shows: column `x` reads tile
/// `x / w` at its column `x % w` — fixed by the coordinates and the strip
/// index alone.
pub open spec fn tile_source(
    tiles: Seq<Map<(int, int), (u8, u8, u8)>>,
    w: int,
    q: (int, int),
) -> (u8, u8, u8) {
    tiles[q.0 / w][(q.0 % w, q.1)]
}

/// The relation between a canvas before and after tile assembly: every
/// covered pixel shows the content of the tile its column falls in, and
/// every other pixel is untouched.
pub open spec fn assembly_post(
    m0: Map<(int, int), (u8, u8, u8)>,
    m: Map<(int, int), (u8, u8, u8)>,
    tiles: Seq<Map<(int, int), (u8, u8, u8)>>,
    w: int,
    h: int,
) -> bool {
    &&& forall|q: (int, int)|
        #[trigger] covered_by_tiles(q, tiles.len() as int, w, h) ==> m.dom().contains(q) && m[q]
            == tile_source(tiles, w, q)
    &&& forall|q: (int, int)|
        !#[trigger] covered_by_tiles(q, tiles.len() as int, w, h) ==> unchanged_at(m0, m, q)
}

/// Joins the tiles back into the frame canvas in strip-index order: tile
/// `i` lands with its left edge at column `i * tile_width`.
pub fn assemble_tiles(canvas: &mut Canvas, tiles: &Vec<Canvas>, tile_width: u32)
    requires
        tiles_sized(tiles@, tile_width as int, canvas_dims(*old(canvas)).1 as int),
        tiles@.len() * tile_width as int <= canvas_dims(*old(canvas)).0 as int,
    ensures
        canvas_dims(*final(canvas)) == canvas_dims(*old(canvas)),
        assembly_post(
            canvas_pixels(*old(canvas)),
            canvas_pixels(*final(canvas)),
            tiles@.map_values(|t: Canvas| canvas_pixels(t)),
            tile_width as int,
            canvas_dims(*old(canvas)).1 as int,
        ),
{
    let ghost w = tile_width as int;
    let ghost h = canvas_dims(*old(canvas)).1 as int;
    let ghost contents = tiles@.map_values(|t: Canvas| canvas_pixels(t));
    let n = tiles.len();
    let mut x_offset: u32 = 0;
    let mut i: usize = 0;
    while i < n
        invariant
            canvas_dims(*canvas) == canvas_dims(*old(canvas)),
            w == tile_width as int,
            h == canvas_dims(*canvas).1 as int,
            contents == tiles@.map_values(|t: Canvas| canvas_pixels(t)),
            n == tiles@.len(),
            tiles_sized(tiles@, w, h),
            tiles@.len() * w <= canvas_dims(*canvas).0 as int,
            i <= n,
            x_offset as int == i as int * w,
            forall|q: (int, int)|
                #[trigger] covered_by_tiles(q, i as int, w, h) ==> canvas_pixels(
                    *canvas,
                ).dom().contains(q) && canvas_pixels(*canvas)[q] == tile_source(contents, w, q),
            forall|q: (int, int)|
                !#[trigger] covered_by_tiles(q, i as int, w, h) ==> unchanged_at(
                    canvas_pixels(*old(canvas)),
                    canvas_pixels(*canvas),
                    q,
                ),
        decreases n - i,
    {
        let ghost gi = i as int;
        proof {
            assert(gi * w + w == (gi + 1) * w && 0 <= gi * w && (gi + 1) * w <= tiles@.len() * w)
                by (nonlinear_arith)
                requires
                    0 <= gi,
                    gi < tiles@.len(),
                    0 <= w,
            ;
            assert(canvas_dims(tiles@[gi]).0 as int == w && canvas_dims(tiles@[gi]).1 as int == h);
            assert(contents[gi] == canvas_pixels(tiles@[gi]));
        }
        let ghost before = canvas_pixels(*canvas);
        copy_tile(canvas, &tiles[i], x_offset);
        proof {
            assert forall|q: (int, int)| #[trigger] covered_by_tiles(q, gi + 1, w, h)
                implies canvas_pixels(*canvas).dom().contains(q) && canvas_pixels(*canvas)[q]
                == tile_source(contents, w, q) by {
                if in_strip(q, gi * w, w, h) {
                    lemma_fundamental_div_mod_converse(q.0, w, gi, q.0 - gi * w);
                    assert(canvas_pixels(*canvas)[q] == canvas_pixels(tiles@[gi])[
                        (q.0 - gi * w, q.1)
                    ]);
                } else {
                    assert(covered_by_tiles(q, gi, w, h));
                    assert(unchanged_at(before, canvas_pixels(*canvas), q));
                }
            }
            assert forall|q: (int, int)| !#[trigger] covered_by_tiles(q, gi + 1, w, h)
                implies unchanged_at(canvas_pixels(*old(canvas)), canvas_pixels(*canvas), q) by {
                assert(!covered_by_tiles(q, gi, w, h));
                assert(!in_strip(q, gi * w, w, h));
                assert(unchanged_at(before, canvas_pixels(*canvas), q));
            }
        }
        x_offset = x_offset + tile_width;
        i = i + 1;
    }
}

/// A freshly created canvas holds exactly its pixel grid: joining strips
/// that span its full width into it therefore pins every pixel.
pub proof fn lemma_blank_canvas_dom(w: int, h: int)
    ensures
        crate::canvas::blank_canvas(w, h).dom() == grid_dom(w, h),
{
    assert(crate::canvas::blank_canvas(w, h).dom() =~= grid_dom(w, h));
}

/// Tile reassembly is deterministic: the assembled canvas is a function of
/// the canvas it started from and the tiles' contents alone.  Two canvases
/// that both stand in the assembly relation to the same starting pixels and
/// the same tile contents hold exactly the same pixels — however the tiles
/// were produced, and in whatever order the copies were carried out.
pub proof fn lemma_assembly_deterministic(
    m0: Map<(int, int), (u8, u8, u8)>,
    ma: Map<(int, int), (u8, u8, u8)>,
    mb: Map<(int, int), (u8, u8, u8)>,
    tiles: Seq<Map<(int, int), (u8, u8, u8)>>,
    w: int,
    h: int,
)
    requires
        assembly_post(m0, ma, tiles, w, h),
        assembly_post(m0, mb, tiles, w, h),
    ensures
        ma == mb,
{
    let n = tiles.len() as int;
    assert forall|q: (int, int)| ma.dom().contains(q) == mb.dom().contains(q) by {
        if covered_by_tiles(q, n, w, h) {
            assert(ma.dom().contains(q) && mb.dom().contains(q));
        } else {
            assert(unchanged_at(m0, ma, q) && unchanged_at(m0, mb, q));
        }
    }
    assert forall|q: (int, int)| ma.dom().contains(q) implies ma[q] == mb[q] by {
        if covered_by_tiles(q, n, w, h) {
            assert(ma[q] == tile_source(tiles, w, q) && mb[q] == tile_source(tiles, w, q));
        } else {
            assert(unchanged_at(m0, ma, q) && unchanged_at(m0, mb, q));
        }
    }
    assert(ma =~= mb);
}

/// With strips that exactly cover a frame-sized canvas, the assembled image
/// is determined by the tile contents alone: whatever pixels the two
/// canvases of the covered size held beforehand, joining the same tiles
/// into them gives pixel-for-pixel identical results.
pub proof fn lemma_assembly_covers_canvas(
    m0a: Map<(int, int), (u8, u8, u8)>,
    m0b: Map<(int, int), (u8, u8, u8)>,
    ma: Map<(int, int), (u8, u8, u8)>,
    mb: Map<(int, int), (u8, u8, u8)>,
    tiles: Seq<Map<(int, int), (u8, u8, u8)>>,
    w: int,
    h: int,
)
    requires
        assembly_post(m0a, ma, tiles, w, h),
        assembly_post(m0b, mb, tiles, w, h),
        m0a.dom() == grid_dom(tiles.len() as int * w, h),
        m0b.dom() == grid_dom(tiles.len() as int * w, h),
    ensures
        ma == mb,
{
    let n = tiles.len() as int;
    assert forall|q: (int, int)| ma.dom().contains(q) == mb.dom().contains(q) by {
        if covered_by_tiles(q, n, w, h) {
            assert(ma.dom().contains(q) && mb.dom().contains(q));
        } else {
            assert(unchanged_at(m0a, ma, q) && unchanged_at(m0b, mb, q));
            assert(!m0a.dom().contains(q) && !m0b.dom().contains(q));
        }
    }
    assert forall|q: (int, int)| ma.dom().contains(q) implies ma[q] == mb[q] by {
        if covered_by_tiles(q, n, w, h) {
            assert(ma[q] == tile_source(tiles, w, q) && mb[q] == tile_source(tiles, w, q));
        } else {
            assert(unchanged_at(m0a, ma, q));
            assert(!m0a.dom().contains(q));
        }
    }
    assert(ma =~= mb);
}

} // verus!
