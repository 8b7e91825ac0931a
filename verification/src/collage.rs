use vstd::prelude::*;
use crate::raster::{raster_views, tile_byte, Raster, RasterView};

verus! {

/// Cells in one row of the grid.
pub const GRID_COLUMNS: usize = 2;

/// Blank pixels between two cells of the grid.
pub const GRID_PADDING: u32 = 8;

/// `n` bytes of nothing.
pub open spec fn blank(n: nat) -> Seq<u8> {
    Seq::new(n, |k: int| 0u8)
}

/// The picture in cell `i` of the grid, if the cell is taken.
pub open spec fn tile_at(tiles: Seq<RasterView>, i: nat) -> Option<RasterView> {
    if i < tiles.len() {
        Some(tiles[i as int])
    } else {
        None
    }
}

/// Row `ty` of one cell: the picture's row, cut off at the cell's edge,
/// and nothing where the picture is smaller or the cell is empty.
pub open spec fn cell_row(tile: Option<RasterView>, ty: nat, cell: nat) -> Seq<u8> {
    Seq::new(
        4 * cell,
        |k: int|
            match tile {
                Some(picture) => tile_byte(picture, (k / 4) as nat, ty, (k % 4) as nat),
                None => 0u8,
            },
    )
}

/// Row `ty` of band `band` of the grid: its two cells, left to right,
/// with the padding between them.
pub open spec fn band_row(tiles: Seq<RasterView>, band: nat, ty: nat, cell: nat) -> Seq<u8> {
    cell_row(tile_at(tiles, 2 * band), ty, cell) + blank(4 * 8) + cell_row(
        tile_at(tiles, 2 * band + 1),
        ty,
        cell,
    )
}

/// The rows of band `band`, top to bottom.
pub open spec fn band_rows(tiles: Seq<RasterView>, band: nat, cell: nat) -> Seq<Seq<u8>> {
    Seq::new(cell, |ty: int| band_row(tiles, band, ty as nat, cell))
}

/// The width of the grid in pixels.
pub open spec fn grid_width(cell: nat) -> nat {
    2 * cell + 8
}

/// The blank rows between two bands.
pub open spec fn gap_rows(cell: nat) -> Seq<Seq<u8>> {
    Seq::new(8, |y: int| blank(4 * grid_width(cell)))
}

/// The rows of the first `bands` bands, with the padding between them.
pub open spec fn grid_rows(tiles: Seq<RasterView>, cell: nat, bands: nat) -> Seq<Seq<u8>>
    decreases bands,
{
    if bands == 0 {
        Seq::<Seq<u8>>::empty()
    } else if bands == 1 {
        band_rows(tiles, 0, cell)
    } else {
        grid_rows(tiles, cell, (bands - 1) as nat) + gap_rows(cell) + band_rows(
            tiles,
            (bands - 1) as nat,
            cell,
        )
    }
}

/// Bands that `n` pictures take: the count over the columns, rounded up.
pub open spec fn band_count(n: nat) -> nat {
    (n + 1) / 2
}

/// A composite as its contracts see it: its width in pixels and its rows
/// of RGBA bytes, top to bottom.
pub struct CompositeView {
    pub width: nat,
    pub rows: Seq<Seq<u8>>,
}

/// The composite of `tiles` in cells of `cell` pixels: the pictures in
/// order, left to right and top to bottom; cells that are left over stay
/// blank.
pub open spec fn composite_of(tiles: Seq<RasterView>, cell: nat) -> CompositeView {
    CompositeView {
        width: grid_width(cell),
        rows: grid_rows(tiles, cell, band_count(tiles.len())),
    }
}

/// Whether a composite shows nothing.
pub open spec fn is_blank(image: CompositeView) -> bool {
    forall|y: int, k: int|
        0 <= y < image.rows.len() && 0 <= k < image.rows[y].len() ==> #[trigger] image.rows[y][k]
            == 0
}

/// The rows of `rows`, each by its view.
pub open spec fn row_views(rows: Seq<Vec<u8>>) -> Seq<Seq<u8>> {
    Seq::new(rows.len(), |y: int| rows[y]@)
}

/// One image made of the pictures of a job, laid out in a grid.
pub struct CompositeImage {
    cell: u32,
    rows: Vec<Vec<u8>>,
}

impl View for CompositeImage {
    type V = CompositeView;

    closed spec fn view(&self) -> CompositeView {
        CompositeView {
            width: grid_width(self.cell as nat),
            rows: row_views(self.rows@),
        }
    }
}

/// Appends `n` bytes of nothing.
fn push_blank(row: &mut Vec<u8>, n: u64)
    ensures
        final(row)@ == old(row)@ + blank(n as nat),
{
    let mut k: u64 = 0;
    while k < n
        invariant
            k <= n,
            row@ == old(row)@ + blank(k as nat),
        decreases n - k,
    {
        row.push(0);
        k = k + 1;
        assert(row@ =~= old(row)@ + blank(k as nat));
    }
}

/// Appends row `ty` of a cell that shows `tile`.
fn push_cell_row(row: &mut Vec<u8>, tile: Option<&Raster>, ty: u32, cell: u32)
    ensures
        final(row)@ == old(row)@ + cell_row(
            match tile {
                Some(picture) => Some(picture@),
                None => None,
            },
            ty as nat,
            cell as nat,
        ),
{
    let ghost shown = match tile {
        Some(picture) => Some(picture@),
        None => None,
    };
    let mut tx: u32 = 0;
    assert(row@ =~= old(row)@ + cell_row(shown, ty as nat, 0));
    while tx < cell
        invariant
            tx <= cell,
            shown == match tile {
                Some(picture) => Some(picture@),
                None => None::<RasterView>,
            },
            row@ == old(row)@ + cell_row(shown, ty as nat, tx as nat),
        decreases cell - tx,
    {
        let mut ch: u8 = 0;
        let ghost start = row@;
        while ch < 4
            invariant
                ch <= 4,
                tx < cell,
                shown == match tile {
                    Some(picture) => Some(picture@),
                    None => None::<RasterView>,
                },
                row@.len() == start.len() + ch,
                forall|k: int| 0 <= k < start.len() ==> row@[k] == start[k],
                forall|c: int|
                    0 <= c < ch ==> #[trigger] row@[start.len() + c] == match shown {
                        Some(picture) => tile_byte(picture, tx as nat, ty as nat, c as nat),
                        None => 0u8,
                    },
            decreases 4 - ch,
        {
            let byte = match tile {
                Some(picture) => picture.byte_at(tx, ty, ch),
                None => 0,
            };
            row.push(byte);
            ch = ch + 1;
        }
        proof {
            let want = old(row)@ + cell_row(shown, ty as nat, (tx + 1) as nat);
            assert(row@.len() == want.len());
            assert forall|k: int| 0 <= k < want.len() implies row@[k] == want[k] by {
                if k < start.len() {
                    assert(row@[k] == start[k]);
                } else {
                    let c = k - start.len();
                    assert(row@[start.len() + c] == want[k]);
                }
            }
            assert(row@ =~= want);
        }
        tx = tx + 1;
    }
}

/// Row `ty` of band `band` of the grid of `tiles`.
fn band_row_of(tiles: &Vec<Raster>, band: usize, ty: u32, cell: u32) -> (row: Vec<u8>)
    requires
        2 * band + 1 <= usize::MAX,
    ensures
        row@ == band_row(raster_views(tiles@), band as nat, ty as nat, cell as nat),
{
    let left: Option<&Raster> = if 2 * band < tiles.len() {
        Some(&tiles[2 * band])
    } else {
        None
    };
    let right: Option<&Raster> = if 2 * band + 1 < tiles.len() {
        Some(&tiles[2 * band + 1])
    } else {
        None
    };
    let mut row: Vec<u8> = Vec::new();
    push_cell_row(&mut row, left, ty, cell);
    push_blank(&mut row, 32);
    push_cell_row(&mut row, right, ty, cell);
    assert(row@ =~= band_row(raster_views(tiles@), band as nat, ty as nat, cell as nat));
    row
}

impl CompositeImage {
    /// Lays `tiles` out in a grid of two columns with cells of `cell`
    /// pixels and eight pixels of padding between cells.
    pub fn compose(tiles: &Vec<Raster>, cell: u32) -> (image: Self)
        ensures
            image@ == composite_of(raster_views(tiles@), cell as nat),
    {
        let ghost views = raster_views(tiles@);
        let bands: usize = tiles.len() / 2 + tiles.len() % 2;
        let mut rows: Vec<Vec<u8>> = Vec::new();
        let mut band: usize = 0;
        while band < bands
            invariant
                band <= bands,
                bands == band_count(tiles@.len()),
                tiles@.len() <= usize::MAX,
                views == raster_views(tiles@),
                row_views(rows@) == grid_rows(
                    views,
                    cell as nat,
                    band as nat,
                ),
            decreases bands - band,
        {
            let ghost above = row_views(rows@);
            if band > 0 {
                let mut gap: u8 = 0;
                while gap < 8
                    invariant
                        gap <= 8,
                        row_views(rows@) == above + Seq::new(
                            gap as nat,
                            |y: int| blank(4 * grid_width(cell as nat)),
                        ),
                    decreases 8 - gap,
                {
                    let ghost had = rows@;
                    let mut row: Vec<u8> = Vec::new();
                    push_blank(&mut row, 4 * (2 * (cell as u64) + 8));
                    assert(row@ =~= blank(4 * grid_width(cell as nat)));
                    rows.push(row);
                    gap = gap + 1;
                    assert(row_views(rows@) =~= row_views(had).push(row@));
                    assert(row_views(rows@) =~= above + Seq::new(
                        gap as nat,
                        |y: int| blank(4 * grid_width(cell as nat)),
                    ));
                }
            }
            let ghost spaced = row_views(rows@);
            assert(spaced =~= if band > 0 {
                above + gap_rows(cell as nat)
            } else {
                above
            });
            let mut ty: u32 = 0;
            while ty < cell
                invariant
                    ty <= cell,
                    band < bands,
                    bands == band_count(tiles@.len()),
                    tiles@.len() <= usize::MAX,
                    views == raster_views(tiles@),
                    row_views(rows@) == spaced + Seq::new(
                        ty as nat,
                        |y: int| band_row(views, band as nat, y as nat, cell as nat),
                    ),
                decreases cell - ty,
            {
                let ghost had = rows@;
                assert(2 * band + 1 <= tiles@.len());
                let row = band_row_of(tiles, band, ty, cell);
                rows.push(row);
                ty = ty + 1;
                assert(row_views(rows@) =~= row_views(had).push(row@));
                assert(row_views(rows@) =~= spaced + Seq::new(
                    ty as nat,
                    |y: int| band_row(views, band as nat, y as nat, cell as nat),
                ));
            }
            assert(row_views(rows@) =~= spaced + band_rows(
                views,
                band as nat,
                cell as nat,
            ));
            band = band + 1;
            assert(row_views(rows@) =~= grid_rows(
                views,
                cell as nat,
                band as nat,
            ));
        }
        CompositeImage { cell, rows }
    }

    /// The width in pixels.
    pub fn width(&self) -> (width: u64)
        ensures
            width == self@.width,
    {
        2 * (self.cell as u64) + 8
    }

    /// The height in pixels.
    pub fn height(&self) -> (height: usize)
        ensures
            height == self@.rows.len(),
    {
        self.rows.len()
    }

    /// The rows of RGBA bytes, top to bottom.
    pub fn rows(&self) -> (rows: &Vec<Vec<u8>>)
        ensures
            rows@.len() == self@.rows.len(),
            forall|y: int| 0 <= y < rows@.len() ==> (#[trigger] rows@[y])@ == self@.rows[y],
    {
        &self.rows
    }
}

/// The height of a grid of `bands` bands in pixels.
pub open spec fn grid_height(cell: nat, bands: nat) -> nat {
    if bands == 0 {
        0
    } else {
        (bands * cell + (bands - 1) * 8) as nat
    }
}

/// The place of row `ty` of band `band` among the rows of the grid.
pub open spec fn row_place(cell: nat, band: nat, ty: nat) -> int {
    (band * (cell + 8) + ty) as int
}

/// The place, in a row of the grid, of channel `ch` of the pixel in
/// column `tx` of the cell in column `column`.
pub open spec fn byte_place(cell: nat, column: nat, tx: nat, ch: nat) -> int {
    (4 * (column * (cell + 8) + tx) + ch) as int
}

/// A grid has as many rows as its bands and the padding between them
/// take, and each row is as wide as the grid.
pub proof fn lemma_grid_dimensions(tiles: Seq<RasterView>, cell: nat, bands: nat)
    ensures
        grid_rows(tiles, cell, bands).len() == grid_height(cell, bands),
        forall|y: int|
            0 <= y < grid_rows(tiles, cell, bands).len() ==> (#[trigger] grid_rows(
                tiles,
                cell,
                bands,
            )[y]).len() == 4 * grid_width(cell),
    decreases bands,
{
    if bands > 1 {
        lemma_grid_dimensions(tiles, cell, (bands - 1) as nat);
        assert(bands * cell == (bands - 1) * cell + cell) by (nonlinear_arith);
    } else if bands == 1 {
        assert(1 * cell == cell);
    }
}

/// Row `ty` of band `band` lies `band` cells and paddings below the top.
pub proof fn lemma_band_row_place(
    tiles: Seq<RasterView>,
    cell: nat,
    bands: nat,
    band: nat,
    ty: nat,
)
    requires
        band < bands,
        ty < cell,
    ensures
        row_place(cell, band, ty) < grid_rows(tiles, cell, bands).len(),
        grid_rows(tiles, cell, bands)[row_place(cell, band, ty)] == band_row(
            tiles,
            band,
            ty,
            cell,
        ),
    decreases bands,
{
    lemma_grid_dimensions(tiles, cell, bands);
    if bands > 1 {
        lemma_grid_dimensions(tiles, cell, (bands - 1) as nat);
        assert(bands * cell == (bands - 1) * cell + cell) by (nonlinear_arith);
        assert((bands - 1) * (cell + 8) == (bands - 1) * cell + (bands - 1) * 8)
            by (nonlinear_arith);
        if band < bands - 1 {
            assert(band * (cell + 8) + cell + 8 <= (bands - 1) * (cell + 8)) by (nonlinear_arith)
                requires
                    band + 1 <= bands - 1,
            ;
            lemma_band_row_place(tiles, cell, (bands - 1) as nat, band, ty);
        } else {
            let upper = grid_rows(tiles, cell, (bands - 1) as nat) + gap_rows(cell);
            assert(upper.len() == band * (cell + 8));
            assert(grid_rows(tiles, cell, bands)[row_place(cell, band, ty)] == band_rows(
                tiles,
                band,
                cell,
            )[ty as int]);
        }
    } else {
        assert(band == 0);
        assert(0 * (cell + 8) == 0);
    }
}

/// Where a picture shows in the composite: picture `2 * band + column`
/// has its pixel `(tx, ty)` in column `column * (cell + 8) + tx` of row
/// `band * (cell + 8) + ty`, as far as that lies in its cell; a cell
/// without a picture, and a cell's part outside its picture, is blank.
pub proof fn lemma_cell_place(
    tiles: Seq<RasterView>,
    cell: nat,
    band: nat,
    column: nat,
    tx: nat,
    ty: nat,
    ch: nat,
)
    requires
        band < band_count(tiles.len()),
        column < 2,
        tx < cell,
        ty < cell,
        ch < 4,
    ensures
        row_place(cell, band, ty) < composite_of(tiles, cell).rows.len(),
        byte_place(cell, column, tx, ch) < composite_of(tiles, cell).rows[row_place(
            cell,
            band,
            ty,
        )].len(),
        composite_of(tiles, cell).rows[row_place(cell, band, ty)][byte_place(
            cell,
            column,
            tx,
            ch,
        )] == match tile_at(tiles, 2 * band + column) {
            Some(picture) => tile_byte(picture, tx, ty, ch),
            None => 0u8,
        },
{
    lemma_band_row_place(tiles, cell, band_count(tiles.len()), band, ty);
    let row = band_row(tiles, band, ty, cell);
    let k = (4 * tx + ch) as int;
    assert(k / 4 == tx && k % 4 == ch);
    if column == 0 {
        assert(0 * (cell + 8) == 0);
        assert(row[k] == cell_row(tile_at(tiles, 2 * band), ty, cell)[k]);
    } else {
        assert(1 * (cell + 8) == cell + 8);
        assert(row[4 * cell + 32 + k] == cell_row(tile_at(tiles, 2 * band + 1), ty, cell)[k]);
    }
}

/// The composite of no pictures has no rows and so shows nothing.
pub proof fn lemma_empty_composite_is_blank(cell: nat)
    ensures
        composite_of(Seq::<RasterView>::empty(), cell).rows.len() == 0,
        is_blank(composite_of(Seq::<RasterView>::empty(), cell)),
{
}

} // verus!
