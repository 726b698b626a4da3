//! Level layouts: the collection of blocks of a level, and the reading of
//! levels from their text form.
//!
//! A level is a grid of lines; in a line, `x` marks a block and a space an
//! empty cell. Levels follow one another, separated by a line that holds
//! exactly `---`. Lines end with `\n` or `\r\n`.
use vstd::prelude::*;
use crate::objects::{Block, FIELD_HEIGHT, FIELD_WIDTH};
use vstd::arithmetic::div_mod::lemma_div_is_ordered;

verus! {

/// The blocks of a level that are still standing.
pub type BlockMap = Vec<Block>;

/// Every block of the layout lies inside the field.
pub open spec fn blocks_wf(s: Seq<Block>) -> bool {
    forall|i: int| 0 <= i < s.len() ==> #[trigger] s[i].wf()
}

/// Number of grid columns across the field; also the bound on the rows.
pub const GRID_COLUMNS: usize = 14;
pub const GRID_ROWS: usize = 14;
/// Number of rows that fill the upper half of the field.
pub const ROWS_PER_HALF: i64 = 10;

/// The bytes the level text is made of.
pub const EMPTY_CELL: u8 = 0x20;
pub const BLOCK_CELL: u8 = 0x78;
pub const LINE_FEED: u8 = 0x0a;
pub const CARRIAGE_RETURN: u8 = 0x0d;
pub const DASH: u8 = 0x2d;

/// Why a level text was refused.
#[derive(Clone, Copy, Debug, PartialEq, Eq, Structural)]
pub enum MapError {
    /// A character other than `x` or a space inside a line.
    UnexpectedChar(u8),
    /// A cell beyond the last grid column.
    ColumnOutOfGrid,
    /// A cell beyond the last grid row.
    RowOutOfGrid,
}

/// The block in row `i` (from the top) and column `j` (from the left),
/// centred in its cell.
pub open spec fn block_at(i: int, j: int) -> Block {
    Block {
        x: ((2 * j + 1) * FIELD_WIDTH / (2 * GRID_COLUMNS as int)) as i64,
        y: (FIELD_HEIGHT - (2 * i + 1) * (FIELD_HEIGHT as int / (4 * ROWS_PER_HALF as int))) as i64,
    }
}

/// What the character `c` in row `i`, column `j` stands for.
pub open spec fn cell(c: u8, i: int, j: int) -> Result<Option<Block>, MapError> {
    if j >= GRID_COLUMNS {
        Err(MapError::ColumnOutOfGrid)
    } else if i >= GRID_ROWS {
        Err(MapError::RowOutOfGrid)
    } else if c == EMPTY_CELL {
        Ok(None)
    } else if c == BLOCK_CELL {
        Ok(Some(block_at(i, j)))
    } else {
        Err(MapError::UnexpectedChar(c))
    }
}

/// Reads the cell `ch` at row `i`, column `j`.
pub fn generate_block(ch: u8, i: usize, j: usize) -> (r: Result<Option<Block>, MapError>)
    ensures
        r == cell(ch, i as int, j as int),
        r matches Ok(Some(b)) ==> b.wf(),
{
    if j >= GRID_COLUMNS {
        return Err(MapError::ColumnOutOfGrid);
    }
    if i >= GRID_ROWS {
        return Err(MapError::RowOutOfGrid);
    }
    if ch == EMPTY_CELL {
        return Ok(None);
    }
    if ch != BLOCK_CELL {
        return Err(MapError::UnexpectedChar(ch));
    }
    let n: i64 = (2 * j as i64 + 1) * FIELD_WIDTH;
    let x = n / (2 * GRID_COLUMNS as i64);
    let y = FIELD_HEIGHT - (2 * i as i64 + 1) * (FIELD_HEIGHT / (4 * ROWS_PER_HALF));
    proof {
        lemma_div_is_ordered(n as int, 27 * FIELD_WIDTH, 28);
        lemma_div_is_ordered(0, n as int, 28);
    }
    Ok(Some(Block { x, y }))
}

/// The line that holds position `p` ends there: at the end of the text, at
/// a line feed, or at a carriage return that a line feed or the end follows.
pub open spec fn line_ends_at(t: Seq<u8>, p: int) -> bool {
    ||| p == t.len()
    ||| t[p] == LINE_FEED
    ||| (t[p] == CARRIAGE_RETURN && (p + 1 == t.len() || t[p + 1] == LINE_FEED))
}

/// Reading the byte at `k` in row `i`, column `j`, with the blocks `cur`
/// found so far: the next row, column and blocks, or the error.
pub open spec fn row_step(t: Seq<u8>, k: int, i: int, j: int, cur: Seq<Block>) -> Result<
    (int, int, Seq<Block>),
    MapError,
> {
    if t[k] == LINE_FEED {
        Ok((i + 1, 0, cur))
    } else if t[k] == CARRIAGE_RETURN && (k + 1 == t.len() || t[k + 1] == LINE_FEED) {
        Ok((i, j, cur))
    } else {
        match cell(t[k], i, j) {
            Err(e) => Err(e),
            Ok(None) => Ok((i, j + 1, cur)),
            Ok(Some(b)) => Ok((i, j + 1, cur.push(b))),
        }
    }
}

/// The blocks of a single level read from position `k` on.
pub open spec fn scan_map(t: Seq<u8>, k: int, i: int, j: int, cur: Seq<Block>) -> Result<
    Seq<Block>,
    MapError,
>
    decreases t.len() - k,
{
    if k < 0 || k >= t.len() {
        Ok(cur)
    } else {
        match row_step(t, k, i, j, cur) {
            Err(e) => Err(e),
            Ok((i2, j2, c2)) => scan_map(t, k + 1, i2, j2, c2),
        }
    }
}

/// The blocks of the level text `t`, in reading order (rows top down, each
/// row left to right).
pub open spec fn parse_map(t: Seq<u8>) -> Result<Seq<Block>, MapError> {
    scan_map(t, 0, 0, 0, Seq::empty())
}

fn read_cell(t: &[u8], k: usize, i: usize, j: usize, cur: &mut BlockMap) -> (r: Result<
    (usize, usize),
    MapError,
>)
    requires
        k < t@.len(),
        i <= k,
        j <= k,
        blocks_wf(old(cur)@),
    ensures
        blocks_wf(final(cur)@),
        r is Err <==> row_step(t@, k as int, i as int, j as int, old(cur)@) is Err,
        r matches Err(e) ==> row_step(t@, k as int, i as int, j as int, old(cur)@) == Err::<
            (int, int, Seq<Block>),
            MapError,
        >(e),
        r matches Ok((i2, j2)) ==> {
            &&& row_step(t@, k as int, i as int, j as int, old(cur)@) == Ok::<
                (int, int, Seq<Block>),
                MapError,
            >((i2 as int, j2 as int, final(cur)@))
            &&& i2 <= k + 1
            &&& j2 <= k + 1
        },
{
    let c = t[k];
    if c == LINE_FEED {
        return Ok((i + 1, 0));
    }
    if c == CARRIAGE_RETURN && (k + 1 == t.len() || t[k + 1] == LINE_FEED) {
        return Ok((i, j));
    }
    match generate_block(c, i, j) {
        Err(e) => Err(e),
        Ok(None) => Ok((i, j + 1)),
        Ok(Some(b)) => {
            cur.push(b);
            proof {
                assert forall|n: int| 0 <= n < cur@.len() implies #[trigger] cur@[n].wf() by {
                    if n < old(cur)@.len() {
                        assert(cur@[n] == old(cur)@[n]);
                    }
                }
            }
            Ok((i, j + 1))
        },
    }
}

/// Reads the blocks of one level from its text.
pub fn generate_map(level: &[u8]) -> (r: Result<BlockMap, MapError>)
    ensures
        r matches Ok(m) ==> parse_map(level@) == Ok::<Seq<Block>, MapError>(m@) && blocks_wf(
            m@,
        ),
        r matches Err(e) ==> parse_map(level@) == Err::<Seq<Block>, MapError>(e),
{
    let mut cur: BlockMap = Vec::new();
    let mut k: usize = 0;
    let mut i: usize = 0;
    let mut j: usize = 0;
    while k < level.len()
        invariant
            k <= level@.len(),
            i <= k,
            j <= k,
            blocks_wf(cur@),
            parse_map(level@) == scan_map(level@, k as int, i as int, j as int, cur@),
        decreases level@.len() - k,
    {
        match read_cell(level, k, i, j, &mut cur) {
            Err(e) => {
                return Err(e);
            },
            Ok((i2, j2)) => {
                i = i2;
                j = j2;
            },
        }
        k = k + 1;
    }
    Ok(cur)
}

/// A line that holds exactly `---` starts at `k`.
pub open spec fn separator_at(t: Seq<u8>, k: int) -> bool {
    &&& 0 <= k
    &&& k == 0 || t[k - 1] == LINE_FEED
    &&& k + 3 <= t.len()
    &&& t[k] == DASH
    &&& t[k + 1] == DASH
    &&& t[k + 2] == DASH
    &&& line_ends_at(t, k + 3)
}

/// The position after the separator line that starts at `k`.
pub open spec fn after_separator(t: Seq<u8>, k: int) -> int {
    let p = k + 3;
    if p == t.len() {
        p
    } else if t[p] == LINE_FEED || p + 1 == t.len() {
        p + 1
    } else {
        p + 2
    }
}

/// The levels read from position `k` on; `cur` holds the blocks found so far
/// in the current level and `acc` the levels already complete.
pub open spec fn scan_levels(
    t: Seq<u8>,
    k: int,
    i: int,
    j: int,
    cur: Seq<Block>,
    acc: Seq<Seq<Block>>,
) -> Result<Seq<Seq<Block>>, MapError>
    decreases t.len() - k,
{
    if k < 0 || k >= t.len() {
        Ok(acc.push(cur))
    } else if separator_at(t, k) {
        scan_levels(t, after_separator(t, k), 0, 0, Seq::empty(), acc.push(cur))
    } else {
        match row_step(t, k, i, j, cur) {
            Err(e) => Err(e),
            Ok((i2, j2, c2)) => scan_levels(t, k + 1, i2, j2, c2, acc),
        }
    }
}

/// The levels of the text `t`, in order, each as `parse_map` reads it.
pub open spec fn parse_maps(t: Seq<u8>) -> Result<Seq<Seq<Block>>, MapError> {
    scan_levels(t, 0, 0, 0, Seq::empty(), Seq::empty())
}

/// The blocks of each layout in `ms`.
pub open spec fn maps_view(ms: Seq<BlockMap>) -> Seq<Seq<Block>> {
    ms.map_values(|m: BlockMap| m@)
}

/// Reads every level of a text of levels separated by `---` lines.
pub fn generate_maps(text: &[u8]) -> (r: Result<Vec<BlockMap>, MapError>)
    ensures
        r matches Ok(ms) ==> parse_maps(text@) == Ok::<Seq<Seq<Block>>, MapError>(maps_view(ms@)),
        r matches Ok(ms) ==> forall|n: int| 0 <= n < ms@.len() ==> blocks_wf(#[trigger] ms@[n]@),
        r matches Err(e) ==> parse_maps(text@) == Err::<Seq<Seq<Block>>, MapError>(e),
{
    let mut out: Vec<BlockMap> = Vec::new();
    let mut cur: BlockMap = Vec::new();
    let mut k: usize = 0;
    let mut i: usize = 0;
    let mut j: usize = 0;
    assert(maps_view(out@) =~= Seq::<Seq<Block>>::empty());
    while k < text.len()
        invariant
            k <= text@.len(),
            i <= k,
            j <= k,
            blocks_wf(cur@),
            forall|n: int| 0 <= n < out@.len() ==> blocks_wf(#[trigger] out@[n]@),
            parse_maps(text@) == scan_levels(
                text@,
                k as int,
                i as int,
                j as int,
                cur@,
                maps_view(out@),
            ),
        decreases text@.len() - k,
    {
        let line_start = k == 0 || text[k - 1] == LINE_FEED;
        if line_start && text.len() - k >= 3 && text[k] == DASH && text[k + 1] == DASH && text[k
            + 2] == DASH && (k + 3 == text.len() || text[k + 3] == LINE_FEED || (text[k + 3]
            == CARRIAGE_RETURN && (k + 4 == text.len() || text[k + 4] == LINE_FEED))) {
            let ghost old_out = out@;
            let done = cur;
            out.push(done);
            cur = Vec::new();
            proof {
                assert(maps_view(out@) =~= maps_view(old_out).push(done@));
                assert forall|n: int| 0 <= n < out@.len() implies blocks_wf(#[trigger] out@[n]@) by {
                    if n < old_out.len() {
                        assert(out@[n] == old_out[n]);
                    }
                }
            }
            k = if k + 3 == text.len() {
                k + 3
            } else if text[k + 3] == LINE_FEED || k + 4 == text.len() {
                k + 4
            } else {
                k + 5
            };
            i = 0;
            j = 0;
        } else {
            match read_cell(text, k, i, j, &mut cur) {
                Err(e) => {
                    return Err(e);
                },
                Ok((i2, j2)) => {
                    i = i2;
                    j = j2;
                },
            }
            k = k + 1;
        }
    }
    let ghost old_out = out@;
    let done = cur;
    out.push(done);
    proof {
        assert(maps_view(out@) =~= maps_view(old_out).push(done@));
        assert forall|n: int| 0 <= n < out@.len() implies blocks_wf(#[trigger] out@[n]@) by {
            if n < old_out.len() {
                assert(out@[n] == old_out[n]);
            }
        }
    }
    Ok(out)
}

} // verus!
