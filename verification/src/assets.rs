//! Game data, read from the player's own copy of Starquake.
//!
//! Nothing here is original data: this module only knows *where* in the
//! original program each table lives, and parses it.

use vstd::prelude::*;
use crate::printer::Font;

verus! {

/// Locations of the tables in the original program's memory.
pub const ROOMS_AT: usize = 0x7530;
pub const TILE_INFO_AT: usize = 0x9740;
pub const BIG_BLOCKS_AT: usize = 0x9840;
pub const TILE_POINTERS_AT: usize = 0xEB23;
/// Font pointer (glyph for character `c` at `FONT_AT + 8·c`).
pub const FONT_AT: usize = 0xACD4;
pub const UDG_AT: usize = 0xAEAC;
/// UDGs used only by the title line.
pub const TITLE_UDG_AT: usize = 0x5E71;
/// 2 × 2 character graphics, 32 bytes each.
pub const GRAPHICS32_AT: usize = 0x9088;

pub const ROOM_COUNT: usize = 512;

/// Blocking sound effects the game can ask for.
pub const EFFECT_COUNT: usize = 0x16;

/// The size of the memory image the tables are read from.
pub const MEMORY: usize = 0x10000;

/// A tile: up to 8 × 6 character cells, each present cell with its own
/// bitmap and attribute.
#[derive(Clone, Debug)]
pub struct Tile {
    /// One byte per row; bit 7 is the leftmost column.
    pub masks: [u8; 6],
    /// Present cells in drawing order (rows top to bottom, columns left to right).
    pub cells: Vec<TileCell>,
}

#[derive(Clone, Copy, Debug)]
pub struct TileCell {
    pub pixels: [u8; 8],
    pub attr: u8,
}

pub struct Assets {
    /// The original program's memory image, for tables not parsed below.
    pub ram: Vec<u8>,
    /// Characters `0x20`–`0x7F`.
    pub font: Font,
    /// User-defined graphics, characters `0x90`–`0xA4`.
    pub udg: [[u8; 8]; 21],
    pub title_udg: [[u8; 8]; 21],
    /// Each room is a 4 × 3 grid of big block indices, row-major.
    pub rooms: Vec<[u8; 12]>,
    /// Each big block is 2 × 2 tile indices, in drawing order: bottom
    /// right, bottom left, top right, top left.
    pub big_blocks: Vec<[u8; 4]>,
    /// Per-tile behaviour byte (colour changes and room objects).
    pub tile_info: [u8; 256],
    pub tiles: Vec<Tile>,
    /// The picture the tape showed while the game loaded, if it came from
    /// one. Not drawn by the program itself.
    pub loading_screen: Option<Vec<u8>>,
}

/// How many bits of `m` are set.
pub open spec fn ones(m: u8) -> int {
    (m & 1u8) as int + ((m >> 1u8) & 1u8) as int + ((m >> 2u8) & 1u8) as int + ((m >> 3u8) & 1u8) as int
        + ((m >> 4u8) & 1u8) as int + ((m >> 5u8) & 1u8) as int + ((m >> 6u8) & 1u8) as int + ((m >> 7u8)
        & 1u8) as int
}

/// How many cells the first `n` mask rows have.
pub open spec fn cells_in(masks: [u8; 6], n: int) -> int
    decreases n,
{
    if n <= 0 {
        0
    } else {
        cells_in(masks, n - 1) + ones(masks[n - 1])
    }
}

/// The little-endian word at `a`.
pub open spec fn word_at(mem: Seq<u8>, a: int) -> int {
    mem[a] + mem[a + 1] * 256
}

/// Whether `t` is tile `n` as the memory image holds it: its six masks
/// after the tile pointer, its cells' bitmaps after the masks, and their
/// attributes stored backwards before the masks, all addresses wrapping
/// round the 64K.
pub open spec fn tile_read(mem: Seq<u8>, n: int, t: Tile) -> bool {
    let p = word_at(mem, TILE_POINTERS_AT + n * 2);
    &&& forall|i: int| 0 <= i < 6 ==> #[trigger] t.masks[i] == mem[(p + i) % 0x10000]
    &&& t.cells@.len() == cells_in(t.masks, 6)
    &&& forall|k: int, i: int|
        0 <= k < t.cells@.len() && 0 <= i < 8 ==> #[trigger] t.cells@[k].pixels[i] == mem[(p + 6 + k * 8 + i)
            % 0x10000]
    &&& forall|k: int|
        0 <= k < t.cells@.len() ==> #[trigger] t.cells@[k].attr == mem[(p + 0xFFFF - k) % 0x10000]
}

/// Whether `g` holds the `n` eight-byte glyphs from `start`.
pub open spec fn glyphs_read(mem: Seq<u8>, start: int, g: Seq<[u8; 8]>, n: int) -> bool {
    &&& g.len() == n
    &&& forall|i: int, j: int| 0 <= i < n && 0 <= j < 8 ==> #[trigger] g[i][j] == mem[start + i * 8 + j]
}

/// Whether `a` holds the tables of the memory image `mem`.
pub open spec fn assets_read(mem: Seq<u8>, a: Assets) -> bool {
    &&& a.ram@ == mem
    &&& glyphs_read(mem, FONT_AT + 0x20 * 8, a.font@, 96)
    &&& glyphs_read(mem, UDG_AT as int, a.udg@, 21)
    &&& glyphs_read(mem, TITLE_UDG_AT as int, a.title_udg@, 21)
    &&& a.rooms@.len() == ROOM_COUNT
    &&& forall|r: int, k: int|
        0 <= r < ROOM_COUNT && 0 <= k < 12 ==> #[trigger] a.rooms@[r][k] == mem[ROOMS_AT + r * 12 + k]
    &&& a.big_blocks@.len() == 256
    &&& forall|b: int, k: int|
        0 <= b < 256 && 0 <= k < 4 ==> #[trigger] a.big_blocks@[b][k] == mem[BIG_BLOCKS_AT + b * 4 + k]
    &&& forall|t: int| 0 <= t < 256 ==> #[trigger] a.tile_info[t] == mem[TILE_INFO_AT + t]
    &&& a.tiles@.len() == 256
    &&& forall|t: int| 0 <= t < 256 ==> tile_read(mem, t, #[trigger] a.tiles@[t])
    &&& a.loading_screen is None
}

fn count_ones(m: u8) -> (n: usize)
    ensures
        n == ones(m),
        n <= 8,
{
    assert((m & 1u8) <= 1 && ((m >> 1u8) & 1u8) <= 1 && ((m >> 2u8) & 1u8) <= 1 && ((m >> 3u8) & 1u8) <= 1
        && ((m >> 4u8) & 1u8) <= 1 && ((m >> 5u8) & 1u8) <= 1 && ((m >> 6u8) & 1u8) <= 1 && ((m >> 7u8) & 1u8)
        <= 1) by (bit_vector);
    let n: u8 = (m & 1u8) + ((m >> 1u8) & 1u8) + ((m >> 2u8) & 1u8) + ((m >> 3u8) & 1u8) + ((m >> 4u8) & 1u8) + ((m
        >> 5u8) & 1u8) + ((m >> 6u8) & 1u8) + ((m >> 7u8) & 1u8);
    n as usize
}

/// `n` eight-byte glyphs from `start`.
fn glyphs<const N: usize>(mem: &[u8], start: usize) -> (g: [[u8; 8]; N])
    requires
        start + N * 8 <= mem@.len(),
    ensures
        glyphs_read(mem@, start as int, g@, N as int),
{
    let len = mem.len();
    let mut g: [[u8; 8]; N] = [[0u8; 8]; N];
    let mut i: usize = 0;
    while i < N
        invariant
            i <= N,
            len == mem@.len(),
            start + N * 8 <= mem@.len(),
            g@.len() == N,
            forall|a: int, j: int| 0 <= a < i && 0 <= j < 8 ==> #[trigger] g@[a][j] == mem@[start + a * 8 + j],
        decreases N - i,
    {
        assert(start + i * 8 + 8 <= mem@.len()) by (nonlinear_arith)
            requires
                i < N,
                start + N * 8 <= mem@.len(),
        ;
        let mut c: [u8; 8] = [0u8; 8];
        let mut j: usize = 0;
        while j < 8
            invariant
                j <= 8,
                i < N,
                len == mem@.len(),
                start + i * 8 + 8 <= len,
                forall|b: int| 0 <= b < j ==> #[trigger] c[b] == mem@[start + i * 8 + b],
            decreases 8 - j,
        {
            c[j] = mem[start + i * 8 + j];
            j = j + 1;
        }
        g[i] = c;
        i = i + 1;
    }
    g
}

/// Tile `n` of the memory image.
fn read_tile(mem: &[u8], n: usize) -> (t: Tile)
    requires
        mem@.len() == MEMORY,
        n < 256,
    ensures
        tile_read(mem@, n as int, t),
{
    let at = TILE_POINTERS_AT + n * 2;
    let p: usize = mem[at] as usize + mem[at + 1] as usize * 256;
    let mut masks: [u8; 6] = [0u8; 6];
    let mut count: usize = 0;
    let mut i: usize = 0;
    while i < 6
        invariant
            i <= 6,
            mem@.len() == MEMORY,
            p == word_at(mem@, TILE_POINTERS_AT + n * 2),
            p < 0x10000,
            forall|a: int| 0 <= a < i ==> #[trigger] masks[a] == mem@[(p + a) % 0x10000],
            count == cells_in(masks, i as int),
            count <= 8 * i,
            n < 256,
        decreases 6 - i,
    {
        let ghost before = masks;
        masks[i] = mem[(p + i) % 0x10000];
        let c = count_ones(masks[i]);
        proof {
            cells_in_same(masks, before, i as int);
        }
        count = count + c;
        i = i + 1;
    }
    let mut cells: Vec<TileCell> = Vec::new();
    let mut k: usize = 0;
    while k < count
        invariant
            k <= count,
            count <= 48,
            mem@.len() == MEMORY,
            p < 0x10000,
            cells@.len() == k,
            forall|c: int, b: int|
                0 <= c < k && 0 <= b < 8 ==> #[trigger] cells@[c].pixels[b] == mem@[(p + 6 + c * 8 + b) % 0x10000],
            forall|c: int| 0 <= c < k ==> #[trigger] cells@[c].attr == mem@[(p + 0xFFFF - c) % 0x10000],
        decreases count - k,
    {
        let mut pixels: [u8; 8] = [0u8; 8];
        let mut b: usize = 0;
        while b < 8
            invariant
                b <= 8,
                k < count,
                count <= 48,
                mem@.len() == MEMORY,
                p < 0x10000,
                forall|x: int| 0 <= x < b ==> #[trigger] pixels[x] == mem@[(p + 6 + k * 8 + x) % 0x10000],
            decreases 8 - b,
        {
            pixels[b] = mem[(p + 6 + k * 8 + b) % 0x10000];
            b = b + 1;
        }
        let attr = mem[(p + 0xFFFF - k) % 0x10000];
        cells.push(TileCell { pixels, attr });
        k = k + 1;
    }
    Tile { masks, cells }
}

proof fn cells_in_same(a: [u8; 6], b: [u8; 6], n: int)
    requires
        n <= 6,
        forall|i: int| 0 <= i < n ==> a[i] == b[i],
    ensures
        cells_in(a, n) == cells_in(b, n),
    decreases n,
{
    if n > 0 {
        cells_in_same(a, b, n - 1);
    }
}

impl Assets {
    /// Parses the tables out of a 64K memory image of the original program.
    pub fn from_memory(mem: &[u8]) -> (a: Assets)
        requires
            mem@.len() == MEMORY,
        ensures
            assets_read(mem@, a),
    {
        let mut rooms: Vec<[u8; 12]> = Vec::new();
        let mut r: usize = 0;
        while r < ROOM_COUNT
            invariant
                r <= ROOM_COUNT,
                mem@.len() == MEMORY,
                rooms@.len() == r,
                forall|q: int, k: int| 0 <= q < r && 0 <= k < 12 ==> #[trigger] rooms@[q][k] == mem@[ROOMS_AT + q * 12 + k],
            decreases ROOM_COUNT - r,
        {
            let mut row: [u8; 12] = [0u8; 12];
            let mut k: usize = 0;
            while k < 12
                invariant
                    k <= 12,
                    r < ROOM_COUNT,
                    mem@.len() == MEMORY,
                    forall|x: int| 0 <= x < k ==> #[trigger] row[x] == mem@[ROOMS_AT + r * 12 + x],
                decreases 12 - k,
            {
                row[k] = mem[ROOMS_AT + r * 12 + k];
                k = k + 1;
            }
            rooms.push(row);
            r = r + 1;
        }
        let mut big_blocks: Vec<[u8; 4]> = Vec::new();
        let mut b: usize = 0;
        while b < 256
            invariant
                b <= 256,
                mem@.len() == MEMORY,
                big_blocks@.len() == b,
                forall|q: int, k: int|
                    0 <= q < b && 0 <= k < 4 ==> #[trigger] big_blocks@[q][k] == mem@[BIG_BLOCKS_AT + q * 4 + k],
            decreases 256 - b,
        {
            let at = BIG_BLOCKS_AT + b * 4;
            let block: [u8; 4] = [mem[at], mem[at + 1], mem[at + 2], mem[at + 3]];
            big_blocks.push(block);
            b = b + 1;
        }
        let mut tile_info: [u8; 256] = [0u8; 256];
        let mut t: usize = 0;
        while t < 256
            invariant
                t <= 256,
                mem@.len() == MEMORY,
                forall|q: int| 0 <= q < t ==> #[trigger] tile_info[q] == mem@[TILE_INFO_AT + q],
            decreases 256 - t,
        {
            tile_info[t] = mem[TILE_INFO_AT + t];
            t = t + 1;
        }
        let mut tiles: Vec<Tile> = Vec::new();
        let mut n: usize = 0;
        while n < 256
            invariant
                n <= 256,
                mem@.len() == MEMORY,
                tiles@.len() == n,
                forall|q: int| 0 <= q < n ==> tile_read(mem@, q, #[trigger] tiles@[q]),
            decreases 256 - n,
        {
            let tile = read_tile(mem, n);
            tiles.push(tile);
            n = n + 1;
        }
        let ram = vstd::slice::slice_to_vec(mem);
        Assets {
            ram,
            font: glyphs::<96>(mem, FONT_AT + 0x20 * 8),
            udg: glyphs::<21>(mem, UDG_AT),
            title_udg: glyphs::<21>(mem, TITLE_UDG_AT),
            rooms,
            big_blocks,
            tile_info,
            tiles,
            loading_screen: None,
        }
    }

    /// 2 × 2 character graphic `n` (cells top-left, top-right, bottom-left,
    /// bottom-right, 8 bytes each).
    pub fn graphic32(&self, n: u8) -> (g: [u8; 32])
        requires
            GRAPHICS32_AT + n * 32 + 32 <= self.ram@.len(),
        ensures
            g@ == self.ram@.subrange(GRAPHICS32_AT + n * 32, GRAPHICS32_AT + n * 32 + 32),
    {
        self.graphic_at((GRAPHICS32_AT + n as usize * 32) as u16)
    }

    /// The 2 × 2 character graphic at an address in the original.
    pub fn graphic_at(&self, addr: u16) -> (g: [u8; 32])
        requires
            addr + 32 <= self.ram@.len(),
        ensures
            g@ == self.ram@.subrange(addr as int, addr + 32),
    {
        let start = addr as usize;
        let len = self.ram.len();
        let mut g: [u8; 32] = [0u8; 32];
        let mut i: usize = 0;
        while i < 32
            invariant
                i <= 32,
                len == self.ram@.len(),
                start + 32 <= len,
                forall|k: int| 0 <= k < i ==> #[trigger] g[k] == self.ram@[start + k],
            decreases 32 - i,
        {
            g[i] = self.ram[start + i];
            i = i + 1;
        }
        assert(g@ =~= self.ram@.subrange(addr as int, addr + 32));
        g
    }
}

} // verus!
