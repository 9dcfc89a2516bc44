//! The window icon: a 16×16 pixel-art golden tennis ball and its
//! nearest-neighbour enlargements.
//!
//! Images are RGBA buffers in row-major order: the pixel at column `x` and
//! row `y` of a `size`×`size` image is the four bytes starting at
//! `(y * size + x) * 4`.
use vstd::prelude::*;
use crate::level::text_chars;

verus! {

/// Row `y` of the pixel art of the icon: `#` golden yellow, `L` a lighter
/// highlight, `O` the white seam, `.` transparent.  Rows may be shorter than
/// 16 characters; the missing cells are transparent.
pub open spec fn icon_art_row(y: int) -> Seq<char> {
    if y == 0 {
        "................"@
    } else if y == 1 {
        ".....#####......"@
    } else if y == 2 {
        "...#########...."@
    } else if y == 3 {
        "..###########..."@
    } else if y == 4 {
        ".###LLLLL####.."@
    } else if y == 5 {
        ".###LLLLL#####."@
    } else if y == 6 {
        ".####LLLL#####."@
    } else if y == 7 {
        "#######O#######"@
    } else if y == 8 {
        "#######O#######"@
    } else if y == 9 {
        ".#####O########."@
    } else if y == 10 {
        ".####OOOO#####."@
    } else if y == 11 {
        "..###OOOO####.."@
    } else if y == 12 {
        "...#########..."@
    } else if y == 13 {
        "....#######...."@
    } else if y == 14 {
        ".....#####....."@
    } else {
        "................"@
    }
}

/// The art character of the cell at column `x` of row `y`.
pub open spec fn icon_art_cell(y: int, x: int) -> char {
    let row = icon_art_row(y);
    if 0 <= x < row.len() {
        row[x]
    } else {
        '.'
    }
}

/// Byte `k` (red, green, blue, alpha) of the colour that an art character stands for.
pub open spec fn palette_byte(c: char, k: int) -> u8 {
    if c == '#' {
        seq![215u8, 182u8, 50u8, 255u8][k]
    } else if c == 'L' {
        seq![235u8, 208u8, 80u8, 255u8][k]
    } else if c == 'O' {
        seq![250u8, 250u8, 250u8, 255u8][k]
    } else {
        0
    }
}

/// Byte `k` of the pixel at column `x`, row `y` of a `size`×`size` RGBA image.
pub open spec fn pixel_byte(image: Seq<u8>, size: int, x: int, y: int, k: int) -> u8 {
    image[(y * size + x) * 4 + k]
}

/// Whether `image` is the 16×16 icon drawn from the pixel art.
pub open spec fn is_ball_icon(image: Seq<u8>) -> bool {
    &&& image.len() == 1024
    &&& forall|x: int, y: int, k: int|
        0 <= x < 16 && 0 <= y < 16 && 0 <= k < 4 ==> #[trigger] pixel_byte(image, 16, x, y, k)
            == palette_byte(icon_art_cell(y, x), k)
}

/// Whether `large` is the `size`×`size` nearest-neighbour enlargement of the
/// 16×16 image `small`: each of its pixels is the pixel of `small` at the
/// coordinates divided by `size / 16`.
pub open spec fn is_upscale_of(small: Seq<u8>, large: Seq<u8>, size: int) -> bool {
    &&& large.len() == size * size * 4
    &&& forall|x: int, y: int, k: int|
        0 <= x < size && 0 <= y < size && 0 <= k < 4 ==> #[trigger] pixel_byte(large, size, x, y, k)
            == pixel_byte(small, 16, x / (size / 16), y / (size / 16), k)
}

proof fn lemma_art_rows_fit(y: int)
    requires
        0 <= y < 16,
    ensures
        icon_art_row(y).len() <= 16,
{
    reveal_strlit("................");
    reveal_strlit(".....#####......");
    reveal_strlit("...#########....");
    reveal_strlit("..###########...");
    reveal_strlit(".###LLLLL####..");
    reveal_strlit(".###LLLLL#####.");
    reveal_strlit(".####LLLL#####.");
    reveal_strlit("#######O#######");
    reveal_strlit(".#####O########.");
    reveal_strlit(".####OOOO#####.");
    reveal_strlit("..###OOOO####..");
    reveal_strlit("...#########...");
    reveal_strlit("....#######....");
    reveal_strlit(".....#####.....");
}

/// Row `y` of the icon's pixel art.
fn art_row(y: usize) -> (row: &'static str)
    requires
        y < 16,
    ensures
        row@ == icon_art_row(y as int),
{
    if y == 0 {
        "................"
    } else if y == 1 {
        ".....#####......"
    } else if y == 2 {
        "...#########...."
    } else if y == 3 {
        "..###########..."
    } else if y == 4 {
        ".###LLLLL####.."
    } else if y == 5 {
        ".###LLLLL#####."
    } else if y == 6 {
        ".####LLLL#####."
    } else if y == 7 {
        "#######O#######"
    } else if y == 8 {
        "#######O#######"
    } else if y == 9 {
        ".#####O########."
    } else if y == 10 {
        ".####OOOO#####."
    } else if y == 11 {
        "..###OOOO####.."
    } else if y == 12 {
        "...#########..."
    } else if y == 13 {
        "....#######...."
    } else if y == 14 {
        ".....#####....."
    } else {
        "................"
    }
}

/// The RGBA pixels of the 16×16 golden tennis ball, drawn from its pixel art.
pub fn tennis_ball_icon_16() -> (px: [u8; 1024])
    ensures
        is_ball_icon(px@),
{
    let mut px = [0u8; 1024];
    let mut y: usize = 0;
    while y < 16
        invariant
            0 <= y <= 16,
            px@.len() == 1024,
            forall|xx: int, yy: int, k: int|
                0 <= xx < 16 && 0 <= yy < 16 && 0 <= k < 4 ==> #[trigger] pixel_byte(
                    px@,
                    16,
                    xx,
                    yy,
                    k,
                ) == if yy < y {
                    palette_byte(icon_art_cell(yy, xx), k)
                } else {
                    0u8
                },
        decreases 16 - y,
    {
        let row = text_chars(art_row(y));
        proof {
            lemma_art_rows_fit(y as int);
        }
        let mut x: usize = 0;
        while x < row.len()
            invariant
                0 <= y < 16,
                0 <= x <= row@.len(),
                row@ == icon_art_row(y as int),
                row@.len() <= 16,
                px@.len() == 1024,
                forall|xx: int, yy: int, k: int|
                    0 <= xx < 16 && 0 <= yy < 16 && 0 <= k < 4 ==> #[trigger] pixel_byte(
                        px@,
                        16,
                        xx,
                        yy,
                        k,
                    ) == if yy < y || (yy == y && xx < x) {
                        palette_byte(icon_art_cell(yy, xx), k)
                    } else {
                        0u8
                    },
            decreases row@.len() - x,
        {
            let i = (y * 16 + x) * 4;
            let c = row[x];
            let ghost before = px@;
            if c == '#' {
                px[i] = 215;
                px[i + 1] = 182;
                px[i + 2] = 50;
                px[i + 3] = 255;
            } else if c == 'L' {
                px[i] = 235;
                px[i + 1] = 208;
                px[i + 2] = 80;
                px[i + 3] = 255;
            } else if c == 'O' {
                px[i] = 250;
                px[i + 1] = 250;
                px[i + 2] = 250;
                px[i + 3] = 255;
            }
            assert forall|xx: int, yy: int, k: int|
                0 <= xx < 16 && 0 <= yy < 16 && 0 <= k < 4 implies #[trigger] pixel_byte(
                    px@,
                    16,
                    xx,
                    yy,
                    k,
                ) == if yy < y || (yy == y && xx < x + 1) {
                    palette_byte(icon_art_cell(yy, xx), k)
                } else {
                    0u8
                } by {
                if yy == y && xx == x {
                    assert(icon_art_cell(yy, xx) == c);
                } else {
                    assert(pixel_byte(px@, 16, xx, yy, k) == pixel_byte(before, 16, xx, yy, k));
                }
            }
            x = x + 1;
        }
        y = y + 1;
    }
    px
}


/// Where byte `j` of a `size`×`size` enlargement comes from in the 16×16 source.
pub open spec fn source_index(size: int, j: int) -> int {
    let scale = size / 16;
    let p = j / 4;
    (((p / size) / scale) * 16 + (p % size) / scale) * 4 + j % 4
}

proof fn lemma_cell_index(size: int, x: int, y: int, k: int)
    requires
        size > 0,
        size % 16 == 0,
        0 <= x < size,
        0 <= y < size,
        0 <= k < 4,
    ensures
        0 <= (y * size + x) * 4 + k < size * size * 4,
        source_index(size, (y * size + x) * 4 + k) == ((y / (size / 16)) * 16 + x / (size / 16)) * 4
            + k,
        0 <= y / (size / 16) < 16,
        0 <= x / (size / 16) < 16,
{
    let j = (y * size + x) * 4 + k;
    let p = y * size + x;
    assert(0 <= p < size * size) by (nonlinear_arith)
        requires
            0 <= x < size,
            0 <= y < size,
            p == y * size + x,
    ;
    vstd::arithmetic::div_mod::lemma_fundamental_div_mod_converse(j, 4, p, k);
    vstd::arithmetic::div_mod::lemma_fundamental_div_mod_converse(p, size, y, x);
    let scale = size / 16;
    assert(size == 16 * scale) by {
        vstd::arithmetic::div_mod::lemma_fundamental_div_mod(size, 16);
    }
    assert(y / scale < 16 && x / scale < 16 && y / scale >= 0 && x / scale >= 0) by (nonlinear_arith)
        requires
            size == 16 * scale,
            scale > 0,
            0 <= x < size,
            0 <= y < size,
    {
        vstd::arithmetic::div_mod::lemma_div_is_ordered(y, size - 1, scale);
        vstd::arithmetic::div_mod::lemma_div_is_ordered(x, size - 1, scale);
        vstd::arithmetic::div_mod::lemma_fundamental_div_mod_converse(size - 1, scale, 15, scale - 1);
    }
}

/// Enlarges the 16×16 RGBA image `src` to `new_size`×`new_size` by nearest
/// neighbour: each source pixel becomes a square of `new_size / 16` pixels.
pub fn upscale_icon(src: &[u8; 1024], new_size: usize) -> (dst: Vec<u8>)
    requires
        new_size % 16 == 0,
        new_size * new_size * 4 <= usize::MAX,
    ensures
        is_upscale_of(src@, dst@, new_size as int),
{
    let scale = new_size / 16;
    let len = new_size * new_size * 4;
    let mut dst = vec![0u8; len];
    let ghost n = new_size as int;
    let mut y: usize = 0;
    while y < new_size
        invariant
            n == new_size,
            scale == n / 16,
            n % 16 == 0,
            n * n * 4 <= usize::MAX,
            0 <= y <= n,
            dst@.len() == n * n * 4,
            forall|j: int| 0 <= j < y * n * 4 ==> #[trigger] dst@[j] == src@[source_index(n, j)],
        decreases n - y,
    {
        let mut x: usize = 0;
        while x < new_size
            invariant
                n == new_size,
                scale == n / 16,
                n % 16 == 0,
                n * n * 4 <= usize::MAX,
                0 <= y < n,
                0 <= x <= n,
                dst@.len() == n * n * 4,
                forall|j: int|
                    0 <= j < (y * n + x) * 4 ==> #[trigger] dst@[j] == src@[source_index(n, j)],
            decreases n - x,
        {
            proof {
                lemma_cell_index(n, x as int, y as int, 0);
                lemma_cell_index(n, x as int, y as int, 1);
                lemma_cell_index(n, x as int, y as int, 2);
                lemma_cell_index(n, x as int, y as int, 3);
            }
            let si = ((y / scale) * 16 + (x / scale)) * 4;
            let di = (y * new_size + x) * 4;
            let ghost before = dst@;
            dst.set(di, src[si]);
            dst.set(di + 1, src[si + 1]);
            dst.set(di + 2, src[si + 2]);
            dst.set(di + 3, src[si + 3]);
            assert forall|j: int|
                0 <= j < (y * n + (x + 1)) * 4 implies #[trigger] dst@[j] == src@[source_index(
                n,
                j,
            )] by {
                if j < di {
                    assert(dst@[j] == before[j]);
                } else {
                    assert(j == di + (j - di));
                }
            }
            x = x + 1;
        }
        assert((y * n + n) * 4 == (y + 1) * n * 4) by (nonlinear_arith);
        y = y + 1;
    }
    assert forall|x: int, yy: int, k: int|
        0 <= x < n && 0 <= yy < n && 0 <= k < 4 implies #[trigger] pixel_byte(dst@, n, x, yy, k)
        == pixel_byte(src@, 16, x / (n / 16), yy / (n / 16), k) by {
        lemma_cell_index(n, x, yy, k);
        assert(y * n * 4 == n * n * 4);
    }
    dst
}


/// The window icon in the three sizes a window asks for.
pub struct WindowIcon {
    /// 16×16 RGBA pixels.
    pub small: [u8; 1024],
    /// 32×32 RGBA pixels.
    pub medium: [u8; 4096],
    /// 64×64 RGBA pixels.
    pub big: [u8; 16384],
}

/// Copies the first `N` bytes of `v` into an array.
fn to_array<const N: usize>(v: &Vec<u8>) -> (a: [u8; N])
    requires
        v@.len() == N,
    ensures
        a@ == v@,
{
    let mut a = [0u8; N];
    let mut i: usize = 0;
    while i < N
        invariant
            0 <= i <= N,
            v@.len() == N,
            a@.len() == N,
            forall|j: int| 0 <= j < i ==> a@[j] == v@[j],
        decreases N - i,
    {
        a[i] = v[i];
        i = i + 1;
    }
    assert(a@ =~= v@);
    a
}

/// The tennis ball icon at 16×16, and its 32×32 and 64×64 enlargements.
pub fn window_icon() -> (icon: WindowIcon)
    ensures
        is_ball_icon(icon.small@),
        is_upscale_of(icon.small@, icon.medium@, 32),
        is_upscale_of(icon.small@, icon.big@, 64),
{
    let small = tennis_ball_icon_16();
    let medium_v = upscale_icon(&small, 32);
    let big_v = upscale_icon(&small, 64);
    let medium: [u8; 4096] = to_array(&medium_v);
    let big: [u8; 16384] = to_array(&big_v);
    WindowIcon { small, medium, big }
}

} // verus!
