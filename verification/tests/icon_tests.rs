use dog_adventure::icon::{tennis_ball_icon_16, upscale_icon, window_icon};

fn pixel(img: &[u8], size: usize, x: usize, y: usize) -> [u8; 4] {
    let i = (y * size + x) * 4;
    [img[i], img[i + 1], img[i + 2], img[i + 3]]
}

const GOLD: [u8; 4] = [215, 182, 50, 255];
const LIGHT: [u8; 4] = [235, 208, 80, 255];
const SEAM: [u8; 4] = [250, 250, 250, 255];
const CLEAR: [u8; 4] = [0, 0, 0, 0];

const ART: [&str; 16] = [
    "................",
    ".....#####......",
    "...#########....",
    "..###########...",
    ".###LLLLL####..",
    ".###LLLLL#####.",
    ".####LLLL#####.",
    "#######O#######",
    "#######O#######",
    ".#####O########.",
    ".####OOOO#####.",
    "..###OOOO####..",
    "...#########...",
    "....#######....",
    ".....#####.....",
    "................",
];

#[test]
fn icon_pixels() {
    let px = tennis_ball_icon_16();
    assert_eq!(pixel(&px, 16, 0, 0), CLEAR);
    assert_eq!(pixel(&px, 16, 5, 1), GOLD);
    assert_eq!(pixel(&px, 16, 4, 4), LIGHT);
    assert_eq!(pixel(&px, 16, 7, 7), SEAM);
    assert_eq!(pixel(&px, 16, 0, 7), GOLD);
    // rows shorter than 16 characters leave the last column transparent
    assert_eq!(pixel(&px, 16, 15, 7), CLEAR);
    assert_eq!(pixel(&px, 16, 14, 7), GOLD);
    assert_eq!(pixel(&px, 16, 15, 9), CLEAR);
    assert_eq!(pixel(&px, 16, 14, 9), GOLD);
}

#[test]
fn icon_matches_the_art() {
    let px = tennis_ball_icon_16();
    for (y, row) in ART.iter().enumerate() {
        let cells: Vec<char> = row.chars().collect();
        for x in 0..16 {
            let want = match cells.get(x) {
                Some('#') => GOLD,
                Some('L') => LIGHT,
                Some('O') => SEAM,
                _ => CLEAR,
            };
            assert_eq!(pixel(&px, 16, x, y), want, "({}, {})", x, y);
        }
    }
}

#[test]
fn upscale_doubles_each_pixel() {
    let small = tennis_ball_icon_16();
    let big = upscale_icon(&small, 32);
    assert_eq!(big.len(), 32 * 32 * 4);
    for y in 0..32 {
        for x in 0..32 {
            assert_eq!(pixel(&big, 32, x, y), pixel(&small, 16, x / 2, y / 2));
        }
    }
    assert_eq!(pixel(&big, 32, 10, 3), GOLD);
    assert_eq!(pixel(&big, 32, 15, 15), SEAM);
}

#[test]
fn upscale_edge_sizes() {
    let small = tennis_ball_icon_16();
    assert_eq!(upscale_icon(&small, 16), small.to_vec());
    assert!(upscale_icon(&small, 0).is_empty());
    let huge = upscale_icon(&small, 48);
    assert_eq!(huge.len(), 48 * 48 * 4);
    assert_eq!(pixel(&huge, 48, 47, 47), pixel(&small, 16, 15, 15));
    assert_eq!(pixel(&huge, 48, 21, 23), pixel(&small, 16, 7, 7));
}

#[test]
fn window_icon_sizes() {
    let icon = window_icon();
    let small = tennis_ball_icon_16();
    assert_eq!(icon.small, small);
    assert_eq!(icon.medium.to_vec(), upscale_icon(&small, 32));
    assert_eq!(icon.big.to_vec(), upscale_icon(&small, 64));
    assert_eq!(pixel(&icon.big, 64, 63, 63), CLEAR);
    assert_eq!(pixel(&icon.big, 64, 28, 28), SEAM);
}
