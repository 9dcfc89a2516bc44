//! The level file format.
//!
//! A level file is text.  Each line is split into whitespace-separated
//! words; blank lines and lines whose first word starts with `;` are
//! comments.  The first word of a line is a tag that says what the line
//! describes:
//!
//! | tag | words needed | meaning                                  |
//! |-----|--------------|------------------------------------------|
//! | `P` | 3            | player start (read, but not used)        |
//! | `#` | 5            | platform `x y w h`                       |
//! | `S` | 5            | spike pit `x y w h`                      |
//! | `L` | 5            | lava pit `x y w h`                       |
//! | `B` | 5            | baby `x floor_y min_x max_x`             |
//! | `F` | 4            | food `x y kind`                          |
//! | `G` | 4            | goal ball `x y colour` (the last one wins) |
//!
//! Lines with another tag, or with too few words for their tag, are
//! ignored.  The numeric words are kept as they were written: turning them
//! into numbers (with a default where a word is not a number) is the job of
//! the code that places the objects in the world.
use vstd::prelude::*;

verus! {

/// Whether `c` has the Unicode `White_Space` property (what `char::is_whitespace` tests).
pub open spec fn is_white_space(c: char) -> bool {
    let u = c as u32;
    ||| 0x9 <= u <= 0xd
    ||| u == 0x20
    ||| u == 0x85
    ||| u == 0xa0
    ||| u == 0x1680
    ||| 0x2000 <= u <= 0x200a
    ||| u == 0x2028
    ||| u == 0x2029
    ||| u == 0x202f
    ||| u == 0x205f
    ||| u == 0x3000
}

/// Tests whether `c` is a white-space character.
pub fn white_space(c: char) -> (b: bool)
    ensures
        b == is_white_space(c),
{
    let u = c as u32;
    (0x9 <= u && u <= 0xd) || u == 0x20 || u == 0x85 || u == 0xa0 || u == 0x1680 || (0x2000 <= u
        && u <= 0x200a) || u == 0x2028 || u == 0x2029 || u == 0x202f || u == 0x205f || u == 0x3000
}

/// The pieces of `text` between newline characters, in order.  A text with
/// `n` newlines has `n + 1` pieces; pieces may be empty.
pub open spec fn text_lines(text: Seq<char>) -> Seq<Seq<char>>
    decreases text.len(),
{
    if text.len() == 0 {
        seq![Seq::empty()]
    } else {
        let before = text_lines(text.drop_last());
        if text.last() == '\n' {
            before.push(Seq::empty())
        } else {
            before.drop_last().push(before.last().push(text.last()))
        }
    }
}

/// The maximal runs of non-white-space characters of `line`, in order.
pub open spec fn line_words(line: Seq<char>) -> Seq<Seq<char>>
    decreases line.len(),
{
    if line.len() == 0 {
        Seq::empty()
    } else {
        let before = line_words(line.drop_last());
        let c = line.last();
        if is_white_space(c) {
            before
        } else if line.len() == 1 || is_white_space(line[line.len() - 2]) {
            before.push(seq![c])
        } else {
            before.drop_last().push(before.last().push(c))
        }
    }
}

/// The contents of a sequence of character vectors.
pub open spec fn views(words: Seq<Vec<char>>) -> Seq<Seq<char>> {
    words.map_values(|w: Vec<char>| w@)
}

/// The kinds of food a level can scatter.
#[derive(Clone, Copy, Debug, PartialEq, Eq, Structural)]
pub enum FoodType {
    Bacon,
    Chicken,
    Burger,
    Pizza,
}

/// A rectangle (platform, spike pit or lava pit) as written in a level file.
#[derive(Debug)]
pub struct RectSpec {
    pub x: Vec<char>,
    pub y: Vec<char>,
    pub w: Vec<char>,
    pub h: Vec<char>,
}

/// A patrolling baby as written in a level file.
#[derive(Debug)]
pub struct BabySpec {
    pub x: Vec<char>,
    pub floor_y: Vec<char>,
    pub min_x: Vec<char>,
    pub max_x: Vec<char>,
}

/// A piece of food as written in a level file.
#[derive(Debug)]
pub struct FoodSpec {
    pub x: Vec<char>,
    pub y: Vec<char>,
    pub kind: FoodType,
}

/// The goal ball as written in a level file; `color` is an RGB value `0xRRGGBB`.
#[derive(Debug)]
pub struct GoalSpec {
    pub x: Vec<char>,
    pub y: Vec<char>,
    pub color: u32,
}

/// Everything a level file describes.
#[derive(Debug)]
pub struct LevelLayout {
    pub platforms: Vec<RectSpec>,
    pub spikes: Vec<RectSpec>,
    pub babies: Vec<BabySpec>,
    pub lava_pits: Vec<RectSpec>,
    pub foods: Vec<FoodSpec>,
    pub goal_ball: Option<GoalSpec>,
}

pub struct RectSpecView {
    pub x: Seq<char>,
    pub y: Seq<char>,
    pub w: Seq<char>,
    pub h: Seq<char>,
}

pub struct BabySpecView {
    pub x: Seq<char>,
    pub floor_y: Seq<char>,
    pub min_x: Seq<char>,
    pub max_x: Seq<char>,
}

pub struct FoodSpecView {
    pub x: Seq<char>,
    pub y: Seq<char>,
    pub kind: FoodType,
}

pub struct GoalSpecView {
    pub x: Seq<char>,
    pub y: Seq<char>,
    pub color: u32,
}

pub struct LevelLayoutView {
    pub platforms: Seq<RectSpecView>,
    pub spikes: Seq<RectSpecView>,
    pub babies: Seq<BabySpecView>,
    pub lava_pits: Seq<RectSpecView>,
    pub foods: Seq<FoodSpecView>,
    pub goal_ball: Option<GoalSpecView>,
}

impl View for RectSpec {
    type V = RectSpecView;

    open spec fn view(&self) -> RectSpecView {
        RectSpecView { x: self.x@, y: self.y@, w: self.w@, h: self.h@ }
    }
}

impl View for BabySpec {
    type V = BabySpecView;

    open spec fn view(&self) -> BabySpecView {
        BabySpecView {
            x: self.x@,
            floor_y: self.floor_y@,
            min_x: self.min_x@,
            max_x: self.max_x@,
        }
    }
}

impl View for FoodSpec {
    type V = FoodSpecView;

    open spec fn view(&self) -> FoodSpecView {
        FoodSpecView { x: self.x@, y: self.y@, kind: self.kind }
    }
}

impl View for GoalSpec {
    type V = GoalSpecView;

    open spec fn view(&self) -> GoalSpecView {
        GoalSpecView { x: self.x@, y: self.y@, color: self.color }
    }
}

impl View for LevelLayout {
    type V = LevelLayoutView;

    open spec fn view(&self) -> LevelLayoutView {
        LevelLayoutView {
            platforms: self.platforms@.map_values(|r: RectSpec| r@),
            spikes: self.spikes@.map_values(|r: RectSpec| r@),
            babies: self.babies@.map_values(|b: BabySpec| b@),
            lava_pits: self.lava_pits@.map_values(|r: RectSpec| r@),
            foods: self.foods@.map_values(|f: FoodSpec| f@),
            goal_ball: match self.goal_ball {
                Some(g) => Some(g@),
                None => None,
            },
        }
    }
}

/// A level with nothing in it.
pub open spec fn empty_level() -> LevelLayoutView {
    LevelLayoutView {
        platforms: Seq::empty(),
        spikes: Seq::empty(),
        babies: Seq::empty(),
        lava_pits: Seq::empty(),
        foods: Seq::empty(),
        goal_ball: None,
    }
}

/// The food a kind word names: `chicken`, `burger`, `pizza`, and bacon for any other word.
pub open spec fn food_named(word: Seq<char>) -> FoodType {
    if word == seq!['c', 'h', 'i', 'c', 'k', 'e', 'n'] {
        FoodType::Chicken
    } else if word == seq!['b', 'u', 'r', 'g', 'e', 'r'] {
        FoodType::Burger
    } else if word == seq!['p', 'i', 'z', 'z', 'a'] {
        FoodType::Pizza
    } else {
        FoodType::Bacon
    }
}

/// The RGB value a colour word names: `green`, `blue`, `red`, `gold` or
/// `yellow`; any other word gives green.
pub open spec fn color_named(word: Seq<char>) -> u32 {
    if word == seq!['g', 'r', 'e', 'e', 'n'] {
        0x3cb371
    } else if word == seq!['b', 'l', 'u', 'e'] {
        0x4a90d9
    } else if word == seq!['r', 'e', 'd'] {
        0xe94560
    } else if word == seq!['g', 'o', 'l', 'd'] || word == seq!['y', 'e', 'l', 'l', 'o', 'w'] {
        0xd4c73c
    } else {
        0x3cb371
    }
}

/// Whether a line with these words is a comment or blank.
pub open spec fn is_comment(words: Seq<Seq<char>>) -> bool {
    words.len() == 0 || (words[0].len() > 0 && words[0][0] == ';')
}

/// Whether a line's words carry `tag` and at least `needed` words in all.
pub open spec fn tagged(words: Seq<Seq<char>>, tag: char, needed: nat) -> bool {
    &&& !is_comment(words)
    &&& words[0] == seq![tag]
    &&& words.len() >= needed
}

/// The rectangle that words 1 to 4 of a line describe.
pub open spec fn rect_of(words: Seq<Seq<char>>) -> RectSpecView {
    RectSpecView { x: words[1], y: words[2], w: words[3], h: words[4] }
}

/// What one line of a level file adds to the level read so far.
pub open spec fn with_line(level: LevelLayoutView, words: Seq<Seq<char>>) -> LevelLayoutView {
    if tagged(words, '#', 5) {
        LevelLayoutView { platforms: level.platforms.push(rect_of(words)), ..level }
    } else if tagged(words, 'S', 5) {
        LevelLayoutView { spikes: level.spikes.push(rect_of(words)), ..level }
    } else if tagged(words, 'L', 5) {
        LevelLayoutView { lava_pits: level.lava_pits.push(rect_of(words)), ..level }
    } else if tagged(words, 'B', 5) {
        LevelLayoutView {
            babies: level.babies.push(
                BabySpecView { x: words[1], floor_y: words[2], min_x: words[3], max_x: words[4] },
            ),
            ..level
        }
    } else if tagged(words, 'F', 4) {
        LevelLayoutView {
            foods: level.foods.push(
                FoodSpecView { x: words[1], y: words[2], kind: food_named(words[3]) },
            ),
            ..level
        }
    } else if tagged(words, 'G', 4) {
        LevelLayoutView {
            goal_ball: Some(GoalSpecView { x: words[1], y: words[2], color: color_named(words[3]) }),
            ..level
        }
    } else {
        level
    }
}

/// The level that a sequence of lines describes, read from first line to last.
pub open spec fn level_of_lines(lines: Seq<Seq<char>>) -> LevelLayoutView
    decreases lines.len(),
{
    if lines.len() == 0 {
        empty_level()
    } else {
        with_line(level_of_lines(lines.drop_last()), line_words(lines.last()))
    }
}

/// The level that a level file's text describes.
pub open spec fn level_of_text(text: Seq<char>) -> LevelLayoutView {
    level_of_lines(text_lines(text))
}

proof fn lemma_text_lines_nonempty(text: Seq<char>)
    ensures
        text_lines(text).len() >= 1,
    decreases text.len(),
{
    if text.len() > 0 {
        lemma_text_lines_nonempty(text.drop_last());
    }
}

/// Whether a word vector holds exactly the characters of `lit`.
fn word_is<const N: usize>(w: &Vec<char>, lit: &[char; N]) -> (b: bool)
    ensures
        b == (w@ == lit@),
{
    if w.len() != N {
        return false;
    }
    let mut i: usize = 0;
    while i < N
        invariant
            w@.len() == N,
            0 <= i <= N,
            forall|j: int| 0 <= j < i ==> w@[j] == lit@[j],
        decreases N - i,
    {
        if w[i] != lit[i] {
            return false;
        }
        i = i + 1;
    }
    assert(w@ =~= lit@);
    true
}

fn copy_word(w: &Vec<char>) -> (r: Vec<char>)
    ensures
        r@ == w@,
{
    let mut r: Vec<char> = Vec::new();
    let mut i: usize = 0;
    while i < w.len()
        invariant
            0 <= i <= w@.len(),
            r@ == w@.take(i as int),
        decreases w@.len() - i,
    {
        r.push(w[i]);
        i = i + 1;
        assert(r@ =~= w@.take(i as int));
    }
    assert(w@.take(i as int) =~= w@);
    r
}

/// The food kind a word names.
pub fn food_kind(word: &Vec<char>) -> (kind: FoodType)
    ensures
        kind == food_named(word@),
{
    proof {
        assert(['c', 'h', 'i', 'c', 'k', 'e', 'n']@ =~= seq!['c', 'h', 'i', 'c', 'k', 'e', 'n']);
        assert(['b', 'u', 'r', 'g', 'e', 'r']@ =~= seq!['b', 'u', 'r', 'g', 'e', 'r']);
        assert(['p', 'i', 'z', 'z', 'a']@ =~= seq!['p', 'i', 'z', 'z', 'a']);
    }
    if word_is(word, &['c', 'h', 'i', 'c', 'k', 'e', 'n']) {
        FoodType::Chicken
    } else if word_is(word, &['b', 'u', 'r', 'g', 'e', 'r']) {
        FoodType::Burger
    } else if word_is(word, &['p', 'i', 'z', 'z', 'a']) {
        FoodType::Pizza
    } else {
        FoodType::Bacon
    }
}

/// The RGB value (`0xRRGGBB`) of the goal ball colour a word names.
pub fn ball_color(word: &Vec<char>) -> (color: u32)
    ensures
        color == color_named(word@),
{
    proof {
        assert(['g', 'r', 'e', 'e', 'n']@ =~= seq!['g', 'r', 'e', 'e', 'n']);
        assert(['b', 'l', 'u', 'e']@ =~= seq!['b', 'l', 'u', 'e']);
        assert(['r', 'e', 'd']@ =~= seq!['r', 'e', 'd']);
        assert(['g', 'o', 'l', 'd']@ =~= seq!['g', 'o', 'l', 'd']);
        assert(['y', 'e', 'l', 'l', 'o', 'w']@ =~= seq!['y', 'e', 'l', 'l', 'o', 'w']);
    }
    if word_is(word, &['g', 'r', 'e', 'e', 'n']) {
        0x3cb371
    } else if word_is(word, &['b', 'l', 'u', 'e']) {
        0x4a90d9
    } else if word_is(word, &['r', 'e', 'd']) {
        0xe94560
    } else if word_is(word, &['g', 'o', 'l', 'd']) || word_is(word, &['y', 'e', 'l', 'l', 'o', 'w']) {
        0xd4c73c
    } else {
        0x3cb371
    }
}


/// The characters of `text`, in order.
pub(crate) fn text_chars(text: &str) -> (chars: Vec<char>)
    ensures
        chars@ == text@,
{
    let mut chars: Vec<char> = Vec::new();
    for c in it: text.chars()
        invariant
            chars@ == it.seq().take(it.index()),
    {
        chars.push(c);
        assert(chars@ =~= it.seq().take(it.index() + 1));
    }
    chars
}

/// Splits a character sequence at its newline characters.
pub fn split_lines(text: &Vec<char>) -> (lines: Vec<Vec<char>>)
    ensures
        views(lines@) == text_lines(text@),
{
    let mut done: Vec<Vec<char>> = Vec::new();
    let mut cur: Vec<char> = Vec::new();
    let mut i: usize = 0;
    assert(views(done@).push(cur@) =~= text_lines(text@.take(0)));
    while i < text.len()
        invariant
            0 <= i <= text@.len(),
            views(done@).push(cur@) == text_lines(text@.take(i as int)),
        decreases text@.len() - i,
    {
        let c = text[i];
        let ghost before = text_lines(text@.take(i as int));
        assert(text@.take(i + 1).drop_last() =~= text@.take(i as int));
        if c == '\n' {
            let ghost old_done = done@;
            let ghost old_cur = cur@;
            done.push(cur);
            cur = Vec::new();
            assert(views(done@) =~= views(old_done).push(old_cur));
            assert(views(done@).push(cur@) =~= before.push(Seq::empty()));
        } else {
            let ghost old_cur = cur@;
            cur.push(c);
            assert(before.drop_last() =~= views(done@));
            assert(views(done@).push(cur@) =~= before.drop_last().push(old_cur.push(c)));
        }
        i = i + 1;
    }
    assert(text@.take(i as int) =~= text@);
    let ghost old_done = done@;
    let ghost old_cur = cur@;
    done.push(cur);
    assert(views(done@) =~= views(old_done).push(old_cur));
    done
}

/// Splits a line into its whitespace-separated words.
pub fn split_words(line: &Vec<char>) -> (words: Vec<Vec<char>>)
    ensures
        views(words@) == line_words(line@),
{
    let mut words: Vec<Vec<char>> = Vec::new();
    let mut cur: Vec<char> = Vec::new();
    let mut i: usize = 0;
    while i < line.len()
        invariant
            0 <= i <= line@.len(),
            cur@.len() == 0 ==> views(words@) == line_words(line@.take(i as int)),
            cur@.len() > 0 ==> views(words@).push(cur@) == line_words(line@.take(i as int)),
            cur@.len() > 0 <==> (i > 0 && !is_white_space(line@[i - 1])),
        decreases line@.len() - i,
    {
        let c = line[i];
        let ghost before = line_words(line@.take(i as int));
        assert(line@.take(i + 1).drop_last() =~= line@.take(i as int));
        if white_space(c) {
            if cur.len() > 0 {
                let ghost old_words = words@;
                let ghost old_cur = cur@;
                words.push(cur);
                cur = Vec::new();
                assert(views(words@) =~= views(old_words).push(old_cur));
            }
        } else {
            if cur.len() == 0 {
                assert(i == 0 || is_white_space(line@.take(i + 1)[i - 1]));
                cur.push(c);
                assert(cur@ =~= seq![c]);
                assert(line_words(line@.take(i + 1)) == before.push(seq![c]));
            } else {
                let ghost old_cur = cur@;
                cur.push(c);
                assert(before.drop_last() =~= views(words@));
                assert(views(words@).push(cur@) =~= before.drop_last().push(old_cur.push(c)));
            }
        }
        i = i + 1;
    }
    assert(line@.take(i as int) =~= line@);
    if cur.len() > 0 {
        let ghost old_words = words@;
        let ghost old_cur = cur@;
        words.push(cur);
        assert(views(words@) =~= views(old_words).push(old_cur));
    }
    words
}


/// The rectangle that words 1 to 4 of a line give.
fn rect_from(words: &Vec<Vec<char>>) -> (r: RectSpec)
    requires
        words@.len() >= 5,
    ensures
        r@ == rect_of(views(words@)),
{
    RectSpec {
        x: copy_word(&words[1]),
        y: copy_word(&words[2]),
        w: copy_word(&words[3]),
        h: copy_word(&words[4]),
    }
}

/// Adds what one line (given by its words) describes to a level.
pub fn read_line(level: &mut LevelLayout, words: &Vec<Vec<char>>)
    ensures
        final(level)@ == with_line(old(level)@, views(words@)),
{
    let ghost ws = views(words@);
    let ghost before = level@;
    if words.len() == 0 {
        return;
    }
    let tag = &words[0];
    assert(ws[0] == tag@);
    if tag.len() > 0 && tag[0] == ';' {
        return;
    }
    proof {
        assert(['#']@ =~= seq!['#']);
        assert(['S']@ =~= seq!['S']);
        assert(['L']@ =~= seq!['L']);
        assert(['B']@ =~= seq!['B']);
        assert(['F']@ =~= seq!['F']);
        assert(['G']@ =~= seq!['G']);
    }
    if word_is(tag, &['#']) && words.len() >= 5 {
        let r = rect_from(words);
        level.platforms.push(r);
        assert(level@.platforms =~= before.platforms.push(rect_of(ws)));
    } else if word_is(tag, &['S']) && words.len() >= 5 {
        let r = rect_from(words);
        level.spikes.push(r);
        assert(level@.spikes =~= before.spikes.push(rect_of(ws)));
    } else if word_is(tag, &['L']) && words.len() >= 5 {
        let r = rect_from(words);
        level.lava_pits.push(r);
        assert(level@.lava_pits =~= before.lava_pits.push(rect_of(ws)));
    } else if word_is(tag, &['B']) && words.len() >= 5 {
        let b = BabySpec {
            x: copy_word(&words[1]),
            floor_y: copy_word(&words[2]),
            min_x: copy_word(&words[3]),
            max_x: copy_word(&words[4]),
        };
        level.babies.push(b);
        assert(level@.babies =~= before.babies.push(
            BabySpecView { x: ws[1], floor_y: ws[2], min_x: ws[3], max_x: ws[4] },
        ));
    } else if word_is(tag, &['F']) && words.len() >= 4 {
        let f = FoodSpec {
            x: copy_word(&words[1]),
            y: copy_word(&words[2]),
            kind: food_kind(&words[3]),
        };
        level.foods.push(f);
        assert(level@.foods =~= before.foods.push(
            FoodSpecView { x: ws[1], y: ws[2], kind: food_named(ws[3]) },
        ));
    } else if word_is(tag, &['G']) && words.len() >= 4 {
        let g = GoalSpec {
            x: copy_word(&words[1]),
            y: copy_word(&words[2]),
            color: ball_color(&words[3]),
        };
        level.goal_ball = Some(g);
    }
}

/// Reads a level file: the level that its text describes.  Lines end at
/// newline characters; a carriage return before a newline is white space,
/// so text with CRLF line ends reads the same.
pub fn parse_level(data: &str) -> (level: LevelLayout)
    ensures
        level@ == level_of_text(data@),
{
    let chars = text_chars(data);
    let lines = split_lines(&chars);
    let mut level = LevelLayout {
        platforms: Vec::new(),
        spikes: Vec::new(),
        babies: Vec::new(),
        lava_pits: Vec::new(),
        foods: Vec::new(),
        goal_ball: None,
    };
    let ghost all = views(lines@);
    assert(level@.platforms =~= Seq::<RectSpecView>::empty());
    assert(level@.spikes =~= Seq::<RectSpecView>::empty());
    assert(level@.lava_pits =~= Seq::<RectSpecView>::empty());
    assert(level@.babies =~= Seq::<BabySpecView>::empty());
    assert(level@.foods =~= Seq::<FoodSpecView>::empty());
    assert(level@ == empty_level());
    assert(all.take(0) =~= Seq::<Seq<char>>::empty());
    let mut i: usize = 0;
    while i < lines.len()
        invariant
            0 <= i <= lines@.len(),
            all == views(lines@),
            level@ == level_of_lines(all.take(i as int)),
        decreases lines@.len() - i,
    {
        let words = split_words(&lines[i]);
        read_line(&mut level, &words);
        assert(all.take(i + 1).drop_last() =~= all.take(i as int));
        assert(all.take(i + 1).last() == lines@[i as int]@);
        i = i + 1;
    }
    assert(all.take(i as int) =~= all);
    level
}

/// Which level file a level number loads: the first for level 1, the third
/// for level 3, and the second for any other number.
pub open spec fn level_file_for(level: u32) -> nat {
    if level == 1 {
        1
    } else if level == 3 {
        3
    } else {
        2
    }
}

/// Reads the level file that level number `level` loads, out of the three
/// level files' texts.
pub fn build_level(level: u32, level1: &str, level2: &str, level3: &str) -> (layout: LevelLayout)
    ensures
        level_file_for(level) == 1 ==> layout@ == level_of_text(level1@),
        level_file_for(level) == 2 ==> layout@ == level_of_text(level2@),
        level_file_for(level) == 3 ==> layout@ == level_of_text(level3@),
{
    let data = if level == 1 {
        level1
    } else if level == 3 {
        level3
    } else {
        level2
    };
    parse_level(data)
}


/// The level after adding `lines`, in order, to `level`.
pub open spec fn read_lines(level: LevelLayoutView, lines: Seq<Seq<char>>) -> LevelLayoutView
    decreases lines.len(),
{
    if lines.len() == 0 {
        level
    } else {
        with_line(read_lines(level, lines.drop_last()), line_words(lines.last()))
    }
}

/// Whether a line with these words adds nothing to a level: it is blank, a
/// comment, a player start, or has an unknown tag or too few words.
pub open spec fn describes_nothing(words: Seq<Seq<char>>) -> bool {
    &&& !tagged(words, '#', 5)
    &&& !tagged(words, 'S', 5)
    &&& !tagged(words, 'L', 5)
    &&& !tagged(words, 'B', 5)
    &&& !tagged(words, 'F', 4)
    &&& !tagged(words, 'G', 4)
}

/// Lines of joined texts: the lines of two texts joined by a newline are
/// the lines of the first followed by the lines of the second.
pub proof fn law_lines_join(a: Seq<char>, b: Seq<char>)
    ensures
        text_lines(a + seq!['\n'] + b) == text_lines(a) + text_lines(b),
    decreases b.len(),
{
    let t = a + seq!['\n'] + b;
    if b.len() == 0 {
        assert(t.drop_last() =~= a);
        assert(text_lines(a) + text_lines(b) =~= text_lines(a).push(Seq::empty()));
    } else {
        let b0 = b.drop_last();
        law_lines_join(a, b0);
        lemma_text_lines_nonempty(b0);
        assert(t.drop_last() =~= a + seq!['\n'] + b0);
        assert(t.last() == b.last());
        let before = text_lines(a) + text_lines(b0);
        if b.last() == '\n' {
            assert(text_lines(a) + text_lines(b) =~= before.push(Seq::empty()));
        } else {
            let lb = text_lines(b0);
            assert(before.drop_last() =~= text_lines(a) + lb.drop_last());
            assert(before.last() == lb.last());
            assert(text_lines(a) + text_lines(b) =~= before.drop_last().push(
                before.last().push(b.last()),
            ));
        }
    }
}

/// A text without a newline is a single line.
pub proof fn law_single_line(c: Seq<char>)
    requires
        !c.contains('\n'),
    ensures
        text_lines(c) == seq![c],
    decreases c.len(),
{
    if c.len() == 0 {
        assert(c =~= Seq::<char>::empty());
        assert(text_lines(c) =~= seq![c]);
    } else {
        let c0 = c.drop_last();
        assert(!c0.contains('\n')) by {
            if c0.contains('\n') {
                let k = choose|k: int| 0 <= k < c0.len() && c0[k] == '\n';
                assert(c[k] == '\n');
            }
        }
        law_single_line(c0);
        assert(c.last() != '\n') by {
            if c.last() == '\n' {
                assert(c[c.len() - 1] == '\n');
                assert(c.contains('\n'));
            }
        }
        assert(c0.push(c.last()) =~= c);
        let before = text_lines(c0);
        assert(before.drop_last().push(before.last().push(c.last())) =~= seq![c]);
    }
}

/// Reading lines is reading them in order: the level of two runs of lines
/// is the level of the first run with the lines of the second added.
pub proof fn law_lines_read_in_order(l1: Seq<Seq<char>>, l2: Seq<Seq<char>>)
    ensures
        level_of_lines(l1 + l2) == read_lines(level_of_lines(l1), l2),
    decreases l2.len(),
{
    if l2.len() == 0 {
        assert(l1 + l2 =~= l1);
    } else {
        law_lines_read_in_order(l1, l2.drop_last());
        assert((l1 + l2).drop_last() =~= l1 + l2.drop_last());
        assert((l1 + l2).last() == l2.last());
    }
}

/// A level file is read line by line: the level of two texts joined by a
/// newline is the level of the first text with the lines of the second
/// added, in order.
pub proof fn law_read_in_order(a: Seq<char>, b: Seq<char>)
    ensures
        level_of_text(a + seq!['\n'] + b) == read_lines(level_of_text(a), text_lines(b)),
{
    law_lines_join(a, b);
    law_lines_read_in_order(text_lines(a), text_lines(b));
}

/// A line that describes nothing (a blank line, a comment, a player start,
/// an unknown tag or a line with too few words) can be inserted anywhere in
/// a level file without changing the level.
pub proof fn law_inert_line(a: Seq<char>, line: Seq<char>, b: Seq<char>)
    requires
        !line.contains('\n'),
        describes_nothing(line_words(line)),
    ensures
        level_of_text(a + seq!['\n'] + line + seq!['\n'] + b) == level_of_text(a + seq!['\n'] + b),
{
    let head = a + seq!['\n'] + line;
    assert(a + seq!['\n'] + line + seq!['\n'] + b == head + seq!['\n'] + b);
    law_lines_join(head, b);
    law_lines_join(a, line);
    law_single_line(line);
    law_lines_join(a, b);
    let la = text_lines(a);
    let lb = text_lines(b);
    law_lines_read_in_order(la.push(line), lb);
    law_lines_read_in_order(la, lb);
    assert(la + seq![line] =~= la.push(line));
    assert(la.push(line).drop_last() =~= la);
    assert(level_of_lines(la.push(line)) == level_of_lines(la));
}


/// A line that describes nothing can be put before the first line of a
/// level file without changing the level.
pub proof fn law_inert_first_line(line: Seq<char>, b: Seq<char>)
    requires
        !line.contains('\n'),
        describes_nothing(line_words(line)),
    ensures
        level_of_text(line + seq!['\n'] + b) == level_of_text(b),
{
    law_lines_join(line, b);
    law_single_line(line);
    let lb = text_lines(b);
    let l1 = seq![line];
    law_lines_read_in_order(l1, lb);
    law_lines_read_in_order(Seq::empty(), lb);
    assert(Seq::<Seq<char>>::empty() + lb =~= lb);
    assert(l1.drop_last() =~= Seq::<Seq<char>>::empty());
    assert(level_of_lines(l1) == level_of_lines(Seq::<Seq<char>>::empty()));
}

/// A line that describes nothing can be put after the last line of a level
/// file without changing the level.
pub proof fn law_inert_last_line(a: Seq<char>, line: Seq<char>)
    requires
        !line.contains('\n'),
        describes_nothing(line_words(line)),
    ensures
        level_of_text(a + seq!['\n'] + line) == level_of_text(a),
{
    law_lines_join(a, line);
    law_single_line(line);
    let la = text_lines(a);
    assert(la + seq![line] =~= la.push(line));
    assert(la.push(line).drop_last() =~= la);
}


/// Whether `w` is a word: not empty, and without white space.
pub open spec fn is_word(w: Seq<char>) -> bool {
    &&& w.len() > 0
    &&& forall|i: int| 0 <= i < w.len() ==> !is_white_space(#[trigger] w[i])
}

/// The line made of `words`, separated by single spaces.
pub open spec fn spaced(words: Seq<Seq<char>>) -> Seq<char>
    decreases words.len(),
{
    if words.len() == 0 {
        Seq::empty()
    } else if words.len() == 1 {
        words[0]
    } else {
        spaced(words.drop_last()) + seq![' '] + words.last()
    }
}

proof fn lemma_word_alone(w: Seq<char>)
    requires
        is_word(w),
    ensures
        line_words(w) == seq![w],
    decreases w.len(),
{
    let c = w.last();
    assert(!is_white_space(w[w.len() - 1]));
    if w.len() == 1 {
        assert(w.drop_last() =~= Seq::<char>::empty());
        assert(line_words(w.drop_last()) == Seq::<Seq<char>>::empty());
        assert(w =~= seq![c]);
        assert(line_words(w) == Seq::<Seq<char>>::empty().push(seq![c]));
        assert(Seq::<Seq<char>>::empty().push(seq![c]) =~= seq![w]);
    } else {
        let w0 = w.drop_last();
        assert(is_word(w0)) by {
            assert forall|i: int| 0 <= i < w0.len() implies !is_white_space(#[trigger] w0[i]) by {
                assert(w0[i] == w[i]);
            }
        }
        lemma_word_alone(w0);
        assert(!is_white_space(w[w.len() - 2]));
        assert(w0.push(c) =~= w);
        assert(line_words(w) == line_words(w0).drop_last().push(line_words(w0).last().push(c)));
        assert(seq![w0].drop_last().push(seq![w0].last().push(c)) =~= seq![w]);
    }
}

proof fn lemma_word_after_space(s: Seq<char>, w: Seq<char>)
    requires
        is_word(w),
    ensures
        line_words(s + seq![' '] + w) == line_words(s).push(w),
    decreases w.len(),
{
    let t = s + seq![' '] + w;
    let c = w.last();
    assert(!is_white_space(w[w.len() - 1]));
    assert(t.last() == c);
    let sp = s + seq![' '];
    assert(sp.drop_last() =~= s);
    assert(is_white_space(sp.last()));
    assert(line_words(sp) == line_words(s));
    if w.len() == 1 {
        assert(t.drop_last() =~= sp);
        assert(t[t.len() - 2] == ' ');
        assert(w =~= seq![c]);
    } else {
        let w0 = w.drop_last();
        assert(is_word(w0)) by {
            assert forall|i: int| 0 <= i < w0.len() implies !is_white_space(#[trigger] w0[i]) by {
                assert(w0[i] == w[i]);
            }
        }
        lemma_word_after_space(s, w0);
        assert(t.drop_last() =~= s + seq![' '] + w0);
        assert(t[t.len() - 2] == w[w.len() - 2]);
        assert(!is_white_space(w[w.len() - 2]));
        let before = line_words(s).push(w0);
        assert(before.drop_last() =~= line_words(s));
        assert(w0.push(c) =~= w);
    }
}

proof fn lemma_no_newline_join(a: Seq<char>, b: Seq<char>)
    requires
        forall|i: int| 0 <= i < a.len() ==> #[trigger] a[i] != '\n',
        forall|i: int| 0 <= i < b.len() ==> #[trigger] b[i] != '\n',
    ensures
        forall|i: int| 0 <= i < (a + b).len() ==> #[trigger] (a + b)[i] != '\n',
{
    assert forall|i: int| 0 <= i < (a + b).len() implies #[trigger] (a + b)[i] != '\n' by {
        if i < a.len() {
            assert((a + b)[i] == a[i]);
        } else {
            assert((a + b)[i] == b[i - a.len()]);
        }
    }
}

proof fn lemma_spaced(words: Seq<Seq<char>>)
    requires
        words.len() > 0,
        forall|i: int| 0 <= i < words.len() ==> is_word(#[trigger] words[i]),
    ensures
        line_words(spaced(words)) == words,
        forall|i: int| 0 <= i < spaced(words).len() ==> #[trigger] spaced(words)[i] != '\n',
    decreases words.len(),
{
    let w = words.last();
    assert(is_word(words[words.len() - 1]));
    assert forall|i: int| 0 <= i < w.len() implies #[trigger] w[i] != '\n' by {
        assert(!is_white_space(w[i]));
    }
    if words.len() == 1 {
        lemma_word_alone(words[0]);
        assert(words =~= seq![words[0]]);
    } else {
        let w0 = words.drop_last();
        assert forall|i: int| 0 <= i < w0.len() implies is_word(#[trigger] w0[i]) by {
            assert(w0[i] == words[i]);
        }
        lemma_spaced(w0);
        lemma_word_after_space(spaced(w0), w);
        assert(w0.push(w) =~= words);
        let sp: Seq<char> = seq![' '];
        assert(forall|i: int| 0 <= i < sp.len() ==> #[trigger] sp[i] != '\n');
        lemma_no_newline_join(spaced(w0), sp);
        lemma_no_newline_join(spaced(w0) + sp, w);
    }
}

proof fn lemma_single_line_level(words: Seq<Seq<char>>)
    requires
        words.len() > 0,
        forall|i: int| 0 <= i < words.len() ==> is_word(#[trigger] words[i]),
    ensures
        level_of_text(spaced(words)) == with_line(empty_level(), words),
{
    lemma_spaced(words);
    let t = spaced(words);
    assert(!t.contains('\n'));
    law_single_line(t);
    let lines = seq![t];
    assert(lines.drop_last() =~= Seq::<Seq<char>>::empty());
    assert(level_of_lines(lines.drop_last()) == empty_level());
    assert(lines.last() == t);
    assert(level_of_lines(lines) == with_line(empty_level(), line_words(t)));
}

/// A level file that ends in a newline reads the same as without it.
pub proof fn law_trailing_newline(text: Seq<char>)
    ensures
        level_of_text(text + seq!['\n']) == level_of_text(text),
{
    law_inert_last_line(text, Seq::empty());
    assert(text + seq!['\n'] + Seq::<char>::empty() =~= text + seq!['\n']);
}

/// A file whose one line is `# x y w h` describes exactly one platform, at
/// `x`, `y`, of width `w` and height `h`, and nothing else.
pub proof fn law_platform_line(x: Seq<char>, y: Seq<char>, w: Seq<char>, h: Seq<char>)
    requires
        is_word(x),
        is_word(y),
        is_word(w),
        is_word(h),
    ensures
        level_of_text(spaced(seq![seq!['#'], x, y, w, h])) == (LevelLayoutView {
            platforms: seq![RectSpecView { x, y, w, h }],
            spikes: Seq::empty(),
            babies: Seq::empty(),
            lava_pits: Seq::empty(),
            foods: Seq::empty(),
            goal_ball: None,
        }),
{
    let ws = seq![seq!['#'], x, y, w, h];
    assert(is_word(seq!['#']));
    lemma_single_line_level(ws);
    assert(level_of_text(spaced(ws)).platforms =~= seq![RectSpecView { x, y, w, h }]);
}

/// A file whose one line is `S x y w h` describes exactly one spike pit, at
/// `x`, `y`, of width `w` and height `h`, and nothing else.
pub proof fn law_spike_line(x: Seq<char>, y: Seq<char>, w: Seq<char>, h: Seq<char>)
    requires
        is_word(x),
        is_word(y),
        is_word(w),
        is_word(h),
    ensures
        level_of_text(spaced(seq![seq!['S'], x, y, w, h])) == (LevelLayoutView {
            platforms: Seq::empty(),
            spikes: seq![RectSpecView { x, y, w, h }],
            babies: Seq::empty(),
            lava_pits: Seq::empty(),
            foods: Seq::empty(),
            goal_ball: None,
        }),
{
    let ws = seq![seq!['S'], x, y, w, h];
    assert(is_word(seq!['S']));
    assert(seq!['S'] != seq!['#']) by {
        assert(seq!['S'][0] != seq!['#'][0]);
    }
    lemma_single_line_level(ws);
    assert(level_of_text(spaced(ws)).spikes =~= seq![RectSpecView { x, y, w, h }]);
}

/// A file whose one line is `L x y w h` describes exactly one lava pit, at
/// `x`, `y`, of width `w` and height `h`, and nothing else.
pub proof fn law_lava_line(x: Seq<char>, y: Seq<char>, w: Seq<char>, h: Seq<char>)
    requires
        is_word(x),
        is_word(y),
        is_word(w),
        is_word(h),
    ensures
        level_of_text(spaced(seq![seq!['L'], x, y, w, h])) == (LevelLayoutView {
            platforms: Seq::empty(),
            spikes: Seq::empty(),
            babies: Seq::empty(),
            lava_pits: seq![RectSpecView { x, y, w, h }],
            foods: Seq::empty(),
            goal_ball: None,
        }),
{
    let ws = seq![seq!['L'], x, y, w, h];
    assert(is_word(seq!['L']));
    assert(seq!['L'] != seq!['#']) by {
        assert(seq!['L'][0] != seq!['#'][0]);
    }
    assert(seq!['L'] != seq!['S']) by {
        assert(seq!['L'][0] != seq!['S'][0]);
    }
    lemma_single_line_level(ws);
    assert(level_of_text(spaced(ws)).lava_pits =~= seq![RectSpecView { x, y, w, h }]);
}

/// A file whose one line is `B x floor_y min_x max_x` describes exactly one
/// baby, with these four words in this order, and nothing else.
pub proof fn law_baby_line(x: Seq<char>, floor_y: Seq<char>, min_x: Seq<char>, max_x: Seq<char>)
    requires
        is_word(x),
        is_word(floor_y),
        is_word(min_x),
        is_word(max_x),
    ensures
        level_of_text(spaced(seq![seq!['B'], x, floor_y, min_x, max_x])) == (LevelLayoutView {
            platforms: Seq::empty(),
            spikes: Seq::empty(),
            babies: seq![BabySpecView { x, floor_y, min_x, max_x }],
            lava_pits: Seq::empty(),
            foods: Seq::empty(),
            goal_ball: None,
        }),
{
    let ws = seq![seq!['B'], x, floor_y, min_x, max_x];
    assert(is_word(seq!['B']));
    assert(seq!['B'] != seq!['#']) by {
        assert(seq!['B'][0] != seq!['#'][0]);
    }
    assert(seq!['B'] != seq!['S']) by {
        assert(seq!['B'][0] != seq!['S'][0]);
    }
    assert(seq!['B'] != seq!['L']) by {
        assert(seq!['B'][0] != seq!['L'][0]);
    }
    lemma_single_line_level(ws);
    assert(level_of_text(spaced(ws)).babies =~= seq![BabySpecView { x, floor_y, min_x, max_x }]);
}

/// A file whose one line is `F x y kind` describes exactly one piece of
/// food, at `x`, `y`, of the kind the word names, and nothing else.
pub proof fn law_food_line(x: Seq<char>, y: Seq<char>, kind: Seq<char>)
    requires
        is_word(x),
        is_word(y),
        is_word(kind),
    ensures
        level_of_text(spaced(seq![seq!['F'], x, y, kind])) == (LevelLayoutView {
            platforms: Seq::empty(),
            spikes: Seq::empty(),
            babies: Seq::empty(),
            lava_pits: Seq::empty(),
            foods: seq![FoodSpecView { x, y, kind: food_named(kind) }],
            goal_ball: None,
        }),
{
    let ws = seq![seq!['F'], x, y, kind];
    assert(is_word(seq!['F']));
    assert(seq!['F'][0] != seq!['#'][0]);
    assert(seq!['F'][0] != seq!['S'][0]);
    assert(seq!['F'][0] != seq!['L'][0]);
    assert(seq!['F'][0] != seq!['B'][0]);
    lemma_single_line_level(ws);
    assert(level_of_text(spaced(ws)).foods =~= seq![FoodSpecView { x, y, kind: food_named(kind) }]);
}

/// A file whose one line is `G x y colour` describes exactly the goal ball,
/// at `x`, `y`, of the colour the word names, and nothing else.
pub proof fn law_goal_line(x: Seq<char>, y: Seq<char>, colour: Seq<char>)
    requires
        is_word(x),
        is_word(y),
        is_word(colour),
    ensures
        level_of_text(spaced(seq![seq!['G'], x, y, colour])) == (LevelLayoutView {
            platforms: Seq::empty(),
            spikes: Seq::empty(),
            babies: Seq::empty(),
            lava_pits: Seq::empty(),
            foods: Seq::empty(),
            goal_ball: Some(GoalSpecView { x, y, color: color_named(colour) }),
        }),
{
    let ws = seq![seq!['G'], x, y, colour];
    assert(is_word(seq!['G']));
    assert(seq!['G'][0] != seq!['#'][0]);
    assert(seq!['G'][0] != seq!['S'][0]);
    assert(seq!['G'][0] != seq!['L'][0]);
    assert(seq!['G'][0] != seq!['B'][0]);
    assert(seq!['G'][0] != seq!['F'][0]);
    lemma_single_line_level(ws);
}


/// The food words: `chicken`, `burger` and `pizza` name those foods, and
/// every other word names bacon.
pub proof fn law_food_words(word: Seq<char>)
    ensures
        food_named(seq!['c', 'h', 'i', 'c', 'k', 'e', 'n']) == FoodType::Chicken,
        food_named(seq!['b', 'u', 'r', 'g', 'e', 'r']) == FoodType::Burger,
        food_named(seq!['p', 'i', 'z', 'z', 'a']) == FoodType::Pizza,
        word != seq!['c', 'h', 'i', 'c', 'k', 'e', 'n'] && word != seq!['b', 'u', 'r', 'g', 'e', 'r']
            && word != seq!['p', 'i', 'z', 'z', 'a'] ==> food_named(word) == FoodType::Bacon,
{
}

/// The colour words: green `0x3cb371`, blue `0x4a90d9`, red `0xe94560`,
/// gold and yellow `0xd4c73c`; every other word gives green.
pub proof fn law_colour_words(word: Seq<char>)
    ensures
        color_named(seq!['g', 'r', 'e', 'e', 'n']) == 0x3cb371,
        color_named(seq!['b', 'l', 'u', 'e']) == 0x4a90d9,
        color_named(seq!['r', 'e', 'd']) == 0xe94560,
        color_named(seq!['g', 'o', 'l', 'd']) == 0xd4c73c,
        color_named(seq!['y', 'e', 'l', 'l', 'o', 'w']) == 0xd4c73c,
        word != seq!['b', 'l', 'u', 'e'] && word != seq!['r', 'e', 'd'] && word != seq![
            'g',
            'o',
            'l',
            'd',
        ] && word != seq!['y', 'e', 'l', 'l', 'o', 'w'] ==> color_named(word) == 0x3cb371,
{
}

} // verus!
