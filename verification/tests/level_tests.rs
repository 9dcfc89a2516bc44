use dog_adventure::level::{
    ball_color, build_level, food_kind, parse_level, split_lines, split_words, white_space,
    FoodType, LevelLayout,
};

fn word(w: &Vec<char>) -> String {
    w.iter().collect()
}

fn chars(s: &str) -> Vec<char> {
    s.chars().collect()
}

fn words(line: &str) -> Vec<String> {
    split_words(&chars(line)).iter().map(word).collect()
}

fn summary(l: &LevelLayout) -> String {
    let mut out = String::new();
    for p in &l.platforms {
        out.push_str(&format!("#[{} {} {} {}]", word(&p.x), word(&p.y), word(&p.w), word(&p.h)));
    }
    for p in &l.spikes {
        out.push_str(&format!("S[{} {} {} {}]", word(&p.x), word(&p.y), word(&p.w), word(&p.h)));
    }
    for p in &l.lava_pits {
        out.push_str(&format!("L[{} {} {} {}]", word(&p.x), word(&p.y), word(&p.w), word(&p.h)));
    }
    for b in &l.babies {
        out.push_str(&format!(
            "B[{} {} {} {}]",
            word(&b.x),
            word(&b.floor_y),
            word(&b.min_x),
            word(&b.max_x)
        ));
    }
    for f in &l.foods {
        out.push_str(&format!("F[{} {} {:?}]", word(&f.x), word(&f.y), f.kind));
    }
    if let Some(g) = &l.goal_ball {
        out.push_str(&format!("G[{} {} {:06x}]", word(&g.x), word(&g.y), g.color));
    }
    out
}

const SAMPLE: &str = "; a sample level\n\
P 80 400\n\
# 0 440 800 40\n\
  #   900 440 300 40   \n\
S 300 456 120 24\n\
L 500 456 60 24\n\
B 600 440 500 780\n\
F 100 380 chicken\n\
F 120 380 burger\n\
F 140 380 pizza\n\
F 160 380 bacon\n\
F 180 380 sushi\n\
G 700 300 red\n\
\n\
# 1 2 3\n\
Q 1 2 3 4\n\
G 750 310 blue\n";

#[test]
fn parses_every_kind_of_line() {
    let l = parse_level(SAMPLE);
    assert_eq!(l.platforms.len(), 2);
    assert_eq!(word(&l.platforms[0].x), "0");
    assert_eq!(word(&l.platforms[1].x), "900");
    assert_eq!(word(&l.platforms[1].h), "40");
    assert_eq!(l.spikes.len(), 1);
    assert_eq!(word(&l.spikes[0].w), "120");
    assert_eq!(l.lava_pits.len(), 1);
    assert_eq!(word(&l.lava_pits[0].x), "500");
    assert_eq!(l.babies.len(), 1);
    assert_eq!(word(&l.babies[0].max_x), "780");
    let kinds: Vec<FoodType> = l.foods.iter().map(|f| f.kind).collect();
    assert_eq!(
        kinds,
        vec![
            FoodType::Chicken,
            FoodType::Burger,
            FoodType::Pizza,
            FoodType::Bacon,
            FoodType::Bacon
        ]
    );
    let g = l.goal_ball.as_ref().unwrap();
    // the last goal line wins
    assert_eq!(word(&g.x), "750");
    assert_eq!(g.color, 0x4a90d9);
}

#[test]
fn short_and_unknown_lines_are_ignored() {
    let l = parse_level("# 1 2 3\nS 1\nL\nB 1 2 3\nF 1 2\nG 1 2\nX 1 2 3 4\nP 1 2 3\n");
    assert_eq!(summary(&l), "");
}

#[test]
fn comments_and_blank_lines_are_ignored() {
    let l = parse_level(";# 1 2 3 4\n   ; G 1 2 red\n\n \t \n");
    assert_eq!(summary(&l), "");
    assert!(l.goal_ball.is_none());
}

#[test]
fn extra_words_are_ignored() {
    let l = parse_level("# 1 2 3 4 5 6 ; trailing\n");
    assert_eq!(summary(&l), "#[1 2 3 4]");
}

#[test]
fn crlf_line_endings_are_accepted() {
    let l = parse_level("# 1 2 3 4\r\nG 5 6 gold\r\n");
    assert_eq!(summary(&l), "#[1 2 3 4]G[5 6 d4c73c]");
}

#[test]
fn unicode_white_space_separates_words() {
    let l = parse_level("#\u{3000}1\u{a0}2\u{2003}3\t4\u{85}");
    assert_eq!(summary(&l), "#[1 2 3 4]");
}

#[test]
fn numbers_are_kept_as_written() {
    let l = parse_level("# abc -1.5e3 +7 0x10\n");
    assert_eq!(summary(&l), "#[abc -1.5e3 +7 0x10]");
}

#[test]
fn goal_colours() {
    let cases = [
        ("green", 0x3cb371),
        ("blue", 0x4a90d9),
        ("red", 0xe94560),
        ("gold", 0xd4c73c),
        ("yellow", 0xd4c73c),
        ("purple", 0x3cb371),
        ("Red", 0x3cb371),
    ];
    for (name, rgb) in cases {
        assert_eq!(ball_color(&chars(name)), rgb, "{}", name);
    }
}

#[test]
fn food_kinds() {
    assert_eq!(food_kind(&chars("chicken")), FoodType::Chicken);
    assert_eq!(food_kind(&chars("burger")), FoodType::Burger);
    assert_eq!(food_kind(&chars("pizza")), FoodType::Pizza);
    assert_eq!(food_kind(&chars("bacon")), FoodType::Bacon);
    assert_eq!(food_kind(&chars("Pizza")), FoodType::Bacon);
    assert_eq!(food_kind(&chars("")), FoodType::Bacon);
}

#[test]
fn lines_split_at_newlines() {
    let lines: Vec<String> = split_lines(&chars("a\n\nb c\n")).iter().map(word).collect();
    assert_eq!(lines, vec!["a", "", "b c", ""]);
    let none: Vec<String> = split_lines(&chars("")).iter().map(word).collect();
    assert_eq!(none, vec![""]);
}

#[test]
fn words_split_at_white_space() {
    assert_eq!(words("  a bb\t ccc  "), vec!["a", "bb", "ccc"]);
    assert_eq!(words(""), Vec::<String>::new());
    assert_eq!(words(" \t "), Vec::<String>::new());
    assert_eq!(words("x"), vec!["x"]);
}

#[test]
fn white_space_matches_std() {
    for u in 0u32..0x3100 {
        if let Some(c) = char::from_u32(u) {
            assert_eq!(white_space(c), c.is_whitespace(), "U+{:04X}", u);
        }
    }
    assert!(white_space('\u{3000}'));
    assert!(!white_space('\u{feff}'));
}

#[test]
fn build_level_picks_the_file() {
    let one = "# 1 1 1 1";
    let two = "# 2 2 2 2";
    let three = "# 3 3 3 3";
    assert_eq!(summary(&build_level(1, one, two, three)), "#[1 1 1 1]");
    assert_eq!(summary(&build_level(2, one, two, three)), "#[2 2 2 2]");
    assert_eq!(summary(&build_level(3, one, two, three)), "#[3 3 3 3]");
    assert_eq!(summary(&build_level(0, one, two, three)), "#[2 2 2 2]");
    assert_eq!(summary(&build_level(4, one, two, three)), "#[2 2 2 2]");
    assert_eq!(summary(&build_level(u32::MAX, one, two, three)), "#[2 2 2 2]");
}

#[test]
fn reading_is_line_by_line() {
    let a = "# 1 2 3 4\nG 1 1 red";
    let b = "S 5 6 7 8\nG 2 2 blue";
    let joined = format!("{}\n{}", a, b);
    let mut expected = parse_level(a);
    let extra = parse_level(b);
    expected.spikes.extend(extra.spikes);
    expected.goal_ball = extra.goal_ball;
    assert_eq!(summary(&parse_level(&joined)), summary(&expected));
}

#[test]
fn inert_lines_change_nothing() {
    let a = "# 1 2 3 4\nF 1 2 pizza";
    let b = "B 1 2 3 4";
    let plain = parse_level(&format!("{}\n{}", a, b));
    for inert in ["; comment", "", "   ", "P 10 20", "Z 1 2 3 4", "# 1 2", "G 1 2"] {
        let with = parse_level(&format!("{}\n{}\n{}", a, inert, b));
        assert_eq!(summary(&with), summary(&plain), "{:?}", inert);
    }
}

#[test]
fn empty_text_gives_empty_level() {
    assert_eq!(summary(&parse_level("")), "");
}

#[test]
fn inert_lines_at_the_ends_change_nothing() {
    let body = "# 1 2 3 4\nF 1 2 pizza\nG 1 1 red";
    let plain = summary(&parse_level(body));
    for inert in ["; comment", "", "P 10 20", "Z 1 2 3 4", "F 1 2"] {
        let first = parse_level(&format!("{}\n{}", inert, body));
        let last = parse_level(&format!("{}\n{}", body, inert));
        assert_eq!(summary(&first), plain, "first {:?}", inert);
        assert_eq!(summary(&last), plain, "last {:?}", inert);
    }
}
