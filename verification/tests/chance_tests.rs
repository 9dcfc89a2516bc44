use dog_adventure::chance::{baby_flees, roll_scares};

#[test]
fn three_rolls_in_four_scare() {
    assert!(!roll_scares(0));
    assert!(roll_scares(1));
    assert!(roll_scares(2));
    assert!(roll_scares(3));
    assert!(!roll_scares(4));
    assert!(roll_scares(u32::MAX));
    assert!(!roll_scares(u32::MAX - 3));
    let scared = (0u32..400).filter(|r| roll_scares(*r)).count();
    assert_eq!(scared, 300);
}

#[test]
fn far_babies_never_flee() {
    for _ in 0..50 {
        assert!(!baby_flees(false));
    }
}

#[test]
fn near_babies_usually_flee() {
    let fled = (0..400).filter(|_| baby_flees(true)).count();
    assert!(fled > 200 && fled < 400, "{}", fled);
}
