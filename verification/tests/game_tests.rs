use dog_adventure::frame::{Command, FrameInput};
use dog_adventure::game::{DeathCause, Game, GameState};

const LEVEL1: &str = "# 0 440 800 40\nF 100 400 bacon\nF 200 400 pizza\nG 700 400 green\n";
const LEVEL2: &str = "# 0 440 800 40\nG 700 400 blue\n";
const LEVEL3: &str = "# 0 440 800 40\nF 1 1 chicken\nF 2 2 burger\nF 3 3 pizza\nG 700 400 red\n";

fn new_game() -> Game {
    Game::new(LEVEL1.to_string(), LEVEL2.to_string(), LEVEL3.to_string()).0
}

fn no_input() -> FrameInput {
    FrameInput {
        click: false,
        over_button: [false; 4],
        escape: false,
        space: false,
        reset_key: false,
        poop_key: false,
        death_timer_done: false,
        complete_timer_done: false,
    }
}

fn click(button: usize) -> FrameInput {
    let mut i = no_input();
    i.click = true;
    i.over_button[button] = true;
    i
}

#[test]
fn new_game_is_on_the_title_screen() {
    let (g, layout) = Game::new(LEVEL1.to_string(), LEVEL2.to_string(), LEVEL3.to_string());
    assert_eq!(g.state(), GameState::Title);
    assert_eq!(g.level(), 1);
    assert!(!g.dev_mode());
    assert!(!g.player_dead());
    assert!(!g.level_complete());
    assert_eq!(g.death_cause(), None);
    assert_eq!(g.food_total(), 0);
    assert_eq!(g.food_collected(), 0);
    // the title screen shows level 1 without its food
    assert_eq!(layout.platforms.len(), 1);
    assert!(layout.foods.is_empty());
    assert_eq!(layout.goal_ball.as_ref().unwrap().color, 0x3cb371);
}

#[test]
fn start_level_loads_food() {
    let mut g = new_game();
    let layout = g.start_level(3);
    assert_eq!(layout.foods.len(), 3);
    assert_eq!(g.state(), GameState::Playing);
    assert_eq!(g.level(), 3);
    assert_eq!(g.food_total(), 3);
    assert_eq!(g.food_collected(), 0);
    assert!(!g.food_eaten(0));
    let layout = g.start_level(2);
    assert_eq!(layout.goal_ball.as_ref().unwrap().color, 0x4a90d9);
    assert_eq!(g.food_total(), 0);
}

#[test]
fn next_level_goes_up_by_one() {
    let mut g = new_game();
    g.start_level(1);
    let layout = g.next_level();
    assert_eq!(g.level(), 2);
    assert_eq!(layout.goal_ball.as_ref().unwrap().color, 0x4a90d9);
    let layout = g.next_level();
    assert_eq!(g.level(), 3);
    assert_eq!(layout.foods.len(), 3);
    let layout = g.next_level();
    assert_eq!(g.level(), 4);
    // levels past 3 load the second file
    assert_eq!(layout.goal_ball.as_ref().unwrap().color, 0x4a90d9);
}

#[test]
fn reset_keeps_the_level_and_clears_the_rest() {
    let mut g = new_game();
    g.start_level(3);
    g.toggle_dev_mode();
    g.die(DeathCause::Lava);
    g.collect_foods(&vec![true, false, false]);
    g.reset();
    assert_eq!(g.level(), 3);
    assert_eq!(g.state(), GameState::Playing);
    assert!(!g.dev_mode());
    assert!(!g.player_dead());
    assert_eq!(g.death_cause(), None);
    assert_eq!(g.food_collected(), 0);
    assert_eq!(g.food_total(), 3);
}

#[test]
fn reset_from_level_zero_starts_level_one() {
    let mut g = new_game();
    g.start_level(0);
    assert_eq!(g.level(), 0);
    g.reset();
    assert_eq!(g.level(), 1);
    assert_eq!(g.food_total(), 2);
}

#[test]
fn reset_twice_is_reset_once() {
    let mut g = new_game();
    g.start_level(3);
    g.collect_foods(&vec![false, true, false]);
    g.reset();
    let once = (g.state(), g.level(), g.dev_mode(), g.food_total(), g.food_collected(), g.death_cause());
    g.reset();
    let twice = (g.state(), g.level(), g.dev_mode(), g.food_total(), g.food_collected(), g.death_cause());
    assert_eq!(once, twice);
}

#[test]
fn food_is_counted_once() {
    let mut g = new_game();
    g.start_level(3);
    g.collect_foods(&vec![true, false, true]);
    assert_eq!(g.food_collected(), 2);
    g.collect_foods(&vec![true, false, true]);
    assert_eq!(g.food_collected(), 2);
    assert!(g.food_eaten(0) && !g.food_eaten(1) && g.food_eaten(2));
    g.collect_foods(&vec![false, false, false]);
    assert_eq!(g.food_collected(), 2);
    g.collect_foods(&vec![true, true, true]);
    assert_eq!(g.food_collected(), 3);
    assert!(g.food_collected() <= g.food_total());
}

#[test]
fn fetching_needs_all_food() {
    let mut g = new_game();
    g.start_level(3);
    assert!(!g.can_fetch());
    assert!(!g.fetch_goal(true));
    assert!(!g.level_complete());
    g.collect_foods(&vec![true, true, false]);
    assert!(!g.fetch_goal(true));
    g.collect_foods(&vec![false, false, true]);
    assert!(g.can_fetch());
    assert!(!g.fetch_goal(false));
    assert!(!g.level_complete());
    assert!(g.fetch_goal(true));
    assert!(g.level_complete());
}

#[test]
fn levels_without_food_can_be_fetched_at_once() {
    let mut g = new_game();
    g.start_level(2);
    assert!(g.can_fetch());
    assert!(g.fetch_goal(true));
}

#[test]
fn hazards_kill_in_order() {
    let mut g = new_game();
    g.start_level(1);
    assert_eq!(g.touch_hazards(false, false, false), vec![]);
    assert!(!g.player_dead());
    assert_eq!(g.touch_hazards(true, true, true), vec![DeathCause::Spikes, DeathCause::Lava]);
    assert!(g.player_dead());
    assert_eq!(g.death_cause(), Some(DeathCause::Lava));
    g.reset();
    assert_eq!(g.touch_hazards(false, false, true), vec![DeathCause::Baby]);
    assert_eq!(g.death_cause(), Some(DeathCause::Baby));
    // a dead dog is not killed by a baby again
    assert_eq!(g.touch_hazards(false, false, true), vec![]);
    assert_eq!(g.touch_hazards(true, false, false), vec![DeathCause::Spikes]);
}

#[test]
fn dev_mode_is_immortal() {
    let mut g = new_game();
    g.start_level(1);
    g.toggle_dev_mode();
    assert!(g.dev_mode());
    assert_eq!(g.touch_hazards(true, true, true), vec![]);
    assert!(!g.player_dead());
    g.toggle_dev_mode();
    assert!(!g.dev_mode());
}

#[test]
fn death_messages() {
    assert_eq!(DeathCause::Spikes.message(), "Ouch! Spikes are not food");
    assert_eq!(DeathCause::Lava.message(), "Fire is great till it burns you");
    assert_eq!(DeathCause::Baby.message(), "The baby pulled your tail");
}

#[test]
fn show_and_main_menu() {
    let mut g = new_game();
    g.start_level(2);
    g.fetch_goal(true);
    g.show(GameState::Paused);
    assert_eq!(g.state(), GameState::Paused);
    assert!(g.level_complete());
    g.main_menu();
    assert_eq!(g.state(), GameState::Title);
    assert!(!g.level_complete());
}

#[test]
fn title_screen_commands() {
    let g = new_game();
    assert_eq!(g.frame_commands(&no_input()), vec![]);
    assert_eq!(g.frame_commands(&click(0)), vec![Command::Reset]);
    assert_eq!(g.frame_commands(&click(1)), vec![Command::Show(GameState::LevelSelect)]);
    assert_eq!(g.frame_commands(&click(2)), vec![Command::Show(GameState::Tutorial)]);
    assert_eq!(g.frame_commands(&click(3)), vec![Command::Quit]);
    let mut esc = no_input();
    esc.escape = true;
    assert_eq!(g.frame_commands(&esc), vec![Command::Quit]);
    let mut both = click(0);
    both.escape = true;
    assert_eq!(g.frame_commands(&both), vec![Command::Reset, Command::Quit]);
    let mut quit_twice = click(3);
    quit_twice.escape = true;
    assert_eq!(g.frame_commands(&quit_twice), vec![Command::Quit]);
    // hovering without a click does nothing
    let mut hover = no_input();
    hover.over_button[0] = true;
    assert_eq!(g.frame_commands(&hover), vec![]);
}

#[test]
fn level_select_commands() {
    let mut g = new_game();
    g.show(GameState::LevelSelect);
    assert_eq!(g.frame_commands(&click(0)), vec![Command::StartLevel(1)]);
    assert_eq!(g.frame_commands(&click(1)), vec![Command::StartLevel(2)]);
    assert_eq!(g.frame_commands(&click(2)), vec![Command::StartLevel(3)]);
    assert_eq!(g.frame_commands(&click(3)), vec![Command::Show(GameState::Title)]);
    let mut two = click(0);
    two.over_button[2] = true;
    assert_eq!(g.frame_commands(&two), vec![Command::StartLevel(1)]);
    let mut esc = click(1);
    esc.escape = true;
    assert_eq!(
        g.frame_commands(&esc),
        vec![Command::StartLevel(2), Command::Show(GameState::Title)]
    );
}

#[test]
fn tutorial_commands() {
    let mut g = new_game();
    g.show(GameState::Tutorial);
    assert_eq!(g.frame_commands(&click(0)), vec![]);
    let mut esc = no_input();
    esc.escape = true;
    assert_eq!(g.frame_commands(&esc), vec![Command::Show(GameState::Title)]);
}

#[test]
fn pause_commands() {
    let mut g = new_game();
    g.show(GameState::Paused);
    assert_eq!(g.frame_commands(&click(0)), vec![Command::Show(GameState::Playing)]);
    assert_eq!(g.frame_commands(&click(1)), vec![Command::MainMenu]);
    assert_eq!(g.frame_commands(&click(2)), vec![Command::Quit]);
    assert_eq!(g.frame_commands(&click(3)), vec![Command::ToggleDevMode]);
    let mut esc = click(1);
    esc.escape = true;
    assert_eq!(
        g.frame_commands(&esc),
        vec![Command::MainMenu, Command::Show(GameState::Playing)]
    );
    let mut quit = click(2);
    quit.escape = true;
    assert_eq!(g.frame_commands(&quit), vec![Command::Quit]);
}

#[test]
fn play_commands() {
    let mut g = new_game();
    g.start_level(2);
    assert_eq!(g.frame_commands(&no_input()), vec![Command::UpdateWorld, Command::UpdateGoal]);
    let mut q = no_input();
    q.poop_key = true;
    q.escape = true;
    q.reset_key = true;
    assert_eq!(
        g.frame_commands(&q),
        vec![
            Command::UpdateWorld,
            Command::DropPoop,
            Command::Reset,
            Command::Show(GameState::Paused),
            Command::UpdateGoal
        ]
    );
    // a dead dog respawns on space once the pause is over
    g.die(DeathCause::Spikes);
    let mut space = no_input();
    space.space = true;
    assert_eq!(g.frame_commands(&space), vec![Command::UpdateGoal]);
    space.death_timer_done = true;
    assert_eq!(g.frame_commands(&space), vec![Command::Reset, Command::UpdateGoal]);
}

#[test]
fn next_level_after_fetch() {
    let mut g = new_game();
    g.start_level(2);
    assert!(g.fetch_goal(true));
    let mut space = no_input();
    space.space = true;
    assert_eq!(g.frame_commands(&space), vec![Command::UpdateWorld, Command::UpdateGoal]);
    space.complete_timer_done = true;
    assert_eq!(
        g.frame_commands(&space),
        vec![Command::UpdateWorld, Command::NextLevel, Command::UpdateGoal]
    );
    // a respawn on the same frame takes the place of the next level
    g.die(DeathCause::Baby);
    space.death_timer_done = true;
    assert_eq!(g.frame_commands(&space), vec![Command::Reset, Command::UpdateGoal]);
}

#[test]
fn an_update_keeps_level_screen_and_totals() {
    let mut g = new_game();
    g.start_level(3);
    g.collect_foods(&vec![true, false, false]);
    let before = (g.level(), g.state(), g.dev_mode(), g.food_total(), g.level_complete());
    let deaths = g.touch_hazards(true, false, true);
    g.collect_foods(&vec![false, true, false]);
    assert_eq!(deaths, vec![DeathCause::Spikes]);
    assert_eq!((g.level(), g.state(), g.dev_mode(), g.food_total(), g.level_complete()), before);
    assert!(g.food_eaten(0) && g.food_eaten(1) && !g.food_eaten(2));
    assert_eq!(g.food_collected(), 2);
    assert!(g.player_dead());
}
