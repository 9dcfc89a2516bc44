//! What a frame of the game loop does, decided from the screen shown and
//! what the player did.  The caller carries the decisions out, in order.
use vstd::prelude::*;
use crate::game::{Game, GameState};

verus! {

/// What the player did on one frame, as the game loop reads it.
#[derive(Clone, Copy, Debug)]
pub struct FrameInput {
    /// The left mouse button went down on this frame.
    pub click: bool,
    /// For each of the current screen's buttons (in the order they are
    /// drawn), whether the mouse is over it.
    pub over_button: [bool; 4],
    /// Escape went down on this frame.
    pub escape: bool,
    /// Space went down on this frame.
    pub space: bool,
    /// The reset key (R) went down on this frame.
    pub reset_key: bool,
    /// The poop key (Q) went down on this frame.
    pub poop_key: bool,
    /// The pause after the dog's death is over.
    pub death_timer_done: bool,
    /// The pause after fetching the goal ball is over.
    pub complete_timer_done: bool,
}

/// One thing a frame does.
#[derive(Clone, Copy, Debug, PartialEq, Eq, Structural)]
pub enum Command {
    /// End the program.
    Quit,
    /// Start over (`Game::reset`).
    Reset,
    /// Start the given level (`Game::start_level`).
    StartLevel(u32),
    /// Go on to the next level (`Game::next_level`).
    NextLevel,
    /// Show the given screen (`Game::show`).
    Show(GameState),
    /// Leave the pause menu for the title screen (`Game::main_menu`).
    MainMenu,
    /// Turn developer mode on or off (`Game::toggle_dev_mode`).
    ToggleDevMode,
    /// Run one step of the dog and the babies.
    UpdateWorld,
    /// The dog drops a poop.
    DropPoop,
    /// Run one step of the goal ball, and let the dog fetch it.
    UpdateGoal,
}

/// `c` if `b`, else nothing.
pub open spec fn when(b: bool, c: Command) -> Seq<Command> {
    if b {
        seq![c]
    } else {
        Seq::empty()
    }
}

/// The commands of a frame on the title screen.  Its buttons are Play,
/// Levels, Tutorial and Quit; escape quits.
pub open spec fn title_commands(input: FrameInput) -> Seq<Command> {
    let b = input.over_button;
    let before = when(input.click && b[0], Command::Reset) + when(
        input.click && b[1],
        Command::Show(GameState::LevelSelect),
    ) + when(input.click && b[2], Command::Show(GameState::Tutorial));
    if input.click && b[3] {
        before.push(Command::Quit)
    } else {
        before + when(input.escape, Command::Quit)
    }
}

/// The commands of a frame on the level selection screen.  Its buttons are
/// levels 1, 2 and 3 and Back; escape goes back to the title screen.
pub open spec fn level_select_commands(input: FrameInput) -> Seq<Command> {
    let b = input.over_button;
    let pick = if !input.click {
        Seq::empty()
    } else if b[0] {
        seq![Command::StartLevel(1)]
    } else if b[1] {
        seq![Command::StartLevel(2)]
    } else if b[2] {
        seq![Command::StartLevel(3)]
    } else {
        Seq::empty()
    };
    pick + when(input.click && b[3], Command::Show(GameState::Title)) + when(
        input.escape,
        Command::Show(GameState::Title),
    )
}

/// The commands of a frame on the pause screen.  Its buttons are Resume,
/// Main Menu, Quit and Dev Mode; escape resumes.
pub open spec fn pause_commands(input: FrameInput) -> Seq<Command> {
    let b = input.over_button;
    let before = when(input.click && b[0], Command::Show(GameState::Playing)) + when(
        input.click && b[1],
        Command::MainMenu,
    );
    if input.click && b[2] {
        before.push(Command::Quit)
    } else {
        before + when(input.click && b[3], Command::ToggleDevMode) + when(
            input.escape,
            Command::Show(GameState::Playing),
        )
    }
}

/// The commands of a frame of play.  A live dog moves (and drops a poop on
/// Q); a dead one respawns on space once its death pause is over.  Space
/// after the pause that follows fetching the goal goes to the next level;
/// R starts over; escape pauses; the goal ball moves last.
pub open spec fn play_commands(dead: bool, complete: bool, input: FrameInput) -> Seq<Command> {
    let respawn = dead && input.death_timer_done && input.space;
    let first = if !dead {
        seq![Command::UpdateWorld] + when(input.poop_key, Command::DropPoop)
    } else {
        when(respawn, Command::Reset)
    };
    first + when(
        complete && !respawn && input.complete_timer_done && input.space,
        Command::NextLevel,
    ) + when(input.reset_key, Command::Reset) + when(
        input.escape,
        Command::Show(GameState::Paused),
    ) + seq![Command::UpdateGoal]
}

/// The commands of one frame, from the screen shown, whether the dog is
/// dead and whether the goal has been fetched.
pub open spec fn frame_commands_for(
    state: GameState,
    dead: bool,
    complete: bool,
    input: FrameInput,
) -> Seq<Command> {
    match state {
        GameState::Title => title_commands(input),
        GameState::LevelSelect => level_select_commands(input),
        GameState::Tutorial => when(input.escape, Command::Show(GameState::Title)),
        GameState::Paused => pause_commands(input),
        GameState::Playing => play_commands(dead, complete, input),
    }
}

/// The commands of a frame on the title screen.
fn title_frame(input: &FrameInput) -> (cmds: Vec<Command>)
    ensures
        cmds@ == title_commands(*input),
{
    let b = input.over_button;
    let mut cmds: Vec<Command> = Vec::new();
    if input.click {
        if b[0] {
            cmds.push(Command::Reset);
        }
        if b[1] {
            cmds.push(Command::Show(GameState::LevelSelect));
        }
        if b[2] {
            cmds.push(Command::Show(GameState::Tutorial));
        }
        if b[3] {
            cmds.push(Command::Quit);
            assert(cmds@ =~= title_commands(*input));
            return cmds;
        }
    }
    if input.escape {
        cmds.push(Command::Quit);
    }
    assert(cmds@ =~= title_commands(*input));
    cmds
}

/// The commands of a frame on the level selection screen.
fn level_select_frame(input: &FrameInput) -> (cmds: Vec<Command>)
    ensures
        cmds@ == level_select_commands(*input),
{
    let b = input.over_button;
    let mut cmds: Vec<Command> = Vec::new();
    if input.click {
        if b[0] {
            cmds.push(Command::StartLevel(1));
        } else if b[1] {
            cmds.push(Command::StartLevel(2));
        } else if b[2] {
            cmds.push(Command::StartLevel(3));
        }
        if b[3] {
            cmds.push(Command::Show(GameState::Title));
        }
    }
    if input.escape {
        cmds.push(Command::Show(GameState::Title));
    }
    assert(cmds@ =~= level_select_commands(*input));
    cmds
}

/// The commands of a frame on the pause screen.
fn pause_frame(input: &FrameInput) -> (cmds: Vec<Command>)
    ensures
        cmds@ == pause_commands(*input),
{
    let b = input.over_button;
    let mut cmds: Vec<Command> = Vec::new();
    if input.click {
        if b[0] {
            cmds.push(Command::Show(GameState::Playing));
        }
        if b[1] {
            cmds.push(Command::MainMenu);
        }
        if b[2] {
            cmds.push(Command::Quit);
            assert(cmds@ =~= pause_commands(*input));
            return cmds;
        }
        if b[3] {
            cmds.push(Command::ToggleDevMode);
        }
    }
    if input.escape {
        cmds.push(Command::Show(GameState::Playing));
    }
    assert(cmds@ =~= pause_commands(*input));
    cmds
}

/// The commands of a frame of play.
fn play_frame(dead: bool, complete: bool, input: &FrameInput) -> (cmds: Vec<Command>)
    ensures
        cmds@ == play_commands(dead, complete, *input),
{
    let mut cmds: Vec<Command> = Vec::new();
    let mut may_advance = complete;
    if !dead {
        cmds.push(Command::UpdateWorld);
        if input.poop_key {
            cmds.push(Command::DropPoop);
        }
    } else if input.death_timer_done && input.space {
        cmds.push(Command::Reset);
        may_advance = false;
    }
    if may_advance && input.complete_timer_done && input.space {
        cmds.push(Command::NextLevel);
    }
    if input.reset_key {
        cmds.push(Command::Reset);
    }
    if input.escape {
        cmds.push(Command::Show(GameState::Paused));
    }
    cmds.push(Command::UpdateGoal);
    assert(cmds@ =~= play_commands(dead, complete, *input));
    cmds
}

impl Game {
    /// The commands of one frame of the game loop, in the order they are to
    /// be carried out.  Nothing follows a `Quit`.
    pub fn frame_commands(&self, input: &FrameInput) -> (cmds: Vec<Command>)
        ensures
            cmds@ == frame_commands_for(
                self@.state,
                self@.player_dead,
                self@.level_complete,
                *input,
            ),
    {
        match self.state() {
            GameState::Title => title_frame(input),
            GameState::LevelSelect => level_select_frame(input),
            GameState::Tutorial => {
                let mut cmds: Vec<Command> = Vec::new();
                if input.escape {
                    cmds.push(Command::Show(GameState::Title));
                }
                assert(cmds@ =~= when(input.escape, Command::Show(GameState::Title)));
                cmds
            },
            GameState::Paused => pause_frame(input),
            GameState::Playing => play_frame(self.player_dead(), self.level_complete(), input),
        }
    }
}


/// Whether no command of `s` is `Quit`.
pub open spec fn quit_free(s: Seq<Command>) -> bool {
    forall|i: int| 0 <= i < s.len() ==> #[trigger] s[i] != Command::Quit
}

proof fn lemma_quit_free_join(a: Seq<Command>, b: Seq<Command>)
    requires
        quit_free(a),
        quit_free(b),
    ensures
        quit_free(a + b),
{
    assert forall|i: int| 0 <= i < (a + b).len() implies #[trigger] (a + b)[i] != Command::Quit by {
        if i < a.len() {
            assert((a + b)[i] == a[i]);
        } else {
            assert((a + b)[i] == b[i - a.len()]);
        }
    }
}

proof fn lemma_ends_with_quit(a: Seq<Command>)
    requires
        quit_free(a),
    ensures
        forall|i: int| 0 <= i < a.push(Command::Quit).len() - 1 ==> #[trigger] a.push(Command::Quit)[i] != Command::Quit,
{
    assert forall|i: int| 0 <= i < a.push(Command::Quit).len() - 1 implies #[trigger] a.push(Command::Quit)[i] != Command::Quit by {
        assert(a.push(Command::Quit)[i] == a[i]);
    }
}

proof fn lemma_title_quit_last(input: FrameInput)
    ensures
        forall|i: int| 0 <= i < title_commands(input).len() - 1 ==> #[trigger] title_commands(input)[i] != Command::Quit,
{
    let b = input.over_button;
    let w0 = when(input.click && b[0], Command::Reset);
    let w1 = when(input.click && b[1], Command::Show(GameState::LevelSelect));
    let w2 = when(input.click && b[2], Command::Show(GameState::Tutorial));
    lemma_quit_free_join(w0, w1);
    lemma_quit_free_join(w0 + w1, w2);
    let before = w0 + w1 + w2;
    if input.click && b[3] {
        lemma_ends_with_quit(before);
    } else if input.escape {
        assert(before + when(input.escape, Command::Quit) =~= before.push(Command::Quit));
        lemma_ends_with_quit(before);
    } else {
        lemma_quit_free_join(before, when(input.escape, Command::Quit));
    }
}

proof fn lemma_pause_quit_last(input: FrameInput)
    ensures
        forall|i: int| 0 <= i < pause_commands(input).len() - 1 ==> #[trigger] pause_commands(input)[i] != Command::Quit,
{
    let b = input.over_button;
    let w0 = when(input.click && b[0], Command::Show(GameState::Playing));
    let w1 = when(input.click && b[1], Command::MainMenu);
    lemma_quit_free_join(w0, w1);
    let before = w0 + w1;
    if input.click && b[2] {
        lemma_ends_with_quit(before);
    } else {
        let w3 = when(input.click && b[3], Command::ToggleDevMode);
        let w4 = when(input.escape, Command::Show(GameState::Playing));
        lemma_quit_free_join(before, w3);
        lemma_quit_free_join(before + w3, w4);
    }
}

proof fn lemma_level_select_quit_free(input: FrameInput)
    ensures
        quit_free(level_select_commands(input)),
{
    let b = input.over_button;
    let pick = if !input.click {
        Seq::empty()
    } else if b[0] {
        seq![Command::StartLevel(1)]
    } else if b[1] {
        seq![Command::StartLevel(2)]
    } else if b[2] {
        seq![Command::StartLevel(3)]
    } else {
        Seq::empty()
    };
    let w3 = when(input.click && b[3], Command::Show(GameState::Title));
    let w4 = when(input.escape, Command::Show(GameState::Title));
    lemma_quit_free_join(pick, w3);
    lemma_quit_free_join(pick + w3, w4);
}

proof fn lemma_play_quit_free(dead: bool, complete: bool, input: FrameInput)
    ensures
        quit_free(play_commands(dead, complete, input)),
{
    let respawn = dead && input.death_timer_done && input.space;
    let w = when(input.poop_key, Command::DropPoop);
    lemma_quit_free_join(seq![Command::UpdateWorld], w);
    let first = if !dead {
        seq![Command::UpdateWorld] + w
    } else {
        when(respawn, Command::Reset)
    };
    let w1 = when(
        complete && !respawn && input.complete_timer_done && input.space,
        Command::NextLevel,
    );
    let w2 = when(input.reset_key, Command::Reset);
    let w3 = when(input.escape, Command::Show(GameState::Paused));
    lemma_quit_free_join(first, w1);
    lemma_quit_free_join(first + w1, w2);
    lemma_quit_free_join(first + w1 + w2, w3);
    lemma_quit_free_join(first + w1 + w2 + w3, seq![Command::UpdateGoal]);
}

/// Quitting ends the frame: no command of a frame comes after a `Quit`.
pub proof fn law_quit_is_last(state: GameState, dead: bool, complete: bool, input: FrameInput)
    ensures
        forall|i: int|
            0 <= i < frame_commands_for(state, dead, complete, input).len() - 1
                ==> #[trigger] frame_commands_for(state, dead, complete, input)[i] != Command::Quit,
{
    match state {
        GameState::Title => lemma_title_quit_last(input),
        GameState::Paused => lemma_pause_quit_last(input),
        GameState::LevelSelect => lemma_level_select_quit_free(input),
        GameState::Tutorial => {},
        GameState::Playing => lemma_play_quit_free(dead, complete, input),
    }
}


/// Whether the mouse went down over button `k` and no other, and escape did
/// not go down.
pub open spec fn click_only(input: FrameInput, k: int) -> bool {
    &&& input.click
    &&& forall|j: int| 0 <= j < 4 ==> input.over_button[j] == (j == k)
    &&& !input.escape
}

proof fn lemma_escape_title(input: FrameInput)
    requires
        input.escape,
    ensures
        title_commands(input).last() == Command::Quit,
        !input.click ==> title_commands(input) == seq![Command::Quit],
{
    let b = input.over_button;
    let t0 = when(input.click && b[0], Command::Reset) + when(
        input.click && b[1],
        Command::Show(GameState::LevelSelect),
    ) + when(input.click && b[2], Command::Show(GameState::Tutorial));
    assert(t0 + when(input.escape, Command::Quit) =~= t0.push(Command::Quit));
    if !input.click {
        assert(t0 =~= Seq::<Command>::empty());
        assert(t0.push(Command::Quit) =~= seq![Command::Quit]);
    }
}

proof fn lemma_escape_level_select(input: FrameInput)
    requires
        input.escape,
    ensures
        level_select_commands(input).last() == Command::Show(GameState::Title),
        !input.click ==> level_select_commands(input) == seq![Command::Show(GameState::Title)],
{
    let b = input.over_button;
    let pick = if !input.click {
        Seq::empty()
    } else if b[0] {
        seq![Command::StartLevel(1)]
    } else if b[1] {
        seq![Command::StartLevel(2)]
    } else if b[2] {
        seq![Command::StartLevel(3)]
    } else {
        Seq::empty()
    };
    let l = pick + when(input.click && b[3], Command::Show(GameState::Title));
    assert(level_select_commands(input) =~= l.push(Command::Show(GameState::Title)));
    if !input.click {
        assert(l =~= Seq::<Command>::empty());
        assert(l.push(Command::Show(GameState::Title)) =~= seq![Command::Show(GameState::Title)]);
    }
}

proof fn lemma_escape_pause(input: FrameInput)
    requires
        input.escape,
    ensures
        !(input.click && input.over_button[2]) ==> pause_commands(input).last() == Command::Show(
            GameState::Playing,
        ),
        !input.click ==> pause_commands(input) == seq![Command::Show(GameState::Playing)],
{
    let b = input.over_button;
    let p0 = when(input.click && b[0], Command::Show(GameState::Playing)) + when(
        input.click && b[1],
        Command::MainMenu,
    );
    if !(input.click && b[2]) {
        let p1 = p0 + when(input.click && b[3], Command::ToggleDevMode);
        assert(pause_commands(input) =~= p1.push(Command::Show(GameState::Playing)));
        if !input.click {
            assert(p1 =~= Seq::<Command>::empty());
            assert(p1.push(Command::Show(GameState::Playing)) =~= seq![
                Command::Show(GameState::Playing),
            ]);
        }
    }
}

proof fn lemma_escape_play(dead: bool, complete: bool, input: FrameInput)
    requires
        input.escape,
    ensures
        ({
            let c = play_commands(dead, complete, input);
            c.len() >= 2 && c[c.len() - 2] == Command::Show(GameState::Paused)
        }),
{
    let respawn = dead && input.death_timer_done && input.space;
    let first = if !dead {
        seq![Command::UpdateWorld] + when(input.poop_key, Command::DropPoop)
    } else {
        when(respawn, Command::Reset)
    };
    let q = first + when(
        complete && !respawn && input.complete_timer_done && input.space,
        Command::NextLevel,
    ) + when(input.reset_key, Command::Reset);
    assert(play_commands(dead, complete, input) =~= q.push(Command::Show(GameState::Paused)).push(
        Command::UpdateGoal,
    ));
}

/// Escape leaves each screen: it quits the title screen, goes back to the
/// title screen from the level selection and the tutorial, resumes play
/// from the pause screen (whether or not the mouse went down), and pauses
/// play.  Without a click, escape is the frame's only command on the menu
/// screens.
pub proof fn law_escape(dead: bool, complete: bool, input: FrameInput)
    requires
        input.escape,
    ensures
        frame_commands_for(GameState::Title, dead, complete, input).last() == Command::Quit,
        !input.click ==> frame_commands_for(GameState::Title, dead, complete, input) == seq![
            Command::Quit,
        ],
        frame_commands_for(GameState::LevelSelect, dead, complete, input).last() == Command::Show(
            GameState::Title,
        ),
        !input.click ==> frame_commands_for(GameState::LevelSelect, dead, complete, input)
            == seq![Command::Show(GameState::Title)],
        frame_commands_for(GameState::Tutorial, dead, complete, input) == seq![
            Command::Show(GameState::Title),
        ],
        !(input.click && input.over_button[2]) ==> frame_commands_for(
            GameState::Paused,
            dead,
            complete,
            input,
        ).last() == Command::Show(GameState::Playing),
        !input.click ==> frame_commands_for(GameState::Paused, dead, complete, input) == seq![
            Command::Show(GameState::Playing),
        ],
        ({
            let c = frame_commands_for(GameState::Playing, dead, complete, input);
            c.len() >= 2 && c[c.len() - 2] == Command::Show(GameState::Paused)
        }),
{
    lemma_escape_title(input);
    lemma_escape_level_select(input);
    lemma_escape_pause(input);
    lemma_escape_play(dead, complete, input);
}

/// A click on one button of a menu screen, with no key, does what the
/// button says: Play, Levels, Tutorial and Quit on the title screen; levels
/// 1, 2, 3 and Back on the level selection; Resume, Main Menu, Quit and Dev
/// Mode on the pause screen.  The tutorial has no buttons.
pub proof fn law_buttons(dead: bool, complete: bool, input: FrameInput)
    ensures
        click_only(input, 0) ==> frame_commands_for(GameState::Title, dead, complete, input)
            == seq![Command::Reset],
        click_only(input, 1) ==> frame_commands_for(GameState::Title, dead, complete, input)
            == seq![Command::Show(GameState::LevelSelect)],
        click_only(input, 2) ==> frame_commands_for(GameState::Title, dead, complete, input)
            == seq![Command::Show(GameState::Tutorial)],
        click_only(input, 3) ==> frame_commands_for(GameState::Title, dead, complete, input)
            == seq![Command::Quit],
        click_only(input, 0) ==> frame_commands_for(GameState::LevelSelect, dead, complete, input)
            == seq![Command::StartLevel(1)],
        click_only(input, 1) ==> frame_commands_for(GameState::LevelSelect, dead, complete, input)
            == seq![Command::StartLevel(2)],
        click_only(input, 2) ==> frame_commands_for(GameState::LevelSelect, dead, complete, input)
            == seq![Command::StartLevel(3)],
        click_only(input, 3) ==> frame_commands_for(GameState::LevelSelect, dead, complete, input)
            == seq![Command::Show(GameState::Title)],
        click_only(input, 0) ==> frame_commands_for(GameState::Paused, dead, complete, input)
            == seq![Command::Show(GameState::Playing)],
        click_only(input, 1) ==> frame_commands_for(GameState::Paused, dead, complete, input)
            == seq![Command::MainMenu],
        click_only(input, 2) ==> frame_commands_for(GameState::Paused, dead, complete, input)
            == seq![Command::Quit],
        click_only(input, 3) ==> frame_commands_for(GameState::Paused, dead, complete, input)
            == seq![Command::ToggleDevMode],
        !input.escape ==> frame_commands_for(GameState::Tutorial, dead, complete, input)
            == Seq::<Command>::empty(),
        !input.click && !input.escape ==> {
            &&& frame_commands_for(GameState::Title, dead, complete, input) == Seq::<Command>::empty()
            &&& frame_commands_for(GameState::LevelSelect, dead, complete, input) == Seq::<
                Command,
            >::empty()
            &&& frame_commands_for(GameState::Paused, dead, complete, input) == Seq::<Command>::empty()
        },
{
    let b = input.over_button;
    let e = Seq::<Command>::empty();
    assert(when(false, Command::Quit) =~= e);
    if click_only(input, 0) {
        assert(b[0] && !b[1] && !b[2] && !b[3]);
    }
    if click_only(input, 1) {
        assert(!b[0] && b[1] && !b[2] && !b[3]);
    }
    if click_only(input, 2) {
        assert(!b[0] && !b[1] && b[2] && !b[3]);
    }
    if click_only(input, 3) {
        assert(!b[0] && !b[1] && !b[2] && b[3]);
    }
    assert(title_commands(input) =~= title_commands(input));
    assert(e + seq![Command::Reset] =~= seq![Command::Reset]);
    assert(seq![Command::Reset] + e =~= seq![Command::Reset]);
    assert(e + seq![Command::Show(GameState::LevelSelect)] =~= seq![Command::Show(GameState::LevelSelect)]);
    assert(seq![Command::Show(GameState::LevelSelect)] + e =~= seq![Command::Show(GameState::LevelSelect)]);
    assert(e + seq![Command::Show(GameState::Tutorial)] =~= seq![Command::Show(GameState::Tutorial)]);
    assert(seq![Command::Show(GameState::Tutorial)] + e =~= seq![Command::Show(GameState::Tutorial)]);
    assert(e + e =~= e);
    assert(e.push(Command::Quit) =~= seq![Command::Quit]);
    assert(seq![Command::StartLevel(1)] + e =~= seq![Command::StartLevel(1)]);
    assert(seq![Command::StartLevel(2)] + e =~= seq![Command::StartLevel(2)]);
    assert(seq![Command::StartLevel(3)] + e =~= seq![Command::StartLevel(3)]);
    assert(e + seq![Command::Show(GameState::Title)] =~= seq![Command::Show(GameState::Title)]);
    assert(e + seq![Command::Show(GameState::Playing)] =~= seq![Command::Show(GameState::Playing)]);
    assert(seq![Command::Show(GameState::Playing)] + e =~= seq![Command::Show(GameState::Playing)]);
    assert(e + seq![Command::MainMenu] =~= seq![Command::MainMenu]);
    assert(seq![Command::MainMenu] + e =~= seq![Command::MainMenu]);
    assert(e + seq![Command::ToggleDevMode] =~= seq![Command::ToggleDevMode]);
}


/// Whether no command of `s` is `x`.
pub open spec fn lacks(s: Seq<Command>, x: Command) -> bool {
    forall|i: int| 0 <= i < s.len() ==> #[trigger] s[i] != x
}

proof fn lemma_lacks_join(a: Seq<Command>, b: Seq<Command>, x: Command)
    requires
        lacks(a, x),
        lacks(b, x),
    ensures
        lacks(a + b, x),
{
    assert forall|i: int| 0 <= i < (a + b).len() implies #[trigger] (a + b)[i] != x by {
        if i < a.len() {
            assert((a + b)[i] == a[i]);
        } else {
            assert((a + b)[i] == b[i - a.len()]);
        }
    }
}

/// What a frame of play does: the goal ball always moves last; a live dog
/// moves first (then drops a poop on Q), a dead one never moves; a dead dog
/// whose pause is over respawns first on space, and then does not go to the
/// next level; R always starts over, and nothing else does; the next level
/// comes only after the goal was fetched, and always for a live dog once the
/// pause after fetching is over and space goes down; with no key a live dog
/// just moves and the ball after it.
pub proof fn law_play(dead: bool, complete: bool, input: FrameInput)
    ensures
        ({
            let c = frame_commands_for(GameState::Playing, dead, complete, input);
            let respawn = dead && input.death_timer_done && input.space;
            &&& c.len() > 0 && c.last() == Command::UpdateGoal
            &&& !dead ==> c[0] == Command::UpdateWorld
            &&& !dead && input.poop_key ==> c[1] == Command::DropPoop
            &&& dead ==> lacks(c, Command::UpdateWorld) && lacks(c, Command::DropPoop)
            &&& respawn ==> c[0] == Command::Reset && lacks(c, Command::NextLevel)
            &&& input.reset_key ==> c.contains(Command::Reset)
            &&& !input.reset_key && !respawn ==> lacks(c, Command::Reset)
            &&& !dead && complete && input.complete_timer_done && input.space ==> c.contains(
                Command::NextLevel,
            )
            &&& !complete ==> lacks(c, Command::NextLevel)
            &&& !dead && !input.poop_key && !input.space && !input.reset_key && !input.escape ==> c
                == seq![Command::UpdateWorld, Command::UpdateGoal]
        }),
{
    let c = frame_commands_for(GameState::Playing, dead, complete, input);
    let respawn = dead && input.death_timer_done && input.space;
    let wp = when(input.poop_key, Command::DropPoop);
    let first = if !dead {
        seq![Command::UpdateWorld] + wp
    } else {
        when(respawn, Command::Reset)
    };
    let w1 = when(complete && !respawn && input.complete_timer_done && input.space, Command::NextLevel);
    let w2 = when(input.reset_key, Command::Reset);
    let w3 = when(input.escape, Command::Show(GameState::Paused));
    let g = seq![Command::UpdateGoal];
    let s1 = first + w1;
    let s2 = s1 + w2;
    let s3 = s2 + w3;
    assert(c == s3 + g);
    assert(c.last() == Command::UpdateGoal);
    if !dead {
        assert(first[0] == Command::UpdateWorld);
        assert(c[0] == s3[0] && s3[0] == s2[0] && s2[0] == s1[0] && s1[0] == first[0]);
        if input.poop_key {
            assert(first[1] == wp[0]);
            assert(c[1] == s3[1] && s3[1] == s2[1] && s2[1] == s1[1] && s1[1] == first[1]);
        }
    }
    if respawn {
        assert(c[0] == s3[0] && s3[0] == s2[0] && s2[0] == s1[0] && s1[0] == first[0]);
    }
    if dead {
        lemma_lacks_join(first, w1, Command::UpdateWorld);
        lemma_lacks_join(s1, w2, Command::UpdateWorld);
        lemma_lacks_join(s2, w3, Command::UpdateWorld);
        lemma_lacks_join(s3, g, Command::UpdateWorld);
        lemma_lacks_join(first, w1, Command::DropPoop);
        lemma_lacks_join(s1, w2, Command::DropPoop);
        lemma_lacks_join(s2, w3, Command::DropPoop);
        lemma_lacks_join(s3, g, Command::DropPoop);
    }
    if respawn || !complete {
        assert(lacks(first, Command::NextLevel));
        lemma_lacks_join(first, w1, Command::NextLevel);
        lemma_lacks_join(s1, w2, Command::NextLevel);
        lemma_lacks_join(s2, w3, Command::NextLevel);
        lemma_lacks_join(s3, g, Command::NextLevel);
    }
    if input.reset_key {
        let k = s1.len() as int;
        assert(s2[k] == w2[0]);
        assert(s3[k] == s2[k]);
        assert(c[k] == s3[k]);
    }
    if !input.reset_key && !respawn {
        if !dead {
            lemma_lacks_join(seq![Command::UpdateWorld], wp, Command::Reset);
        }
        lemma_lacks_join(first, w1, Command::Reset);
        lemma_lacks_join(s1, w2, Command::Reset);
        lemma_lacks_join(s2, w3, Command::Reset);
        lemma_lacks_join(s3, g, Command::Reset);
    }
    if !dead && complete && input.complete_timer_done && input.space {
        let k = first.len() as int;
        assert(s1[k] == w1[0]);
        assert(s2[k] == s1[k]);
        assert(s3[k] == s2[k]);
        assert(c[k] == s3[k]);
    }
    if !dead && !input.poop_key && !input.space && !input.reset_key && !input.escape {
        assert(c =~= seq![Command::UpdateWorld, Command::UpdateGoal]);
    }
}

} // verus!
