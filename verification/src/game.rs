//! The discrete state of a game: which screen is shown, which level is
//! played, whether the dog is alive, how much of the level's food it has
//! eaten and whether it has fetched the goal ball.  Positions, speeds and
//! timers live with the world that the caller simulates; the world tells this
//! state what happened (what the dog touched) and this state decides what
//! follows.
use vstd::prelude::*;
use crate::level::{build_level, level_file_for, level_of_text, LevelLayout, LevelLayoutView};

verus! {

/// The screen the game shows.
#[derive(Clone, Copy, Debug, PartialEq, Eq, Structural)]
pub enum GameState {
    Title,
    Playing,
    Tutorial,
    LevelSelect,
    Paused,
}

/// What killed the dog.
#[derive(Clone, Copy, Debug, PartialEq, Eq, Structural)]
pub enum DeathCause {
    Spikes,
    Lava,
    Baby,
}

/// The message shown when the dog died of `cause`.
pub open spec fn death_text(cause: DeathCause) -> Seq<char> {
    match cause {
        DeathCause::Spikes => "Ouch! Spikes are not food"@,
        DeathCause::Lava => "Fire is great till it burns you"@,
        DeathCause::Baby => "The baby pulled your tail"@,
    }
}

impl DeathCause {
    /// The message shown when the dog died of this cause.
    pub fn message(&self) -> (msg: &'static str)
        ensures
            msg@ == death_text(*self),
    {
        match self {
            DeathCause::Spikes => "Ouch! Spikes are not food",
            DeathCause::Lava => "Fire is great till it burns you",
            DeathCause::Baby => "The baby pulled your tail",
        }
    }
}

/// How many entries of `s` are `true`.
pub open spec fn count_true(s: Seq<bool>) -> nat
    decreases s.len(),
{
    if s.len() == 0 {
        0
    } else {
        count_true(s.drop_last()) + if s.last() {
            1nat
        } else {
            0nat
        }
    }
}

/// The food of the level being played: for each piece whether the dog has
/// eaten it, how many pieces it has eaten, and how many there are.
struct FoodRecord {
    eaten: Vec<bool>,
    collected: u32,
    total: u32,
}

impl FoodRecord {
    /// The record of a level without food.
    fn empty() -> (r: FoodRecord)
        ensures
            r.eaten@ == Seq::<bool>::empty(),
            r.collected == 0,
            r.total == 0,
    {
        FoodRecord { eaten: Vec::new(), collected: 0, total: 0 }
    }
}

/// The discrete state of a game.
pub struct Game {
    state: GameState,
    level: u32,
    dev_mode: bool,
    player_dead: bool,
    death_cause: Option<DeathCause>,
    level_complete: bool,
    food: FoodRecord,
    level1: String,
    level2: String,
    level3: String,
}

/// The state of a game, as a value.
pub struct GameView {
    pub state: GameState,
    pub level: u32,
    pub dev_mode: bool,
    pub player_dead: bool,
    pub death_cause: Option<DeathCause>,
    pub level_complete: bool,
    pub food_collected: u32,
    pub food_total: u32,
    pub foods: Seq<bool>,
    pub level1: Seq<char>,
    pub level2: Seq<char>,
    pub level3: Seq<char>,
}

impl View for Game {
    type V = GameView;

    closed spec fn view(&self) -> GameView {
        GameView {
            state: self.state,
            level: self.level,
            dev_mode: self.dev_mode,
            player_dead: self.player_dead,
            death_cause: self.death_cause,
            level_complete: self.level_complete,
            food_collected: self.food.collected,
            food_total: self.food.total,
            foods: self.food.eaten@,
            level1: self.level1@,
            level2: self.level2@,
            level3: self.level3@,
        }
    }
}

impl GameView {
    /// The food counters agree with the record of eaten food: the count is
    /// the number of pieces eaten, the total is the number of pieces (as a
    /// `u32`).
    pub open spec fn wf(self) -> bool {
        &&& self.food_collected as nat == count_true(self.foods)
        &&& self.food_total == self.foods.len() as u32
    }

    /// The text of the level file that level number `level` loads.
    pub open spec fn level_text(self, level: u32) -> Seq<char> {
        if level_file_for(level) == 1 {
            self.level1
        } else if level_file_for(level) == 3 {
            self.level3
        } else {
            self.level2
        }
    }

    /// The state right after level `level` starts: the dog alive on the
    /// playing screen, none of the level's food eaten, the goal not fetched.
    pub open spec fn started(self, level: u32) -> GameView {
        GameView {
            state: GameState::Playing,
            level,
            player_dead: false,
            level_complete: false,
            food_collected: 0,
            food_total: level_of_text(self.level_text(level)).foods.len() as u32,
            foods: Seq::new(level_of_text(self.level_text(level)).foods.len(), |i: int| false),
            ..self
        }
    }

    /// The state of a fresh game with the same level files: the title
    /// screen, level 1, developer mode off, no food.
    pub open spec fn fresh(self) -> GameView {
        GameView {
            state: GameState::Title,
            level: 1,
            dev_mode: false,
            player_dead: false,
            death_cause: None,
            level_complete: false,
            food_collected: 0,
            food_total: 0,
            foods: Seq::empty(),
            ..self
        }
    }

    /// The level a reset restarts: the current one, and at least level 1.
    pub open spec fn reset_level(self) -> u32 {
        if self.level >= 1 {
            self.level
        } else {
            1
        }
    }

    /// The state after a reset: a fresh game that has started its level again.
    pub open spec fn after_reset(self) -> GameView {
        self.fresh().started(self.reset_level())
    }

    /// The state after the dog touched spikes, lava or a baby on a frame:
    /// each death of [`hazard_deaths`] applied in turn.
    pub open spec fn after_hazards(self, spike: bool, lava: bool, baby: bool) -> GameView {
        let deaths = hazard_deaths(self.dev_mode, self.player_dead, spike, lava, baby);
        if deaths.len() == 0 {
            self
        } else {
            GameView { player_dead: true, death_cause: Some(deaths.last()), ..self }
        }
    }

    /// The state after the dog ate every uneaten piece of food it touches
    /// (entry `i` of `touching` for piece `i`).
    pub open spec fn after_food(self, touching: Seq<bool>) -> GameView {
        GameView {
            foods: merge_true(self.foods, touching),
            food_collected: count_true(merge_true(self.foods, touching)) as u32,
            ..self
        }
    }

    /// Whether the goal ball may be fetched: all food eaten, or no food at all.
    pub open spec fn fetch_allowed(self) -> bool {
        self.food_total == 0 || self.food_collected >= self.food_total
    }
}

/// The causes of death, in order, of one frame in which the dog touched
/// spikes, lava or a baby.  Spikes and lava each kill; a baby kills only a
/// dog that is not already dead.  In developer mode nothing kills.
pub open spec fn hazard_deaths(
    dev_mode: bool,
    dead: bool,
    spike: bool,
    lava: bool,
    baby: bool,
) -> Seq<DeathCause> {
    if dev_mode {
        Seq::empty()
    } else {
        (if spike {
            seq![DeathCause::Spikes]
        } else {
            Seq::empty()
        }) + (if lava {
            seq![DeathCause::Lava]
        } else {
            Seq::empty()
        }) + (if baby && !dead && !spike && !lava {
            seq![DeathCause::Baby]
        } else {
            Seq::empty()
        })
    }
}

/// `s` with every entry that is `true` in `t` set to `true`.
pub open spec fn merge_true(s: Seq<bool>, t: Seq<bool>) -> Seq<bool> {
    Seq::new(s.len(), |i: int| s[i] || t[i])
}

proof fn lemma_count_true_bound(s: Seq<bool>)
    ensures
        count_true(s) <= s.len(),
    decreases s.len(),
{
    if s.len() > 0 {
        lemma_count_true_bound(s.drop_last());
    }
}

proof fn lemma_count_true_none(n: nat)
    ensures
        count_true(Seq::new(n, |i: int| false)) == 0,
    decreases n,
{
    if n > 0 {
        lemma_count_true_none((n - 1) as nat);
        assert(Seq::new(n, |i: int| false).drop_last() =~= Seq::new((n - 1) as nat, |i: int| false));
    }
}

proof fn lemma_count_true_set(s: Seq<bool>, i: int)
    requires
        0 <= i < s.len(),
        !s[i],
    ensures
        count_true(s.update(i, true)) == count_true(s) + 1,
    decreases s.len(),
{
    let u = s.update(i, true);
    if i == s.len() - 1 {
        assert(u.drop_last() =~= s.drop_last());
    } else {
        assert(u.drop_last() =~= s.drop_last().update(i, true));
        lemma_count_true_set(s.drop_last(), i);
    }
}

proof fn lemma_count_true_monotone(s: Seq<bool>, t: Seq<bool>)
    requires
        s.len() == t.len(),
        forall|i: int| 0 <= i < s.len() && #[trigger] s[i] ==> t[i],
    ensures
        count_true(s) <= count_true(t),
    decreases s.len(),
{
    if s.len() > 0 {
        lemma_count_true_monotone(s.drop_last(), t.drop_last());
    }
}

impl Game {
    /// The food counters agree with the record of eaten food.
    pub open spec fn wf(&self) -> bool {
        self@.wf()
    }

    /// Every game keeps its food counters in agreement with the record of
    /// eaten food.
    #[verifier::type_invariant]
    spec fn food_agrees(self) -> bool {
        self@.wf()
    }

    /// A new game on the title screen, with the three level files' texts.
    /// Also gives the layout of level 1 that the title screen shows, without
    /// its food.
    pub fn new(level1: String, level2: String, level3: String) -> (res: (Game, LevelLayout))
        ensures
            res.0.wf(),
            res.0@.level1 == level1@,
            res.0@.level2 == level2@,
            res.0@.level3 == level3@,
            res.0@ == res.0@.fresh(),
            res.1@ == (LevelLayoutView { foods: Seq::empty(), ..level_of_text(level1@) }),
    {
        let mut layout = build_level(1, level1.as_str(), level2.as_str(), level3.as_str());
        layout.foods = Vec::new();
        let game = Game {
            state: GameState::Title,
            level: 1,
            dev_mode: false,
            player_dead: false,
            death_cause: None,
            level_complete: false,
            food: FoodRecord::empty(),
            level1,
            level2,
            level3,
        };
        assert(layout@.foods =~= Seq::empty());
        (game, layout)
    }

    /// The screen shown.
    pub fn state(&self) -> (s: GameState)
        ensures
            s == self@.state,
    {
        self.state
    }

    /// The level number.
    pub fn level(&self) -> (l: u32)
        ensures
            l == self@.level,
    {
        self.level
    }

    /// Whether developer mode (no deaths) is on.
    pub fn dev_mode(&self) -> (d: bool)
        ensures
            d == self@.dev_mode,
    {
        self.dev_mode
    }

    /// Whether the dog is dead.
    pub fn player_dead(&self) -> (d: bool)
        ensures
            d == self@.player_dead,
    {
        self.player_dead
    }

    /// What killed the dog most recently, if anything has.
    pub fn death_cause(&self) -> (c: Option<DeathCause>)
        ensures
            c == self@.death_cause,
    {
        self.death_cause
    }

    /// Whether the goal ball has been fetched on this level.
    pub fn level_complete(&self) -> (c: bool)
        ensures
            c == self@.level_complete,
    {
        self.level_complete
    }

    /// How many pieces of food the dog has eaten on this level.
    pub fn food_collected(&self) -> (n: u32)
        ensures
            n == self@.food_collected,
    {
        self.food.collected
    }

    /// How many pieces of food the level has.
    pub fn food_total(&self) -> (n: u32)
        ensures
            n == self@.food_total,
    {
        self.food.total
    }

    /// Whether piece `i` of the level's food has been eaten.
    pub fn food_eaten(&self, i: usize) -> (e: bool)
        requires
            i < self@.foods.len(),
        ensures
            e == self@.foods[i as int],
    {
        self.food.eaten[i]
    }

    /// Starts level `level`: loads its layout, which is returned for the
    /// world to be built from, and puts the live dog on the playing screen
    /// with none of the level's food eaten.
    pub fn start_level(&mut self, level: u32) -> (layout: LevelLayout)
        ensures
            final(self).wf(),
            final(self)@ == old(self)@.started(level),
            layout@ == level_of_text(old(self)@.level_text(level)),
    {
        proof {
            use_type_invariant(&*self);
        }
        let layout = build_level(level, self.level1.as_str(), self.level2.as_str(), self.level3.as_str());
        let n = layout.foods.len();
        let eaten = vec![false; n];
        proof {
            assert(eaten@ =~= Seq::new(n as nat, |i: int| false));
            lemma_count_true_none(n as nat);
        }
        self.food = FoodRecord { eaten, collected: 0, total: n as u32 };
        self.level = level;
        self.level_complete = false;
        self.player_dead = false;
        self.state = GameState::Playing;
        layout
    }

    /// Goes on to the level after the current one.
    pub fn next_level(&mut self) -> (layout: LevelLayout)
        requires
            old(self)@.level < u32::MAX,
        ensures
            final(self).wf(),
            final(self)@ == old(self)@.started((old(self)@.level + 1) as u32),
            layout@ == level_of_text(old(self)@.level_text((old(self)@.level + 1) as u32)),
    {
        let next = self.level + 1;
        self.start_level(next)
    }

    /// Starts over: a fresh game (developer mode off, no death message) that
    /// restarts the current level, and at least level 1.
    pub fn reset(&mut self) -> (layout: LevelLayout)
        ensures
            final(self).wf(),
            final(self)@ == old(self)@.after_reset(),
            layout@ == level_of_text(old(self)@.level_text(old(self)@.reset_level())),
    {
        proof {
            use_type_invariant(&*self);
        }
        let current_level = self.level;
        self.state = GameState::Title;
        self.level = 1;
        self.dev_mode = false;
        self.player_dead = false;
        self.death_cause = None;
        self.level_complete = false;
        self.food = FoodRecord::empty();
        let target = if current_level >= 1 {
            current_level
        } else {
            1
        };
        self.start_level(target)
    }

    /// Shows screen `state`.
    pub fn show(&mut self, state: GameState)
        ensures
            final(self).wf(),
            final(self)@ == (GameView { state, ..old(self)@ }),
    {
        proof {
            use_type_invariant(&*self);
        }
        self.state = state;
    }

    /// Leaves the pause menu for the title screen, giving up a fetched goal.
    pub fn main_menu(&mut self)
        ensures
            final(self).wf(),
            final(self)@ == (GameView {
                state: GameState::Title,
                level_complete: false,
                ..old(self)@
            }),
    {
        proof {
            use_type_invariant(&*self);
        }
        self.state = GameState::Title;
        self.level_complete = false;
    }

    /// Turns developer mode on or off.
    pub fn toggle_dev_mode(&mut self)
        ensures
            final(self).wf(),
            final(self)@ == (GameView { dev_mode: !old(self)@.dev_mode, ..old(self)@ }),
    {
        proof {
            use_type_invariant(&*self);
        }
        self.dev_mode = !self.dev_mode;
    }

    /// The dog dies of `cause`.
    pub fn die(&mut self, cause: DeathCause)
        ensures
            final(self).wf(),
            final(self)@ == (GameView {
                player_dead: true,
                death_cause: Some(cause),
                ..old(self)@
            }),
    {
        proof {
            use_type_invariant(&*self);
        }
        self.player_dead = true;
        self.death_cause = Some(cause);
    }

    /// Applies what the dog touched on a frame: spikes, lava, a baby.  Each
    /// death is applied in turn, and returned in order, for the world to
    /// play its effects.
    pub fn touch_hazards(&mut self, spike: bool, lava: bool, baby: bool) -> (deaths: Vec<DeathCause>)
        ensures
            final(self).wf(),
            deaths@ == hazard_deaths(old(self)@.dev_mode, old(self)@.player_dead, spike, lava, baby),
            deaths@.len() == 0 ==> final(self)@ == old(self)@,
            deaths@.len() > 0 ==> final(self)@ == (GameView {
                player_dead: true,
                death_cause: Some(deaths@.last()),
                ..old(self)@
            }),
            final(self)@ == old(self)@.after_hazards(spike, lava, baby),
    {
        proof {
            use_type_invariant(&*self);
        }
        let mut deaths: Vec<DeathCause> = Vec::new();
        if spike {
            if !self.dev_mode {
                self.die(DeathCause::Spikes);
                deaths.push(DeathCause::Spikes);
            }
        }
        if lava {
            if !self.dev_mode {
                self.die(DeathCause::Lava);
                deaths.push(DeathCause::Lava);
            }
        }
        if !self.player_dead {
            if baby {
                if !self.dev_mode {
                    self.die(DeathCause::Baby);
                    deaths.push(DeathCause::Baby);
                }
            }
        }
        proof {
            let d = hazard_deaths(old(self)@.dev_mode, old(self)@.player_dead, spike, lava, baby);
            assert(deaths@ =~= d);
        }
        deaths
    }

    /// Eats every piece of food that the dog touches (entry `i` of
    /// `touching` for piece `i`) and has not eaten yet.
    pub fn collect_foods(&mut self, touching: &Vec<bool>)
        requires
            touching@.len() == old(self)@.foods.len(),
            count_true(merge_true(old(self)@.foods, touching@)) <= u32::MAX,
        ensures
            final(self).wf(),
            final(self)@ == old(self)@.after_food(touching@),
    {
        proof {
            use_type_invariant(&*self);
        }
        let ghost start = self.food.eaten@;
        let ghost target = merge_true(start, touching@);
        let ghost before = self@;
        let mut rec = FoodRecord::empty();
        std::mem::swap(&mut self.food, &mut rec);
        let mut i: usize = 0;
        while i < rec.eaten.len()
            invariant
                0 <= i <= rec.eaten@.len(),
                rec.eaten@.len() == start.len(),
                touching@.len() == start.len(),
                target == merge_true(start, touching@),
                count_true(target) <= u32::MAX,
                rec.collected as nat == count_true(rec.eaten@),
                rec.total == start.len() as u32,
                forall|j: int| 0 <= j < i ==> rec.eaten@[j] == target[j],
                forall|j: int| i <= j < start.len() ==> rec.eaten@[j] == start[j],
            decreases start.len() - i,
        {
            if !rec.eaten[i] && touching[i] {
                proof {
                    let s = rec.eaten@;
                    lemma_count_true_set(s, i as int);
                    lemma_count_true_monotone(s.update(i as int, true), target);
                }
                rec.eaten.set(i, true);
                rec.collected = rec.collected + 1;
            }
            i = i + 1;
        }
        assert(rec.eaten@ =~= target);
        self.food = rec;
        assert(self@ == before.after_food(touching@));
    }

    /// Whether the goal ball may be fetched now.
    pub fn can_fetch(&self) -> (b: bool)
        ensures
            b == self@.fetch_allowed(),
    {
        self.food.total == 0 || self.food.collected >= self.food.total
    }

    /// The dog reaches the goal ball (`touching`): it fetches it, and so
    /// completes the level, if fetching is allowed.
    pub fn fetch_goal(&mut self, touching: bool) -> (fetched: bool)
        ensures
            final(self).wf(),
            fetched == (touching && old(self)@.fetch_allowed()),
            fetched ==> final(self)@ == (GameView { level_complete: true, ..old(self)@ }),
            !fetched ==> final(self)@ == old(self)@,
    {
        proof {
            use_type_invariant(&*self);
        }
        let fetched = touching && self.can_fetch();
        if fetched {
            self.level_complete = true;
        }
        fetched
    }
}


proof fn lemma_count_true_all(s: Seq<bool>)
    requires
        count_true(s) == s.len(),
    ensures
        forall|i: int| 0 <= i < s.len() ==> s[i],
    decreases s.len(),
{
    if s.len() > 0 {
        let s0 = s.drop_last();
        lemma_count_true_bound(s0);
        lemma_count_true_all(s0);
        assert forall|i: int| 0 <= i < s.len() implies s[i] by {
            if i < s.len() - 1 {
                assert(s0[i] == s[i]);
            }
        }
    }
}

/// The dog never counts more food than the level has: the number of pieces
/// eaten is at most the number of pieces (for levels with at most
/// `u32::MAX` pieces, whose total fits the counter).
pub proof fn law_food_within_total(g: GameView)
    requires
        g.wf(),
        g.foods.len() <= u32::MAX,
    ensures
        g.food_collected <= g.food_total,
{
    lemma_count_true_bound(g.foods);
}

/// The goal ball can be fetched only once every piece of the level's food
/// has been eaten (for levels with at most `u32::MAX` pieces).
pub proof fn law_fetch_needs_all_food(g: GameView)
    requires
        g.wf(),
        g.foods.len() <= u32::MAX,
        g.fetch_allowed(),
    ensures
        forall|i: int| 0 <= i < g.foods.len() ==> g.foods[i],
{
    lemma_count_true_bound(g.foods);
    lemma_count_true_all(g.foods);
}

/// Eating food is permanent: a piece once eaten stays eaten, and the count
/// never goes down.
pub proof fn law_food_stays_eaten(foods: Seq<bool>, touching: Seq<bool>)
    requires
        touching.len() == foods.len(),
    ensures
        forall|i: int| 0 <= i < foods.len() && foods[i] ==> #[trigger] merge_true(foods, touching)[i],
        count_true(foods) <= count_true(merge_true(foods, touching)),
{
    lemma_count_true_monotone(foods, merge_true(foods, touching));
}

/// Resetting twice is the same as resetting once.
pub proof fn law_reset_idempotent(g: GameView)
    ensures
        g.after_reset().after_reset() == g.after_reset(),
{
}

/// In developer mode nothing kills the dog.
pub proof fn law_dev_mode_immortal(dead: bool, spike: bool, lava: bool, baby: bool)
    ensures
        hazard_deaths(true, dead, spike, lava, baby).len() == 0,
{
}

/// A baby never kills a dog that spikes or lava killed on the same frame,
/// nor a dog that was already dead.
pub proof fn law_baby_spares_the_dead(dev_mode: bool, dead: bool, spike: bool, lava: bool, baby: bool)
    requires
        dead || spike || lava,
    ensures
        !hazard_deaths(dev_mode, dead, spike, lava, baby).contains(DeathCause::Baby),
{
    let d = hazard_deaths(dev_mode, dead, spike, lava, baby);
    if d.contains(DeathCause::Baby) {
        let k = choose|k: int| 0 <= k < d.len() && d[k] == DeathCause::Baby;
        assert(false);
    }
}


/// One update of the dog (the hazards it touches, then the food it eats)
/// changes only whether it is dead, what killed it, which food is eaten and
/// how much: the level, the screen, developer mode, the food total, the
/// completion of the level and the level files stay as they were; food once
/// eaten stays eaten; and, while the count fits its `u32`, the count does not
/// go down and agrees with the record of eaten food.
pub proof fn law_update_keeps_progress(
    g: GameView,
    spike: bool,
    lava: bool,
    baby: bool,
    touching: Seq<bool>,
)
    requires
        g.wf(),
        touching.len() == g.foods.len(),
    ensures
        ({
            let h = g.after_hazards(spike, lava, baby).after_food(touching);
            &&& h.level == g.level
            &&& h.state == g.state
            &&& h.dev_mode == g.dev_mode
            &&& h.food_total == g.food_total
            &&& h.level_complete == g.level_complete
            &&& h.level1 == g.level1
            &&& h.level2 == g.level2
            &&& h.level3 == g.level3
            &&& h.foods.len() == g.foods.len()
            &&& forall|i: int| 0 <= i < g.foods.len() && g.foods[i] ==> #[trigger] h.foods[i]
            &&& h.player_dead == (g.player_dead || hazard_deaths(
                g.dev_mode,
                g.player_dead,
                spike,
                lava,
                baby,
            ).len() > 0)
            &&& count_true(h.foods) <= u32::MAX ==> h.wf() && h.food_collected >= g.food_collected
        }),
{
    let m = g.after_hazards(spike, lava, baby);
    let h = m.after_food(touching);
    assert(m.foods == g.foods);
    lemma_count_true_monotone(g.foods, merge_true(g.foods, touching));
}


/// What touching hazards does.  In developer mode, nothing.  Otherwise lava
/// kills (and is the cause of death even when spikes were touched too),
/// spikes kill, and a baby kills a dog that is alive and touched neither
/// spikes nor lava; a dog that touches nothing deadly is unchanged.  Only
/// whether the dog is dead and what killed it can change.
pub proof fn law_hazards(g: GameView, spike: bool, lava: bool, baby: bool)
    ensures
        ({
            let h = g.after_hazards(spike, lava, baby);
            let d = hazard_deaths(g.dev_mode, g.player_dead, spike, lava, baby);
            &&& h == (GameView { player_dead: h.player_dead, death_cause: h.death_cause, ..g })
            &&& g.dev_mode ==> h == g && d.len() == 0
            &&& !g.dev_mode && lava ==> h.player_dead && h.death_cause == Some(DeathCause::Lava)
                && d.contains(DeathCause::Lava)
            &&& !g.dev_mode && spike && !lava ==> h.player_dead && h.death_cause == Some(
                DeathCause::Spikes,
            ) && d == seq![DeathCause::Spikes]
            &&& !g.dev_mode && spike && lava ==> d == seq![DeathCause::Spikes, DeathCause::Lava]
            &&& !g.dev_mode && !spike && lava ==> d == seq![DeathCause::Lava]
            &&& !g.dev_mode && baby && !g.player_dead && !spike && !lava ==> h.player_dead
                && h.death_cause == Some(DeathCause::Baby) && d == seq![DeathCause::Baby]
            &&& !spike && !lava && (!baby || g.player_dead) ==> h == g && d.len() == 0
        }),
{
    let d = hazard_deaths(g.dev_mode, g.player_dead, spike, lava, baby);
    let e = Seq::<DeathCause>::empty();
    if !g.dev_mode {
        let a = if spike { seq![DeathCause::Spikes] } else { e };
        let b = if lava { seq![DeathCause::Lava] } else { e };
        let c = if baby && !g.player_dead && !spike && !lava { seq![DeathCause::Baby] } else { e };
        assert(d == a + b + c);
        if lava {
            assert(c =~= e);
            assert(a + b + c =~= a.push(DeathCause::Lava));
            assert(d[d.len() - 1] == DeathCause::Lava);
        }
        if spike && !lava {
            assert(d =~= seq![DeathCause::Spikes]);
        }
        if spike && lava {
            assert(d =~= seq![DeathCause::Spikes, DeathCause::Lava]);
        }
        if !spike && lava {
            assert(d =~= seq![DeathCause::Lava]);
        }
        if baby && !g.player_dead && !spike && !lava {
            assert(d =~= seq![DeathCause::Baby]);
        }
        if !spike && !lava && (!baby || g.player_dead) {
            assert(d =~= e);
        }
    }
}

/// What starting a level gives, whatever the state before: the playing
/// screen, the given level number, a live dog, the goal not yet fetched,
/// and none of that level's food eaten, the total being the number of food
/// lines of the level's file (the first file for level 1, the third for
/// level 3, the second for any other number).  Developer mode, the last
/// cause of death and the level files stay; the food counters agree.
pub proof fn law_start_level(g: GameView, level: u32)
    ensures
        ({
            let h = g.started(level);
            let text = if level == 1 {
                g.level1
            } else if level == 3 {
                g.level3
            } else {
                g.level2
            };
            &&& h.state == GameState::Playing
            &&& h.level == level
            &&& !h.player_dead
            &&& !h.level_complete
            &&& h.food_collected == 0
            &&& h.foods.len() == level_of_text(text).foods.len()
            &&& forall|i: int| 0 <= i < h.foods.len() ==> !#[trigger] h.foods[i]
            &&& h.food_total == level_of_text(text).foods.len() as u32
            &&& h.dev_mode == g.dev_mode
            &&& h.death_cause == g.death_cause
            &&& h.level1 == g.level1 && h.level2 == g.level2 && h.level3 == g.level3
            &&& h.wf()
        }),
{
    let h = g.started(level);
    lemma_count_true_none(h.foods.len());
    assert(h.foods =~= Seq::new(h.foods.len(), |i: int| false));
}

/// What a reset gives: the level being played starts again (level 1 if the
/// level number is 0), from a fresh game: the playing screen, a live dog,
/// developer mode off, no cause of death, the goal not fetched, none of the
/// food eaten; the level files stay.
pub proof fn law_reset(g: GameView)
    ensures
        ({
            let h = g.after_reset();
            &&& g.level >= 1 ==> h.level == g.level
            &&& g.level == 0 ==> h.level == 1
            &&& h.state == GameState::Playing
            &&& !h.player_dead
            &&& !h.dev_mode
            &&& h.death_cause.is_none()
            &&& !h.level_complete
            &&& h.food_collected == 0
            &&& forall|i: int| 0 <= i < h.foods.len() ==> !#[trigger] h.foods[i]
            &&& h.level1 == g.level1 && h.level2 == g.level2 && h.level3 == g.level3
            &&& h.wf()
        }),
{
    law_start_level(g.fresh(), g.reset_level());
}

proof fn lemma_count_true_all_set(s: Seq<bool>)
    requires
        forall|i: int| 0 <= i < s.len() ==> s[i],
    ensures
        count_true(s) == s.len(),
    decreases s.len(),
{
    if s.len() > 0 {
        let s0 = s.drop_last();
        assert forall|i: int| 0 <= i < s0.len() implies s0[i] by {
            assert(s0[i] == s[i]);
        }
        lemma_count_true_all_set(s0);
        assert(s[s.len() - 1]);
    }
}

/// Once every piece of the level's food is eaten (or there is none), the
/// goal ball may be fetched; and it may not while a piece is left (for levels
/// with at most `u32::MAX` pieces).
pub proof fn law_fetch_when_all_eaten(g: GameView)
    requires
        g.wf(),
    ensures
        (forall|i: int| 0 <= i < g.foods.len() ==> g.foods[i]) ==> g.fetch_allowed(),
        g.foods.len() <= u32::MAX && (exists|i: int| 0 <= i < g.foods.len() && !g.foods[i])
            ==> !g.fetch_allowed(),
{
    if forall|i: int| 0 <= i < g.foods.len() ==> g.foods[i] {
        lemma_count_true_all_set(g.foods);
    }
    if g.foods.len() <= u32::MAX && (exists|i: int| 0 <= i < g.foods.len() && !g.foods[i]) {
        if g.fetch_allowed() {
            law_fetch_needs_all_food(g);
        }
    }
}


/// Eating: after the dog eats what it touches, exactly the pieces eaten
/// before and the pieces touched are eaten, and the count is the number of
/// eaten pieces (while it fits its `u32`); nothing else changes.
pub proof fn law_eat(g: GameView, touching: Seq<bool>)
    requires
        touching.len() == g.foods.len(),
    ensures
        ({
            let h = g.after_food(touching);
            &&& h.foods.len() == g.foods.len()
            &&& forall|i: int| 0 <= i < g.foods.len() ==> #[trigger] h.foods[i] == (g.foods[i] || touching[i])
            &&& count_true(h.foods) <= u32::MAX ==> h.food_collected as nat == count_true(h.foods)
            &&& h == (GameView { foods: h.foods, food_collected: h.food_collected, ..g })
        }),
{
}

} // verus!
