//! The discrete part of the dog's controls: which way it moves and faces,
//! and when it jumps.
//!
//! A jump needs two things at once: a recent press of the jump key and
//! recent contact with the ground.  "Recent" is counted in frames by two
//! counters.  Pressing jump loads the jump buffer with
//! [`JUMP_BUFFER_FRAMES`]; standing on the ground loads the coyote counter
//! with [`COYOTE_FRAMES`]; on every other frame each counter goes down by one
//! (saturating at `i32::MIN`).  The dog jumps on a frame where both counters
//! are positive, and a jump empties both.
use vstd::prelude::*;

verus! {

/// How many frames the dog may still jump after leaving the ground (counting the last grounded frame).
pub const COYOTE_FRAMES: i32 = 6;

/// How many frames a press of the jump key is remembered (counting the frame of the press).
pub const JUMP_BUFFER_FRAMES: i32 = 5;

/// `i32::saturating_sub` from the standard library: `x - y`, clamped to the
/// bounds of `i32` instead of overflowing.
pub assume_specification[ <i32>::saturating_sub ](x: i32, y: i32) -> (r: i32)
    ensures
        r == (if x - y < i32::MIN {
            i32::MIN as int
        } else if x - y > i32::MAX {
            i32::MAX as int
        } else {
            x - y
        }),
;

/// The control state the dog carries from frame to frame.
#[derive(Clone, Copy, Debug, PartialEq, Eq, Structural)]
pub struct PlayerControl {
    pub facing_right: bool,
    pub coyote_counter: i32,
    pub jump_buffer_counter: i32,
}

/// What the controls read on one frame.
#[derive(Clone, Copy, Debug, PartialEq, Eq, Structural)]
pub struct ControlInput {
    /// A key for moving left is held.
    pub left: bool,
    /// A key for moving right is held.
    pub right: bool,
    /// A jump key went down on this frame.
    pub jump_pressed: bool,
    /// The dog stood on a platform at the end of the previous frame.
    pub grounded: bool,
}

/// What the controls decide on one frame.
#[derive(Clone, Copy, Debug, PartialEq, Eq, Structural)]
pub struct ControlOutcome {
    /// Horizontal direction of movement: -1, 0 or 1.
    pub move_x: i32,
    /// The dog jumps on this frame.
    pub jumped: bool,
}

/// One step down of a frame counter, saturating at `i32::MIN`.
pub open spec fn count_down(c: i32) -> i32 {
    if c == i32::MIN {
        c
    } else {
        (c - 1) as i32
    }
}

/// The direction that the held movement keys ask for.
pub open spec fn direction(left: bool, right: bool) -> i32 {
    if left && !right {
        -1i32
    } else if right && !left {
        1i32
    } else {
        0i32
    }
}

/// The control state and outcome after one frame with input `input`, from state `c`.
pub open spec fn control_step(c: PlayerControl, input: ControlInput) -> (PlayerControl, ControlOutcome) {
    let move_x = direction(input.left, input.right);
    let facing_right = if move_x > 0 {
        true
    } else if move_x < 0 {
        false
    } else {
        c.facing_right
    };
    let buffer = if input.jump_pressed {
        JUMP_BUFFER_FRAMES
    } else {
        count_down(c.jump_buffer_counter)
    };
    let coyote = if input.grounded {
        COYOTE_FRAMES
    } else {
        count_down(c.coyote_counter)
    };
    let jumped = buffer > 0 && coyote > 0;
    (
        PlayerControl {
            facing_right,
            coyote_counter: if jumped { 0 } else { coyote },
            jump_buffer_counter: if jumped { 0 } else { buffer },
        },
        ControlOutcome { move_x, jumped },
    )
}

impl PlayerControl {
    /// The controls of a newly placed dog: facing right, nothing remembered.
    pub fn new() -> (c: PlayerControl)
        ensures
            c == (PlayerControl { facing_right: true, coyote_counter: 0, jump_buffer_counter: 0 }),
    {
        PlayerControl { facing_right: true, coyote_counter: 0, jump_buffer_counter: 0 }
    }

    /// Runs the controls for one frame.
    pub fn step(&mut self, input: ControlInput) -> (out: ControlOutcome)
        ensures
            (*final(self), out) == control_step(*old(self), input),
    {
        let mut move_x: i32 = 0;
        if input.left {
            move_x = move_x - 1;
        }
        if input.right {
            move_x = move_x + 1;
        }
        if move_x > 0 {
            self.facing_right = true;
        } else if move_x < 0 {
            self.facing_right = false;
        }
        if input.jump_pressed {
            self.jump_buffer_counter = JUMP_BUFFER_FRAMES;
        } else {
            self.jump_buffer_counter = self.jump_buffer_counter.saturating_sub(1);
        }
        if input.grounded {
            self.coyote_counter = COYOTE_FRAMES;
        } else {
            self.coyote_counter = self.coyote_counter.saturating_sub(1);
        }
        let mut jumped = false;
        if self.jump_buffer_counter > 0 && self.coyote_counter > 0 {
            self.coyote_counter = 0;
            self.jump_buffer_counter = 0;
            jumped = true;
        }
        ControlOutcome { move_x, jumped }
    }
}


/// The control state after the first `n` frames of `inputs`, starting from `c`.
pub open spec fn control_after(c: PlayerControl, inputs: Seq<ControlInput>, n: nat) -> PlayerControl
    decreases n,
{
    if n == 0 {
        c
    } else {
        control_step(control_after(c, inputs, (n - 1) as nat), inputs[n - 1]).0
    }
}

/// Whether the dog jumps on frame `i` (counting from 0) of `inputs`, starting from `c`.
pub open spec fn jumps_on(c: PlayerControl, inputs: Seq<ControlInput>, i: nat) -> bool {
    control_step(control_after(c, inputs, i), inputs[i as int]).1.jumped
}

proof fn lemma_buffer_holds(c: PlayerControl, inputs: Seq<ControlInput>, i: nat)
    requires
        i < inputs.len(),
        i < JUMP_BUFFER_FRAMES,
        inputs[0].jump_pressed,
        forall|j: nat| j <= i ==> !#[trigger] jumps_on(c, inputs, j),
    ensures
        control_after(c, inputs, i + 1).jump_buffer_counter >= JUMP_BUFFER_FRAMES - i,
    decreases i,
{
    if i > 0 {
        lemma_buffer_holds(c, inputs, (i - 1) as nat);
    }
    assert(!jumps_on(c, inputs, i));
}

proof fn lemma_coyote_holds(c: PlayerControl, inputs: Seq<ControlInput>, i: nat)
    requires
        i < inputs.len(),
        i < COYOTE_FRAMES,
        inputs[0].grounded,
        forall|j: nat| j <= i ==> !#[trigger] jumps_on(c, inputs, j),
    ensures
        control_after(c, inputs, i + 1).coyote_counter >= COYOTE_FRAMES - i,
    decreases i,
{
    if i > 0 {
        lemma_coyote_holds(c, inputs, (i - 1) as nat);
    }
    assert(!jumps_on(c, inputs, i));
}

/// Jump buffering: if the jump key is pressed on a frame, and the dog stands
/// on the ground on that frame or on one of the next
/// `JUMP_BUFFER_FRAMES - 1` frames, then the dog jumps, at the latest on
/// that grounded frame.
pub proof fn law_jump_buffer(c: PlayerControl, inputs: Seq<ControlInput>, m: nat)
    requires
        m < inputs.len(),
        m < JUMP_BUFFER_FRAMES,
        inputs[0].jump_pressed,
        inputs[m as int].grounded,
    ensures
        exists|i: nat| i <= m && #[trigger] jumps_on(c, inputs, i),
{
    if forall|j: nat| j <= m ==> !#[trigger] jumps_on(c, inputs, j) {
        if m > 0 {
            lemma_buffer_holds(c, inputs, (m - 1) as nat);
        }
        assert(jumps_on(c, inputs, m));
    }
}

/// Coyote time: if the dog stands on the ground on a frame, and the jump key
/// is pressed on that frame or on one of the next `COYOTE_FRAMES - 1`
/// frames, then the dog jumps, at the latest on the frame of the press, even
/// if it has left the ground by then.
pub proof fn law_coyote_time(c: PlayerControl, inputs: Seq<ControlInput>, m: nat)
    requires
        m < inputs.len(),
        m < COYOTE_FRAMES,
        inputs[0].grounded,
        inputs[m as int].jump_pressed,
    ensures
        exists|i: nat| i <= m && #[trigger] jumps_on(c, inputs, i),
{
    if forall|j: nat| j <= m ==> !#[trigger] jumps_on(c, inputs, j) {
        if m > 0 {
            lemma_coyote_holds(c, inputs, (m - 1) as nat);
        }
        assert(jumps_on(c, inputs, m));
    }
}

/// No double jump: a jump empties both counters, so the dog jumps again on
/// the very next frame only if the jump key is pressed on that frame and it
/// stands on the ground.
pub proof fn law_jump_needs_press_and_ground(c: PlayerControl, inputs: Seq<ControlInput>, i: nat)
    requires
        i + 1 < inputs.len(),
        jumps_on(c, inputs, i),
        jumps_on(c, inputs, i + 1),
    ensures
        inputs[i + 1int].jump_pressed,
        inputs[i + 1int].grounded,
{
    assert(control_after(c, inputs, i + 1) == control_step(control_after(c, inputs, i), inputs[i as int]).0);
}

/// Without a press of the jump key the dog never jumps from a state in which
/// no press is remembered.
pub proof fn law_no_jump_without_press(c: PlayerControl, input: ControlInput)
    requires
        c.jump_buffer_counter <= 1,
        !input.jump_pressed,
    ensures
        !control_step(c, input).1.jumped,
{
}


/// Moving and facing: the left key alone moves left (-1) and turns the dog
/// left, the right key alone moves right (1) and turns it right; both keys
/// or neither keep it still (0) and facing as it was.
pub proof fn law_movement(c: PlayerControl, input: ControlInput)
    ensures
        ({
            let (n, out) = control_step(c, input);
            &&& input.left && !input.right ==> out.move_x == -1 && !n.facing_right
            &&& input.right && !input.left ==> out.move_x == 1 && n.facing_right
            &&& input.left == input.right ==> out.move_x == 0 && n.facing_right == c.facing_right
        }),
{
}

/// When the dog jumps: on a frame where the jump key goes down or the jump
/// buffer still holds more than one frame, and the dog stands on the ground
/// or the coyote counter still holds more than one frame.  A jump empties
/// both counters.  Otherwise a press loads the buffer with 5 frames and
/// standing loads the coyote counter with 6, and each counter not loaded
/// goes down by one, staying at `i32::MIN` there.
pub proof fn law_jump_rule(c: PlayerControl, input: ControlInput)
    ensures
        ({
            let (n, out) = control_step(c, input);
            &&& out.jumped == ((input.jump_pressed || c.jump_buffer_counter > 1) && (input.grounded
                || c.coyote_counter > 1))
            &&& out.jumped ==> n.jump_buffer_counter == 0 && n.coyote_counter == 0
            &&& !out.jumped && input.jump_pressed ==> n.jump_buffer_counter == 5
            &&& !out.jumped && input.grounded ==> n.coyote_counter == 6
            &&& !out.jumped && !input.jump_pressed ==> n.jump_buffer_counter == (if c.jump_buffer_counter
                == i32::MIN {
                i32::MIN as int
            } else {
                c.jump_buffer_counter - 1
            })
            &&& !out.jumped && !input.grounded ==> n.coyote_counter == (if c.coyote_counter
                == i32::MIN {
                i32::MIN as int
            } else {
                c.coyote_counter - 1
            })
        }),
{
}

} // verus!
