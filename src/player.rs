use vstd::prelude::*;
use crate::geometry::Point;

verus! {

/// Distance moved per frame while a direction is held: 0.1 units.
pub const STEP: i64 = 100_000;

/// Yaw turned per frame while a turn key is held: 0.1 radians.
pub const TURN: i64 = 100_000;

/// A stick deflected all the way reads this many steps.
pub const AXIS_FULL: i64 = 1_000;

/// Which movement keys are held this frame.
#[derive(Clone, Copy, Debug, PartialEq, Eq)]
pub struct MoveKeys {
    /// W
    pub forward: bool,
    /// A
    pub left: bool,
    /// S
    pub back: bool,
    /// D
    pub right: bool,
    /// J: turn counter-clockwise seen from above
    pub turn_left: bool,
    /// K: turn clockwise seen from above
    pub turn_right: bool,
}

/// Gamepad stick readings, each in `[-AXIS_FULL, AXIS_FULL]`.
#[derive(Clone, Copy, Debug, PartialEq, Eq)]
pub struct StickAxes {
    pub left_x: i64,
    pub left_y: i64,
    pub right_x: i64,
}

/// One frame of motion in the player's own frame: distance along its forward
/// and right axes, and the change of yaw (positive turns left).
#[derive(Clone, Copy, Debug, PartialEq, Eq)]
pub struct LocalStep {
    pub forward: i64,
    pub right: i64,
    pub yaw: i64,
}

/// Position and heading of a player node. `yaw` is in millionths of a radian.
#[derive(Clone, Copy, Debug, PartialEq, Eq)]
pub struct PlayerPose {
    pub position: Point,
    pub yaw: i64,
}

pub open spec fn held(b: bool) -> int {
    if b {
        1
    } else {
        0
    }
}

/// The step that the held keys ask for. Opposite keys cancel.
pub open spec fn key_step(keys: MoveKeys) -> LocalStep {
    LocalStep {
        forward: (STEP * (held(keys.forward) - held(keys.back))) as i64,
        right: (STEP * (held(keys.right) - held(keys.left))) as i64,
        yaw: (TURN * (held(keys.turn_left) - held(keys.turn_right))) as i64,
    }
}

impl StickAxes {
    pub open spec fn in_range(self) -> bool {
        -AXIS_FULL <= self.left_x <= AXIS_FULL && -AXIS_FULL <= self.left_y <= AXIS_FULL
            && -AXIS_FULL <= self.right_x <= AXIS_FULL
    }
}

impl LocalStep {
    /// No component exceeds what one frame of input can ask for.
    pub open spec fn is_frame_step(self) -> bool {
        -STEP <= self.forward <= STEP && -STEP <= self.right <= STEP && -TURN <= self.yaw
            <= TURN
    }

    pub open spec fn is_zero(self) -> bool {
        self.forward == 0 && self.right == 0 && self.yaw == 0
    }
}

impl PlayerPose {
    /// A frame step can be applied without leaving the range of `i64`.
    pub open spec fn has_room(self) -> bool {
        i64::MIN + STEP <= self.position.x <= i64::MAX - STEP && i64::MIN + STEP
            <= self.position.z <= i64::MAX - STEP && i64::MIN + TURN <= self.yaw <= i64::MAX
            - TURN
    }
}

/// The pose after `step` when the step is taken along the world axes:
/// forward is negative z, right is positive x, and height is kept.
pub open spec fn world_step(pose: PlayerPose, step: LocalStep) -> PlayerPose {
    PlayerPose {
        position: Point {
            x: (pose.position.x + step.right) as i64,
            y: pose.position.y,
            z: (pose.position.z - step.forward) as i64,
        },
        yaw: (pose.yaw + step.yaw) as i64,
    }
}

/// The step asked for by the movement keys held this frame.
pub fn keyboard_step(keys: MoveKeys) -> (r: LocalStep)
    ensures
        r == key_step(keys),
        r.is_frame_step(),
{
    let mut forward: i64 = 0;
    let mut right: i64 = 0;
    let mut yaw: i64 = 0;
    if keys.forward {
        forward = forward + STEP;
    }
    if keys.left {
        right = right - STEP;
    }
    if keys.back {
        forward = forward - STEP;
    }
    if keys.right {
        right = right + STEP;
    }
    if keys.turn_left {
        yaw = yaw + TURN;
    }
    if keys.turn_right {
        yaw = yaw - TURN;
    }
    LocalStep { forward, right, yaw }
}

/// The step asked for by a gamepad: the left stick moves (up is forward),
/// the right stick's x axis turns (right turns clockwise). A full deflection
/// moves `STEP` or turns `TURN`.
pub fn gamepad_step(axes: StickAxes) -> (r: LocalStep)
    requires
        axes.in_range(),
    ensures
        r.forward * AXIS_FULL == axes.left_y * STEP,
        r.right * AXIS_FULL == axes.left_x * STEP,
        r.yaw * AXIS_FULL == -axes.right_x * TURN,
        r.is_frame_step(),
{
    LocalStep {
        forward: axes.left_y * (STEP / AXIS_FULL),
        right: axes.left_x * (STEP / AXIS_FULL),
        yaw: -axes.right_x * (TURN / AXIS_FULL),
    }
}

/// Applies one frame of motion along the world axes.
pub fn apply_world_step(pose: PlayerPose, step: LocalStep) -> (r: PlayerPose)
    requires
        pose.has_room(),
        step.is_frame_step(),
    ensures
        r == world_step(pose, step),
{
    PlayerPose {
        position: Point {
            x: pose.position.x + step.right,
            y: pose.position.y,
            z: pose.position.z - step.forward,
        },
        yaw: pose.yaw + step.yaw,
    }
}

/// Moves every player node by `step` along the world axes, and returns one
/// movement notification (a copy of the new pose) per node, in node order.
/// Nothing requires that there be exactly one player: each is moved alike.
pub fn move_players(players: &mut Vec<PlayerPose>, step: LocalStep) -> (moved: Vec<PlayerPose>)
    requires
        step.is_frame_step(),
        forall|i: int| 0 <= i < old(players)@.len() ==> (#[trigger] old(players)@[i]).has_room(),
    ensures
        final(players)@.len() == old(players)@.len(),
        forall|i: int|
            0 <= i < old(players)@.len() ==> final(players)@[i] == world_step(
                #[trigger] old(players)@[i],
                step,
            ),
        moved@ == final(players)@,
{
    let mut moved: Vec<PlayerPose> = Vec::new();
    let n = players.len();
    let mut i: usize = 0;
    while i < n
        invariant
            step.is_frame_step(),
            n == old(players)@.len(),
            players@.len() == n,
            i <= n,
            moved@ == players@.subrange(0, i as int),
            forall|j: int| 0 <= j < i ==> players@[j] == world_step(#[trigger] old(players)@[j], step),
            forall|j: int| i <= j < n ==> players@[j] == old(players)@[j],
            forall|j: int| 0 <= j < n ==> (#[trigger] old(players)@[j]).has_room(),
        decreases n - i,
    {
        let next = apply_world_step(players[i], step);
        players.set(i, next);
        moved.push(next);
        assert(moved@ =~= players@.subrange(0, i as int + 1));
        i = i + 1;
    }
    assert(moved@ =~= players@);
    moved
}

/// Holding exactly one direction key for a frame moves one step along the
/// matching axis and nothing else: in the player's frame (forward or right),
/// and, taken along the world axes, on exactly one of x and z.
pub proof fn lemma_one_key_moves_one_axis(pose: PlayerPose, keys: MoveKeys)
    requires
        pose.has_room(),
        held(keys.forward) + held(keys.left) + held(keys.back) + held(keys.right) == 1,
        !keys.turn_left,
        !keys.turn_right,
    ensures
        keys.forward ==> key_step(keys) == (LocalStep { forward: STEP, right: 0, yaw: 0 }),
        keys.back ==> key_step(keys) == (LocalStep { forward: (-STEP) as i64, right: 0, yaw: 0 }),
        keys.right ==> key_step(keys) == (LocalStep { forward: 0, right: STEP, yaw: 0 }),
        keys.left ==> key_step(keys) == (LocalStep { forward: 0, right: (-STEP) as i64, yaw: 0 }),
        keys.forward ==> world_step(pose, key_step(keys)).position == (Point {
            z: (pose.position.z - STEP) as i64,
            ..pose.position
        }),
        keys.back ==> world_step(pose, key_step(keys)).position == (Point {
            z: (pose.position.z + STEP) as i64,
            ..pose.position
        }),
        keys.right ==> world_step(pose, key_step(keys)).position == (Point {
            x: (pose.position.x + STEP) as i64,
            ..pose.position
        }),
        keys.left ==> world_step(pose, key_step(keys)).position == (Point {
            x: (pose.position.x - STEP) as i64,
            ..pose.position
        }),
        world_step(pose, key_step(keys)).yaw == pose.yaw,
{
}

/// A frame with no key held leaves the pose as it was.
pub proof fn lemma_no_keys_no_motion(pose: PlayerPose, keys: MoveKeys)
    requires
        !keys.forward,
        !keys.left,
        !keys.back,
        !keys.right,
        !keys.turn_left,
        !keys.turn_right,
    ensures
        key_step(keys).is_zero(),
        world_step(pose, key_step(keys)) == pose,
{
}

} // verus!
