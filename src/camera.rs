use vstd::prelude::*;
use vstd::arithmetic::div_mod::{lemma_fundamental_div_mod, lemma_mod_pos_bound};
use crate::geometry::{Point, floor_sqrt, is_floor_sqrt, lemma_floor_sqrt_unique, within, horizontal_dist_sq};
use crate::player::PlayerPose;

verus! {

/// Height of a following camera above the player: 2.5 units.
pub const CAMERA_HEIGHT: i64 = 2_500_000;

/// Horizontal distance a following camera keeps from the player: 4.0 units.
pub const TRAIL_DISTANCE: i64 = 4_000_000;

/// Bound on coordinates that the follow rule accepts.
pub const FOLLOW_LIMIT: i64 = 0x2000_0000_0000_0000;

/// Bound on player coordinates for which a following camera stays within
/// `FOLLOW_LIMIT` however many notifications it follows.
pub const PLAYER_LIMIT: i64 = 0x1000_0000_0000_0000;

/// The integer square root of `n`, rounded down.
pub open spec fn root_of(n: int) -> int {
    choose|s: int| is_floor_sqrt(s, n)
}

/// `v * TRAIL_DISTANCE / s`, rounded away from zero.
pub open spec fn scale_away(v: int, s: int) -> int {
    if v >= 0 {
        (v * TRAIL_DISTANCE + s - 1) / s
    } else {
        -((-v * TRAIL_DISTANCE + s - 1) / s)
    }
}

/// Where a following camera goes when the player is at `player`: straight
/// above the player by `CAMERA_HEIGHT`, and in the horizontal plane on the
/// ray from the player through the camera's old position, `TRAIL_DISTANCE`
/// away (each coordinate rounded away from the player, so the distance is
/// never short). A camera directly above or below the player goes behind it,
/// towards positive z.
pub open spec fn follow_target(camera: Point, player: Point) -> Point {
    let dx = camera.x - player.x;
    let dz = camera.z - player.z;
    let n = dx * dx + dz * dz;
    if n == 0 {
        Point {
            x: player.x,
            y: (player.y + CAMERA_HEIGHT) as i64,
            z: (player.z + TRAIL_DISTANCE) as i64,
        }
    } else {
        Point {
            x: (player.x + scale_away(dx, root_of(n))) as i64,
            y: (player.y + CAMERA_HEIGHT) as i64,
            z: (player.z + scale_away(dz, root_of(n))) as i64,
        }
    }
}

/// A camera at `camera` after following each notification of `moves` in turn.
pub open spec fn follow_through(camera: Point, moves: Seq<PlayerPose>) -> Point
    decreases moves.len(),
{
    if moves.len() == 0 {
        camera
    } else {
        follow_target(follow_through(camera, moves.drop_last()), moves.last().position)
    }
}

/// Every natural number has an integer square root.
proof fn lemma_floor_sqrt_exists(n: int)
    requires
        n >= 0,
    ensures
        is_floor_sqrt(root_of(n), n),
    decreases n,
{
    if n == 0 {
        assert(is_floor_sqrt(0, 0));
    } else {
        lemma_floor_sqrt_exists(n - 1);
        let s = root_of(n - 1);
        assert((s + 1) * (s + 1) == s * s + 2 * s + 1) by (nonlinear_arith);
        assert((s + 2) * (s + 2) == (s + 1) * (s + 1) + 2 * s + 3) by (nonlinear_arith);
        if (s + 1) * (s + 1) <= n {
            assert(is_floor_sqrt(s + 1, n));
        } else {
            assert(is_floor_sqrt(s, n));
        }
    }
}

/// Rounding `a * TRAIL_DISTANCE / s` up never loses distance, and never
/// exceeds `TRAIL_DISTANCE` when `a <= s`.
proof fn lemma_round_up(a: int, s: int)
    requires
        0 <= a <= s,
        0 < s,
    ensures
        0 <= (a * TRAIL_DISTANCE + s - 1) / s <= TRAIL_DISTANCE,
        ((a * TRAIL_DISTANCE + s - 1) / s) * s >= a * TRAIL_DISTANCE,
{
    let x = a * TRAIL_DISTANCE + s - 1;
    let c = x / s;
    lemma_fundamental_div_mod(x, s);
    lemma_mod_pos_bound(x, s);
    assert(x == s * c + x % s);
    assert(0 <= x % s < s);
    assert(0 <= c) by (nonlinear_arith)
        requires
            x == s * c + x % s,
            0 <= x % s < s,
            x >= 0,
            s > 0,
    ;
    assert(c <= TRAIL_DISTANCE) by (nonlinear_arith)
        requires
            x == s * c + x % s,
            0 <= x % s,
            x == a * TRAIL_DISTANCE + s - 1,
            a <= s,
            s > 0,
    ;
}

/// The rounded offsets put the camera at least `TRAIL_DISTANCE` away.
proof fn lemma_offset_long_enough(dx: int, dz: int, s: int)
    requires
        is_floor_sqrt(s, dx * dx + dz * dz),
        0 < s,
    ensures
        scale_away(dx, s) * scale_away(dx, s) + scale_away(dz, s) * scale_away(dz, s)
            >= TRAIL_DISTANCE * TRAIL_DISTANCE,
        -TRAIL_DISTANCE <= scale_away(dx, s) <= TRAIL_DISTANCE,
        -TRAIL_DISTANCE <= scale_away(dz, s) <= TRAIL_DISTANCE,
{
    let n = dx * dx + dz * dz;
    let ax = if dx >= 0 { dx } else { -dx };
    let az = if dz >= 0 { dz } else { -dz };
    assert(ax * ax == dx * dx && az * az == dz * dz) by (nonlinear_arith)
        requires
            ax == dx || ax == -dx,
            az == dz || az == -dz,
    ;
    assert(ax <= s && az <= s) by (nonlinear_arith)
        requires
            ax * ax + az * az < (s + 1) * (s + 1),
            ax >= 0,
            az >= 0,
            s >= 0,
    ;
    lemma_round_up(ax, s);
    lemma_round_up(az, s);
    let cx = (ax * TRAIL_DISTANCE + s - 1) / s;
    let cz = (az * TRAIL_DISTANCE + s - 1) / s;
    let t = TRAIL_DISTANCE as int;
    assert(scale_away(dx, s) * scale_away(dx, s) == cx * cx) by (nonlinear_arith)
        requires
            scale_away(dx, s) == cx || scale_away(dx, s) == -cx,
    ;
    assert(scale_away(dz, s) * scale_away(dz, s) == cz * cz) by (nonlinear_arith)
        requires
            scale_away(dz, s) == cz || scale_away(dz, s) == -cz,
    ;
    assert((cx * s) * (cx * s) >= (ax * t) * (ax * t)) by (nonlinear_arith)
        requires
            cx * s >= ax * t,
            ax * t >= 0,
    ;
    assert((cz * s) * (cz * s) >= (az * t) * (az * t)) by (nonlinear_arith)
        requires
            cz * s >= az * t,
            az * t >= 0,
    ;
    assert((cx * s) * (cx * s) == (cx * cx) * (s * s)) by (nonlinear_arith);
    assert((cz * s) * (cz * s) == (cz * cz) * (s * s)) by (nonlinear_arith);
    assert((ax * t) * (ax * t) == (ax * ax) * (t * t)) by (nonlinear_arith);
    assert((az * t) * (az * t) == (az * az) * (t * t)) by (nonlinear_arith);
    assert((cx * cx + cz * cz) * (s * s) == (cx * cx) * (s * s) + (cz * cz) * (s * s))
        by (nonlinear_arith);
    assert(n * (t * t) == (ax * ax) * (t * t) + (az * az) * (t * t)) by (nonlinear_arith)
        requires
            n == ax * ax + az * az,
    ;
    assert((cx * cx + cz * cz) * (s * s) >= n * (t * t));
    assert(cx * cx + cz * cz >= t * t) by (nonlinear_arith)
        requires
            (cx * cx + cz * cz) * (s * s) >= n * (t * t),
            n >= s * s,
            s > 0,
            t > 0,
    ;
}

/// What the follow rule guarantees of the camera's new place.
pub proof fn lemma_follow_target(camera: Point, player: Point)
    requires
        within(camera, FOLLOW_LIMIT as int),
        within(player, FOLLOW_LIMIT as int),
    ensures
        follow_target(camera, player).y == player.y + CAMERA_HEIGHT,
        horizontal_dist_sq(follow_target(camera, player), player) >= TRAIL_DISTANCE
            * TRAIL_DISTANCE,
        player.x - TRAIL_DISTANCE <= follow_target(camera, player).x <= player.x
            + TRAIL_DISTANCE,
        player.z - TRAIL_DISTANCE <= follow_target(camera, player).z <= player.z
            + TRAIL_DISTANCE,
{
    let dx = camera.x - player.x;
    let dz = camera.z - player.z;
    let n = dx * dx + dz * dz;
    assert(n >= 0) by (nonlinear_arith)
        requires
            n == dx * dx + dz * dz,
    ;
    lemma_floor_sqrt_exists(n);
    let s = root_of(n);
    if n != 0 {
        assert(s >= 1) by (nonlinear_arith)
            requires
                n < (s + 1) * (s + 1),
                n >= 1,
                s >= 0,
        ;
        lemma_offset_long_enough(dx, dz, s);
    }
}

/// `v * TRAIL_DISTANCE / s` rounded away from zero, for `|v| <= s`.
fn scale_away_exec(v: i128, s: i128) -> (r: i128)
    requires
        0 < s < 0x8000_0000_0000_0000i128,
        -s <= v <= s,
    ensures
        r == scale_away(v as int, s as int),
{
    if v >= 0 {
        proof {
            lemma_round_up(v as int, s as int);
        }
        (v * (TRAIL_DISTANCE as i128) + s - 1) / s
    } else {
        proof {
            lemma_round_up(-v as int, s as int);
        }
        -((-v * (TRAIL_DISTANCE as i128) + s - 1) / s)
    }
}

/// Where a following camera at `camera` goes when the player moves to `player`.
pub fn follow_step(camera: Point, player: Point) -> (r: Point)
    requires
        within(camera, FOLLOW_LIMIT as int),
        within(player, FOLLOW_LIMIT as int),
    ensures
        r == follow_target(camera, player),
        r.y == player.y + CAMERA_HEIGHT,
        horizontal_dist_sq(r, player) >= TRAIL_DISTANCE * TRAIL_DISTANCE,
        player.x - TRAIL_DISTANCE <= r.x <= player.x + TRAIL_DISTANCE,
        player.z - TRAIL_DISTANCE <= r.z <= player.z + TRAIL_DISTANCE,
{
    let dx: i128 = camera.x as i128 - player.x as i128;
    let dz: i128 = camera.z as i128 - player.z as i128;
    assert(0 <= dx * dx <= 0x1000_0000_0000_0000_0000_0000_0000_0000) by (nonlinear_arith)
        requires
            -0x4000_0000_0000_0000 <= dx <= 0x4000_0000_0000_0000,
    ;
    assert(0 <= dz * dz <= 0x1000_0000_0000_0000_0000_0000_0000_0000) by (nonlinear_arith)
        requires
            -0x4000_0000_0000_0000 <= dz <= 0x4000_0000_0000_0000,
    ;
    let n: u128 = (dx * dx + dz * dz) as u128;
    let s: u128 = floor_sqrt(n);
    let ghost ni: int = dx * dx + dz * dz;
    proof {
        assert(n as int == ni);
        assert(ni == (camera.x - player.x) * (camera.x - player.x) + (camera.z - player.z) * (
        camera.z - player.z));
        assert(is_floor_sqrt(s as int, ni));
        assert((s + 1) * (s + 1) == s * s + 2 * s + 1) by (nonlinear_arith);
        let k: int = 0x8000_0000_0000_0000;
        if s >= k {
            assert(s * s >= k * k) by (nonlinear_arith)
                requires
                    s >= k,
                    k > 0,
            ;
            assert(k * k == 0x4000_0000_0000_0000_0000_0000_0000_0000);
            assert(false);
        }
        lemma_floor_sqrt_unique(s as int, root_of(ni), ni);
    }
    let y = player.y + CAMERA_HEIGHT;
    if s == 0 {
        assert(ni == 0);
        Point { x: player.x, y, z: player.z + TRAIL_DISTANCE }
    } else {
        proof {
            lemma_offset_long_enough(dx as int, dz as int, s as int);
            assert(dx * dx <= s * s + 2 * s && dz * dz <= s * s + 2 * s);
            assert(-(s as int) <= dx <= s && -(s as int) <= dz <= s) by (nonlinear_arith)
                requires
                    dx * dx <= s * s + 2 * s,
                    dz * dz <= s * s + 2 * s,
                    s >= 0,
            ;
        }
        let tx = scale_away_exec(dx, s as i128);
        let tz = scale_away_exec(dz, s as i128);
        assert(ni != 0) by (nonlinear_arith)
            requires
                s * s <= ni,
                s >= 1,
        ;
        Point { x: player.x + tx as i64, y, z: player.z + tz as i64 }
    }
}

/// Lets every following camera follow each movement notification of this
/// frame, in order. With more than one notification (several player nodes)
/// the cameras end up trailing the last one; with none they stay put.
pub fn follow_all(cameras: &mut Vec<Point>, moves: &Vec<PlayerPose>)
    requires
        forall|i: int| 0 <= i < old(cameras)@.len() ==> within(#[trigger] old(cameras)@[i], FOLLOW_LIMIT as int),
        forall|k: int| 0 <= k < moves@.len() ==> within(#[trigger] moves@[k].position, PLAYER_LIMIT as int),
    ensures
        final(cameras)@.len() == old(cameras)@.len(),
        forall|i: int|
            0 <= i < old(cameras)@.len() ==> final(cameras)@[i] == follow_through(
                #[trigger] old(cameras)@[i],
                moves@,
            ),
{
    let n = cameras.len();
    let mut k: usize = 0;
    while k < moves.len()
        invariant
            n == old(cameras)@.len(),
            cameras@.len() == n,
            k <= moves@.len(),
            forall|i: int| 0 <= i < n ==> (#[trigger] cameras@[i]) == follow_through(old(cameras)@[i], moves@.take(k as int)),
            forall|i: int| 0 <= i < n ==> within(#[trigger] cameras@[i], FOLLOW_LIMIT as int),
            forall|j: int| 0 <= j < moves@.len() ==> within(#[trigger] moves@[j].position, PLAYER_LIMIT as int),
        decreases moves@.len() - k,
    {
        let player = moves[k].position;
        let mut i: usize = 0;
        while i < n
            invariant
                n == old(cameras)@.len(),
                cameras@.len() == n,
                k < moves@.len(),
                i <= n,
                player == moves@[k as int].position,
                within(player, PLAYER_LIMIT as int),
                forall|j: int| 0 <= j < i ==> (#[trigger] cameras@[j]) == follow_through(old(cameras)@[j], moves@.take(k + 1)),
                forall|j: int| i <= j < n ==> (#[trigger] cameras@[j]) == follow_through(old(cameras)@[j], moves@.take(k as int)),
                forall|j: int| 0 <= j < n ==> within(#[trigger] cameras@[j], FOLLOW_LIMIT as int),
            decreases n - i,
        {
            let next = follow_step(cameras[i], player);
            proof {
                let taken = moves@.take(k + 1);
                assert(taken.drop_last() =~= moves@.take(k as int));
                assert(taken.last() == moves@[k as int]);
            }
            cameras.set(i, next);
            i = i + 1;
        }
        k = k + 1;
    }
    assert(moves@.take(moves@.len() as int) =~= moves@);
}

/// Cameras and players within the bounds keep every camera within bounds.
proof fn lemma_follow_through_within(camera: Point, moves: Seq<PlayerPose>)
    requires
        within(camera, FOLLOW_LIMIT as int),
        forall|k: int| 0 <= k < moves.len() ==> within(#[trigger] moves[k].position, PLAYER_LIMIT as int),
    ensures
        within(follow_through(camera, moves), FOLLOW_LIMIT as int),
    decreases moves.len(),
{
    if moves.len() > 0 {
        let rest = moves.drop_last();
        assert forall|k: int| 0 <= k < rest.len() implies within(#[trigger] rest[k].position, PLAYER_LIMIT as int) by {
            assert(rest[k] == moves[k]);
        }
        lemma_follow_through_within(camera, rest);
        lemma_follow_target(follow_through(camera, rest), moves.last().position);
    }
}

/// After a frame with at least one movement notification, a following
/// camera sits exactly `CAMERA_HEIGHT` above the player of the last one.
pub proof fn lemma_camera_height_after_moves(camera: Point, moves: Seq<PlayerPose>)
    requires
        moves.len() > 0,
        within(camera, FOLLOW_LIMIT as int),
        forall|k: int| 0 <= k < moves.len() ==> within(#[trigger] moves[k].position, PLAYER_LIMIT as int),
    ensures
        follow_through(camera, moves).y == moves.last().position.y + CAMERA_HEIGHT,
{
    lemma_follow_through_within(camera, moves);
    lemma_follow_through_within(camera, moves.drop_last());
    lemma_follow_target(follow_through(camera, moves.drop_last()), moves.last().position);
}

/// After a frame with at least one movement notification, a following
/// camera is never closer than `TRAIL_DISTANCE` to the player of the last
/// one, measured in the horizontal plane.
pub proof fn lemma_trailing_distance_kept(camera: Point, moves: Seq<PlayerPose>)
    requires
        moves.len() > 0,
        within(camera, FOLLOW_LIMIT as int),
        forall|k: int| 0 <= k < moves.len() ==> within(#[trigger] moves[k].position, PLAYER_LIMIT as int),
    ensures
        horizontal_dist_sq(follow_through(camera, moves), moves.last().position)
            >= TRAIL_DISTANCE * TRAIL_DISTANCE,
{
    let rest = moves.drop_last();
    assert forall|k: int| 0 <= k < rest.len() implies within(#[trigger] rest[k].position, PLAYER_LIMIT as int) by {
        assert(rest[k] == moves[k]);
    }
    lemma_follow_through_within(camera, rest);
    lemma_follow_target(follow_through(camera, rest), moves.last().position);
}

} // verus!
