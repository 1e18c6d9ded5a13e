use vstd::prelude::*;

use crate::position::{in_i64, trunc_div, WorldPosition};

verus! {

/// How strongly a follower closes the distance to its head, per second.
pub const CATCH_UP_SPEED: i64 = 10;

/// Radius of the dead-zone: a follower closer than this to its head stays put.
pub const SLACK: i64 = 10;

/// Squared distance between two logical positions.
pub open spec fn dist_sq(a: WorldPosition, b: WorldPosition) -> int {
    let dx = b.x - a.x;
    let dy = b.y - a.y;
    dx * dx + dy * dy
}

/// The follower at `tail` is inside the dead-zone around `head`.
pub open spec fn in_dead_zone(tail: WorldPosition, head: WorldPosition) -> bool {
    dist_sq(tail, head) < SLACK * SLACK
}

/// The move along one axis for a remaining offset `d` over `dt` milliseconds.
pub open spec fn catch_up(d: int, dt: int) -> int {
    trunc_div(CATCH_UP_SPEED * d * dt, 1000)
}

/// One follow step of `tail` toward `head` stays within the range of `i64`.
pub open spec fn follow_fits(tail: WorldPosition, head: WorldPosition, dt: int) -> bool {
    in_dead_zone(tail, head) || {
        &&& in_i64(tail.x + catch_up(head.x - tail.x, dt))
        &&& in_i64(tail.y + catch_up(head.y - tail.y, dt))
    }
}

/// Where `tail` stands after one follow step toward `head` over `dt` milliseconds.
pub open spec fn followed(tail: WorldPosition, head: WorldPosition, dt: int) -> WorldPosition {
    if in_dead_zone(tail, head) {
        tail
    } else {
        WorldPosition {
            x: (tail.x + catch_up(head.x - tail.x, dt)) as i64,
            y: (tail.y + catch_up(head.y - tail.y, dt)) as i64,
        }
    }
}

/// Where `tail` stands after `n` follow steps toward a head that stays at `head`.
pub open spec fn followed_frames(tail: WorldPosition, head: WorldPosition, dt: int, n: nat) -> WorldPosition
    decreases n,
{
    if n == 0 {
        tail
    } else {
        followed(followed_frames(tail, head, dt, (n - 1) as nat), head, dt)
    }
}

proof fn lemma_catch_up_reduced(d: int, dt: int)
    ensures
        catch_up(d, dt) == trunc_div(d * dt, 100),
{
    let a = d * dt;
    assert(CATCH_UP_SPEED * d * dt == 10 * a) by (nonlinear_arith)
        requires
            a == d * dt,
    ;
    if a >= 0 {
        assert((10 * a) / 1000 == a / 100) by (nonlinear_arith)
            requires
                a >= 0,
        ;
    } else {
        assert((-(10 * a)) / 1000 == (-a) / 100) by (nonlinear_arith)
            requires
                a < 0,
        ;
    }
}

/// The dead-zone test, exact for every pair of `i64` positions.
fn dead_zone(tail: &WorldPosition, head: &WorldPosition) -> (r: bool)
    ensures
        r == in_dead_zone(*tail, *head),
{
    let dx: i128 = head.x as i128 - tail.x as i128;
    let dy: i128 = head.y as i128 - tail.y as i128;
    let slack: i128 = SLACK as i128;
    if dx >= slack || dx <= -slack || dy >= slack || dy <= -slack {
        assert(dx * dx >= 100 || dy * dy >= 100) by (nonlinear_arith)
            requires
                dx >= 10 || dx <= -10 || dy >= 10 || dy <= -10,
        ;
        assert(dx * dx >= 0 && dy * dy >= 0) by (nonlinear_arith);
        false
    } else {
        assert(0 <= dx * dx < 100 && 0 <= dy * dy < 100) by (nonlinear_arith)
            requires
                -10 < dx < 10,
                -10 < dy < 10,
        ;
        dx * dx + dy * dy < slack * slack
    }
}

/// Where `tail` lands when it takes the step toward `head`, computed exactly.
fn stepped(tail: &WorldPosition, head: &WorldPosition, dt: i64) -> (r: (i128, i128))
    ensures
        r.0 == tail.x + catch_up(head.x - tail.x, dt as int),
        r.1 == tail.y + catch_up(head.y - tail.y, dt as int),
{
    let dx: i128 = head.x as i128 - tail.x as i128;
    let dy: i128 = head.y as i128 - tail.y as i128;
    let t: i128 = dt as i128;
    proof {
        lemma_catch_up_reduced(dx as int, dt as int);
        lemma_catch_up_reduced(dy as int, dt as int);
        assert(-0x8000_0000_0000_0000_0000_0000_0000_0000 < dx * t
            < 0x8000_0000_0000_0000_0000_0000_0000_0000) by (nonlinear_arith)
            requires
                -0x1_0000_0000_0000_0000 < dx < 0x1_0000_0000_0000_0000,
                -0x8000_0000_0000_0000 <= t <= 0x8000_0000_0000_0000,
        ;
        assert(-0x8000_0000_0000_0000_0000_0000_0000_0000 < dy * t
            < 0x8000_0000_0000_0000_0000_0000_0000_0000) by (nonlinear_arith)
            requires
                -0x1_0000_0000_0000_0000 < dy < 0x1_0000_0000_0000_0000,
                -0x8000_0000_0000_0000 <= t <= 0x8000_0000_0000_0000,
        ;
    }
    (tail.x as i128 + (dx * t) / 100, tail.y as i128 + (dy * t) / 100)
}

/// Whether one follow step of `tail` toward `head` stays within the range of `i64`.
pub fn step_fits(tail: &WorldPosition, head: &WorldPosition, dt: i64) -> (r: bool)
    ensures
        r == follow_fits(*tail, *head, dt as int),
{
    if dead_zone(tail, head) {
        return true;
    }
    let (x, y) = stepped(tail, head, dt);
    i64::MIN as i128 <= x && x <= i64::MAX as i128 && i64::MIN as i128 <= y && y
        <= i64::MAX as i128
}

/// One follow step: a follower outside the dead-zone moves toward `head` by
/// `CATCH_UP_SPEED * delta * dt / 1000` on each axis (rounded toward zero), with no
/// guard against overshooting; inside the dead-zone it stays where it is.
pub fn follow(tail: &WorldPosition, head: &WorldPosition, dt: i64) -> (r: WorldPosition)
    requires
        follow_fits(*tail, *head, dt as int),
    ensures
        r == followed(*tail, *head, dt as int),
        !in_dead_zone(*tail, *head) ==> r.x == tail.x + catch_up(head.x - tail.x, dt as int),
        !in_dead_zone(*tail, *head) ==> r.y == tail.y + catch_up(head.y - tail.y, dt as int),
{
    if dead_zone(tail, head) {
        *tail
    } else {
        let (x, y) = stepped(tail, head, dt);
        WorldPosition { x: x as i64, y: y as i64 }
    }
}

/// Inside the dead-zone a follow step leaves the follower exactly where it was.
pub proof fn lemma_dead_zone_holds_still(tail: WorldPosition, head: WorldPosition, dt: int)
    requires
        dist_sq(tail, head) < SLACK * SLACK,
    ensures
        follow_fits(tail, head, dt),
        followed(tail, head, dt) == tail,
{
}

proof fn lemma_axis_closes_in(e: int, dt: int)
    requires
        0 <= dt,
        CATCH_UP_SPEED * dt < 1000,
    ensures
        e >= 0 ==> 0 <= catch_up(e, dt) <= e,
        e < 0 ==> e <= catch_up(e, dt) <= 0,
        (e - catch_up(e, dt)) * (e - catch_up(e, dt)) <= e * e,
        catch_up(e, dt) != 0 ==> (e - catch_up(e, dt)) * (e - catch_up(e, dt)) < e * e,
{
    lemma_catch_up_reduced(e, dt);
    let c = catch_up(e, dt);
    if e >= 0 {
        assert(0 <= e * dt <= 99 * e) by (nonlinear_arith)
            requires
                e >= 0,
                0 <= dt <= 99,
        ;
        assert(0 <= c <= e);
    } else {
        assert(0 <= (-e) * dt <= 99 * (-e)) by (nonlinear_arith)
            requires
                e < 0,
                0 <= dt <= 99,
        ;
        assert((-e) * dt == -(e * dt)) by (nonlinear_arith);
        let a = -(e * dt);
        assert(0 <= a / 100 <= -e) by (nonlinear_arith)
            requires
                0 <= a <= 99 * (-e),
        ;
        assert(e <= c <= 0);
    }
    assert((e - c) * (e - c) <= e * e && (c != 0 ==> (e - c) * (e - c) < e * e))
        by (nonlinear_arith)
        requires
            e >= 0 ==> 0 <= c <= e,
            e < 0 ==> e <= c <= 0,
    ;
}

/// When `CATCH_UP_SPEED * dt / 1000 < 1`, a follow step never takes the follower
/// farther from its head, and every step that moves it brings it strictly closer.
pub proof fn lemma_follow_closes_in(tail: WorldPosition, head: WorldPosition, dt: int)
    requires
        0 <= dt,
        CATCH_UP_SPEED * dt < 1000,
    ensures
        follow_fits(tail, head, dt),
        dist_sq(followed(tail, head, dt), head) <= dist_sq(tail, head),
        followed(tail, head, dt) != tail ==> dist_sq(followed(tail, head, dt), head) < dist_sq(
            tail,
            head,
        ),
{
    if !in_dead_zone(tail, head) {
        let ex = head.x - tail.x;
        let ey = head.y - tail.y;
        lemma_axis_closes_in(ex, dt);
        lemma_axis_closes_in(ey, dt);
        let n = followed(tail, head, dt);
        assert(head.x - n.x == ex - catch_up(ex, dt));
        assert(head.y - n.y == ey - catch_up(ey, dt));
    }
}

/// With the head held still and `CATCH_UP_SPEED * dt / 1000 < 1`, the distance from
/// a follower to its head never grows from one frame to any later frame.
pub proof fn lemma_follow_frames_never_recede(
    tail: WorldPosition,
    head: WorldPosition,
    dt: int,
    m: nat,
    n: nat,
)
    requires
        0 <= dt,
        CATCH_UP_SPEED * dt < 1000,
        m <= n,
    ensures
        dist_sq(followed_frames(tail, head, dt, n), head) <= dist_sq(
            followed_frames(tail, head, dt, m),
            head,
        ),
    decreases n - m,
{
    if m < n {
        lemma_follow_frames_never_recede(tail, head, dt, m, (n - 1) as nat);
        lemma_follow_closes_in(followed_frames(tail, head, dt, (n - 1) as nat), head, dt);
    }
}

proof fn lemma_axis_moves(e: int, dt: int)
    requires
        13 <= dt <= 99,
        e >= 8 || e <= -8,
    ensures
        catch_up(e, dt) != 0,
{
    lemma_catch_up_reduced(e, dt);
    if e >= 8 {
        assert(e * dt >= 104) by (nonlinear_arith)
            requires
                e >= 8,
                dt >= 13,
        ;
    } else {
        assert((-e) * dt >= 104) by (nonlinear_arith)
            requires
                e <= -8,
                dt >= 13,
        ;
        assert((-e) * dt == -(e * dt)) by (nonlinear_arith);
    }
}

/// With `13 <= dt <= 99`, a follower outside the dead-zone always moves.
proof fn lemma_outside_dead_zone_moves(tail: WorldPosition, head: WorldPosition, dt: int)
    requires
        13 <= dt <= 99,
        !in_dead_zone(tail, head),
    ensures
        followed(tail, head, dt) != tail,
{
    let ex = head.x - tail.x;
    let ey = head.y - tail.y;
    lemma_follow_closes_in(tail, head, dt);
    if -8 < ex < 8 && -8 < ey < 8 {
        assert(ex * ex + ey * ey < 100) by (nonlinear_arith)
            requires
                -8 < ex < 8,
                -8 < ey < 8,
        ;
    }
    if ex >= 8 || ex <= -8 {
        lemma_axis_moves(ex, dt);
    } else {
        lemma_axis_moves(ey, dt);
    }
}

proof fn lemma_settling_progress(tail: WorldPosition, head: WorldPosition, dt: int, n: nat)
    requires
        13 <= dt <= 99,
    ensures
        in_dead_zone(followed_frames(tail, head, dt, n), head) || dist_sq(
            followed_frames(tail, head, dt, n),
            head,
        ) <= dist_sq(tail, head) - n,
    decreases n,
{
    if n > 0 {
        let prev = followed_frames(tail, head, dt, (n - 1) as nat);
        lemma_settling_progress(tail, head, dt, (n - 1) as nat);
        if !in_dead_zone(prev, head) {
            lemma_follow_closes_in(prev, head, dt);
            lemma_outside_dead_zone_moves(prev, head, dt);
        }
    }
}

/// One link chasing a head that stays put settles inside the dead-zone when
/// `13 <= dt <= 99`: at the latest after as many frames as its starting squared
/// distance, and it stays there from then on.
pub proof fn lemma_follower_settles(tail: WorldPosition, head: WorldPosition, dt: int)
    requires
        13 <= dt <= 99,
    ensures
        in_dead_zone(followed_frames(tail, head, dt, dist_sq(tail, head) as nat), head),
        forall|k: nat|
            #![trigger followed_frames(tail, head, dt, k)]
            k >= dist_sq(tail, head) ==> followed_frames(tail, head, dt, k) == followed_frames(
                tail,
                head,
                dt,
                dist_sq(tail, head) as nat,
            ),
{
    let d = dist_sq(tail, head);
    assert(d >= 0) by (nonlinear_arith)
        requires
            d == (head.x - tail.x) * (head.x - tail.x) + (head.y - tail.y) * (head.y - tail.y),
    ;
    let n0 = d as nat;
    lemma_settling_progress(tail, head, dt, n0);
    assert(in_dead_zone(followed_frames(tail, head, dt, n0), head));
    assert forall|k: nat| #![trigger followed_frames(tail, head, dt, k)] k >= d implies followed_frames(tail, head, dt, k)
        == followed_frames(tail, head, dt, n0) by {
        lemma_settled_stays(tail, head, dt, n0, k);
    }
}

proof fn lemma_settled_stays(tail: WorldPosition, head: WorldPosition, dt: int, m: nat, k: nat)
    requires
        m <= k,
        in_dead_zone(followed_frames(tail, head, dt, m), head),
    ensures
        followed_frames(tail, head, dt, k) == followed_frames(tail, head, dt, m),
    decreases k - m,
{
    if m < k {
        lemma_settled_stays(tail, head, dt, m, (k - 1) as nat);
    }
}

} // verus!
