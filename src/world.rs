use vstd::prelude::*;

use crate::position::{in_i64, logical_of_render, trunc_div, WorldPosition, WORLD_SCALE};
use crate::pursuit::{
    dist_sq, follow, follow_fits, followed, lemma_dead_zone_holds_still, step_fits, SLACK,
};

verus! {

/// A stable handle to an entity of a [`World`]. Slots are never reused, so a handle
/// to a removed entity stays stale for good.
#[derive(Clone, Copy, Debug, PartialEq, Eq, Structural)]
pub struct EntityId {
    pub index: usize,
}

/// How an entity's logical position is driven each frame.
#[derive(Clone, Copy, Debug, PartialEq, Eq, Structural)]
pub enum Role {
    /// Snaps to the cursor's logical position every frame, provided it is a head.
    Leader,
    /// Chases the head that the handle names.
    Follower(EntityId),
    /// Moves only when set from outside.
    Untracked,
}

/// One entity: its authoritative logical position, its role, and whether other
/// entities may chase it.
#[derive(Clone, Copy, Debug, PartialEq, Eq, Structural)]
pub struct Entity {
    pub position: WorldPosition,
    pub role: Role,
    pub is_head: bool,
}

/// The four direction keys, each held or not.
#[derive(Clone, Copy, Debug, PartialEq, Eq, Structural)]
pub struct DirectionKeys {
    pub up: bool,
    pub down: bool,
    pub left: bool,
    pub right: bool,
}

/// The entity behind `id` in the slots `s`, if it still exists.
pub open spec fn lookup(s: Seq<Option<Entity>>, id: EntityId) -> Option<Entity> {
    if id.index < s.len() {
        s[id.index as int]
    } else {
        None
    }
}

/// The position of the head behind `id`: the entity must exist and be a head.
pub open spec fn head_of(s: Seq<Option<Entity>>, id: EntityId) -> Option<WorldPosition> {
    match lookup(s, id) {
        Some(e) => if e.is_head {
            Some(e.position)
        } else {
            None
        },
        None => None,
    }
}

/// The entity that `World::spawn_tail` adds: it chases `head` and may itself be chased.
pub open spec fn tail_entity(head: EntityId, x: i64, y: i64, is_head: bool) -> Entity {
    Entity { position: WorldPosition { x, y }, role: Role::Follower(head), is_head }
}

/// A landmark that nothing moves.
pub open spec fn landmark_entity(x: int) -> Entity {
    Entity { position: WorldPosition { x: x as i64, y: 0 }, role: Role::Untracked, is_head: false }
}

/// Link `k` (from 1) of the scene's chain, chasing the slot before it.
pub open spec fn link_entity(k: int, x: int, y: int) -> Entity {
    tail_entity(EntityId { index: (3 + k) as usize }, x as i64, y as i64, k < 10)
}

/// The starting scene: four landmarks in a row, then the leader at the origin, then a
/// chain of ten links, each chasing the slot before it, the last one chased by none.
pub open spec fn scene_slots() -> Seq<Option<Entity>> {
    seq![
        Some(landmark_entity(-450)),
        Some(landmark_entity(-150)),
        Some(landmark_entity(150)),
        Some(landmark_entity(450)),
        Some(Entity { position: WorldPosition { x: 0, y: 0 }, role: Role::Leader, is_head: true }),
        Some(link_entity(1, 0, 0)),
        Some(link_entity(2, 10000, 0)),
        Some(link_entity(3, 10000, 10000)),
        Some(link_entity(4, 0, 10000)),
        Some(link_entity(5, -10000, 10000)),
        Some(link_entity(6, -10000, 0)),
        Some(link_entity(7, -10000, -10000)),
        Some(link_entity(8, 0, -10000)),
        Some(link_entity(9, 10000, -10000)),
        Some(link_entity(10, 20000, -10000)),
    ]
}

/// The slot `slot` holds a leader that is also a head: the one kind of entity that
/// the leader rule moves.
pub open spec fn is_leader(slot: Option<Entity>) -> bool {
    slot matches Some(e) && e.role == Role::Leader && e.is_head
}

/// The slot `slot` after the leader rule, with the cursor at `cursor`.
pub open spec fn led(slot: Option<Entity>, cursor: WorldPosition) -> Option<Entity> {
    match slot {
        Some(e) => match e.role {
            Role::Leader => if e.is_head {
                Some(Entity { position: cursor, ..e })
            } else {
                slot
            },
            _ => slot,
        },
        None => slot,
    }
}

/// The slot `slot` after the follow rule, its head read from the snapshot `s`.
pub open spec fn chased(s: Seq<Option<Entity>>, slot: Option<Entity>, dt: int) -> Option<Entity> {
    match slot {
        Some(e) => match e.role {
            Role::Follower(target) => match head_of(s, target) {
                Some(h) => Some(Entity { position: followed(e.position, h, dt), ..e }),
                None => slot,
            },
            _ => slot,
        },
        None => slot,
    }
}

/// The follower in `slot`, if any, can take its step toward its head in `s` within
/// the range of `i64`.
pub open spec fn slot_fits(s: Seq<Option<Entity>>, slot: Option<Entity>, dt: int) -> bool {
    match slot {
        Some(e) => match e.role {
            Role::Follower(target) => match head_of(s, target) {
                Some(h) => follow_fits(e.position, h, dt),
                None => true,
            },
            _ => true,
        },
        None => true,
    }
}

/// Every follower of the snapshot `s` can take its step within the range of `i64`.
pub open spec fn frame_fits(s: Seq<Option<Entity>>, dt: int) -> bool {
    forall|i: int| 0 <= i < s.len() ==> slot_fits(s, #[trigger] s[i], dt)
}

/// The offset of the entity in `slot` from the camera at `camera`, if it exists.
pub open spec fn camera_offset(slot: Option<Entity>, camera: WorldPosition) -> Option<WorldPosition> {
    match slot {
        Some(e) => Some(
            WorldPosition {
                x: (e.position.x - camera.x) as i64,
                y: (e.position.y - camera.y) as i64,
            },
        ),
        None => None,
    }
}

/// The entity in `slot`, if any, has an offset from `camera` within the range of `i64`.
pub open spec fn offset_fits(slot: Option<Entity>, camera: WorldPosition) -> bool {
    match slot {
        Some(e) => in_i64(e.position.x - camera.x) && in_i64(e.position.y - camera.y),
        None => true,
    }
}

/// Every entity of `s` has an offset from `camera` within the range of `i64`.
pub open spec fn offsets_fit(s: Seq<Option<Entity>>, camera: WorldPosition) -> bool {
    forall|i: int| 0 <= i < s.len() ==> offset_fits(#[trigger] s[i], camera)
}

/// A follower inside the dead-zone of its head, as the frame's snapshot `s` has it,
/// keeps its place under the follow rule, whatever `dt` is.
pub proof fn lemma_dead_zone_follower_stays(
    s: Seq<Option<Entity>>,
    e: Entity,
    target: EntityId,
    head: WorldPosition,
    dt: int,
)
    requires
        e.role == Role::Follower(target),
        head_of(s, target) == Some(head),
        dist_sq(e.position, head) < SLACK * SLACK,
    ensures
        chased(s, Some(e), dt) == Some(e),
{
    lemma_dead_zone_holds_still(e.position, head, dt);
}

/// Render sync repeated on an unchanged world gives the same offsets: any two
/// results that `World::camera_offsets` may return for one state are identical.
pub proof fn lemma_render_sync_repeatable(
    s: Seq<Option<Entity>>,
    camera: WorldPosition,
    first: Seq<Option<WorldPosition>>,
    second: Seq<Option<WorldPosition>>,
)
    requires
        first.len() == s.len(),
        second.len() == s.len(),
        forall|i: int| 0 <= i < s.len() ==> #[trigger] first[i] == camera_offset(s[i], camera),
        forall|i: int| 0 <= i < s.len() ==> #[trigger] second[i] == camera_offset(s[i], camera),
    ensures
        first == second,
{
    assert(first =~= second);
}

/// The distance the camera covers along one held key in `dt` milliseconds.
pub open spec fn camera_step(dt: int) -> int {
    trunc_div(CAMERA_SPEED * dt, 1000)
}

/// The camera's position after holding `keys` for `dt` milliseconds, as integers.
pub open spec fn camera_moved_x(camera: WorldPosition, keys: DirectionKeys, dt: int) -> int {
    camera.x + (if keys.right {
        camera_step(dt)
    } else {
        0
    }) - (if keys.left {
        camera_step(dt)
    } else {
        0
    })
}

/// See [`camera_moved_x`].
pub open spec fn camera_moved_y(camera: WorldPosition, keys: DirectionKeys, dt: int) -> int {
    camera.y + (if keys.up {
        camera_step(dt)
    } else {
        0
    }) - (if keys.down {
        camera_step(dt)
    } else {
        0
    })
}

/// A pointer at whole render units `pointer` has a logical position within the
/// range of `i64` for the camera at `camera`.
pub open spec fn pointer_fits(camera: WorldPosition, pointer: Option<(i64, i64)>) -> bool {
    match pointer {
        Some((x, y)) => {
            &&& in_i64(logical_of_render(x as int, camera.x as int, WORLD_SCALE as int))
            &&& in_i64(logical_of_render(y as int, camera.y as int, WORLD_SCALE as int))
        },
        None => true,
    }
}

/// Camera speed, in logical units per second along each held key.
pub const CAMERA_SPEED: i64 = 2000;

/// The camera's position after holding `keys` for `dt` milliseconds, exactly.
fn camera_moved(camera: WorldPosition, keys: DirectionKeys, dt: i64) -> (r: (i128, i128))
    ensures
        r.0 == camera_moved_x(camera, keys, dt as int),
        r.1 == camera_moved_y(camera, keys, dt as int),
{
    let step: i128 = (CAMERA_SPEED as i128 * dt as i128) / 1000;
    let mut x: i128 = camera.x as i128;
    let mut y: i128 = camera.y as i128;
    if keys.up {
        y = y + step;
    }
    if keys.down {
        y = y - step;
    }
    if keys.right {
        x = x + step;
    }
    if keys.left {
        x = x - step;
    }
    (x, y)
}

/// The entities, the camera's logical position and the cursor's last logical
/// position: everything one frame of the simulation reads and writes.
pub struct World {
    pub slots: Vec<Option<Entity>>,
    pub camera: WorldPosition,
    pub cursor: WorldPosition,
}

impl View for World {
    type V = Seq<Option<Entity>>;

    open spec fn view(&self) -> Seq<Option<Entity>> {
        self.slots@
    }
}

impl World {
    /// An empty world with the camera and the cursor at the logical origin.
    pub fn new() -> (r: World)
        ensures
            r@.len() == 0,
            r.camera.x == 0 && r.camera.y == 0,
            r.cursor.x == 0 && r.cursor.y == 0,
    {
        World { slots: Vec::new(), camera: WorldPosition::origin(), cursor: WorldPosition::origin() }
    }

    /// Adds an entity at logical `(x, y)` that chases `head`, and marks it as a head
    /// itself when `is_head` holds.
    pub fn spawn_tail(&mut self, head: EntityId, x: i64, y: i64, is_head: bool) -> (id: EntityId)
        ensures
            id.index == old(self)@.len(),
            final(self)@ == old(self)@.push(Some(tail_entity(head, x, y, is_head))),
            final(self).camera == old(self).camera,
            final(self).cursor == old(self).cursor,
    {
        self.spawn(Entity { position: WorldPosition::new(x, y), role: Role::Follower(head), is_head })
    }

    /// The starting scene, with the camera and the cursor at the logical origin.
    pub fn setup() -> (r: World)
        ensures
            r@ == scene_slots(),
            r.camera.x == 0 && r.camera.y == 0,
            r.cursor.x == 0 && r.cursor.y == 0,
    {
        let mut world = World::new();
        let xs: [i64; 4] = [-450, -150, 150, 450];
        let mut i: usize = 0;
        while i < 4
            invariant
                0 <= i <= 4,
                xs@ == seq![-450i64, -150i64, 150i64, 450i64],
                world@.len() == i,
                forall|j: int| 0 <= j < i ==> world@[j] == Some(landmark_entity(xs@[j] as int)),
                world.camera.x == 0 && world.camera.y == 0,
                world.cursor.x == 0 && world.cursor.y == 0,
            decreases 4 - i,
        {
            world.spawn(Entity { position: WorldPosition::new(xs[i], 0), role: Role::Untracked, is_head: false });
            i = i + 1;
        }
        let leader = world.spawn(Entity { position: WorldPosition::origin(), role: Role::Leader, is_head: true });
        let tail = world.spawn_tail(leader, 0, 0, true);
        let tail = world.spawn_tail(tail, 10000, 0, true);
        let tail = world.spawn_tail(tail, 10000, 10000, true);
        let tail = world.spawn_tail(tail, 0, 10000, true);
        let tail = world.spawn_tail(tail, -10000, 10000, true);
        let tail = world.spawn_tail(tail, -10000, 0, true);
        let tail = world.spawn_tail(tail, -10000, -10000, true);
        let tail = world.spawn_tail(tail, 0, -10000, true);
        let tail = world.spawn_tail(tail, 10000, -10000, true);
        world.spawn_tail(tail, 20000, -10000, false);
        assert(world@ =~= scene_slots());
        world
    }

    /// The number of slots, removed entities included.
    pub fn len(&self) -> (r: usize)
        ensures
            r == self@.len(),
    {
        self.slots.len()
    }

    /// Adds `entity` in a fresh slot and returns its handle.
    pub fn spawn(&mut self, entity: Entity) -> (id: EntityId)
        ensures
            id.index == old(self)@.len(),
            final(self)@ == old(self)@.push(Some(entity)),
            final(self).camera == old(self).camera,
            final(self).cursor == old(self).cursor,
    {
        let id = EntityId { index: self.slots.len() };
        self.slots.push(Some(entity));
        id
    }

    /// Removes the entity behind `id`; returns whether it existed.
    pub fn despawn(&mut self, id: EntityId) -> (r: bool)
        ensures
            r == lookup(old(self)@, id).is_some(),
            r ==> final(self)@ == old(self)@.update(id.index as int, None),
            !r ==> final(self)@ == old(self)@,
            final(self).camera == old(self).camera,
            final(self).cursor == old(self).cursor,
    {
        if id.index < self.slots.len() && self.slots[id.index].is_some() {
            self.slots.set(id.index, None);
            true
        } else {
            false
        }
    }

    /// The entity behind `id`, or `None` when the handle is stale.
    pub fn get(&self, id: EntityId) -> (r: Option<Entity>)
        ensures
            r == lookup(self@, id),
    {
        if id.index < self.slots.len() {
            self.slots[id.index]
        } else {
            None
        }
    }

    /// The position of the head behind `id`, or `None` when no head is there.
    pub fn head_position(&self, id: EntityId) -> (r: Option<WorldPosition>)
        ensures
            r == head_of(self@, id),
    {
        match self.get(id) {
            Some(e) => if e.is_head {
                Some(e.position)
            } else {
                None
            },
            None => None,
        }
    }

    /// Sets the logical position of the entity behind `id`; returns whether it exists.
    pub fn set_position(&mut self, id: EntityId, position: WorldPosition) -> (r: bool)
        ensures
            r == lookup(old(self)@, id).is_some(),
            r ==> final(self)@ == old(self)@.update(
                id.index as int,
                Some(Entity { position, ..lookup(old(self)@, id).unwrap() }),
            ),
            !r ==> final(self)@ == old(self)@,
            final(self).camera == old(self).camera,
            final(self).cursor == old(self).cursor,
    {
        match self.get(id) {
            Some(e) => {
                self.slots.set(id.index, Some(Entity { position, ..e }));
                true
            },
            None => false,
        }
    }

    /// The leader rule: every leader that is also a head snaps to the cursor's logical
    /// position; every other entity keeps its place.
    pub fn leader_tracks_cursor(&mut self)
        ensures
            final(self)@.len() == old(self)@.len(),
            forall|i: int|
                0 <= i < old(self)@.len() ==> #[trigger] final(self)@[i] == led(
                    old(self)@[i],
                    old(self).cursor,
                ),
            forall|i: int|
                0 <= i < old(self)@.len() && is_leader(#[trigger] old(self)@[i]) ==> {
                    &&& final(self)@[i].is_some()
                    &&& final(self)@[i].unwrap().position == old(self).cursor
                },
            forall|i: int|
                0 <= i < old(self)@.len() && !is_leader(#[trigger] old(self)@[i])
                    ==> final(self)@[i] == old(self)@[i],
            final(self).camera == old(self).camera,
            final(self).cursor == old(self).cursor,
    {
        let n = self.slots.len();
        let mut i: usize = 0;
        while i < n
            invariant
                n == self.slots@.len(),
                n == old(self)@.len(),
                0 <= i <= n,
                self.camera == old(self).camera,
                self.cursor == old(self).cursor,
                forall|j: int| 0 <= j < i ==> self.slots@[j] == led(old(self)@[j], self.cursor),
                forall|j: int| i <= j < n ==> self.slots@[j] == old(self)@[j],
            decreases n - i,
        {
            if let Some(e) = self.slots[i] {
                if let Role::Leader = e.role {
                    if e.is_head {
                        let cursor = self.cursor;
                        self.slots.set(i, Some(Entity { position: cursor, ..e }));
                    }
                }
            }
            i = i + 1;
        }
    }

    /// Whether every follower can take its step of `tails_follow_heads(dt)` within the
    /// range of `i64`.
    pub fn steps_fit(&self, dt: i64) -> (r: bool)
        ensures
            r == frame_fits(self@, dt as int),
    {
        let n = self.slots.len();
        let mut i: usize = 0;
        while i < n
            invariant
                n == self@.len(),
                0 <= i <= n,
                forall|j: int| 0 <= j < i ==> slot_fits(self@, #[trigger] self@[j], dt as int),
            decreases n - i,
        {
            let ok = match self.slots[i] {
                Some(e) => match e.role {
                    Role::Follower(target) => match self.head_position(target) {
                        Some(h) => step_fits(&e.position, &h, dt),
                        None => true,
                    },
                    _ => true,
                },
                None => true,
            };
            if !ok {
                assert(!slot_fits(self@, self@[i as int], dt as int));
                return false;
            }
            i = i + 1;
        }
        true
    }

    /// The follow rule: every follower whose head still exists takes one follow step
    /// toward that head's position as it stood at the start of the frame.
    pub fn tails_follow_heads(&mut self, dt: i64)
        requires
            frame_fits(old(self)@, dt as int),
        ensures
            final(self)@.len() == old(self)@.len(),
            forall|i: int|
                0 <= i < old(self)@.len() ==> #[trigger] final(self)@[i] == chased(
                    old(self)@,
                    old(self)@[i],
                    dt as int,
                ),
            final(self).camera == old(self).camera,
            final(self).cursor == old(self).cursor,
    {
        let n = self.slots.len();
        let mut next: Vec<Option<Entity>> = Vec::new();
        let mut i: usize = 0;
        while i < n
            invariant
                n == self.slots@.len(),
                self@ == old(self)@,
                self.camera == old(self).camera,
                self.cursor == old(self).cursor,
                frame_fits(self@, dt as int),
                0 <= i <= n,
                next@.len() == i,
                forall|j: int| 0 <= j < i ==> next@[j] == chased(self@, self@[j], dt as int),
            decreases n - i,
        {
            let slot = self.slots[i];
            let moved = match slot {
                Some(e) => match e.role {
                    Role::Follower(target) => match self.head_position(target) {
                        Some(h) => Some(Entity { position: follow(&e.position, &h, dt), ..e }),
                        None => slot,
                    },
                    _ => slot,
                },
                None => slot,
            };
            next.push(moved);
            i = i + 1;
        }
        self.slots = next;
    }

    /// The integer part of render sync: each entity's offset from the camera, which
    /// render space then divides by the scale.
    pub fn camera_offsets(&self) -> (r: Vec<Option<WorldPosition>>)
        requires
            offsets_fit(self@, self.camera),
        ensures
            r@.len() == self@.len(),
            forall|i: int| 0 <= i < self@.len() ==> #[trigger] r@[i] == camera_offset(self@[i], self.camera),
    {
        let n = self.slots.len();
        let mut r: Vec<Option<WorldPosition>> = Vec::new();
        let mut i: usize = 0;
        while i < n
            invariant
                n == self@.len(),
                offsets_fit(self@, self.camera),
                0 <= i <= n,
                r@.len() == i,
                forall|j: int| 0 <= j < i ==> r@[j] == camera_offset(self@[j], self.camera),
            decreases n - i,
        {
            let slot = self.slots[i];
            let offset = match slot {
                Some(e) => {
                    assert(in_i64(e.position.x - self.camera.x));
                    Some(e.position.offset_from(&self.camera))
                },
                None => None,
            };
            r.push(offset);
            i = i + 1;
        }
        r
    }
    /// Whether `updates_world_cursor(pointer)` lands the cursor within the range of `i64`.
    pub fn cursor_fits(&self, pointer: Option<(i64, i64)>) -> (r: bool)
        ensures
            r == pointer_fits(self.camera, pointer),
    {
        match pointer {
            Some((x, y)) => {
                let lx: i128 = self.camera.x as i128 + x as i128 * WORLD_SCALE as i128;
                let ly: i128 = self.camera.y as i128 + y as i128 * WORLD_SCALE as i128;
                i64::MIN as i128 <= lx && lx <= i64::MAX as i128 && i64::MIN as i128 <= ly && ly
                    <= i64::MAX as i128
            },
            None => true,
        }
    }

    /// Whether `moves_camera(keys, dt)` keeps the camera within the range of `i64`.
    pub fn camera_move_fits(&self, keys: DirectionKeys, dt: i64) -> (r: bool)
        ensures
            r == (in_i64(camera_moved_x(self.camera, keys, dt as int)) && in_i64(
                camera_moved_y(self.camera, keys, dt as int),
            )),
    {
        let (x, y) = camera_moved(self.camera, keys, dt);
        i64::MIN as i128 <= x && x <= i64::MAX as i128 && i64::MIN as i128 <= y && y
            <= i64::MAX as i128
    }

    /// Whether every entity's offset from the camera is within the range of `i64`, as
    /// `camera_offsets` requires.
    pub fn camera_offsets_fit(&self) -> (r: bool)
        ensures
            r == offsets_fit(self@, self.camera),
    {
        let n = self.slots.len();
        let mut i: usize = 0;
        while i < n
            invariant
                n == self@.len(),
                0 <= i <= n,
                forall|j: int| 0 <= j < i ==> offset_fits(#[trigger] self@[j], self.camera),
            decreases n - i,
        {
            if let Some(e) = self.slots[i] {
                let dx: i128 = e.position.x as i128 - self.camera.x as i128;
                let dy: i128 = e.position.y as i128 - self.camera.y as i128;
                if !(i64::MIN as i128 <= dx && dx <= i64::MAX as i128 && i64::MIN as i128 <= dy
                    && dy <= i64::MAX as i128) {
                    assert(!offset_fits(self@[i as int], self.camera));
                    return false;
                }
            }
            i = i + 1;
        }
        true
    }

    /// The cursor tracker: with the pointer at render-space `pointer` (rounded
    /// toward zero to whole units), the cursor becomes that point's logical
    /// position; with no pointer it keeps its last value.
    pub fn updates_world_cursor(&mut self, pointer: Option<(i64, i64)>)
        requires
            pointer_fits(old(self).camera, pointer),
        ensures
            final(self)@ == old(self)@,
            final(self).camera == old(self).camera,
            pointer.is_none() ==> final(self).cursor == old(self).cursor,
            pointer matches Some((x, y)) ==> {
                &&& final(self).cursor.x == logical_of_render(x as int, old(self).camera.x as int, WORLD_SCALE as int)
                &&& final(self).cursor.y == logical_of_render(y as int, old(self).camera.y as int, WORLD_SCALE as int)
            },
    {
        if let Some((x, y)) = pointer {
            self.cursor = WorldPosition::from_render_units(x, y, &self.camera, WORLD_SCALE);
        }
    }

    /// The camera controller: each held key moves the camera by
    /// `CAMERA_SPEED * dt / 1000` along its own direction; opposite keys cancel.
    pub fn moves_camera(&mut self, keys: DirectionKeys, dt: i64)
        requires
            in_i64(camera_moved_x(old(self).camera, keys, dt as int)),
            in_i64(camera_moved_y(old(self).camera, keys, dt as int)),
        ensures
            final(self)@ == old(self)@,
            final(self).cursor == old(self).cursor,
            final(self).camera.x == camera_moved_x(old(self).camera, keys, dt as int),
            final(self).camera.y == camera_moved_y(old(self).camera, keys, dt as int),
    {
        let (x, y) = camera_moved(self.camera, keys, dt);
        self.camera = WorldPosition { x: x as i64, y: y as i64 };
    }
}

} // verus!
