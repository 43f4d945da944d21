//! The player: where they stand on the screen, which way they face, which
//! frame of their walk shows, and whether the way ahead is blocked.

use vstd::prelude::*;
use crate::entities::camera::{distance, fits_i32, magnitude, Camera};
use crate::events::collision_handler::{CollisionDetector, HitBox};
use crate::events::key_handler::{Direction, Keys};
use crate::rect::ScreenRect;
use crate::tiles::tile_handler::{TileHandler, WorldMap};

verus! {

/// The frames of one walk, and which of them shows.
pub struct Animations {
    /// Keys of the frames' pictures in the renderer's store.
    frames: Vec<usize>,
    current_frame: usize,
}

/// The player.
pub struct Player {
    speed: i32,
    /// Where the player stands on the screen, and how large.
    pub rect: ScreenRect,
    direction: Direction,
    walking_up: Animations,
    walking_down: Animations,
    walking_left: Animations,
    walking_right: Animations,
    /// Set from outside when it is time for the next frame of the walk.
    pub change_sprite: bool,
    /// Whether the way ahead was blocked at the last update.
    pub on_collision: bool,
}

/// The player's picture to copy to the screen: the whole picture `image`,
/// put at `dest`.
#[derive(Clone, Copy, Debug, PartialEq, Eq, Structural)]
pub struct SpriteCall {
    /// Key of the picture in the renderer's store.
    pub image: usize,
    pub dest: ScreenRect,
}

/// The frame that follows `frame` in a walk of two frames.
pub open spec fn next_frame(frame: usize) -> usize {
    if frame == 1 {
        0
    } else {
        1
    }
}

/// The way the player faces after an update with `keys` held, having
/// faced `facing`: the way of the held key, and of several held keys the one
/// that comes last among `w`, `a`, `s`, `d`.
pub open spec fn turned(facing: Direction, keys: Keys) -> Direction {
    if keys.d {
        Direction::Right
    } else if keys.s {
        Direction::Down
    } else if keys.a {
        Direction::Left
    } else if keys.w {
        Direction::Up
    } else {
        facing
    }
}

impl Animations {
    /// Keys of the frames' pictures.
    pub closed spec fn frames(&self) -> Seq<usize> {
        self.frames@
    }

    /// Which frame shows.
    pub closed spec fn current_frame(&self) -> usize {
        self.current_frame
    }

    /// Whether the walk has its two frames and shows one of them.
    pub open spec fn is_walk(&self) -> bool {
        self.frames().len() >= 2 && self.current_frame() < 2
    }

    /// The picture that shows.
    pub open spec fn image(&self) -> usize {
        self.frames()[self.current_frame() as int]
    }

    /// A walk of the given frames, showing the first.
    pub fn create_animations(frames: Vec<usize>) -> (animations: Animations)
        ensures
            animations.frames() == frames@,
            animations.current_frame() == 0,
    {
        Animations { frames, current_frame: 0 }
    }
}

impl Player {
    /// Pixels the player moves per update.
    pub closed spec fn speed(&self) -> i32 {
        self.speed
    }

    /// The way the player faces.
    pub closed spec fn direction(&self) -> Direction {
        self.direction
    }

    /// Where the player stands on the screen, and how large: the field
    /// `rect`.
    pub closed spec fn position(&self) -> ScreenRect {
        self.rect
    }

    /// Whether it is time for the next frame of the walk: the field
    /// `change_sprite`.
    pub closed spec fn frame_due(&self) -> bool {
        self.change_sprite
    }

    /// Whether the way ahead was blocked at the last update: the field
    /// `on_collision`.
    pub closed spec fn blocked(&self) -> bool {
        self.on_collision
    }

    /// The walk in `direction`.
    pub closed spec fn walk(&self, direction: Direction) -> Animations {
        match direction {
            Direction::Up => self.walking_up,
            Direction::Down => self.walking_down,
            Direction::Left => self.walking_left,
            Direction::Right => self.walking_right,
        }
    }

    /// Whether each of the four walks has its two frames and shows one of
    /// them.
    pub open spec fn is_sound(&self) -> bool {
        &&& self.walk(Direction::Up).is_walk()
        &&& self.walk(Direction::Down).is_walk()
        &&& self.walk(Direction::Left).is_walk()
        &&& self.walk(Direction::Right).is_walk()
    }

    /// Whether this player differs from `before` in nothing but the walk.
    pub open spec fn same_but_walks(&self, before: &Player) -> bool {
        &&& self.speed() == before.speed()
        &&& self.direction() == before.direction()
        &&& self.position() == before.position()
        &&& self.frame_due() == before.frame_due()
        &&& self.blocked() == before.blocked()
    }

    /// Whether this player is `before` one frame on: the walk in the
    /// direction faced shows its other frame, no frame is due any more, and
    /// nothing else differs.
    pub open spec fn is_frame_after(&self, before: &Player) -> bool {
        let facing = before.direction();
        &&& self.speed() == before.speed()
        &&& self.direction() == facing
        &&& self.position() == before.position()
        &&& self.blocked() == before.blocked()
        &&& !self.frame_due()
        &&& self.walk(facing).frames() == before.walk(facing).frames()
        &&& self.walk(facing).current_frame() == next_frame(before.walk(facing).current_frame())
        &&& forall|other: Direction| other != facing ==> self.walk(other) == before.walk(other)
    }

    /// Left edge of the hit-box, in world pixels: as far into the world as
    /// the camera has scrolled and the player stands on the screen, and 8
    /// more.
    pub open spec fn hit_box_x(&self, camera: &Camera) -> int {
        magnitude(camera.offset_x()) + self.position().x + 8
    }

    /// Top edge of the hit-box, in world pixels: as [`Player::hit_box_x`],
    /// and 16 more.
    pub open spec fn hit_box_y(&self, camera: &Camera) -> int {
        magnitude(camera.offset_y()) + self.position().y + 16
    }

    /// Column of the cell the player stands on: one past the whole tiles
    /// that the camera's scroll and the player's place add up to.
    pub open spec fn hit_box_col(&self, camera: &Camera, tile_size: u32) -> int {
        (magnitude(camera.offset_x()) + magnitude(self.position().x)) as int / tile_size as int
            + 1
    }

    /// Row of the cell the player stands on: see [`Player::hit_box_col`].
    pub open spec fn hit_box_row(&self, camera: &Camera, tile_size: u32) -> int {
        (magnitude(camera.offset_y()) + magnitude(self.position().y)) as int / tile_size as int
            + 1
    }

    /// Whether the hit-box can be made: tiles have a side, its corner is a
    /// pair of signed 32-bit numbers and its cell a pair of unsigned ones.
    pub open spec fn hit_box_fits(&self, camera: &Camera, tile_size: u32) -> bool {
        &&& tile_size > 0
        &&& fits_i32(self.hit_box_x(camera))
        &&& fits_i32(self.hit_box_y(camera))
        &&& self.hit_box_col(camera, tile_size) <= u32::MAX
        &&& self.hit_box_row(camera, tile_size) <= u32::MAX
    }

    /// The player's hit-box under `camera`, 32 by 32 pixels.
    pub open spec fn hit_box(&self, camera: &Camera, tile_size: u32) -> HitBox {
        HitBox {
            x: self.hit_box_x(camera) as i32,
            y: self.hit_box_y(camera) as i32,
            width: 32,
            height: 32,
            tile_col: self.hit_box_col(camera, tile_size) as u32,
            tile_row: self.hit_box_row(camera, tile_size) as u32,
        }
    }

    /// Whether [`Player::update`] can be called: the hit-box can be made,
    /// and the cell ahead of it, where the map has one, holds a tile of the
    /// detector's catalog.
    pub open spec fn update_fits(
        &self,
        map: &WorldMap,
        collision_handler: &CollisionDetector,
        tile_handler: &TileHandler,
        camera: &Camera,
    ) -> bool {
        &&& self.hit_box_fits(camera, tile_handler.tile_size)
        &&& collision_handler.knows_neighbor(
            map@,
            self.hit_box(camera, tile_handler.tile_size),
            self.direction(),
        )
    }

    /// A player at `x`, `y` on the screen, as large as a tile, facing down,
    /// with two frames for the walk in each direction.
    pub fn new(
        x: i32,
        y: i32,
        speed: i32,
        tile_size: u32,
        walking_down: [usize; 2],
        walking_up: [usize; 2],
        walking_left: [usize; 2],
        walking_right: [usize; 2],
    ) -> (player: Self)
        ensures
            player.position() == ScreenRect::kept_for(
                x as int,
                y as int,
                tile_size as int,
                tile_size as int,
            ),
            player.speed() == speed,
            player.direction() == Direction::Down,
            !player.frame_due(),
            !player.blocked(),
            player.is_sound(),
            player.walk(Direction::Down).frames() == walking_down@,
            player.walk(Direction::Up).frames() == walking_up@,
            player.walk(Direction::Left).frames() == walking_left@,
            player.walk(Direction::Right).frames() == walking_right@,
            forall|direction: Direction| #[trigger] player.walk(direction).current_frame() == 0,
    {
        let down = Animations::create_animations(vec![walking_down[0], walking_down[1]]);
        let up = Animations::create_animations(vec![walking_up[0], walking_up[1]]);
        let left = Animations::create_animations(vec![walking_left[0], walking_left[1]]);
        let right = Animations::create_animations(vec![walking_right[0], walking_right[1]]);
        proof {
            assert(down.frames() =~= walking_down@);
            assert(up.frames() =~= walking_up@);
            assert(left.frames() =~= walking_left@);
            assert(right.frames() =~= walking_right@);
        }
        Self {
            rect: ScreenRect::new(x, y, tile_size, tile_size),
            speed: speed,
            direction: Direction::Down,
            walking_up: up,
            walking_down: down,
            walking_left: left,
            walking_right: right,
            change_sprite: false,
            on_collision: false,
        }
    }

    /// The way the player faces.
    pub fn facing(&self) -> (facing: Direction)
        ensures
            facing == self.direction(),
    {
        self.direction
    }

    /// Where the player stands on the screen, and how large.
    pub fn place(&self) -> (place: ScreenRect)
        ensures
            place == self.position(),
    {
        self.rect
    }

    /// Whether the way ahead was blocked at the last update.
    pub fn is_blocked(&self) -> (blocked: bool)
        ensures
            blocked == self.blocked(),
    {
        self.on_collision
    }

    /// Says whether it is time for the next frame of the walk.
    pub fn set_change_sprite(&mut self, due: bool)
        ensures
            final(self).frame_due() == due,
            final(self).speed() == old(self).speed(),
            final(self).direction() == old(self).direction(),
            final(self).position() == old(self).position(),
            final(self).blocked() == old(self).blocked(),
            forall|direction: Direction| final(self).walk(direction) == old(self).walk(direction),
    {
        self.change_sprite = due;
    }

    /// The walk in the direction the player faces, to change it.
    fn select_animation_from_direction_mut(&mut self) -> (animations: &mut Animations)
        ensures
            *animations == old(self).walk(old(self).direction()),
            final(self).walk(old(self).direction()) == *final(animations),
            final(self).same_but_walks(old(self)),
            forall|other: Direction|
                other != old(self).direction() ==> final(self).walk(other) == old(self).walk(other),
    {
        match self.direction {
            Direction::Up => &mut self.walking_up,
            Direction::Down => &mut self.walking_down,
            Direction::Left => &mut self.walking_left,
            Direction::Right => &mut self.walking_right,
        }
    }

    /// The walk in the direction the player faces.
    fn select_animation_from_direction(&self) -> (animations: &Animations)
        ensures
            *animations == self.walk(self.direction()),
    {
        match self.direction {
            Direction::Up => &self.walking_up,
            Direction::Down => &self.walking_down,
            Direction::Left => &self.walking_left,
            Direction::Right => &self.walking_right,
        }
    }

    /// Shows the other frame of the walk, if one is due.
    fn sprite_change_handler(&mut self)
        requires
            old(self).is_sound(),
        ensures
            final(self).is_sound(),
            if old(self).frame_due() {
                final(self).is_frame_after(old(self))
            } else {
                *final(self) == *old(self)
            },
    {
        if !self.change_sprite {
            return ;
        }
        let animations = self.select_animation_from_direction_mut();
        animations.current_frame = if animations.current_frame == 1 {
            0
        } else {
            1
        };
        self.change_sprite = false;
    }

    /// The hit-box under `camera`, if it can be made: see
    /// [`Player::hit_box`] and [`Player::hit_box_fits`].
    pub fn make_hit_box(&self, camera: &Camera, tile_size: u32) -> (made: Option<HitBox>)
        ensures
            match made {
                Some(hit_box) => self.hit_box_fits(camera, tile_size) && hit_box == self.hit_box(
                    camera,
                    tile_size,
                ),
                None => !self.hit_box_fits(camera, tile_size),
            },
    {
        if tile_size == 0 {
            return None;
        }
        let x = distance(camera.x()) as i64 + self.rect.x as i64 + 8;
        let y = distance(camera.y()) as i64 + self.rect.y as i64 + 16;
        let tile_x = (distance(camera.x()) as u64 + distance(self.rect.x) as u64) / (tile_size as u64)
            + 1;
        let tile_y = (distance(camera.y()) as u64 + distance(self.rect.y) as u64) / (tile_size as u64)
            + 1;
        if x < -0x8000_0000 || x > 0x7fff_ffff || y < -0x8000_0000 || y > 0x7fff_ffff || tile_x
            > 0xffff_ffff || tile_y > 0xffff_ffff {
            return None;
        }
        Some(HitBox::new(x as i32, y as i32, tile_x as u32, tile_y as u32))
    }

    /// Whether [`Player::update`] can be called: see
    /// [`Player::update_fits`].
    pub fn can_update(
        &self,
        map: &WorldMap,
        collision_handler: &CollisionDetector,
        tile_handler: &TileHandler,
        camera: &Camera,
    ) -> (fits: bool)
        ensures
            fits == self.update_fits(map, collision_handler, tile_handler, camera),
    {
        match self.make_hit_box(camera, tile_handler.tile_size) {
            None => false,
            Some(hit_box) => collision_handler.can_check(hit_box, map, &self.direction),
        }
    }

    /// Finds out whether the way ahead is blocked, then turns the player
    /// the way of the held keys.
    ///
    /// The way ahead is the one the player faced before turning. Whether it
    /// is blocked is only recorded: nothing here keeps the player from
    /// moving.
    pub fn update(
        &mut self,
        keys: &mut Keys,
        map: &WorldMap,
        collision_handler: &CollisionDetector,
        tile_handler: &TileHandler,
        camera: &Camera,
    )
        requires
            old(self).update_fits(map, collision_handler, tile_handler, camera),
        ensures
            final(self).blocked() == collision_handler.blocks(
                map@,
                old(self).hit_box(camera, tile_handler.tile_size),
                old(self).direction(),
            ),
            final(self).direction() == turned(old(self).direction(), *old(keys)),
            final(self).speed() == old(self).speed(),
            final(self).position() == old(self).position(),
            final(self).frame_due() == old(self).frame_due(),
            forall|direction: Direction| final(self).walk(direction) == old(self).walk(direction),
            *final(keys) == *old(keys),
    {
        let hit_box = self.make_hit_box(camera, tile_handler.tile_size).unwrap();
        self.on_collision = collision_handler.check(hit_box, map, &self.direction);
        if keys.w {
            self.direction = Direction::Up;
        }
        if keys.a {
            self.direction = Direction::Left;
        }
        if keys.s {
            self.direction = Direction::Down;
        }
        if keys.d {
            self.direction = Direction::Right;
        }
    }

    /// The player's picture for this frame. While a movement key is held,
    /// the walk first goes on to its other frame if one is due.
    pub fn render(&mut self, keys: &Keys) -> (call: SpriteCall)
        requires
            old(self).is_sound(),
        ensures
            final(self).is_sound(),
            if keys.any() && old(self).frame_due() {
                final(self).is_frame_after(old(self))
            } else {
                *final(self) == *old(self)
            },
            call.image == final(self).walk(final(self).direction()).image(),
            call.dest == final(self).position(),
    {
        if keys.w || keys.a || keys.d || keys.s {
            self.sprite_change_handler();
        }
        let animations = self.select_animation_from_direction();
        let image = animations.frames[animations.current_frame];
        SpriteCall { image, dest: self.rect }
    }
}

} // verus!
