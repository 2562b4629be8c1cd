//! The player: it bounces between the left and the right edge of the window
//! at a constant speed, falls with growing speed, and jumps.

use vstd::prelude::*;
use crate::fixed::difference;
use crate::fixed::from_whole;
use crate::fixed::minus;
use crate::fixed::plus;
use crate::fixed::product;
use crate::fixed::sum;
use crate::fixed::times;
use crate::fixed::whole;
use crate::fixed::ONE;
use crate::input::UpdateArgs;
use crate::utils::clamp;
use crate::utils::min;
use crate::utils::radians;
use crate::utils::to_radians;
use crate::utils::Direction;

verus! {

/// The gain in falling speed per second.
pub const PLAYER_ACCELERATION: i64 = 500_000;

/// The highest falling speed.
pub const MAX_FALL_SPEED: i64 = 50 * ONE;

/// The upward speed right after a jump.
pub const JUMP_HEIGHT: i64 = 500_000;

/// The tilt in degrees per unit of vertical speed.
pub const ROTATION_OFFSET: i64 = 5 * ONE;

/// The vertical speed beyond which the tilt grows no further.
pub const TILT_LIMIT: i64 = 10 * ONE;

/// The player.
#[derive(Clone, Copy, PartialEq, Eq, Structural, Debug)]
pub struct Player {
    x: i64,
    y: i64,
    width: i64,
    height: i64,
    x_speed: i64,
    y_velocity: i64,
    direction: Direction,
    window_width: u32,
}

/// The mathematical content of a [`Player`].
pub struct PlayerView {
    pub x: int,
    pub y: int,
    pub width: int,
    pub height: int,
    /// The horizontal speed, whatever the direction.
    pub x_speed: int,
    /// The vertical velocity; it is positive while the player falls.
    pub y_velocity: int,
    pub direction: Direction,
    /// The width of the window in whole pixels.
    pub window_width: int,
}

impl View for Player {
    type V = PlayerView;

    closed spec fn view(&self) -> PlayerView {
        PlayerView {
            x: self.x as int,
            y: self.y as int,
            width: self.width as int,
            height: self.height as int,
            x_speed: self.x_speed as int,
            y_velocity: self.y_velocity as int,
            direction: self.direction,
            window_width: self.window_width as int,
        }
    }
}

impl PlayerView {
    /// The vertical velocity after a tick of `dt` seconds: it grows by the
    /// acceleration times `dt` and stops at the highest falling speed.
    pub open spec fn fall_speed(self, dt: int) -> int {
        let grown = sum(self.y_velocity, product(PLAYER_ACCELERATION as int, dt));
        if grown < MAX_FALL_SPEED {
            grown
        } else {
            MAX_FALL_SPEED as int
        }
    }

    /// The distance covered sideways in a tick of `dt` seconds.
    pub open spec fn travel(self, dt: int) -> int {
        product(self.x_speed, dt)
    }

    /// The position at which a player that moves to the left turns round.
    pub open spec fn left_turn(self) -> int {
        self.width
    }

    /// The position at which a player that moves to the right turns round.
    pub open spec fn right_turn(self) -> int {
        difference(whole(self.window_width), self.width)
    }

    /// The player after a tick of `dt` seconds.
    ///
    /// The vertical velocity is advanced first and then added to the height as
    /// it is, not scaled by `dt`. The player moves sideways in its direction
    /// and turns round where the new position lies beyond the turning point
    /// ahead.
    pub open spec fn updated(self, dt: int) -> PlayerView {
        let y_velocity = self.fall_speed(dt);
        let y = sum(self.y, y_velocity);
        match self.direction {
            Direction::Right => {
                let x = sum(self.x, self.travel(dt));
                PlayerView {
                    x,
                    y,
                    y_velocity,
                    direction: if x > self.right_turn() {
                        Direction::Left
                    } else {
                        Direction::Right
                    },
                    ..self
                }
            },
            Direction::Left => {
                let x = difference(self.x, self.travel(dt));
                PlayerView {
                    x,
                    y,
                    y_velocity,
                    direction: if x < self.left_turn() {
                        Direction::Right
                    } else {
                        Direction::Left
                    },
                    ..self
                }
            },
        }
    }

    /// The player after a jump: it rises at the jump speed, whatever its
    /// velocity was.
    pub open spec fn jumped(self) -> PlayerView {
        PlayerView { y_velocity: -JUMP_HEIGHT, ..self }
    }

    /// The player after one tick for each of the time steps, in their order.
    pub open spec fn after(self, steps: Seq<int>) -> PlayerView
        decreases steps.len(),
    {
        if steps.len() == 0 {
            self
        } else {
            self.after(steps.drop_last()).updated(steps.last())
        }
    }

    /// The tilt per unit of vertical speed, signed by the direction.
    pub open spec fn rotation_offset(self) -> int {
        if self.direction == Direction::Right {
            ROTATION_OFFSET as int
        } else {
            -ROTATION_OFFSET
        }
    }

    /// The tilt in degrees: the vertical velocity, confined to the tilt
    /// limit, times the rotation offset.
    pub open spec fn angle_degrees(self) -> int {
        let confined = if self.y_velocity < -TILT_LIMIT {
            -TILT_LIMIT
        } else if self.y_velocity > TILT_LIMIT {
            TILT_LIMIT as int
        } else {
            self.y_velocity
        };
        product(confined, self.rotation_offset())
    }

    /// The horizontal velocity, signed by the direction.
    pub open spec fn x_velocity(self) -> int {
        if self.direction == Direction::Right {
            self.x_speed
        } else {
            difference(0, self.x_speed)
        }
    }

    /// The turning point ahead has not been passed.
    pub open spec fn on_course(self) -> bool {
        match self.direction {
            Direction::Right => self.x <= self.right_turn(),
            Direction::Left => self.x >= self.left_turn(),
        }
    }

    /// The player is between the turning points, or beyond one by no more
    /// than `slack`.
    pub open spec fn within(self, slack: int) -> bool {
        self.left_turn() - slack <= self.x <= self.right_turn() + slack
    }

    /// The fields have values that a [`Player`] can hold.
    pub open spec fn representable(self) -> bool {
        &&& i64::MIN <= self.x <= i64::MAX
        &&& i64::MIN <= self.y <= i64::MAX
        &&& i64::MIN <= self.width <= i64::MAX
        &&& i64::MIN <= self.height <= i64::MAX
        &&& i64::MIN <= self.x_speed <= i64::MAX
        &&& i64::MIN <= self.y_velocity <= i64::MAX
        &&& 0 <= self.window_width <= u32::MAX
    }
}

impl Player {
    /// A player at `(x, y)` that stands still vertically and moves to the
    /// right at `x_velocity`.
    pub fn new(x: i64, y: i64, width: i64, height: i64, x_velocity: i64, window_width: u32) -> (player:
        Player)
        ensures
            player@ == (PlayerView {
                x: x as int,
                y: y as int,
                width: width as int,
                height: height as int,
                x_speed: x_velocity as int,
                y_velocity: 0,
                direction: Direction::Right,
                window_width: window_width as int,
            }),
    {
        Player {
            x,
            y,
            width,
            height,
            x_speed: x_velocity,
            y_velocity: 0,
            direction: Direction::Right,
            window_width,
        }
    }

    /// Advances the player by one tick.
    pub fn update(&mut self, args: &UpdateArgs)
        ensures
            final(self)@ == old(self)@.updated(args.dt as int),
    {
        self.y_velocity = min(
            plus(self.y_velocity, times(PLAYER_ACCELERATION, args.dt)),
            MAX_FALL_SPEED,
        );
        self.y = plus(self.y, self.y_velocity);
        match self.direction {
            Direction::Right => {
                self.x = plus(self.x, times(self.x_speed, args.dt));
                if self.x > minus(from_whole(self.window_width), self.width) {
                    self.direction = Direction::Left;
                }
            },
            Direction::Left => {
                self.x = minus(self.x, times(self.x_speed, args.dt));
                if self.x < self.width {
                    self.direction = Direction::Right;
                }
            },
        }
    }

    /// Gives the player the size of its image, once that is known.
    pub fn set_size(&mut self, width: i64, height: i64)
        ensures
            final(self)@ == (PlayerView { width: width as int, height: height as int, ..old(self)@ }),
    {
        self.width = width;
        self.height = height;
    }

    /// Makes the player rise at the jump speed.
    pub fn jump(&mut self)
        ensures
            final(self)@ == old(self)@.jumped(),
    {
        self.y_velocity = -JUMP_HEIGHT;
    }

    /// The tilt in radians.
    pub fn get_angle(&self) -> (angle: i64)
        ensures
            angle == radians(self@.angle_degrees()),
    {
        to_radians(self.get_angle_degrees())
    }

    /// The tilt in degrees.
    pub fn get_angle_degrees(&self) -> (angle: i64)
        ensures
            angle == self@.angle_degrees(),
    {
        times(clamp(self.y_velocity, -TILT_LIMIT, TILT_LIMIT), self.get_rotation_offset())
    }

    pub fn get_x(&self) -> (x: i64)
        ensures
            x == self@.x,
    {
        self.x
    }

    pub fn get_y(&self) -> (y: i64)
        ensures
            y == self@.y,
    {
        self.y
    }

    pub fn get_width(&self) -> (width: i64)
        ensures
            width == self@.width,
    {
        self.width
    }

    pub fn get_height(&self) -> (height: i64)
        ensures
            height == self@.height,
    {
        self.height
    }

    /// The tilt per unit of vertical speed, signed by the direction.
    pub fn get_rotation_offset(&self) -> (offset: i64)
        ensures
            offset == self@.rotation_offset(),
    {
        if self.direction == Direction::Right {
            ROTATION_OFFSET
        } else {
            -ROTATION_OFFSET
        }
    }

    /// The vertical velocity.
    pub fn get_y_velocity(&self) -> (velocity: i64)
        ensures
            velocity == self@.y_velocity,
    {
        self.y_velocity
    }

    /// The horizontal velocity: negative while the player moves to the left.
    pub fn get_x_velocity(&self) -> (velocity: i64)
        ensures
            velocity == self@.x_velocity(),
    {
        if self.direction == Direction::Right {
            self.x_speed
        } else {
            minus(0, self.x_speed)
        }
    }

    pub fn get_direction(&self) -> (direction: Direction)
        ensures
            direction == self@.direction,
    {
        self.direction
    }
}

/// A tick turns the player round where, and only where, its new position lies
/// beyond the turning point it was heading for. The test is made once, on the
/// position after the move.
pub proof fn lemma_turns_at_turning_points(player: PlayerView, dt: int)
    ensures
        player.updated(dt).direction != player.direction <==> match player.direction {
            Direction::Right => player.updated(dt).x > player.right_turn(),
            Direction::Left => player.updated(dt).x < player.left_turn(),
        },
        player.updated(dt).left_turn() == player.left_turn(),
        player.updated(dt).right_turn() == player.right_turn(),
{
}

/// A player on course stays on course, and a tick takes it past a turning
/// point by no more than it travels in that tick.
///
/// With `slack` at least the distance of one tick: a player that has not
/// passed the turning point ahead and is within `slack` of the stretch
/// between the turning points is so again after the tick.
pub proof fn lemma_bounce_is_bounded(player: PlayerView, dt: int, slack: int)
    requires
        player.representable(),
        player.left_turn() <= player.right_turn(),
        0 <= player.travel(dt) <= slack,
        player.on_course(),
        player.within(slack),
    ensures
        player.updated(dt).on_course(),
        player.updated(dt).within(slack),
{
}

/// The same over any number of ticks: a player that starts on course between
/// the turning points, or beyond one by no more than `slack`, is never found
/// further out than `slack`, and never beyond the turning point ahead.
pub proof fn lemma_bounce_is_bounded_for_ever(player: PlayerView, steps: Seq<int>, slack: int)
    requires
        player.representable(),
        player.left_turn() <= player.right_turn(),
        forall|i: int| 0 <= i < steps.len() ==> 0 <= #[trigger] player.travel(steps[i]) <= slack,
        player.on_course(),
        player.within(slack),
    ensures
        player.after(steps).on_course(),
        player.after(steps).within(slack),
        player.after(steps).representable(),
        player.after(steps).width == player.width,
        player.after(steps).x_speed == player.x_speed,
        player.after(steps).window_width == player.window_width,
    decreases steps.len(),
{
    if steps.len() > 0 {
        let earlier = steps.drop_last();
        assert forall|i: int| 0 <= i < earlier.len() implies 0 <= #[trigger] player.travel(
            earlier[i],
        ) <= slack by {
            assert(earlier[i] == steps[i]);
        }
        lemma_bounce_is_bounded_for_ever(player, earlier, slack);
        let before = player.after(earlier);
        assert(before.travel(steps.last()) == player.travel(steps[steps.len() - 1]));
        lemma_bounce_is_bounded(before, steps.last(), slack);
    }
}

/// No tick leaves the player falling faster than the highest falling speed,
/// and a tick that does not run backwards never slows the fall of a player
/// that kept to that speed.
pub proof fn lemma_fall_speed_is_capped(player: PlayerView, dt: int)
    ensures
        player.updated(dt).y_velocity <= MAX_FALL_SPEED,
        0 <= dt && i64::MIN <= player.y_velocity <= MAX_FALL_SPEED ==> player.y_velocity
            <= player.updated(dt).y_velocity,
{
}

/// Between jumps the vertical velocity never falls and never exceeds the
/// highest falling speed: over ticks that do not run backwards, the velocity
/// after the first `sooner` ticks is at most the velocity after all of them.
pub proof fn lemma_fall_speed_only_grows(player: PlayerView, steps: Seq<int>, sooner: int)
    requires
        i64::MIN <= player.y_velocity <= MAX_FALL_SPEED,
        forall|i: int| 0 <= i < steps.len() ==> 0 <= #[trigger] steps[i],
        0 <= sooner <= steps.len(),
    ensures
        player.after(steps.take(sooner)).y_velocity <= player.after(steps).y_velocity,
        i64::MIN <= player.after(steps).y_velocity <= MAX_FALL_SPEED,
    decreases steps.len(),
{
    if steps.len() == 0 {
        assert(steps.take(sooner) =~= steps);
    } else {
        let earlier = steps.drop_last();
        assert forall|i: int| 0 <= i < earlier.len() implies 0 <= #[trigger] earlier[i] by {
            assert(earlier[i] == steps[i]);
        }
        if sooner == steps.len() {
            assert(steps.take(sooner) =~= steps);
            lemma_fall_speed_only_grows(player, earlier, 0);
        } else {
            assert(steps.take(sooner) =~= earlier.take(sooner));
            lemma_fall_speed_only_grows(player, earlier, sooner);
        }
        assert(0 <= steps[steps.len() - 1]);
        lemma_fall_speed_is_capped(player.after(earlier), steps.last());
    }
}

} // verus!
