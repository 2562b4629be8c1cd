//! Beans: collectible boxes that appear ahead of the player, are eaten on
//! contact and are recycled once they have scrolled out of view.

use vstd::prelude::*;
use crate::fixed::difference;
use crate::fixed::half;
use crate::fixed::halve;
use crate::fixed::minus;
use crate::fixed::plus;
use crate::fixed::portion;
use crate::fixed::product;
use crate::fixed::share;
use crate::fixed::sum;
use crate::fixed::times;
use crate::fixed::lemma_share_within_span;
use crate::fixed::lemma_product_of_whole;
use crate::fixed::ONE;

verus! {

/// The margin kept free at the right and lower edge of the area in which
/// beans appear: the side of the cell a bean is drawn in.
pub const CELL: i64 = 20 * ONE;

/// The factor from a bean's size to the side of the box in which it is hit.
pub const REACH: i64 = 40 * ONE;

/// What became of a bean in one tick.
#[derive(Clone, Copy, PartialEq, Eq, Structural, Debug)]
pub enum BeanEvent {
    /// The bean stays where it is.
    Nothing,
    /// The player touched the bean.
    Eaten,
    /// The bean fell behind the player's window.
    OffScreen,
}

/// A bean. It never changes after it was made.
#[derive(Clone, Copy, PartialEq, Eq, Structural, Debug)]
pub struct Bean {
    x: i64,
    y: i64,
    width: i64,
    height: i64,
}

/// The mathematical content of a [`Bean`].
pub struct BeanView {
    pub x: int,
    pub y: int,
    pub width: int,
    pub height: int,
}

impl View for Bean {
    type V = BeanView;

    closed spec fn view(&self) -> BeanView {
        BeanView {
            x: self.x as int,
            y: self.y as int,
            width: self.width as int,
            height: self.height as int,
        }
    }
}

impl BeanView {
    /// The bean lies more than half a window above the player.
    pub open spec fn behind(self, player_y: int, window_height: int) -> bool {
        self.y < difference(player_y, half(window_height))
    }

    /// The player's position, taken half a window below the player's
    /// coordinate, lies in the bean's hit box.
    pub open spec fn touched(self, player_x: int, player_y: int, window_height: int) -> bool {
        let across = difference(self.x, player_x);
        let down = difference(difference(self.y, player_y), half(window_height));
        &&& 0 <= across <= product(self.width, REACH as int)
        &&& 0 <= down <= product(self.height, REACH as int)
    }

    /// What becomes of the bean in a tick in which the player is at the given
    /// position. Falling behind is tested first.
    pub open spec fn event(self, player_x: int, player_y: int, window_height: int) -> BeanEvent {
        if self.behind(player_y, window_height) {
            BeanEvent::OffScreen
        } else if self.touched(player_x, player_y, window_height) {
            BeanEvent::Eaten
        } else {
            BeanEvent::Nothing
        }
    }

    /// The bean of unit size that two random draws place in a viewport of the
    /// given size below the height `player_y`.
    pub open spec fn spawned(
        width: int,
        height: int,
        player_y: int,
        draw_x: int,
        draw_y: int,
    ) -> BeanView {
        BeanView {
            x: share(draw_x, difference(width, CELL as int)),
            y: sum(player_y, share(draw_y, difference(height, CELL as int))),
            width: ONE as int,
            height: ONE as int,
        }
    }

    /// Some pair of random draws places this bean.
    pub open spec fn is_spawn(self, width: int, height: int, player_y: int) -> bool {
        exists|draw_x: u64, draw_y: u64|
            self == #[trigger] Self::spawned(
                width,
                height,
                player_y,
                draw_x as int,
                draw_y as int,
            )
    }
}

/// Draws 64 bits from the thread-local generator of the `rand` crate, by
/// `rand::random::<u64>()`. Every value may come back, and two calls may
/// differ, so nothing is claimed of the result. The generator stops the
/// program if the operating system gives it no seed.
#[verifier::external_body]
fn random_bits() -> u64 {
    rand::random::<u64>()
}

impl Bean {
    /// A bean at `(x, y)` of the given size.
    pub fn new(x: i64, y: i64, width: i64, height: i64) -> (bean: Bean)
        ensures
            bean@ == (BeanView { x: x as int, y: y as int, width: width as int, height: height as int }),
    {
        Bean { x, y, width, height }
    }

    /// The bean that the draws `draw_x` and `draw_y` place: see
    /// [`BeanView::spawned`].
    pub fn from_draws(width: i64, height: i64, player_y: i64, draw_x: u64, draw_y: u64) -> (bean:
        Bean)
        ensures
            bean@ == BeanView::spawned(
                width as int,
                height as int,
                player_y as int,
                draw_x as int,
                draw_y as int,
            ),
    {
        let x = portion(draw_x, minus(width, CELL));
        let y = plus(player_y, portion(draw_y, minus(height, CELL)));
        Bean::new(x, y, ONE, ONE)
    }

    /// A bean of unit size at a random place: `x` is drawn from
    /// `[0, width - 20)` and `y` from `[player_y, player_y + height - 20)`.
    pub fn random(width: i64, height: i64, player_y: i64) -> (bean: Bean)
        ensures
            bean@.is_spawn(width as int, height as int, player_y as int),
            bean@.width == ONE && bean@.height == ONE,
            width > CELL ==> 0 <= bean@.x < width - CELL,
            height >= CELL ==> player_y <= bean@.y,
    {
        let draw_x = random_bits();
        let draw_y = random_bits();
        proof {
            lemma_spawn_area(
                width as int,
                height as int,
                player_y as int,
                draw_x as int,
                draw_y as int,
            );
        }
        Bean::from_draws(width, height, player_y, draw_x, draw_y)
    }

    /// What becomes of the bean in a tick in which the player is at
    /// `(player_x, player_y)`. The bean itself stays as it is.
    pub fn update(&self, player_x: i64, player_y: i64, window_height: i64) -> (event: BeanEvent)
        ensures
            event == self@.event(player_x as int, player_y as int, window_height as int),
    {
        let middle = halve(window_height);
        let across = minus(self.x, player_x);
        let down = minus(minus(self.y, player_y), middle);
        if self.y < minus(player_y, middle) {
            BeanEvent::OffScreen
        } else if across >= 0 && across <= times(self.width, REACH) && down >= 0 && down <= times(
            self.height,
            REACH,
        ) {
            BeanEvent::Eaten
        } else {
            BeanEvent::Nothing
        }
    }

    pub fn get_x(&self) -> (x: i64)
        ensures
            x == self@.x,
    {
        self.x
    }

    pub fn get_y(&self) -> (y: i64)
        ensures
            y == self@.y,
    {
        self.y
    }

    pub fn get_width(&self) -> (width: i64)
        ensures
            width == self@.width,
    {
        self.width
    }

    pub fn get_height(&self) -> (height: i64)
        ensures
            height == self@.height,
    {
        self.height
    }
}

/// Where beans appear: in a viewport wider than a cell, to the right of the
/// left edge and a cell short of the right edge; in a viewport at least a
/// cell high, never above `player_y`.
pub proof fn lemma_spawn_area(width: int, height: int, player_y: int, draw_x: int, draw_y: int)
    requires
        i64::MIN <= width <= i64::MAX,
        i64::MIN <= height <= i64::MAX,
        i64::MIN <= player_y <= i64::MAX,
        0 <= draw_x <= u64::MAX,
        0 <= draw_y <= u64::MAX,
    ensures
        width > CELL ==> 0 <= BeanView::spawned(width, height, player_y, draw_x, draw_y).x < width
            - CELL,
        height >= CELL ==> player_y <= BeanView::spawned(width, height, player_y, draw_x, draw_y).y,
{
    lemma_share_within_span(draw_x, difference(width, CELL as int));
    lemma_share_within_span(draw_y, difference(height, CELL as int));
}

/// A bean with a hit box, which sits right at the spot that is tested for
/// contact, half a window below the player's coordinate, is eaten.
pub proof fn lemma_bean_at_player_is_eaten(
    bean: BeanView,
    player_x: int,
    player_y: int,
    window_height: int,
)
    requires
        0 <= window_height <= i64::MAX,
        i64::MIN <= player_x <= i64::MAX,
        i64::MIN <= player_y <= i64::MAX,
        0 <= bean.width,
        0 <= bean.height,
        bean.x == player_x,
        bean.y == player_y + half(window_height),
        bean.y <= i64::MAX,
    ensures
        bean.event(player_x, player_y, window_height) == BeanEvent::Eaten,
{
    lemma_product_of_whole(bean.width, 40);
    lemma_product_of_whole(bean.height, 40);
}

/// A bean that lies one unit further up than half a window above the player
/// has fallen off the screen, wherever it is sideways.
pub proof fn lemma_bean_above_window_is_off_screen(
    bean: BeanView,
    player_x: int,
    player_y: int,
    window_height: int,
)
    requires
        0 <= window_height <= i64::MAX,
        i64::MIN <= player_y <= i64::MAX,
        bean.y == player_y - half(window_height) - ONE,
        i64::MIN <= bean.y,
    ensures
        bean.event(player_x, player_y, window_height) == BeanEvent::OffScreen,
{
}

/// A bean in view that lies one unit further to the right than its hit box
/// reaches is left alone.
pub proof fn lemma_bean_beyond_reach_is_left(
    bean: BeanView,
    player_x: int,
    player_y: int,
    window_height: int,
)
    requires
        0 <= window_height <= i64::MAX,
        i64::MIN <= player_x <= i64::MAX,
        i64::MIN <= player_y <= i64::MAX,
        bean.x == player_x + product(bean.width, REACH as int) + ONE,
        bean.x <= i64::MAX,
        product(bean.width, REACH as int) + ONE <= i64::MAX,
        bean.y == player_y + half(window_height),
        bean.y <= i64::MAX,
    ensures
        bean.event(player_x, player_y, window_height) == BeanEvent::Nothing,
{
}

} // verus!
