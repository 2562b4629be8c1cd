//! The simulation: one player and the beans around it, advanced tick by tick.

use vstd::prelude::*;
use crate::beans::Bean;
use crate::beans::BeanEvent;
use crate::beans::BeanView;
use crate::fixed::difference;
use crate::fixed::from_whole;
use crate::fixed::half;
use crate::fixed::halve;
use crate::fixed::minus;
use crate::fixed::whole;
use crate::fixed::ONE;
use crate::input::Button;
use crate::input::ButtonArgs;
use crate::input::Key;
use crate::input::MouseButton;
use crate::input::UpdateArgs;
use crate::player::Player;
use crate::player::PlayerView;

verus! {

/// The width and the height of the window in pixels.
pub const WINDOW_SIZE: [u32; 2] = [640, 480];

/// The horizontal speed of the player in pixels per second.
pub const PLAYER_X_VELOCITY: i64 = 170 * ONE;

/// The number of beans that a new simulation keeps around the player.
pub const BEAN_COUNT: usize = 5;

/// What the host asks of the simulation's surroundings. The simulation carries
/// the settings for those who draw and log; they change none of its steps.
#[derive(Clone, Copy, PartialEq, Eq, Structural, Debug)]
pub struct Config {
    pub enable_debug_logging: bool,
    pub show_hitboxes: bool,
}

/// The simulation.
pub struct App {
    player: Player,
    paused: bool,
    beans: Vec<Bean>,
    bean_count: usize,
    config: Config,
}

/// The mathematical content of an [`App`].
pub struct AppView {
    pub player: PlayerView,
    pub paused: bool,
    /// The beans, those that came first in front.
    pub beans: Seq<BeanView>,
    /// The number of beans that each tick tops the beans up to.
    pub bean_count: nat,
    pub config: Config,
}

/// The width of the window in fixed point.
pub open spec fn window_width() -> int {
    whole(WINDOW_SIZE[0] as int)
}

/// The height of the window in fixed point.
pub open spec fn window_height() -> int {
    whole(WINDOW_SIZE[1] as int)
}

/// The contents of a sequence of beans.
pub open spec fn views(beans: Seq<Bean>) -> Seq<BeanView> {
    beans.map_values(|bean: Bean| bean@)
}

/// The event that a tick with the player at `player` brings to a bean.
pub open spec fn meets_event(player: PlayerView) -> spec_fn(BeanView) -> BeanEvent {
    |bean: BeanView| bean.event(player.x, player.y, window_height())
}

/// The beans to which a tick with the player at `player` brings `event`.
pub open spec fn meets(player: PlayerView, event: BeanEvent) -> spec_fn(BeanView) -> bool {
    |bean: BeanView| bean.event(player.x, player.y, window_height()) == event
}

/// The beans among `beans` that stay where they are, in their order.
pub open spec fn staying(beans: Seq<BeanView>, player: PlayerView) -> Seq<BeanView> {
    beans.filter(meets(player, BeanEvent::Nothing))
}

/// The number of beans among `beans` to which the tick brings `event`.
pub open spec fn tally(beans: Seq<BeanView>, player: PlayerView, event: BeanEvent) -> nat {
    beans.filter(meets(player, event)).len()
}

/// Every bean of `beans` may have been placed by random draws in the window
/// below `reference_y`.
pub open spec fn all_spawned(beans: Seq<BeanView>, reference_y: int) -> bool {
    forall|i: int|
        0 <= i < beans.len() ==> (#[trigger] beans[i]).is_spawn(
            window_width(),
            window_height(),
            reference_y,
        )
}

impl AppView {
    /// The number of beans that are missing.
    pub open spec fn missing(self) -> nat {
        if self.beans.len() < self.bean_count {
            (self.bean_count - self.beans.len()) as nat
        } else {
            0
        }
    }

    /// The height below which a bean appears that takes the place of one that
    /// fell off the screen: half a window above the player.
    pub open spec fn recycling_height(player: PlayerView) -> int {
        difference(player.y, half(window_height()))
    }

    /// A tick of `dt` seconds on a running simulation may bring in the beans
    /// `fresh` to top up the beans and the beans `spare` in place of those
    /// that fell off the screen.
    pub open spec fn admits(self, dt: int, fresh: Seq<BeanView>, spare: Seq<BeanView>) -> bool {
        let player = self.player.updated(dt);
        &&& fresh.len() == self.missing()
        &&& all_spawned(fresh, player.y)
        &&& spare.len() == tally(self.beans + fresh, player, BeanEvent::OffScreen)
        &&& all_spawned(spare, Self::recycling_height(player))
    }

    /// The running simulation after a tick of `dt` seconds that brought in
    /// the beans `fresh` and `spare`.
    ///
    /// The player moves first. The beans are topped up with `fresh`. Every
    /// bean is then judged against the player's new position. Those that were
    /// eaten or fell off the screen go, the others stay in their order, and
    /// `spare` comes behind them.
    pub open spec fn ticked(self, dt: int, fresh: Seq<BeanView>, spare: Seq<BeanView>) -> AppView {
        let player = self.player.updated(dt);
        AppView { player, beans: staying(self.beans + fresh, player) + spare, ..self }
    }

    /// `after` may come out of a tick of `dt` seconds on this simulation.
    pub open spec fn tick(self, dt: int, after: AppView) -> bool {
        if self.paused {
            after == self
        } else {
            exists|fresh: Seq<BeanView>, spare: Seq<BeanView>|
                self.admits(dt, fresh, spare) && after == #[trigger] self.ticked(dt, fresh, spare)
        }
    }

    /// `after` may come out of one tick for each of the time steps, in their
    /// order.
    pub open spec fn ticks(self, steps: Seq<int>, after: AppView) -> bool
        decreases steps.len(),
    {
        if steps.len() == 0 {
            after == self
        } else {
            exists|between: AppView|
                self.ticks(steps.drop_last(), between) && #[trigger] between.tick(
                    steps.last(),
                    after,
                )
        }
    }

    /// The simulation after the player jumped.
    pub open spec fn jumped(self) -> AppView {
        AppView { player: self.player.jumped(), ..self }
    }

    /// The simulation after the pause was switched.
    pub open spec fn toggled(self) -> AppView {
        AppView { paused: !self.paused, ..self }
    }

    /// The simulation after `button` was pressed: the space bar, the up arrow
    /// and the left mouse button make the player jump, the key P switches the
    /// pause, and no other button does anything.
    pub open spec fn pressed(self, button: Button) -> AppView {
        match button {
            Button::Keyboard(Key::Space) => self.jumped(),
            Button::Keyboard(Key::Up) => self.jumped(),
            Button::Keyboard(Key::P) => self.toggled(),
            Button::Mouse(MouseButton::Left) => self.jumped(),
            _ => self,
        }
    }
}

impl View for App {
    type V = AppView;

    closed spec fn view(&self) -> AppView {
        AppView {
            player: self.player@,
            paused: self.paused,
            beans: views(self.beans@),
            bean_count: self.bean_count as nat,
            config: self.config,
        }
    }
}

/// Puts `count` beans at random places below `reference_y` behind `beans`.
fn spawn(beans: &mut Vec<Bean>, count: usize, reference_y: i64) -> (made: Ghost<Seq<BeanView>>)
    ensures
        views(final(beans)@) == views(old(beans)@) + made@,
        made@.len() == count,
        all_spawned(made@, reference_y as int),
{
    let ghost mut made: Seq<BeanView> = Seq::empty();
    let mut done: usize = 0;
    assert(views(beans@) =~= views(old(beans)@) + made);
    while done < count
        invariant
            done <= count,
            made.len() == done,
            views(beans@) == views(old(beans)@) + made,
            all_spawned(made, reference_y as int),
        decreases count - done,
    {
        let bean = Bean::random(from_whole(WINDOW_SIZE[0]), from_whole(WINDOW_SIZE[1]), reference_y);
        let ghost before = beans@;
        beans.push(bean);
        proof {
            assert(views(before.push(bean)) =~= views(before).push(bean@));
            assert(views(beans@) =~= views(old(beans)@) + made.push(bean@));
            made = made.push(bean@);
        }
        done += 1;
    }
    Ghost(made)
}

/// Drops the beans to which a tick brought another event than `Nothing`, and
/// counts those that fell off the screen.
fn sweep(beans: &Vec<Bean>, events: &Vec<BeanEvent>, Ghost(player): Ghost<PlayerView>) -> (result: (
    Vec<Bean>,
    usize,
))
    requires
        events@.len() == beans@.len(),
        forall|i: int|
            0 <= i < beans@.len() ==> events@[i] == (#[trigger] beans@[i])@.event(
                player.x,
                player.y,
                window_height(),
            ),
    ensures
        views(result.0@) == staying(views(beans@), player),
        result.1 == tally(views(beans@), player, BeanEvent::OffScreen),
{
    let mut kept: Vec<Bean> = Vec::new();
    let mut lost: usize = 0;
    let mut index: usize = 0;
    proof {
        reveal(Seq::filter);
        assert(views(beans@.take(0)) =~= Seq::<BeanView>::empty());
        assert(views(kept@) =~= Seq::<BeanView>::empty());
    }
    while index < beans.len()
        invariant
            index <= beans@.len(),
            events@.len() == beans@.len(),
            forall|i: int|
                0 <= i < beans@.len() ==> events@[i] == (#[trigger] beans@[i])@.event(
                    player.x,
                    player.y,
                    window_height(),
                ),
            views(kept@) == staying(views(beans@.take(index as int)), player),
            lost == tally(views(beans@.take(index as int)), player, BeanEvent::OffScreen),
            lost <= index,
        decreases beans@.len() - index,
    {
        let bean = beans[index];
        let event = events[index];
        let ghost seen = views(beans@.take(index as int));
        let ghost kept_before = kept@;
        proof {
            reveal(Seq::filter);
            let longer = views(beans@.take(index as int + 1));
            assert(longer.drop_last() =~= seen);
            assert(longer.last() == bean@);
        }
        if event == BeanEvent::Nothing {
            kept.push(bean);
            proof {
                assert(views(kept_before.push(bean)) =~= views(kept_before).push(bean@));
            }
        } else if event == BeanEvent::OffScreen {
            lost += 1;
        }
        index += 1;
    }
    proof {
        assert(beans@.take(index as int) =~= beans@);
    }
    (kept, lost)
}

impl App {
    /// A simulation with the player at the upper left and no beans yet. The
    /// player has no size until `on_init` gives it one.
    pub fn new(config: Config) -> (app: App)
        ensures
            app@ == (AppView {
                player: PlayerView {
                    x: 0,
                    y: 0,
                    width: 0,
                    height: 0,
                    x_speed: PLAYER_X_VELOCITY as int,
                    y_velocity: 0,
                    direction: crate::utils::Direction::Right,
                    window_width: WINDOW_SIZE[0] as int,
                },
                paused: false,
                beans: Seq::empty(),
                bean_count: BEAN_COUNT as nat,
                config,
            }),
    {
        let app = App {
            player: Player::new(0, 0, 0, 0, PLAYER_X_VELOCITY, WINDOW_SIZE[0]),
            paused: false,
            beans: Vec::new(),
            bean_count: BEAN_COUNT,
            config,
        };
        assert(app@.beans =~= Seq::empty());
        app
    }

    /// A simulation in a given state.
    pub fn from_parts(
        player: Player,
        beans: Vec<Bean>,
        bean_count: usize,
        paused: bool,
        config: Config,
    ) -> (app: App)
        ensures
            app@ == (AppView {
                player: player@,
                paused,
                beans: views(beans@),
                bean_count: bean_count as nat,
                config,
            }),
    {
        App { player, paused, beans, bean_count, config }
    }

    /// Gives the player the size of its image, in whole pixels.
    pub fn on_init(&mut self, player_width: u32, player_height: u32)
        ensures
            final(self)@ == (AppView {
                player: PlayerView {
                    width: whole(player_width as int),
                    height: whole(player_height as int),
                    ..old(self)@.player
                },
                ..old(self)@
            }),
    {
        self.player.set_size(from_whole(player_width), from_whole(player_height));
    }

    /// What this tick would bring to each bean, in the order of the beans.
    pub fn evaluate(&self) -> (events: Vec<BeanEvent>)
        ensures
            events@ == self@.beans.map_values(meets_event(self@.player)),
    {
        let player_x = self.player.get_x();
        let player_y = self.player.get_y();
        let height = from_whole(WINDOW_SIZE[1]);
        let mut events: Vec<BeanEvent> = Vec::with_capacity(self.beans.len());
        let mut index: usize = 0;
        while index < self.beans.len()
            invariant
                index <= self.beans@.len(),
                events@.len() == index,
                player_x == self.player@.x,
                player_y == self.player@.y,
                height == window_height(),
                forall|i: int|
                    0 <= i < index ==> events@[i] == (#[trigger] self.beans@[i])@.event(
                        player_x as int,
                        player_y as int,
                        height as int,
                    ),
            decreases self.beans@.len() - index,
        {
            let event = self.beans[index].update(player_x, player_y, height);
            events.push(event);
            index += 1;
        }
        assert(events@ =~= self@.beans.map_values(meets_event(self@.player)));
        events
    }

    /// Advances the simulation by one tick of `dt` seconds. A paused
    /// simulation stays as it is.
    pub fn on_tick(&mut self, dt: i64)
        ensures
            old(self)@.tick(dt as int, final(self)@),
    {
        if self.paused {
            return ;
        }
        let args = UpdateArgs { dt };
        self.player.update(&args);
        let count = if self.beans.len() < self.bean_count {
            self.bean_count - self.beans.len()
        } else {
            0
        };
        let fresh = spawn(&mut self.beans, count, self.player.get_y());
        let events = self.evaluate();
        let (mut kept, lost) = sweep(&self.beans, &events, Ghost(self.player@));
        let reference_y = minus(self.player.get_y(), halve(from_whole(WINDOW_SIZE[1])));
        let spare = spawn(&mut kept, lost, reference_y);
        self.beans = kept;
        proof {
            assert(old(self)@.admits(dt as int, fresh@, spare@));
            assert(self@.beans =~= old(self)@.ticked(dt as int, fresh@, spare@).beans);
            assert(self@ == old(self)@.ticked(dt as int, fresh@, spare@));
        }
    }

    /// Advances the simulation by one tick.
    pub fn on_update(&mut self, args: &UpdateArgs)
        ensures
            old(self)@.tick(args.dt as int, final(self)@),
    {
        self.on_tick(args.dt);
    }

    /// Makes the player jump, paused or not.
    pub fn on_jump(&mut self)
        ensures
            final(self)@ == old(self)@.jumped(),
    {
        self.player.jump();
    }

    /// Pauses a running simulation and resumes a paused one.
    pub fn on_toggle_pause(&mut self)
        ensures
            final(self)@ == old(self)@.toggled(),
    {
        self.paused = !self.paused;
    }

    /// Reacts to a button that was pressed.
    pub fn on_press(&mut self, args: ButtonArgs)
        ensures
            final(self)@ == old(self)@.pressed(args.button),
    {
        match args.button {
            Button::Keyboard(key) => {
                match key {
                    Key::Space => {
                        self.on_jump();
                    },
                    Key::Up => {
                        self.on_jump();
                    },
                    Key::P => {
                        self.on_toggle_pause();
                    },
                    _ => {},
                }
            },
            Button::Mouse(button) => {
                match button {
                    MouseButton::Left => {
                        self.on_jump();
                    },
                    _ => {},
                }
            },
            _ => {},
        }
    }

    /// Reacts to a button that was released: nothing happens.
    pub fn on_release(&mut self, args: ButtonArgs)
        ensures
            final(self)@ == old(self)@,
    {
    }

    /// The player.
    pub fn player(&self) -> (player: &Player)
        ensures
            player@ == self@.player,
    {
        &self.player
    }

    /// The beans, those that came first in front.
    pub fn beans(&self) -> (beans: &Vec<Bean>)
        ensures
            views(beans@) == self@.beans,
    {
        &self.beans
    }

    /// Where the beans are, those that came first in front.
    pub fn bean_positions(&self) -> (positions: Vec<(i64, i64)>)
        ensures
            positions@.len() == self@.beans.len(),
            forall|i: int|
                0 <= i < positions@.len() ==> (#[trigger] positions@[i]).0 == self@.beans[i].x
                    && positions@[i].1 == self@.beans[i].y,
    {
        let mut positions: Vec<(i64, i64)> = Vec::with_capacity(self.beans.len());
        let mut index: usize = 0;
        while index < self.beans.len()
            invariant
                index <= self.beans@.len(),
                positions@.len() == index,
                forall|i: int|
                    0 <= i < index ==> (#[trigger] positions@[i]).0 == self.beans@[i]@.x
                        && positions@[i].1 == self.beans@[i]@.y,
            decreases self.beans@.len() - index,
        {
            positions.push((self.beans[index].get_x(), self.beans[index].get_y()));
            index += 1;
        }
        positions
    }

    /// Whether the simulation is paused.
    pub fn is_paused(&self) -> (paused: bool)
        ensures
            paused == self@.paused,
    {
        self.paused
    }

    /// The number of beans that each tick tops the beans up to.
    pub fn bean_count(&self) -> (count: usize)
        ensures
            count == self@.bean_count,
    {
        self.bean_count
    }

    /// The settings that the simulation was made with.
    pub fn config(&self) -> (config: Config)
        ensures
            config == self@.config,
    {
        self.config
    }
}

/// Every bean either stays, is eaten or falls off the screen.
pub proof fn lemma_every_bean_is_judged(beans: Seq<BeanView>, player: PlayerView)
    ensures
        staying(beans, player).len() + tally(beans, player, BeanEvent::Eaten) + tally(
            beans,
            player,
            BeanEvent::OffScreen,
        ) == beans.len(),
    decreases beans.len(),
{
    reveal(Seq::filter);
    if beans.len() > 0 {
        lemma_every_bean_is_judged(beans.drop_last(), player);
    }
}

/// The beans that stay are the beans that the tick leaves alone, no more and
/// no fewer, and they stay in their order: a bean stays where the beans in
/// front of it and those behind it are judged for themselves.
pub proof fn lemma_unchanged_beans_stay(
    front: Seq<BeanView>,
    bean: BeanView,
    back: Seq<BeanView>,
    player: PlayerView,
)
    ensures
        staying(front + seq![bean] + back, player) == staying(front, player) + (if bean.event(
            player.x,
            player.y,
            window_height(),
        ) == BeanEvent::Nothing {
            seq![bean]
        } else {
            Seq::empty()
        }) + staying(back, player),
{
    let stays = meets(player, BeanEvent::Nothing);
    Seq::filter_distributes_over_add(front + seq![bean], back, stays);
    Seq::filter_distributes_over_add(front, seq![bean], stays);
    assert(seq![bean].filter(stays) =~= if stays(bean) {
        seq![bean]
    } else {
        Seq::empty()
    }) by {
        reveal_with_fuel(Seq::filter, 2);
        assert(seq![bean].drop_last() =~= Seq::<BeanView>::empty());
    }
}

/// Two beans that are eaten in one tick both go, though one stands right
/// behind the other, and the beans around them are judged as if the two had
/// never been there.
pub proof fn lemma_eaten_neighbours_both_go(
    front: Seq<BeanView>,
    first: BeanView,
    second: BeanView,
    back: Seq<BeanView>,
    player: PlayerView,
)
    requires
        first.event(player.x, player.y, window_height()) == BeanEvent::Eaten,
        second.event(player.x, player.y, window_height()) == BeanEvent::Eaten,
    ensures
        staying(front + seq![first, second] + back, player) == staying(front, player) + staying(
            back,
            player,
        ),
{
    lemma_unchanged_beans_stay(front, first, seq![second] + back, player);
    lemma_unchanged_beans_stay(Seq::empty(), second, back, player);
    assert(front + seq![first] + (seq![second] + back) =~= front + seq![first, second] + back);
    assert(Seq::<BeanView>::empty() + seq![second] + back =~= seq![second] + back);
    assert(staying(Seq::<BeanView>::empty(), player) =~= Seq::<BeanView>::empty()) by {
        reveal(Seq::filter);
    }
    assert(staying(front, player) + Seq::<BeanView>::empty() + (Seq::<BeanView>::empty()
        + Seq::<BeanView>::empty() + staying(back, player)) =~= staying(front, player) + staying(
        back,
        player,
    ));
}

/// After a tick there are as many beans as the greater of the number before
/// and the number to keep, less those that were eaten in the tick. Each bean
/// that fell off the screen was replaced, and no eaten bean was.
pub proof fn lemma_population_after_tick(
    app: AppView,
    dt: int,
    fresh: Seq<BeanView>,
    spare: Seq<BeanView>,
)
    requires
        app.admits(dt, fresh, spare),
    ensures
        app.ticked(dt, fresh, spare).beans.len() + tally(
            app.beans + fresh,
            app.player.updated(dt),
            BeanEvent::Eaten,
        ) == (if app.beans.len() < app.bean_count {
            app.bean_count
        } else {
            app.beans.len()
        }),
{
    lemma_every_bean_is_judged(app.beans + fresh, app.player.updated(dt));
}

/// No tick leaves more beans than the greater of the number before it and the
/// number to keep.
pub proof fn lemma_population_is_bounded(app: AppView, dt: int, after: AppView)
    requires
        app.tick(dt, after),
    ensures
        after.beans.len() <= app.beans.len() || after.beans.len() <= app.bean_count,
        after.bean_count == app.bean_count,
{
    if !app.paused {
        let (fresh, spare) = choose|fresh: Seq<BeanView>, spare: Seq<BeanView>|
            app.admits(dt, fresh, spare) && after == #[trigger] app.ticked(dt, fresh, spare);
        lemma_population_after_tick(app, dt, fresh, spare);
    }
}

/// A tick in which no bean is eaten, on a running simulation that had no more
/// beans than it keeps, ends with exactly the number of beans to keep.
pub proof fn lemma_population_is_kept(
    app: AppView,
    dt: int,
    fresh: Seq<BeanView>,
    spare: Seq<BeanView>,
)
    requires
        app.admits(dt, fresh, spare),
        app.beans.len() <= app.bean_count,
        tally(app.beans + fresh, app.player.updated(dt), BeanEvent::Eaten) == 0,
    ensures
        app.ticked(dt, fresh, spare).beans.len() == app.bean_count,
{
    lemma_population_after_tick(app, dt, fresh, spare);
}

/// However many ticks pass on a paused simulation, nothing changes.
pub proof fn lemma_paused_ticks_change_nothing(app: AppView, steps: Seq<int>, after: AppView)
    requires
        app.paused,
        app.ticks(steps, after),
    ensures
        after == app,
    decreases steps.len(),
{
    if steps.len() > 0 {
        let between = choose|between: AppView|
            app.ticks(steps.drop_last(), between) && #[trigger] between.tick(steps.last(), after);
        lemma_paused_ticks_change_nothing(app, steps.drop_last(), between);
    }
}

/// Switching the pause twice leaves the simulation as it was.
pub proof fn lemma_toggling_twice_changes_nothing(app: AppView)
    ensures
        app.toggled().toggled() == app,
{
}

} // verus!
