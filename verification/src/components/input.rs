//! What the player steers, how it is steered, and whose turn it is.

use vstd::prelude::*;
use crate::components::camera::{Camera, Point};
use crate::components::combat::DamageReduction;
use crate::components::drawable::LineDrawable;
use crate::components::entity::Entity;
use crate::components::health::Health;
use crate::components::map::{cell_index, GridMap};
use crate::components::player::{Equip, Grabbable, Inventory, Item};
use crate::components::position::{nudge, Position};
use crate::ui::list::List;
use crate::util::storage::HasStorage;
use crate::util::Direction;

verus! {

/// Marks what the direction keys move at the moment.
#[derive(Clone, Copy, Debug, PartialEq, Eq, Structural)]
pub struct Movable;

/// Where `c` gets to when nudged by `d`: no further down than zero.
pub open spec fn nudged(c: usize, d: i32) -> int {
    if c + d < 0 {
        0
    } else {
        c + d
    }
}

/// Anything that a direction can nudge over the map.
pub trait OffsetMovable: Sized {
    /// What must hold of the value and the map for a nudge to make sense.
    spec fn ready(&self, map: &GridMap) -> bool;

    /// Whether the value can be nudged by `offset` on the map.
    spec fn accepts(&self, offset: (i32, i32), map: &GridMap) -> bool;

    /// The value once it has been nudged by `offset`, where it can be.
    spec fn nudged_by(&self, offset: (i32, i32), map: &GridMap) -> Self;

    /// Who stands where on the map once the value has been nudged by
    /// `offset`, where it can be.
    spec fn occupants_after(&self, offset: (i32, i32), map: &GridMap) -> Seq<Option<Entity>>;

    /// Nudges the value by `offset`, given as columns and rows. A nudge that
    /// cannot be made is refused and changes nothing.
    fn move_by(&mut self, offset: (i32, i32), map: &mut GridMap) -> (r: Result<(), ()>)
        requires
            old(map).wf(),
            old(self).ready(old(map)),
        ensures
            final(map).wf(),
            final(self).ready(final(map)),
            final(map).width == old(map).width,
            final(map).height == old(map).height,
            final(map).map@ == old(map).map@,
            r is Ok <==> old(self).accepts(offset, old(map)),
            r is Ok ==> *final(self) == old(self).nudged_by(offset, old(map)),
            r is Ok ==> final(map).contents@ == old(self).occupants_after(offset, old(map)),
            r is Err ==> *final(self) == *old(self),
            r is Err ==> *final(map) == *old(map),
    ;
}

/// The unit step taken in the given direction, as columns and rows.
pub open spec fn unit_step(direction: Direction) -> (i32, i32) {
    (direction.offset_spec().0 as i32, direction.offset_spec().1 as i32)
}

/// Whose turn it is.
#[derive(Clone, Copy, Debug, PartialEq, Eq, Structural)]
pub enum TurnPhase {
    /// The player may act.
    Idle,
    /// A pass of the others is owed or under way; the player waits.
    AIPending,
}

/// The handshake between the player's phase and the phase of the others:
/// a signal that a pass is owed, a signal that it is done, and a flag that
/// is up from the one to the other's being seen.
#[derive(Clone, Copy, Debug, PartialEq, Eq, Structural)]
pub struct TurnGate {
    pub begin_ai: bool,
    pub end_ai: bool,
    pub ai_turn: bool,
}

impl TurnGate {
    /// No signal is up while the player may act, and never both: at most
    /// one pass is outstanding.
    pub open spec fn wf(&self) -> bool {
        &&& !self.ai_turn ==> !self.begin_ai && !self.end_ai
        &&& !(self.begin_ai && self.end_ai)
    }

    /// Decides whether the handshake is well formed.
    pub fn is_wf(&self) -> (ok: bool)
        ensures
            ok == self.wf(),
    {
        (self.ai_turn || (!self.begin_ai && !self.end_ai)) && !(self.begin_ai && self.end_ai)
    }

    /// Decides whether a pass of the others has begun and not ended.
    pub fn is_running(&self) -> (b: bool)
        ensures
            b == self.running(),
    {
        self.ai_turn && !self.begin_ai && !self.end_ai
    }

    /// Whose turn it is.
    pub open spec fn phase(&self) -> TurnPhase {
        if self.ai_turn {
            TurnPhase::AIPending
        } else {
            TurnPhase::Idle
        }
    }

    /// Whether a pass of the others has begun and not ended.
    pub open spec fn running(&self) -> bool {
        self.ai_turn && !self.begin_ai && !self.end_ai
    }

    /// A handshake in which the player may act.
    pub fn new() -> (g: TurnGate)
        ensures
            g.wf(),
            g.phase() == TurnPhase::Idle,
    {
        TurnGate { begin_ai: false, end_ai: false, ai_turn: false }
    }

    /// Whose turn it is.
    pub fn current(&self) -> (p: TurnPhase)
        ensures
            p == self.phase(),
    {
        if self.ai_turn {
            TurnPhase::AIPending
        } else {
            TurnPhase::Idle
        }
    }

    /// The player has completed a turn: a pass of the others is owed.
    pub fn end_turn(&mut self)
        requires
            old(self).wf(),
            old(self).phase() == TurnPhase::Idle,
        ensures
            final(self).wf(),
            final(self).phase() == TurnPhase::AIPending,
            final(self).begin_ai,
            !final(self).end_ai,
    {
        self.begin_ai = true;
        self.ai_turn = true;
    }

    /// The player's phase asks whether it may act. It may while no pass is
    /// owed or under way; and once the pass that was owed is done, which
    /// this call takes note of once.
    pub fn player_may_act(&mut self) -> (go: bool)
        requires
            old(self).wf(),
        ensures
            final(self).wf(),
            go == (!old(self).ai_turn || old(self).end_ai),
            go ==> final(self).phase() == TurnPhase::Idle,
            !go ==> *final(self) == *old(self),
    {
        if self.ai_turn {
            if self.end_ai {
                self.end_ai = false;
                self.ai_turn = false;
                true
            } else {
                false
            }
        } else {
            true
        }
    }

    /// The phase of the others asks whether a pass is owed, and takes it
    /// on if so.
    pub fn ai_may_begin(&mut self) -> (go: bool)
        requires
            old(self).wf(),
        ensures
            final(self).wf(),
            go == old(self).begin_ai,
            go ==> final(self).running(),
            !go ==> *final(self) == *old(self),
    {
        if self.begin_ai {
            self.begin_ai = false;
            true
        } else {
            false
        }
    }

    /// The phase of the others has made its pass.
    pub fn ai_done(&mut self)
        requires
            old(self).wf(),
            old(self).running(),
        ensures
            final(self).wf(),
            final(self).phase() == TurnPhase::AIPending,
            final(self).end_ai,
            !final(self).begin_ai,
    {
        self.end_ai = true;
    }
}

/// A key, as far as the game tells keys apart.
#[derive(Clone, Copy, Debug, PartialEq, Eq, Structural)]
pub enum Key {
    Esc,
    Char(char),
    Other,
}

/// What the player has done at the keyboard or with the mouse. The points
/// are cells of the view of the map.
#[derive(Clone, Copy, Debug, PartialEq, Eq, Structural)]
pub enum Event {
    Key(Key),
    MouseDown(Point),
    MouseHover(Point),
    MouseRelease(Point),
}

/// What the keys mean at the moment.
#[derive(Clone, Copy, Debug, PartialEq, Eq, Structural)]
pub enum State {
    /// The keys move the player.
    Toplevel,
    /// The keys move the player, the mouse asks what stands where.
    Examining,
    /// The keys and the mouse move the reticle; the flag tells close
    /// combat.
    Targeting(bool),
    /// The keys move the cursor of the inventory.
    Inventory,
}

/// What the player's phase asks to be done upon an event.
#[derive(Clone, Copy, Debug, PartialEq, Eq, Structural)]
pub enum Action {
    /// Leave the game.
    Quit,
    /// Pick up what lies one step ahead and go there. Ends the turn.
    Walk(Direction),
    /// Go one step without picking anything up. Ends the turn.
    Stride(Direction),
    /// Show the inventory in place of the messages.
    OpenInventory,
    /// Put the reticle on the player and let the keys move it.
    TakeAim(bool),
    /// Move the reticle one step.
    Nudge(Direction),
    /// Put the reticle on the given cell of the view.
    PointAt(Point),
    /// Take the reticle away.
    LowerAim,
    /// Take the reticle away and attack along the line it marked. Ends the
    /// turn.
    Fire(bool),
    /// Tell what stands on the given cell of the view.
    Describe(Point),
    /// Show the messages again and keep what the inventory holds now.
    CloseInventory,
    /// Move the cursor of the inventory up.
    CursorUp,
    /// Move the cursor of the inventory down.
    CursorDown,
    /// Wear or hold the item under the cursor.
    EquipSelected,
}

/// What an event leads to: the meaning of the keys from now on, what is to
/// be done, and whether the events after it wait for the next tick.
pub struct Step {
    pub state: State,
    pub action: Option<Action>,
    pub stop: bool,
}

/// The direction that a key stands for.
pub open spec fn key_direction(key: Key) -> Option<Direction> {
    match key {
        Key::Char(c) => if c == 'w' {
            Some(Direction::Up)
        } else if c == 's' {
            Some(Direction::Down)
        } else if c == 'a' {
            Some(Direction::Left)
        } else if c == 'd' {
            Some(Direction::Right)
        } else {
            None
        },
        _ => None,
    }
}

/// Whether an action completes the player's turn.
pub open spec fn ends_turn(action: Option<Action>) -> bool {
    match action {
        Some(Action::Walk(_)) => true,
        Some(Action::Stride(_)) => true,
        Some(Action::Fire(_)) => true,
        _ => false,
    }
}

/// What `event` leads to while the keys mean `state`.
pub open spec fn transition(state: State, event: Event) -> Step {
    let stay = Step { state: state, action: None, stop: false };
    match state {
        State::Toplevel => match event {
            Event::Key(key) => match key_direction(key) {
                Some(d) => Step { state: state, action: Some(Action::Walk(d)), stop: false },
                None => if key == Key::Esc {
                    Step { state: state, action: Some(Action::Quit), stop: false }
                } else if key == Key::Char('i') {
                    Step { state: State::Inventory, action: Some(Action::OpenInventory), stop: true }
                } else if key == Key::Char('1') {
                    Step { state: State::Examining, action: None, stop: true }
                } else if key == Key::Char('2') {
                    Step {
                        state: State::Targeting(false),
                        action: Some(Action::TakeAim(false)),
                        stop: true,
                    }
                } else if key == Key::Char('3') {
                    Step {
                        state: State::Targeting(true),
                        action: Some(Action::TakeAim(true)),
                        stop: true,
                    }
                } else {
                    stay
                },
            },
            _ => stay,
        },
        State::Examining => match event {
            Event::Key(key) => match key_direction(key) {
                Some(d) => Step { state: state, action: Some(Action::Stride(d)), stop: false },
                None => if key == Key::Esc {
                    Step { state: State::Toplevel, action: None, stop: false }
                } else {
                    stay
                },
            },
            Event::MouseRelease(point) => Step {
                state: state,
                action: Some(Action::Describe(point)),
                stop: false,
            },
            _ => stay,
        },
        State::Targeting(is_melee) => match event {
            Event::Key(key) => match key_direction(key) {
                Some(d) => Step { state: state, action: Some(Action::Nudge(d)), stop: false },
                None => if key == Key::Char(' ') {
                    Step {
                        state: State::Toplevel,
                        action: Some(Action::Fire(is_melee)),
                        stop: true,
                    }
                } else if key == Key::Esc || key == Key::Char('3') || key == Key::Char('q') {
                    Step { state: State::Toplevel, action: Some(Action::LowerAim), stop: true }
                } else {
                    stay
                },
            },
            Event::MouseHover(point) => Step {
                state: state,
                action: Some(Action::PointAt(point)),
                stop: false,
            },
            Event::MouseRelease(point) => Step {
                state: state,
                action: Some(Action::PointAt(point)),
                stop: false,
            },
            _ => stay,
        },
        State::Inventory => match event {
            Event::Key(key) => if key == Key::Esc {
                Step { state: State::Toplevel, action: Some(Action::CloseInventory), stop: false }
            } else if key == Key::Char('w') {
                Step { state: state, action: Some(Action::CursorUp), stop: false }
            } else if key == Key::Char('s') {
                Step { state: state, action: Some(Action::CursorDown), stop: false }
            } else if key == Key::Char(' ') {
                Step { state: state, action: Some(Action::EquipSelected), stop: false }
            } else {
                stay
            },
            _ => stay,
        },
    }
}

/// What a run of the player's phase has come to.
pub struct Played {
    /// The meaning of the keys at the end.
    pub state: State,
    /// What is to be done, in order.
    pub actions: Seq<Action>,
    /// How many events have been taken; the rest wait for the next tick.
    pub taken: int,
    /// Whether the turn was completed.
    pub turn_ended: bool,
}

/// What comes of the events from the `i`-th on while the keys mean
/// `state`. Events are taken one by one until one completes the turn or
/// changes what the keys mean in a way that lets the rest wait.
pub open spec fn replay(state: State, events: Seq<Event>, i: int) -> Played
    decreases events.len() - i,
{
    if i < 0 || i >= events.len() {
        Played { state: state, actions: Seq::empty(), taken: i, turn_ended: false }
    } else {
        let step = transition(state, events[i]);
        let done = match step.action {
            Some(a) => seq![a],
            None => Seq::empty(),
        };
        if ends_turn(step.action) || step.stop {
            Played {
                state: step.state,
                actions: done,
                taken: i + 1,
                turn_ended: ends_turn(step.action),
            }
        } else {
            let rest = replay(step.state, events, i + 1);
            Played { actions: done + rest.actions, ..rest }
        }
    }
}

/// The player's phase: what the keys mean at the moment.
pub struct InputSystem {
    pub state: State,
}

fn direction_of(key: Key) -> (d: Option<Direction>)
    ensures
        d == key_direction(key),
{
    match key {
        Key::Char(c) => if c == 'w' {
            Some(Direction::Up)
        } else if c == 's' {
            Some(Direction::Down)
        } else if c == 'a' {
            Some(Direction::Left)
        } else if c == 'd' {
            Some(Direction::Right)
        } else {
            None
        },
        _ => None,
    }
}

fn key_is(key: Key, c: char) -> (b: bool)
    ensures
        b == (key == Key::Char(c)),
{
    match key {
        Key::Char(k) => k == c,
        _ => false,
    }
}

fn key_is_esc(key: Key) -> (b: bool)
    ensures
        b == (key == Key::Esc),
{
    match key {
        Key::Esc => true,
        _ => false,
    }
}

impl InputSystem {
    pub fn new() -> (s: InputSystem)
        ensures
            s.state == State::Toplevel,
    {
        InputSystem { state: State::Toplevel }
    }

    /// Decides what one event leads to.
    pub fn decide(state: State, event: Event) -> (step: Step)
        ensures
            step == transition(state, event),
    {
        let stay = Step { state: state, action: None, stop: false };
        match state {
            State::Toplevel => match event {
                Event::Key(key) => match direction_of(key) {
                    Some(d) => Step { state: state, action: Some(Action::Walk(d)), stop: false },
                    None => if key_is_esc(key) {
                        Step { state: state, action: Some(Action::Quit), stop: false }
                    } else if key_is(key, 'i') {
                        Step {
                            state: State::Inventory,
                            action: Some(Action::OpenInventory),
                            stop: true,
                        }
                    } else if key_is(key, '1') {
                        Step { state: State::Examining, action: None, stop: true }
                    } else if key_is(key, '2') {
                        Step {
                            state: State::Targeting(false),
                            action: Some(Action::TakeAim(false)),
                            stop: true,
                        }
                    } else if key_is(key, '3') {
                        Step {
                            state: State::Targeting(true),
                            action: Some(Action::TakeAim(true)),
                            stop: true,
                        }
                    } else {
                        stay
                    },
                },
                _ => stay,
            },
            State::Examining => match event {
                Event::Key(key) => match direction_of(key) {
                    Some(d) => Step { state: state, action: Some(Action::Stride(d)), stop: false },
                    None => if key_is_esc(key) {
                        Step { state: State::Toplevel, action: None, stop: false }
                    } else {
                        stay
                    },
                },
                Event::MouseRelease(point) => Step {
                    state: state,
                    action: Some(Action::Describe(point)),
                    stop: false,
                },
                _ => stay,
            },
            State::Targeting(is_melee) => match event {
                Event::Key(key) => match direction_of(key) {
                    Some(d) => Step { state: state, action: Some(Action::Nudge(d)), stop: false },
                    None => if key_is(key, ' ') {
                        Step {
                            state: State::Toplevel,
                            action: Some(Action::Fire(is_melee)),
                            stop: true,
                        }
                    } else if key_is_esc(key) || key_is(key, '3') || key_is(key, 'q') {
                        Step { state: State::Toplevel, action: Some(Action::LowerAim), stop: true }
                    } else {
                        stay
                    },
                },
                Event::MouseHover(point) => Step {
                    state: state,
                    action: Some(Action::PointAt(point)),
                    stop: false,
                },
                Event::MouseRelease(point) => Step {
                    state: state,
                    action: Some(Action::PointAt(point)),
                    stop: false,
                },
                _ => stay,
            },
            State::Inventory => match event {
                Event::Key(key) => if key_is_esc(key) {
                    Step {
                        state: State::Toplevel,
                        action: Some(Action::CloseInventory),
                        stop: false,
                    }
                } else if key_is(key, 'w') {
                    Step { state: state, action: Some(Action::CursorUp), stop: false }
                } else if key_is(key, 's') {
                    Step { state: state, action: Some(Action::CursorDown), stop: false }
                } else if key_is(key, ' ') {
                    Step { state: state, action: Some(Action::EquipSelected), stop: false }
                } else {
                    stay
                },
                _ => stay,
            },
        }
    }

    /// One tick of the player's phase. While a pass of the others is owed
    /// or under way, no event is taken and nothing is done. Otherwise the
    /// events are taken in order, up to and including the first that
    /// completes the turn or lets the rest wait; if the turn is completed,
    /// the handshake is told so. The result is what is to be done and how many
    /// events were taken.
    pub fn run(&mut self, gate: &mut TurnGate, events: &Vec<Event>) -> (r: (Vec<Action>, usize))
        requires
            old(gate).wf(),
        ensures
            final(gate).wf(),
            old(gate).ai_turn && !old(gate).end_ai ==> {
                &&& r.0@.len() == 0
                &&& r.1 == 0
                &&& *final(gate) == *old(gate)
                &&& final(self).state == old(self).state
            },
            !(old(gate).ai_turn && !old(gate).end_ai) ==> {
                let played = replay(old(self).state, events@, 0);
                &&& r.0@ == played.actions
                &&& r.1 == played.taken
                &&& final(self).state == played.state
                &&& played.turn_ended ==> final(gate).phase() == TurnPhase::AIPending
                &&& played.turn_ended ==> final(gate).begin_ai
                &&& !played.turn_ended ==> final(gate).phase() == TurnPhase::Idle
            },
    {
        let mut actions: Vec<Action> = Vec::new();
        if !gate.player_may_act() {
            return (actions, 0);
        }
        let mut i: usize = 0;
        let ghost first = self.state;
        while i < events.len()
            invariant
                0 <= i <= events@.len(),
                gate.wf(),
                gate.phase() == TurnPhase::Idle,
                !(old(gate).ai_turn && !old(gate).end_ai),
                first == old(self).state,
                replay(first, events@, 0) == (Played {
                    actions: actions@ + replay(self.state, events@, i as int).actions,
                    ..replay(self.state, events@, i as int)
                }),
            decreases events@.len() - i,
        {
            let step = Self::decide(self.state, events[i]);
            let ghost here = replay(self.state, events@, i as int);
            let ghost before = actions@;
            let ghost rest = replay(step.state, events@, i + 1);
            let ghost done = match step.action {
                Some(a) => seq![a],
                None => Seq::empty(),
            };
            self.state = step.state;
            let mut turn_ended = false;
            if let Some(action) = step.action {
                actions.push(action);
                turn_ended = match action {
                    Action::Walk(_) => true,
                    Action::Stride(_) => true,
                    Action::Fire(_) => true,
                    _ => false,
                };
            }
            assert(actions@ =~= before + done);
            i = i + 1;
            if turn_ended || step.stop {
                if turn_ended {
                    gate.end_turn();
                }
                assert(here.actions == done);
                assert(here.taken == i);
                assert(here.turn_ended == turn_ended);
                return (actions, i);
            }
            assert(here.actions == done + rest.actions);
            assert(before + (done + rest.actions) =~= (before + done) + rest.actions);
        }
        assert(actions@ + Seq::<Action>::empty() =~= actions@);
        (actions, i)
    }
}

/// What lies one step from `position` in the given direction, as column
/// and row: no further down than zero.
pub open spec fn ahead(position: Position, direction: Direction) -> (int, int) {
    (
        nudged(position.x, direction.offset_spec().0 as i32),
        nudged(position.y, direction.offset_spec().1 as i32),
    )
}

/// The entity that can be picked up one step from `position`: whoever
/// stands there, if that is a cell of the map and they can be picked up.
pub open spec fn within_grasp(
    map: &GridMap,
    position: Position,
    direction: Direction,
    grabbables: Map<Entity, Grabbable>,
) -> Option<Entity> {
    let a = ahead(position, direction);
    if map.in_bounds(a.0, a.1) {
        match map.occupant(a.0, a.1) {
            Some(e) => if grabbables.contains_key(e) {
                Some(e)
            } else {
                None
            },
            None => None,
        }
    } else {
        None
    }
}

/// Who stands where once what was picked up one step from `position` has
/// been taken off the map.
pub open spec fn cleared(
    map: &GridMap,
    position: Position,
    direction: Direction,
    taken: Option<Entity>,
) -> Seq<Option<Entity>> {
    let a = ahead(position, direction);
    if taken is Some && (a.0 != position.x || a.1 != position.y) {
        map.contents@.update(cell_index(map.width as int, a.0, a.1), None)
    } else {
        map.contents@
    }
}

/// What a step of the player came to.
#[derive(Clone, Copy, Debug, PartialEq, Eq)]
pub struct Walked {
    /// The entity that was picked up and is to be removed.
    pub taken: Option<Entity>,
    /// Whether the player has gone the step.
    pub moved: bool,
}

/// The health that an entity can have with what it wears, and the
/// reduction of damage that it has.
pub open spec fn refitted(equip: &Equip, health: Health) -> (DamageReduction, Health) {
    (
        DamageReduction { value: equip.armour() as usize },
        Health { max_health: (health.base_health + equip.vigour()) as usize, ..health },
    )
}

impl InputSystem {
    /// Picks up what lies one step ahead of `position`, if anything there
    /// can be picked up: the item goes into the inventory, and the entity
    /// that was the item is returned, to be removed.
    pub fn take_items<G: HasStorage<Grabbable>>(
        &self,
        direction: Direction,
        map: &GridMap,
        position: &Position,
        inventory: &mut Inventory,
        grabbables: &G,
    ) -> (taken: Option<Entity>)
        requires
            map.wf(),
        ensures
            taken == within_grasp(map, *position, direction, grabbables.contents()),
            match taken {
                Some(e) => final(inventory).contents@ == old(inventory).contents@.push(
                    grabbables.contents()[e].0,
                ),
                None => final(inventory).contents@ == old(inventory).contents@,
            },
    {
        let offset = direction.offset();
        let new_x = match nudge(position.x, offset.0) {
            Some(x) => x,
            None => {
                return None;
            },
        };
        let new_y = match nudge(position.y, offset.1) {
            Some(y) => y,
            None => {
                return None;
            },
        };
        if new_x >= map.width || new_y >= map.height {
            return None;
        }
        match map.contents(new_x, new_y) {
            Some(entity) => match grabbables.get(entity) {
                Some(grabbable) => {
                    inventory.contents.push(grabbable.0.duplicate());
                    Some(entity)
                },
                None => None,
            },
            None => None,
        }
    }

    /// Nudges one movable thing one step in the given direction, if it can
    /// go there, and tells whether it has gone.
    pub fn process_movement<OM: OffsetMovable>(
        &self,
        direction: Direction,
        map: &mut GridMap,
        movable: &mut OM,
    ) -> (moved: bool)
        requires
            old(map).wf(),
            old(movable).ready(old(map)),
        ensures
            final(map).wf(),
            final(movable).ready(final(map)),
            final(map).width == old(map).width,
            final(map).height == old(map).height,
            final(map).map@ == old(map).map@,
            moved == old(movable).accepts(unit_step(direction), old(map)),
            moved ==> *final(movable) == old(movable).nudged_by(unit_step(direction), old(map)),
            moved ==> final(map).contents@ == old(movable).occupants_after(
                unit_step(direction),
                old(map),
            ),
            !moved ==> *final(movable) == *old(movable),
            !moved ==> *final(map) == *old(map),
    {
        let offset = direction.offset();
        movable.move_by(offset, map).is_ok()
    }

    /// One step of the player: what can be picked up ahead is picked up and
    /// taken off the map; then the player goes there if the cell is free
    /// floor.
    pub fn walk<G: HasStorage<Grabbable>>(
        &self,
        direction: Direction,
        map: &mut GridMap,
        position: &mut Position,
        inventory: &mut Inventory,
        grabbables: &G,
    ) -> (walked: Walked)
        requires
            old(map).wf(),
            old(position).placed_on(old(map)),
        ensures
            final(map).wf(),
            final(position).placed_on(final(map)),
            final(map).width == old(map).width,
            final(map).height == old(map).height,
            final(map).map@ == old(map).map@,
            walked.taken == within_grasp(old(map), *old(position), direction, grabbables.contents()),
            match walked.taken {
                Some(e) => final(inventory).contents@ == old(inventory).contents@.push(
                    grabbables.contents()[e].0,
                ),
                None => final(inventory).contents@ == old(inventory).contents@,
            },
            walked.moved <==> {
                let a = ahead(*old(position), direction);
                &&& old(map).in_bounds(a.0, a.1)
                &&& old(map).terrain(a.0, a.1) == crate::components::map::MapCell::Floor
                &&& cleared(old(map), *old(position), direction, walked.taken)[cell_index(
                    old(map).width as int,
                    a.0,
                    a.1,
                )] is None
            },
            walked.moved ==> {
                let a = ahead(*old(position), direction);
                &&& final(position).x == a.0
                &&& final(position).y == a.1
                &&& final(map).contents@ == cleared(
                    old(map),
                    *old(position),
                    direction,
                    walked.taken,
                ).update(
                    cell_index(old(map).width as int, old(position).x as int, old(position).y as int),
                    None,
                ).update(
                    cell_index(old(map).width as int, a.0, a.1),
                    old(map).occupant(old(position).x as int, old(position).y as int),
                )
            },
            !walked.moved ==> *final(position) == *old(position) && final(map).contents@ == cleared(
                old(map),
                *old(position),
                direction,
                walked.taken,
            ),
    {
        let taken = self.take_items(direction, map, position, inventory, grabbables);
        if taken.is_some() {
            let offset = direction.offset();
            let x = nudge(position.x, offset.0).unwrap();
            let y = nudge(position.y, offset.1).unwrap();
            if x != position.x || y != position.y {
                proof {
                    crate::components::map::lemma_cell_index(
                        map.width as int,
                        map.height as int,
                        x as int,
                        y as int,
                    );
                    crate::components::map::lemma_cell_index(
                        map.width as int,
                        map.height as int,
                        position.x as int,
                        position.y as int,
                    );
                }
                map.vacate(x, y);
            }
        }
        let moved = position.move_by(direction.offset(), map).is_ok();
        Walked { taken: taken, moved: moved }
    }

    /// Puts the reticle on the cell of the map that the given cell of the
    /// view shows.
    pub fn point_at(&self, line: &mut LineDrawable, camera: &Camera, point: Point)
        ensures
            final(line).start == old(line).start,
            final(line).end.x == camera.position.x + point.x,
            final(line).end.y == camera.position.y + point.y,
    {
        line.end.x = camera.position.x as usize + point.x as usize;
        line.end.y = camera.position.y as usize + point.y as usize;
    }

    /// Sets the reduction of damage and the greatest health of an entity
    /// by what it wears.
    pub fn refit(&self, equip: &Equip, reduction: &mut DamageReduction, health: &mut Health)
        requires
            equip.armour() <= usize::MAX,
            old(health).base_health + equip.vigour() <= usize::MAX,
        ensures
            (*final(reduction), *final(health)) == refitted(equip, *old(health)),
    {
        let (armour, vigour) = equip.protection().unwrap();
        reduction.value = armour;
        health.max_health = health.base_health + vigour;
    }

    /// Wears or holds the item under the cursor of the inventory. What was
    /// in its slot takes its place in the list; where the slot was empty,
    /// the item leaves the list and the cursor moves up. An item that
    /// belongs to no slot leaves the list too. Where the cursor is on no
    /// item, nothing happens.
    pub fn equip_selected(&self, list: &mut List<Item>, equip: &mut Equip) -> (done: bool)
        ensures
            done == (old(list).cursor < old(list).contents@.len()),
            !done ==> *final(list) == *old(list) && *final(equip) == *old(equip),
            done ==> {
                let item = old(list).contents@[old(list).cursor as int];
                let former = match item.slot {
                    Some(slot) => old(equip).at(slot),
                    None => None,
                };
                &&& *final(equip) == (match item.slot {
                    Some(slot) => old(equip).with(slot, Some(item)),
                    None => *old(equip),
                })
                &&& final(list).position == old(list).position
                &&& final(list).bounds == old(list).bounds
                &&& match former {
                    Some(f) => final(list).cursor == old(list).cursor && final(list).contents@
                        == old(list).contents@.update(old(list).cursor as int, f),
                    None => final(list).cursor == (if old(list).cursor > 0 {
                        old(list).cursor - 1
                    } else {
                        0
                    }) && final(list).contents@ == old(list).contents@.remove(
                        old(list).cursor as int,
                    ),
                }
            },
    {
        let idx = list.cursor;
        let item = match list.get_selected() {
            Some(item) => item.duplicate(),
            None => {
                return false;
            },
        };
        match equip.equip(item) {
            Some(former) => {
                list.contents[idx] = former;
            },
            None => {
                list.move_cursor_up();
                let _ = list.contents.remove(idx);
            },
        }
        true
    }
}

} // verus!
