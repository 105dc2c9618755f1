//! The screens of the game and the passage from one to the next.

use vstd::prelude::*;

pub mod game;

verus! {

/// A passage to another screen, or out of the game.
#[derive(Clone, Copy, Debug, PartialEq, Eq, Structural)]
pub enum StateTransition {
    Game,
    GameOver,
    Quit,
}

/// A change to the stack of screens that lie over one another.
#[derive(Clone, Copy, Debug, PartialEq, Eq)]
pub enum SubScreenEvent<T> {
    Push(T),
    Pop,
}

/// The stack after one change: one screen more on top, or the top one
/// gone. Taking the top off an empty stack leaves it empty.
pub open spec fn applied<T>(stack: Seq<T>, event: SubScreenEvent<T>) -> Seq<T> {
    match event {
        SubScreenEvent::Push(t) => stack.push(t),
        SubScreenEvent::Pop => if stack.len() > 0 {
            stack.drop_last()
        } else {
            stack
        },
    }
}

/// The stack after the changes of `events` have been made in order.
pub open spec fn applied_all<T>(stack: Seq<T>, events: Seq<SubScreenEvent<T>>) -> Seq<T>
    decreases events.len(),
{
    if events.len() == 0 {
        stack
    } else {
        applied(applied_all(stack, events.drop_last()), events.last())
    }
}

impl<T: Copy> SubScreenEvent<T> {
    /// Makes this change to the stack.
    pub fn apply(&self, stack: &mut Vec<T>)
        ensures
            final(stack)@ == applied(old(stack)@, *self),
    {
        match self {
            SubScreenEvent::Pop => {
                let _ = stack.pop();
                assert(old(stack)@.len() > 0 ==> stack@ =~= old(stack)@.drop_last());
            },
            SubScreenEvent::Push(t) => stack.push(*t),
        }
    }

    /// Makes the changes of `events` to the stack, in order.
    pub fn apply_all(events: &Vec<SubScreenEvent<T>>, stack: &mut Vec<T>)
        ensures
            final(stack)@ == applied_all(old(stack)@, events@),
    {
        let mut i: usize = 0;
        while i < events.len()
            invariant
                0 <= i <= events@.len(),
                stack@ == applied_all(old(stack)@, events@.take(i as int)),
            decreases events@.len() - i,
        {
            events[i].apply(stack);
            assert(events@.take(i + 1).drop_last() =~= events@.take(i as int));
            i = i + 1;
        }
        assert(events@.take(events@.len() as int) =~= events@);
    }
}

/// The passage to make once the given ones have been asked for: the one
/// asked for last, if any was.
pub fn latest(asked: &Vec<StateTransition>) -> (t: Option<StateTransition>)
    ensures
        t == (if asked@.len() > 0 {
            Some(asked@.last())
        } else {
            None
        }),
{
    if asked.len() > 0 {
        Some(asked[asked.len() - 1])
    } else {
        None
    }
}

} // verus!
