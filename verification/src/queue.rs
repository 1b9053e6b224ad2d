//! Taking commands off the queue, one beat's worth at a time.

use crate::command::{Command, Flash};
use crate::level::Attack;
use crate::playfield::{Pattern, Transform};
use std::collections::VecDeque;
use vstd::prelude::*;

verus! {

/// What was taken off the head of a queue: the announcements up to the first
/// pattern, and that pattern.
#[derive(Clone, Copy, Debug)]
pub struct Popped<const N: usize> {
    /// How many announcements were taken off.
    pub announced: usize,
    /// The last attack announced, with its transform.
    pub attack: Option<(Attack<N>, Transform<N>)>,
    /// The pattern that was reached, with its phase.
    pub shown: Option<(Pattern<N>, Flash)>,
}

/// The number of announcements at the head of a queue, before its first pattern.
pub open spec fn announcements<const N: usize>(queue: Seq<Command<N>>) -> nat
    decreases queue.len(),
{
    if queue.len() > 0 && queue[0] is NewAttack {
        1 + announcements(queue.skip(1))
    } else {
        0
    }
}

/// The announcements at the head of a queue are its first commands, and the
/// command after them, if there is one, shows a pattern.
pub proof fn lemma_announcements<const N: usize>(queue: Seq<Command<N>>)
    ensures
        announcements(queue) <= queue.len(),
        forall|j: int| 0 <= j < announcements(queue) ==> #[trigger] queue[j] is NewAttack,
        announcements(queue) < queue.len() ==> queue[announcements(queue) as int] is FlashPattern,
    decreases queue.len(),
{
    if queue.len() > 0 && queue[0] is NewAttack {
        let rest = queue.skip(1);
        lemma_announcements(rest);
        assert forall|j: int| 0 <= j < announcements(queue) implies #[trigger] queue[j] is NewAttack by {
            if j > 0 {
                assert(rest[j - 1] == queue[j]);
            }
        }
        if announcements(queue) < queue.len() {
            assert(rest[announcements(rest) as int] == queue[announcements(queue) as int]);
        }
    }
}

/// What one beat takes off the head of `queue`.
pub open spec fn popped<const N: usize>(queue: Seq<Command<N>>) -> Popped<N> {
    let k = announcements(queue) as int;
    Popped {
        announced: k as usize,
        attack: if k > 0 {
            Some((queue[k - 1]->NewAttack_0, queue[k - 1]->NewAttack_1))
        } else {
            None
        },
        shown: if k < queue.len() {
            Some((queue[k]->FlashPattern_0, queue[k]->FlashPattern_1))
        } else {
            None
        },
    }
}

/// What one beat leaves of `queue`: all that follows its first pattern.
pub open spec fn unpopped<const N: usize>(queue: Seq<Command<N>>) -> Seq<Command<N>> {
    let k = announcements(queue) as int;
    if k < queue.len() {
        queue.skip(k + 1)
    } else {
        Seq::empty()
    }
}

/// Takes commands off the head of the queue up to and with the first pattern,
/// or all of them if there is none.
pub fn pop_to_flash<const N: usize>(commands: &mut VecDeque<Command<N>>) -> (taken: Popped<N>)
    ensures
        taken == popped(old(commands)@),
        taken.announced == announcements(old(commands)@),
        final(commands)@ == unpopped(old(commands)@),
{
    let ghost queue = commands@;
    let mut announced: usize = 0;
    let mut attack: Option<(Attack<N>, Transform<N>)> = None;
    let mut shown: Option<(Pattern<N>, Flash)> = None;
    proof {
        lemma_announcements(queue);
        assert(commands.len() == queue.len());
    }
    loop
        invariant_except_break
            shown is None,
            announced <= announcements(queue),
            commands@ == queue.skip(announced as int),
        invariant
            queue == old(commands)@,
            queue.len() <= usize::MAX,
            announcements(queue) <= queue.len(),
            forall|j: int| 0 <= j < announcements(queue) ==> #[trigger] queue[j] is NewAttack,
            announcements(queue) < queue.len() ==> queue[announcements(queue) as int] is FlashPattern,
            attack == if announced > 0 {
                Some((queue[announced - 1]->NewAttack_0, queue[announced - 1]->NewAttack_1))
            } else {
                None
            },
        ensures
            announced == announcements(queue),
            shown == popped(queue).shown,
            commands@ == unpopped(queue),
        decreases commands@.len(),
    {
        let ghost before = commands@;
        match commands.pop_front() {
            None => {
                break ;
            },
            Some(Command::NewAttack(next_attack, next_transform)) => {
                proof {
                    assert(before[0] == queue[announced as int]);
                    assert(commands@ =~= queue.skip(announced + 1));
                }
                attack = Some((next_attack, next_transform));
                announced = announced + 1;
            },
            Some(Command::FlashPattern(pattern, flash)) => {
                proof {
                    assert(before[0] == queue[announced as int]);
                    assert(commands@ =~= queue.skip(announced + 1));
                }
                shown = Some((pattern, flash));
                break ;
            },
        }
    }
    Popped { announced, attack, shown }
}

} // verus!
