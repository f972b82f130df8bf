//! Training examples from games of self-play.

use core::ops::Neg;
use vstd::prelude::*;
use vstd::std_specs::ops::NegSpec;
use crate::game::Game;

verus! {

/// A position of a game that is not over yet, with the policy that the
/// search found for it.
#[derive(Clone, Debug, PartialEq)]
pub struct IncompleteTrainingExample<V> {
    pub game: Game,
    pub improved_policy: Vec<V>,
}

/// A position with the policy that the search found for it and the result
/// of its game for the player to move.
#[derive(Clone, Debug, PartialEq)]
pub struct TrainingExample<V> {
    pub game: Game,
    pub improved_policy: Vec<V>,
    pub result: V,
}

impl<V> IncompleteTrainingExample<V> {
    /// The example with the result of its game.
    pub fn update_result(self, result: V) -> (r: TrainingExample<V>)
        ensures
            r.game == self.game,
            r.improved_policy == self.improved_policy,
            r.result == result,
    {
        TrainingExample { game: self.game, improved_policy: self.improved_policy, result }
    }
}

/// The result for the player to move `k` positions before the last one
/// from which a move was made: `won` for the last, and from there back the
/// opposite of the position after.
pub open spec fn result_before_end<V: Neg<Output = V>>(won: V, k: nat) -> V
    decreases k,
{
    if k == 0 {
        won
    } else {
        result_before_end(won, (k - 1) as nat).neg_spec()
    }
}

/// Appends to `training` the positions of a finished game, the last first,
/// each with the result of the game for its player to move: the player who
/// moved last has won.
pub fn label_game<V: Copy + Neg<Output = V>>(
    training: &mut Vec<TrainingExample<V>>,
    game_training: Vec<IncompleteTrainingExample<V>>,
    won: V,
)
    requires
        V::obeys_neg_spec(),
        forall|x: V| #[trigger] x.neg_req(),
    ensures
        final(training)@.len() == old(training)@.len() + game_training@.len(),
        forall|i: int| 0 <= i < old(training)@.len() ==> final(training)@[i] == old(training)@[i],
        forall|k: int|
            0 <= k < game_training@.len() ==> {
                let labelled = #[trigger] final(training)@[old(training)@.len() + k];
                let example = game_training@[game_training@.len() - 1 - k];
                &&& labelled.game == example.game
                &&& labelled.improved_policy == example.improved_policy
                &&& labelled.result == result_before_end(won, k as nat)
            },
{
    let mut rest = game_training;
    let mut val = won;
    let ghost count = game_training@.len();
    let ghost start = old(training)@.len();
    while rest.len() > 0
        invariant
            V::obeys_neg_spec(),
            forall|x: V| #[trigger] x.neg_req(),
            rest@.len() <= count,
            count == game_training@.len(),
            start == old(training)@.len(),
            rest@ == game_training@.subrange(0, rest@.len() as int),
            training@.len() == start + (count - rest@.len()),
            val == result_before_end(won, (count - rest@.len()) as nat),
            forall|i: int| 0 <= i < start ==> training@[i] == old(training)@[i],
            forall|k: int|
                0 <= k < count - rest@.len() ==> {
                    let labelled = #[trigger] training@[start + k];
                    let example = game_training@[count - 1 - k];
                    &&& labelled.game == example.game
                    &&& labelled.improved_policy == example.improved_policy
                    &&& labelled.result == result_before_end(won, k as nat)
                },
        decreases rest@.len(),
    {
        let ghost before = rest@;
        match rest.pop() {
            Some(example) => {
                assert(example == game_training@[before.len() - 1]);
                training.push(example.update_result(val));
                val = val.neg();
                assert(rest@ =~= game_training@.subrange(0, rest@.len() as int));
            },
            None => {},
        }
    }
}

/// The games of a match that the new network won and lost.
#[derive(Clone, Copy, Debug, PartialEq, Eq)]
pub struct PitResult {
    pub wins: u32,
    pub losses: u32,
}

/// Counts a finished game of a match: the player to move at the end has
/// lost, so the game is a loss where that is the new network, and a win
/// where it is the old one.
pub fn record_game(result: &mut PitResult, my_turn: bool)
    requires
        old(result).wins + old(result).losses < u32::MAX,
    ensures
        final(result).wins == old(result).wins + (if my_turn {
            0u32
        } else {
            1u32
        }),
        final(result).losses == old(result).losses + (if my_turn {
            1u32
        } else {
            0u32
        }),
{
    if my_turn {
        result.losses += 1;
    } else {
        result.wins += 1;
    }
}

} // verus!
