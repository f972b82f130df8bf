//! Monte-Carlo tree search guided by priors and evaluations.
//!
//! The search owns the tree and does the bookkeeping; what it needs from
//! outside comes through three functions: one that evaluates a position,
//! one that lists a position's successors, and one that takes square roots.

use core::ops::Add;
use core::ops::Div;
use core::ops::Mul;
use core::ops::Neg;
use std::collections::HashMap;
use vstd::prelude::*;
use vstd::std_specs::convert::FromSpec;
use vstd::std_specs::hash::group_hash_axioms;
use vstd::std_specs::ops::AddSpec;
use vstd::std_specs::ops::DivSpec;
use vstd::std_specs::ops::MulSpec;
use vstd::std_specs::ops::NegSpec;
use crate::game::Game;
use crate::game::Status;
use crate::game::Successor;
use crate::game::ACTIONS;
use crate::order::at_least;
use crate::order::exceeds;
use crate::order::greater;
use crate::order::ordered;
use crate::order::reaches;
use crate::order::strict_order;

verus! {

/// What the search asks of the values it stores: arithmetic, an order, and
/// a value for each count.
pub trait Value: Copy + Add<Output = Self> + Mul<Output = Self> + Div<Output = Self> + Neg<
    Output = Self,
> + PartialOrd + From<u32> {

}

impl<
    V: Copy + Add<Output = V> + Mul<Output = V> + Div<Output = V> + Neg<Output = V> + PartialOrd
        + From<u32>,
> Value for V {

}

/// The operators of `V`, its comparisons and its values for counts are
/// what their specifications say.
pub open spec fn faithful<V: Value>() -> bool {
    &&& V::obeys_add_spec()
    &&& V::obeys_mul_spec()
    &&& V::obeys_div_spec()
    &&& V::obeys_neg_spec()
    &&& ordered::<V>()
    &&& <V as FromSpec<u32>>::obeys_from_spec()
}

/// The operators of `V` are what their specifications say, and allow every
/// operand, as those of floating-point numbers do.
pub open spec fn exact<V: Value>() -> bool {
    &&& faithful::<V>()
    &&& forall|a: V, b: V| #[trigger] a.add_req(b)
    &&& forall|a: V, b: V| #[trigger] a.mul_req(b)
    &&& forall|a: V, b: V| #[trigger] a.div_req(b)
    &&& forall|a: V| #[trigger] a.neg_req()
}

/// The value that stands for the count `n`.
pub open spec fn count<V: Value>(n: u32) -> V {
    <V as FromSpec<u32>>::from_spec(n)
}

/// One visited position of the search tree.
#[derive(Debug)]
pub struct Node<V> {
    /// The position.
    pub game: Game,
    /// How the position stands for the player to move.
    pub status: Status,
    /// The prior of the move that led here.
    pub policy: V,
    /// The mean of the values backed up through this node.
    pub expected_reward: V,
    /// The number of rollouts that reached this node.
    pub visited_count: u32,
    /// The children by the index of the move that leads to each, once the
    /// node is expanded.
    pub children: Option<HashMap<usize, Node<V>>>,
}

/// The sum of the visit counts of the children that moves below `n` lead
/// to.
pub open spec fn visits_in<V>(kids: Map<usize, Node<V>>, n: nat) -> nat
    decreases n,
{
    if n == 0 {
        0
    } else {
        visits_in(kids, (n - 1) as nat) + (if kids.contains_key((n - 1) as usize) {
            kids[(n - 1) as usize].visited_count as nat
        } else {
            0
        })
    }
}

/// The upper confidence score of a child: its mean value, and its prior
/// weighted by the exploration constant and by the root of its parent's
/// visit count over one more than its own.
pub open spec fn ucb<V: Value>(child: Node<V>, root: V, exploration: V) -> V {
    child.expected_reward.add_spec(
        exploration.mul_spec(child.policy).mul_spec(root).div_spec(
            count::<V>(1).add_spec(count::<V>(child.visited_count)),
        ),
    )
}

/// Every product, quotient and sum of a child's score is one that `V`
/// allows.
pub open spec fn ucb_ok<V: Value>(child: Node<V>, root: V, exploration: V) -> bool {
    let weight = exploration.mul_spec(child.policy);
    let visits = count::<V>(1).add_spec(count::<V>(child.visited_count));
    &&& exploration.mul_req(child.policy)
    &&& weight.mul_req(root)
    &&& count::<V>(1).add_req(count::<V>(child.visited_count))
    &&& weight.mul_spec(root).div_req(visits)
    &&& child.expected_reward.add_req(weight.mul_spec(root).div_spec(visits))
}

/// The move to the child to descend into, among the moves below `n`: the
/// one that a walk through the moves in order ends on when it starts on
/// the first move that leads to a child and goes on to each move whose
/// child's score exceeds that of the child it is on.
pub open spec fn best_below<V: Value>(
    kids: Map<usize, Node<V>>,
    root: V,
    exploration: V,
    n: nat,
) -> Option<usize>
    decreases n,
{
    if n == 0 {
        None
    } else {
        let before = best_below(kids, root, exploration, (n - 1) as nat);
        let a = (n - 1) as usize;
        if !kids.contains_key(a) {
            before
        } else {
            match before {
                None => Some(a),
                Some(b) => if exceeds(
                    ucb(kids[a], root, exploration),
                    ucb(kids[b], root, exploration),
                ) {
                    Some(a)
                } else {
                    Some(b)
                },
            }
        }
    }
}

/// The mean of `visits` values, of which `mean` is the mean of all but the
/// last, `last`.
pub open spec fn running_mean<V: Value>(mean: V, last: V, visits: u32) -> V {
    count::<V>((visits - 1) as u32).mul_spec(mean).add_spec(last).div_spec(count::<V>(visits))
}

/// The child that a successor becomes: unvisited, with the prior of its
/// move and a mean value of zero.
pub open spec fn fresh<V: Value>(successor: Successor, priors: Seq<V>) -> Node<V> {
    Node {
        game: successor.game,
        status: successor.status,
        policy: priors[successor.action as int],
        expected_reward: count::<V>(0),
        visited_count: 0,
        children: None,
    }
}

/// The children that the first `n` successors become, a later successor
/// taking the place of an earlier one of the same move.
pub open spec fn grown<V: Value>(successors: Seq<Successor>, priors: Seq<V>, n: nat) -> Map<
    usize,
    Node<V>,
>
    decreases n,
{
    if n == 0 {
        Map::empty()
    } else {
        grown(successors, priors, (n - 1) as nat).insert(
            successors[n - 1].action,
            fresh(successors[n - 1], priors),
        )
    }
}

/// `child` is what one of the first `n` successors became.
pub open spec fn from_successor<V: Value>(
    child: Node<V>,
    successors: Seq<Successor>,
    priors: Seq<V>,
    n: nat,
) -> bool {
    exists|k: int| 0 <= k < n && child == fresh(#[trigger] successors[k], priors)
}

/// The mean value of the child that `action` leads to, or `zero` where no
/// child is reached by it.
pub open spec fn estimate_of<V>(kids: Map<usize, Node<V>>, action: usize, zero: V) -> V {
    if kids.contains_key(action) {
        kids[action].expected_reward
    } else {
        zero
    }
}

/// `expand` gives at least one successor of `game`.
pub open spec fn fertile<X: Fn(Game) -> Vec<Successor>>(expand: X, game: Game) -> bool {
    forall|out: Vec<Successor>| #[trigger] call_ensures(expand, (game,), out) ==> out@.len() > 0
}

impl<V: Value> Node<V> {
    /// The node's statistics fit together: an ongoing position is either
    /// unvisited and unexpanded, or expanded, and then its visit count is
    /// one more than its children's together; a decided position has no
    /// children. An expanded node has a child, and its children are reached
    /// by moves below `ACTIONS`.
    pub open spec fn wf(&self) -> bool
        decreases self,
    {
        match self.children {
            None => self.status != Status::Ongoing || self.visited_count == 0,
            Some(kids) => {
                &&& self.status == Status::Ongoing
                &&& exists|a: usize| kids@.contains_key(a)
                &&& self.visited_count == 1 + visits_in(kids@, ACTIONS as nat)
                &&& forall|a: usize| #[trigger] kids@.contains_key(a) ==> a < ACTIONS
                &&& forall|a: usize| kids@.contains_key(a) ==> (#[trigger] kids@[a]).wf()
            },
        }
    }

    /// Every position of the tree that a rollout may come to expand, an
    /// unexpanded one whose game goes on, has successors.
    pub open spec fn ready<X: Fn(Game) -> Vec<Successor>>(&self, expand: X) -> bool
        decreases self,
    {
        match self.children {
            None => self.status == Status::Ongoing ==> fertile(expand, self.game),
            Some(kids) => forall|a: usize|
                kids@.contains_key(a) ==> (#[trigger] kids@[a]).ready(expand),
        }
    }

    /// A root: unvisited and unexpanded, with a prior of one and a mean
    /// value of zero.
    pub fn from(game: Game, status: Status) -> (r: Node<V>)
        requires
            faithful::<V>(),
        ensures
            r.wf(),
            r == root_of::<V>(game, status),
    {
        Node {
            game,
            status,
            policy: V::from(1u32),
            expected_reward: V::from(0u32),
            visited_count: 0,
            children: None,
        }
    }
}

/// The root for a position: unvisited and unexpanded, with a prior of one
/// and a mean value of zero.
pub open spec fn root_of<V: Value>(game: Game, status: Status) -> Node<V> {
    Node {
        game,
        status,
        policy: count::<V>(1),
        expected_reward: count::<V>(0),
        visited_count: 0,
        children: None,
    }
}

/// The upper confidence score of `child`.
pub fn score<V: Value>(child: &Node<V>, root: V, exploration: V) -> (r: V)
    requires
        faithful::<V>(),
        ucb_ok(*child, root, exploration),
    ensures
        r == ucb(*child, root, exploration),
{
    child.expected_reward + exploration * child.policy * root / (V::from(1u32) + V::from(
        child.visited_count,
    ))
}

/// The best move below `n` leads to a child, where any move below `n`
/// does; and under a strict order no child's score exceeds that of the
/// child it leads to.
pub proof fn lemma_best_is_maximal<V: Value>(
    kids: Map<usize, Node<V>>,
    root: V,
    exploration: V,
    n: nat,
)
    requires
        n <= usize::MAX,
    ensures
        match best_below(kids, root, exploration, n) {
            Some(best) => best < n && kids.contains_key(best) && (strict_order::<V>() ==> forall|
                a: usize,
            |
                a < n && kids.contains_key(a) ==> !exceeds(
                    ucb(#[trigger] kids[a], root, exploration),
                    ucb(kids[best], root, exploration),
                )),
            None => forall|a: usize| a < n ==> !kids.contains_key(a),
        },
    decreases n,
{
    if n > 0 {
        lemma_best_is_maximal(kids, root, exploration, (n - 1) as nat);
        let before = best_below(kids, root, exploration, (n - 1) as nat);
        let last = (n - 1) as usize;
        match best_below(kids, root, exploration, n) {
            Some(best) => {
                if strict_order::<V>() {
                    assert forall|a: usize| a < n && kids.contains_key(a) implies !exceeds(
                        ucb(#[trigger] kids[a], root, exploration),
                        ucb(kids[best], root, exploration),
                    ) by {
                        if before is Some && best == last && a != last {
                            let b = before->Some_0;
                            if exceeds(
                                ucb(kids[a], root, exploration),
                                ucb(kids[best], root, exploration),
                            ) {
                                assert(exceeds(
                                    ucb(kids[a], root, exploration),
                                    ucb(kids[b], root, exploration),
                                ));
                            }
                        }
                    }
                }
            },
            None => {
                assert forall|a: usize| a < n implies !kids.contains_key(a) by {
                    if a < n - 1 {
                    }
                }
            },
        }
    }
}

/// The move to the child to descend into: see `best_below`. Where the
/// order is strict, no child's score exceeds that child's.
pub fn select<V: Value>(kids: &HashMap<usize, Node<V>>, root: V, exploration: V) -> (r: Option<
    usize,
>)
    requires
        faithful::<V>(),
        forall|a: usize| kids@.contains_key(a) ==> ucb_ok(#[trigger] kids@[a], root, exploration),
    ensures
        r == best_below(kids@, root, exploration, ACTIONS as nat),
        r is Some ==> r->Some_0 < ACTIONS && kids@.contains_key(r->Some_0),
        r is None ==> forall|a: usize| a < ACTIONS ==> !kids@.contains_key(a),
        strict_order::<V>() && r is Some ==> forall|a: usize|
            a < ACTIONS && kids@.contains_key(a) ==> !exceeds(
                ucb(#[trigger] kids@[a], root, exploration),
                ucb(kids@[r->Some_0], root, exploration),
            ),
{
    broadcast use group_hash_axioms;

    proof {
        lemma_best_is_maximal(kids@, root, exploration, ACTIONS as nat);
    }
    let mut best: Option<(usize, V)> = None;
    let mut a: usize = 0;
    while a < ACTIONS
        invariant
            a <= ACTIONS,
            faithful::<V>(),
            forall|a: usize|
                kids@.contains_key(a) ==> ucb_ok(#[trigger] kids@[a], root, exploration),
            match best {
                Some(found) => best_below(kids@, root, exploration, a as nat) == Some(found.0)
                    && kids@.contains_key(found.0) && found.1 == ucb(
                    kids@[found.0],
                    root,
                    exploration,
                ),
                None => best_below(kids@, root, exploration, a as nat) is None,
            },
        decreases ACTIONS - a,
    {
        match kids.get(&a) {
            Some(child) => {
                assert(kids@.contains_key(a) && kids@[a] == *child);
                let here = score(child, root, exploration);
                match best {
                    Some(found) => {
                        if greater(&here, &found.1) {
                            best = Some((a, here));
                        }
                    },
                    None => {
                        best = Some((a, here));
                    },
                }
            },
            None => {
                assert(!kids@.contains_key(a));
            },
        }
        a += 1;
    }
    match best {
        Some(found) => Some(found.0),
        None => None,
    }
}

/// Children that were never visited have no visits together.
pub proof fn lemma_no_visits<V>(kids: Map<usize, Node<V>>, n: nat)
    requires
        forall|a: usize| kids.contains_key(a) ==> (#[trigger] kids[a]).visited_count == 0,
    ensures
        visits_in(kids, n) == 0,
    decreases n,
{
    if n > 0 {
        lemma_no_visits(kids, (n - 1) as nat);
    }
}

/// What one more visit to one child does to the visits of all.
pub proof fn lemma_one_more_visit<V>(
    before: Map<usize, Node<V>>,
    after: Map<usize, Node<V>>,
    at: usize,
    n: nat,
)
    requires
        n <= usize::MAX,
        before.contains_key(at),
        after == before.insert(at, after[at]),
        after[at].visited_count == before[at].visited_count + 1,
    ensures
        visits_in(after, n) == visits_in(before, n) + (if at < n {
            1nat
        } else {
            0nat
        }),
    decreases n,
{
    if n > 0 {
        lemma_one_more_visit(before, after, at, (n - 1) as nat);
        let last = (n - 1) as usize;
        if last != at {
            assert(after.contains_key(last) == before.contains_key(last));
            assert(before.contains_key(last) ==> after[last] == before[last]);
        }
    }
}

/// No child has more visits than all children together.
pub proof fn lemma_visits_bound<V>(kids: Map<usize, Node<V>>, at: usize, n: nat)
    requires
        n <= usize::MAX,
        kids.contains_key(at),
        at < n,
    ensures
        kids[at].visited_count <= visits_in(kids, n),
    decreases n,
{
    if at < n - 1 {
        lemma_visits_bound(kids, at, (n - 1) as nat);
    }
}

impl<V: Value> Node<V> {
    /// The mean values of the children, each at the index of its move;
    /// zero at the index of every move that leads to no child.
    pub fn improved_policy(&self) -> (r: Vec<V>)
        requires
            faithful::<V>(),
            self.children is Some,
        ensures
            r@.len() == ACTIONS,
            forall|a: int|
                0 <= a < ACTIONS ==> r@[a] == estimate_of(
                    self.children->Some_0@,
                    a as usize,
                    count::<V>(0),
                ),
    {
        broadcast use group_hash_axioms;

        let zero = V::from(0u32);
        let mut policy: Vec<V> = Vec::new();
        match &self.children {
            Some(kids) => {
                let mut a: usize = 0;
                while a < ACTIONS
                    invariant
                        a <= ACTIONS,
                        policy@.len() == a,
                        forall|b: int|
                            0 <= b < a ==> policy@[b] == estimate_of(kids@, b as usize, zero),
                    decreases ACTIONS - a,
                {
                    match kids.get(&a) {
                        Some(child) => {
                            assert(kids@.contains_key(a) && kids@[a] == *child);
                            policy.push(child.expected_reward);
                        },
                        None => {
                            assert(!kids@.contains_key(a));
                            policy.push(zero);
                        },
                    }
                    a += 1;
                }
            },
            None => {},
        }
        policy
    }

    /// Expands the node: its children are those that the successors
    /// become, and its mean value the evaluation, which is returned from
    /// the opponent's side.
    pub fn populate(&mut self, priors: &Vec<V>, value: V, successors: &Vec<Successor>) -> (r: V)
        requires
            faithful::<V>(),
            value.neg_req(),
            old(self).children is None,
            old(self).status == Status::Ongoing,
            old(self).visited_count == 1,
            successors@.len() > 0,
            forall|i: int|
                0 <= i < successors@.len() ==> (#[trigger] successors@[i]).action < priors@.len()
                    && successors@[i].action < ACTIONS,
        ensures
            final(self).wf(),
            final(self).game == old(self).game,
            final(self).status == old(self).status,
            final(self).policy == old(self).policy,
            final(self).visited_count == old(self).visited_count,
            final(self).expected_reward == value,
            final(self).children is Some,
            final(self).children->Some_0@ == grown(successors@, priors@, successors@.len()),
            forall|a: usize|
                final(self).children->Some_0@.contains_key(a) ==> from_successor(
                    #[trigger] final(self).children->Some_0@[a],
                    successors@,
                    priors@,
                    successors@.len(),
                ),
            r == value.neg_spec(),
    {
        broadcast use group_hash_axioms;

        let zero = V::from(0u32);
        let mut kids: HashMap<usize, Node<V>> = HashMap::new();
        let mut i: usize = 0;
        while i < successors.len()
            invariant
                i <= successors@.len(),
                zero == count::<V>(0),
                forall|i: int|
                    0 <= i < successors@.len() ==> (#[trigger] successors@[i]).action < priors@.len()
                        && successors@[i].action < ACTIONS,
                kids@ == grown(successors@, priors@, i as nat),
                i > 0 ==> kids@.contains_key(successors@[i - 1].action),
                forall|a: usize| #[trigger] kids@.contains_key(a) ==> a < ACTIONS,
                forall|a: usize|
                    kids@.contains_key(a) ==> (#[trigger] kids@[a]).visited_count == 0
                        && kids@[a].children is None && from_successor(
                        kids@[a],
                        successors@,
                        priors@,
                        i as nat,
                    ),
            decreases successors@.len() - i,
        {
            let successor = successors[i];
            assert(successors@[i as int].action < priors@.len());
            let child = Node {
                game: successor.game,
                status: successor.status,
                policy: priors[successor.action],
                expected_reward: zero,
                visited_count: 0,
                children: None,
            };
            assert(child == fresh(successors@[i as int], priors@));
            let ghost before = kids@;
            kids.insert(successor.action, child);
            proof {
                assert forall|a: usize| #[trigger] kids@.contains_key(a) implies a < ACTIONS by {
                    if a != successor.action {
                        assert(before.contains_key(a));
                    }
                }
                assert forall|a: usize| kids@.contains_key(a) implies (
                #[trigger] kids@[a]).visited_count == 0 && kids@[a].children is None
                    && from_successor(kids@[a], successors@, priors@, (i + 1) as nat) by {
                    if a != successor.action {
                        assert(before.contains_key(a) && kids@[a] == before[a]);
                        assert(from_successor(before[a], successors@, priors@, i as nat));
                    }
                }
            }
            i += 1;
        }
        proof {
            lemma_no_visits(kids@, ACTIONS as nat);
            assert(kids@.contains_key(successors@[successors@.len() - 1].action));
            assert forall|a: usize| kids@.contains_key(a) implies (#[trigger] kids@[a]).wf() by {
                assert(kids@[a].children is None);
            }
        }
        self.expected_reward = value;
        let ghost made = kids@;
        self.children = Some(kids);
        proof {
            assert(self.children->Some_0@ == made);
            assert(made.contains_key(successors@[successors@.len() - 1].action));
            assert(self.visited_count == 1 + visits_in(made, ACTIONS as nat));
        }
        value.neg()
    }
}

/// What may be asked of the three functions that a rollout calls: they
/// accept every argument, an evaluation holds a prior for every move, and
/// every successor is reached by a move below `ACTIONS` and, where its game
/// goes on, has successors of its own.
pub open spec fn guides<V: Value, E: Fn(Game) -> (Vec<V>, V), X: Fn(Game) -> Vec<Successor>, R: Fn(
    V,
) -> V>(evaluate: E, expand: X, sqrt: R) -> bool {
    &&& forall|game: Game| #[trigger] call_requires(evaluate, (game,))
    &&& forall|game: Game| #[trigger] call_requires(expand, (game,))
    &&& forall|x: V| #[trigger] call_requires(sqrt, (x,))
    &&& forall|game: Game, out: (Vec<V>, V)| #[trigger]
        call_ensures(evaluate, (game,), out) ==> out.0@.len() == ACTIONS
    &&& forall|game: Game, out: Vec<Successor>| #[trigger]
        call_ensures(expand, (game,), out) ==> forall|i: int|
            0 <= i < out@.len() ==> (#[trigger] out@[i]).action < ACTIONS && (out@[i].status
                == Status::Ongoing ==> fertile(expand, out@[i].game))
}

/// A rollout took the node `pre` to the node `post` and returned `ret`.
///
/// The visit count grew by one. A decided position changed in nothing
/// else, and its value came back: minus one for a loss, one for a win. An
/// unexpanded position got the children that its successors became, and
/// its evaluation as mean value, which came back from the opponent's side.
/// An expanded position had the child of the best move rolled out, took
/// what came back into its mean, and returned it from the opponent's side.
pub open spec fn rolled<
    V: Value,
    E: Fn(Game) -> (Vec<V>, V),
    X: Fn(Game) -> Vec<Successor>,
    R: Fn(V) -> V,
>(pre: Node<V>, post: Node<V>, ret: V, evaluate: E, expand: X, sqrt: R, exploration: V) -> bool
    decreases pre,
{
    &&& post.game == pre.game
    &&& post.status == pre.status
    &&& post.policy == pre.policy
    &&& post.visited_count == pre.visited_count + 1
    &&& match pre.status {
        Status::Loss => post.children == pre.children && post.expected_reward
            == pre.expected_reward && ret == count::<V>(1).neg_spec(),
        Status::Win => post.children == pre.children && post.expected_reward
            == pre.expected_reward && ret == count::<V>(1),
        Status::Ongoing => match pre.children {
            None => exists|out: (Vec<V>, V), successors: Vec<Successor>|
                {
                    &&& #[trigger] call_ensures(evaluate, (pre.game,), out)
                    &&& #[trigger] call_ensures(expand, (pre.game,), successors)
                    &&& post.children is Some
                    &&& post.children->Some_0@ == grown(successors@, out.0@, successors@.len())
                    &&& post.expected_reward == out.1
                    &&& ret == out.1.neg_spec()
                },
            Some(kids) => exists|root: V, below: V|
                {
                    let best = best_below(kids@, root, exploration, ACTIONS as nat);
                    &&& #[trigger] call_ensures(sqrt, (count::<V>(post.visited_count),), root)
                    &&& best is Some
                    &&& kids@.contains_key(best->Some_0)
                    &&& post.children is Some
                    &&& post.children->Some_0@ == kids@.insert(
                        best->Some_0,
                        post.children->Some_0@[best->Some_0],
                    )
                    &&& rolled(
                        kids@[best->Some_0],
                        post.children->Some_0@[best->Some_0],
                        below,
                        evaluate,
                        expand,
                        sqrt,
                        exploration,
                    )
                    &&& post.expected_reward == #[trigger] running_mean(
                        pre.expected_reward,
                        below,
                        post.visited_count,
                    )
                    &&& ret == below.neg_spec()
                },
        },
    }
}

impl<V: Value> Node<V> {
    /// One rollout through this node: see `rolled`.
    pub fn rollout<E: Fn(Game) -> (Vec<V>, V), X: Fn(Game) -> Vec<Successor>, R: Fn(V) -> V>(
        &mut self,
        evaluate: &E,
        expand: &X,
        sqrt: &R,
        exploration: V,
    ) -> (r: V)
        requires
            exact::<V>(),
            old(self).wf(),
            old(self).ready(*expand),
            old(self).visited_count < u32::MAX,
            guides(*evaluate, *expand, *sqrt),
        ensures
            final(self).wf(),
            final(self).ready(*expand),
            rolled(*old(self), *final(self), r, *evaluate, *expand, *sqrt, exploration),
        decreases *old(self),
    {
        broadcast use group_hash_axioms;

        self.visited_count += 1;
        match self.status {
            Status::Loss => {
                return V::from(1u32).neg();
            },
            Status::Win => {
                return V::from(1u32);
            },
            Status::Ongoing => {},
        }
        if self.children.is_none() {
            let out = evaluate(self.game);
            let successors = expand(self.game);
            assert(fertile(*expand, self.game));
            let back = self.populate(&out.0, out.1, &successors);
            proof {
                let kids = self.children->Some_0@;
                assert forall|a: usize| kids.contains_key(a) implies (#[trigger] kids[a]).ready(
                    *expand,
                ) by {
                    assert(from_successor(kids[a], successors@, out.0@, successors@.len()));
                    let k = choose|k: int|
                        0 <= k < successors@.len() && kids[a] == fresh(
                            #[trigger] successors@[k],
                            out.0@,
                        );
                    assert(successors@[k].action < ACTIONS);
                }
            }
            return back;
        }
        let root = sqrt(V::from(self.visited_count));
        let ghost before = self.children->Some_0@;
        let ghost mut at: usize = 0;
        proof {
            let some = choose|a: usize| before.contains_key(a);
            assert(before.contains_key(some) && some < ACTIONS);
        }
        let below = match &mut self.children {
            Some(kids) => {
                let best = select(kids, root, exploration);
                match best {
                    Some(a) => {
                        proof {
                            at = a;
                            lemma_visits_bound(before, a, ACTIONS as nat);
                            assert(before[a].wf() && before[a].ready(*expand));
                        }
                        match kids.remove(&a) {
                            Some(mut child) => {
                                assert(child == before[a]);
                                let below = child.rollout(evaluate, expand, sqrt, exploration);
                                kids.insert(a, child);
                                below
                            },
                            None => vstd::pervasive::unreached(),
                        }
                    },
                    None => vstd::pervasive::unreached(),
                }
            },
            None => vstd::pervasive::unreached(),
        };
        proof {
            let after = self.children->Some_0@;
            assert(after =~= before.insert(at, after[at]));
            lemma_one_more_visit(before, after, at, ACTIONS as nat);
            assert forall|a: usize| #[trigger] after.contains_key(a) implies a < ACTIONS by {
                assert(before.contains_key(a));
            }
            assert forall|a: usize| after.contains_key(a) implies (#[trigger] after[a]).wf()
                && after[a].ready(*expand) by {
                if a != at {
                    assert(before.contains_key(a) && after[a] == before[a]);
                    assert(before[a].wf() && before[a].ready(*expand));
                }
            }
            assert(after.contains_key(at));
        }
        self.expected_reward = (V::from(self.visited_count - 1) * self.expected_reward + below)
            / V::from(self.visited_count);
        let back = below.neg();
        proof {
            let pre = *old(self);
            let post = *self;
            let after = post.children->Some_0@;
            assert(pre.children->Some_0@ == before);
            assert(best_below(before, root, exploration, ACTIONS as nat) == Some(at));
            assert(call_ensures(*sqrt, (count::<V>(post.visited_count),), root));
            assert(rolled(before[at], after[at], below, *evaluate, *expand, *sqrt, exploration));
            assert(post.expected_reward == running_mean(
                pre.expected_reward,
                below,
                post.visited_count,
            ));
            assert(after == before.insert(at, after[at]));
        }
        back
    }
}

/// A move can be drawn with `weights` as the moves' chances: there are
/// weights, none of them is below zero or without an order to zero, and
/// one of them is above zero.
pub open spec fn sampleable<V: Value>(weights: Seq<V>) -> bool {
    &&& weights.len() > 0
    &&& forall|i: int| 0 <= i < weights.len() ==> reaches(#[trigger] weights[i], count::<V>(0))
    &&& exists|i: int| 0 <= i < weights.len() && exceeds(#[trigger] weights[i], count::<V>(0))
}

/// Whether a move can be drawn with `weights` as the moves' chances. An
/// improved policy whose entries are all zero, as right after the
/// expansion, is one from which no move can be drawn.
pub fn is_sampleable<V: Value>(weights: &Vec<V>) -> (r: bool)
    requires
        faithful::<V>(),
    ensures
        r == sampleable(weights@),
{
    let zero = V::from(0u32);
    let mut positive = false;
    let mut i: usize = 0;
    while i < weights.len()
        invariant
            i <= weights@.len(),
            faithful::<V>(),
            zero == count::<V>(0),
            forall|j: int| 0 <= j < i ==> reaches(#[trigger] weights@[j], zero),
            positive <==> exists|j: int| 0 <= j < i && exceeds(#[trigger] weights@[j], zero),
        decreases weights@.len() - i,
    {
        if !at_least(&weights[i], &zero) {
            return false;
        }
        if greater(&weights[i], &zero) {
            positive = true;
        }
        i += 1;
    }
    positive
}

/// The root for the first of the first `n` successors that `action` leads
/// to.
pub open spec fn first_reached<V: Value>(successors: Seq<Successor>, action: usize, n: nat) -> Option<
    Node<V>,
>
    decreases n,
{
    if n == 0 {
        None
    } else {
        match first_reached::<V>(successors, action, (n - 1) as nat) {
            Some(node) => Some(node),
            None => if successors[n - 1].action == action {
                Some(root_of(successors[n - 1].game, successors[n - 1].status))
            } else {
                None
            },
        }
    }
}

impl<V: Value> Node<V> {
    /// Commits to the move `move_index`: the child that it leads to, with
    /// all that the search has found below it; its siblings are dropped.
    /// Where the node was never expanded, the root for the first successor
    /// that the move leads to. `None` where the move leads nowhere.
    pub fn step<X: FnOnce(Game) -> Vec<Successor>>(self, move_index: usize, expand: X) -> (r:
        Option<Node<V>>)
        requires
            faithful::<V>(),
            self.wf(),
            self.children is None ==> call_requires(expand, (self.game,)),
        ensures
            r is Some ==> r->Some_0.wf(),
            match self.children {
                Some(kids) => r == (if kids@.contains_key(move_index) {
                    Some(kids@[move_index])
                } else {
                    None
                }),
                None => exists|successors: Vec<Successor>| #[trigger]
                    call_ensures(expand, (self.game,), successors) && r == first_reached::<V>(
                        successors@,
                        move_index,
                        successors@.len(),
                    ),
            },
    {
        broadcast use group_hash_axioms;

        match self.children {
            Some(mut kids) => kids.remove(&move_index),
            None => {
                let successors = expand(self.game);
                let mut i: usize = 0;
                while i < successors.len()
                    invariant
                        i <= successors@.len(),
                        faithful::<V>(),
                        self.children is None,
                        call_ensures(expand, (self.game,), successors),
                        first_reached::<V>(successors@, move_index, i as nat) is None,
                    decreases successors@.len() - i,
                {
                    if successors[i].action == move_index {
                        let node = Node::from(successors[i].game, successors[i].status);
                        proof {
                            assert(first_reached::<V>(successors@, move_index, (i + 1) as nat)
                                == Some(node));
                            lemma_first_reached_stays::<V>(
                                successors@,
                                move_index,
                                (i + 1) as nat,
                                successors@.len(),
                            );
                        }
                        return Some(node);
                    }
                    i += 1;
                }
                None
            },
        }
    }
}

/// What a move first reaches among fewer successors, it first reaches
/// among more.
pub proof fn lemma_first_reached_stays<V: Value>(
    successors: Seq<Successor>,
    action: usize,
    n: nat,
    m: nat,
)
    requires
        n <= m,
        first_reached::<V>(successors, action, n) is Some,
    ensures
        first_reached::<V>(successors, action, m) == first_reached::<V>(successors, action, n),
    decreases m,
{
    if n < m {
        lemma_first_reached_stays::<V>(successors, action, n, (m - 1) as nat);
    }
}

/// A rollout through an expanded node descends into exactly one child:
/// that child's visit count grows by one, as the node's own does, and no
/// other child changes. The node's count stays one more than its
/// children's together.
pub proof fn lemma_rollout_descends_once<
    V: Value,
    E: Fn(Game) -> (Vec<V>, V),
    X: Fn(Game) -> Vec<Successor>,
    R: Fn(V) -> V,
>(pre: Node<V>, post: Node<V>, ret: V, evaluate: E, expand: X, sqrt: R, exploration: V)
    requires
        rolled(pre, post, ret, evaluate, expand, sqrt, exploration),
        pre.status == Status::Ongoing,
        pre.children is Some,
    ensures
        post.visited_count == pre.visited_count + 1,
        post.children is Some,
        post.children->Some_0@.dom() == pre.children->Some_0@.dom(),
        exists|at: usize|
            {
                &&& #[trigger] pre.children->Some_0@.contains_key(at)
                &&& post.children->Some_0@[at].visited_count
                    == pre.children->Some_0@[at].visited_count + 1
                &&& forall|a: usize|
                    a != at && pre.children->Some_0@.contains_key(a)
                        ==> #[trigger] post.children->Some_0@[a] == pre.children->Some_0@[a]
            },
        pre.wf() ==> post.visited_count == 1 + visits_in(post.children->Some_0@, ACTIONS as nat),
{
    let kids = pre.children->Some_0@;
    let after = post.children->Some_0@;
    let (root, below): (V, V) = choose|root: V, below: V|
        {
            let best = best_below(kids, root, exploration, ACTIONS as nat);
            &&& #[trigger] call_ensures(sqrt, (count::<V>(post.visited_count),), root)
            &&& best is Some
            &&& kids.contains_key(best->Some_0)
            &&& post.children is Some
            &&& after == kids.insert(best->Some_0, after[best->Some_0])
            &&& rolled(
                kids[best->Some_0],
                after[best->Some_0],
                below,
                evaluate,
                expand,
                sqrt,
                exploration,
            )
            &&& post.expected_reward == #[trigger] running_mean(
                pre.expected_reward,
                below,
                post.visited_count,
            )
            &&& ret == below.neg_spec()
        };
    let at = best_below(kids, root, exploration, ACTIONS as nat)->Some_0;
    assert(after[at].visited_count == kids[at].visited_count + 1);
    assert(after.dom() =~= kids.dom());
    lemma_one_more_visit(kids, after, at, ACTIONS as nat);
    lemma_best_is_maximal(kids, root, exploration, ACTIONS as nat);
    assert(kids.contains_key(at));
}

/// After rollouts one after the other through a node, its visit count
/// has grown by their number.
pub proof fn lemma_visits_count_rollouts<
    V: Value,
    E: Fn(Game) -> (Vec<V>, V),
    X: Fn(Game) -> Vec<Successor>,
    R: Fn(V) -> V,
>(states: Seq<Node<V>>, values: Seq<V>, evaluate: E, expand: X, sqrt: R, exploration: V)
    requires
        states.len() == values.len() + 1,
        forall|k: int|
            0 <= k < values.len() ==> rolled(
                #[trigger] states[k],
                states[k + 1],
                values[k],
                evaluate,
                expand,
                sqrt,
                exploration,
            ),
    ensures
        states.last().visited_count == states[0].visited_count + values.len(),
    decreases values.len(),
{
    if values.len() > 0 {
        let n = values.len() - 1;
        lemma_visits_count_rollouts(
            states.drop_last(),
            values.drop_last(),
            evaluate,
            expand,
            sqrt,
            exploration,
        );
        assert(rolled(states[n], states[n + 1], values[n], evaluate, expand, sqrt, exploration));
    }
}

/// An entry of the improved policy that is not zero stands at the index
/// of a child's move; and where no child's mean value is zero, the entries
/// that are not zero are exactly those at the indices of the children's
/// moves.
pub proof fn lemma_policy_support<V: Value>(kids: Map<usize, Node<V>>, action: usize, zero: V)
    ensures
        estimate_of(kids, action, zero) != zero ==> kids.contains_key(action),
        (forall|a: usize| kids.contains_key(a) ==> (#[trigger] kids[a]).expected_reward != zero)
            ==> (estimate_of(kids, action, zero) != zero <==> kids.contains_key(action)),
{
}

/// `count` rollouts, one after the other, took the node `pre` to the node
/// `post`.
pub open spec fn rolled_times<
    V: Value,
    E: Fn(Game) -> (Vec<V>, V),
    X: Fn(Game) -> Vec<Successor>,
    R: Fn(V) -> V,
>(pre: Node<V>, post: Node<V>, count: nat, evaluate: E, expand: X, sqrt: R, exploration: V) -> bool
    decreases count,
{
    if count == 0 {
        post == pre
    } else {
        exists|mid: Node<V>, ret: V|
            rolled_times(pre, mid, (count - 1) as nat, evaluate, expand, sqrt, exploration)
                && #[trigger] rolled(mid, post, ret, evaluate, expand, sqrt, exploration)
    }
}

/// Rollouts one after the other add their number to the visit count.
pub proof fn lemma_rolled_times_counts<
    V: Value,
    E: Fn(Game) -> (Vec<V>, V),
    X: Fn(Game) -> Vec<Successor>,
    R: Fn(V) -> V,
>(pre: Node<V>, post: Node<V>, count: nat, evaluate: E, expand: X, sqrt: R, exploration: V)
    requires
        rolled_times(pre, post, count, evaluate, expand, sqrt, exploration),
    ensures
        post.visited_count == pre.visited_count + count,
    decreases count,
{
    if count > 0 {
        let (mid, ret): (Node<V>, V) = choose|mid: Node<V>, ret: V|
            rolled_times(pre, mid, (count - 1) as nat, evaluate, expand, sqrt, exploration)
                && #[trigger] rolled(mid, post, ret, evaluate, expand, sqrt, exploration);
        lemma_rolled_times_counts(
            pre,
            mid,
            (count - 1) as nat,
            evaluate,
            expand,
            sqrt,
            exploration,
        );
    }
}

impl<V: Value> Node<V> {
    /// `count` rollouts through this node, one after the other.
    pub fn rollouts<E: Fn(Game) -> (Vec<V>, V), X: Fn(Game) -> Vec<Successor>, R: Fn(V) -> V>(
        &mut self,
        count: u32,
        evaluate: &E,
        expand: &X,
        sqrt: &R,
        exploration: V,
    )
        requires
            exact::<V>(),
            old(self).wf(),
            old(self).ready(*expand),
            old(self).visited_count + count <= u32::MAX,
            guides(*evaluate, *expand, *sqrt),
        ensures
            final(self).wf(),
            final(self).ready(*expand),
            final(self).visited_count == old(self).visited_count + count,
            rolled_times(
                *old(self),
                *final(self),
                count as nat,
                *evaluate,
                *expand,
                *sqrt,
                exploration,
            ),
    {
        let mut done: u32 = 0;
        while done < count
            invariant
                done <= count,
                exact::<V>(),
                self.wf(),
                self.ready(*expand),
                self.visited_count == old(self).visited_count + done,
                old(self).visited_count + count <= u32::MAX,
                guides(*evaluate, *expand, *sqrt),
                rolled_times(
                    *old(self),
                    *self,
                    done as nat,
                    *evaluate,
                    *expand,
                    *sqrt,
                    exploration,
                ),
            decreases count - done,
        {
            let ghost mid = *self;
            let ret = self.rollout(evaluate, expand, sqrt, exploration);
            proof {
                assert(rolled(mid, *self, ret, *evaluate, *expand, *sqrt, exploration));
            }
            done += 1;
        }
    }

    /// A root for a random opening position.
    pub fn random() -> (r: Node<V>)
        requires
            faithful::<V>(),
        ensures
            r.wf(),
            r == root_of::<V>(r.game, Status::Ongoing),
            exists|cards: Seq<u32>| crate::game::is_deal(cards) && r.game == crate::game::opening(cards),
    {
        Node::from(crate::game::random_game(), Status::Ongoing)
    }
}

} // verus!
