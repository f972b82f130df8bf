use alphazero::game::{Game, Status, Successor, ACTIONS};
use std::collections::HashMap;

use alphazero::mcts::{is_sampleable, score, select, Node};

fn position(tag: u32) -> Game {
    Game { my: tag, other: 0, cards: 0, table: 0 }
}

fn leaf(action: usize, reward: f64, policy: f64, visits: u32) -> (usize, Node<f64>) {
    (
        action,
        Node {
            game: position(action as u32),
            status: Status::Ongoing,
            policy,
            expected_reward: reward,
            visited_count: visits,
            children: None,
        },
    )
}

fn children<const N: usize>(leaves: [(usize, Node<f64>); N]) -> HashMap<usize, Node<f64>> {
    leaves.into_iter().collect()
}

// A toy game: position `n` has the successors `2n + 1` by move 3 and
// `2n + 2` by move 10; positions from 5 on are lost for the player to move.
fn successors(game: Game) -> Vec<Successor> {
    let status = |tag: u32| if tag >= 5 { Status::Loss } else { Status::Ongoing };
    vec![
        Successor { action: 3, game: position(2 * game.my + 1), status: status(2 * game.my + 1) },
        Successor { action: 10, game: position(2 * game.my + 2), status: status(2 * game.my + 2) },
    ]
}

fn evaluation(game: Game) -> (Vec<f64>, f64) {
    let mut priors = vec![0.; ACTIONS];
    priors[3] = 0.25;
    priors[10] = 0.75;
    (priors, 0.1 * game.my as f64)
}

fn root(x: f64) -> f64 {
    x.sqrt()
}

fn visits_below(node: &Node<f64>) -> u32 {
    match &node.children {
        Some(kids) => kids.values().map(|kid| kid.visited_count).sum(),
        None => 0,
    }
}

fn check_counts(node: &Node<f64>) {
    if let Some(kids) = &node.children {
        assert_eq!(node.visited_count, 1 + visits_below(node));
        for kid in kids.values() {
            check_counts(kid);
        }
    } else if node.status == Status::Ongoing {
        assert_eq!(node.visited_count, 0);
    }
}

#[test]
fn rollout_on_a_lost_position_returns_minus_one() {
    let mut node: Node<f64> = Node::from(position(0), Status::Loss);
    let value = node.rollout(&evaluation, &successors, &root, 0.5);
    assert_eq!(value, -1.0);
    assert_eq!(node.visited_count, 1);
    assert!(node.children.is_none());
    assert_eq!(node.expected_reward, 0.0);
    let again = node.rollout(&evaluation, &successors, &root, 0.5);
    assert_eq!(again, -1.0);
    assert_eq!(node.visited_count, 2);
    assert!(node.children.is_none());
}

#[test]
fn rollout_on_a_won_position_returns_one() {
    let mut node: Node<f64> = Node::from(position(0), Status::Win);
    assert_eq!(node.rollout(&evaluation, &successors, &root, 0.5), 1.0);
    assert_eq!(node.visited_count, 1);
    assert!(node.children.is_none());
}

#[test]
fn first_rollout_expands_the_node() {
    let mut node: Node<f64> = Node::from(position(2), Status::Ongoing);
    assert_eq!(node.policy, 1.0);
    assert_eq!(node.expected_reward, 0.0);
    let value = node.rollout(&evaluation, &successors, &root, 0.5);
    assert_eq!(value, -0.2);
    assert_eq!(node.expected_reward, 0.2);
    assert_eq!(node.visited_count, 1);
    let kids = node.children.as_ref().unwrap();
    assert_eq!(kids.len(), 2);
    assert_eq!(kids[&3].game, position(5));
    assert_eq!(kids[&3].status, Status::Loss);
    assert_eq!(kids[&3].policy, 0.25);
    assert_eq!(kids[&3].expected_reward, 0.0);
    assert_eq!(kids[&3].visited_count, 0);
    assert!(kids[&3].children.is_none());
    assert_eq!(kids[&10].game, position(6));
    assert_eq!(kids[&10].policy, 0.75);
}

#[test]
fn second_rollout_descends_into_the_best_child_and_takes_the_mean() {
    let mut node: Node<f64> = Node::from(position(0), Status::Ongoing);
    node.rollout(&evaluation, &successors, &root, 0.5);
    assert_eq!(node.expected_reward, 0.0);
    // Both children have a mean of zero; move 10 has the greater prior.
    let value = node.rollout(&evaluation, &successors, &root, 0.5);
    let kids = node.children.as_ref().unwrap();
    assert_eq!(kids[&3].visited_count, 0);
    assert_eq!(kids[&10].visited_count, 1);
    // The child, position 2, was expanded and returned minus its value.
    assert_eq!(kids[&10].expected_reward, 0.2);
    assert_eq!(value, 0.2);
    assert_eq!(node.visited_count, 2);
    assert_eq!(node.expected_reward, (1.0 * 0.0 + -0.2) / 2.0);
}

#[test]
fn visit_counts_count_the_rollouts() {
    let mut node: Node<f64> = Node::from(position(0), Status::Ongoing);
    for n in 1..=60 {
        node.rollout(&evaluation, &successors, &root, 0.5);
        assert_eq!(node.visited_count, n);
        check_counts(&node);
    }
    assert_eq!(visits_below(&node), 59);
}

#[test]
fn score_is_the_upper_confidence_bound() {
    let child = leaf(7, 0.5, 0.25, 3).1;
    assert_eq!(score(&child, 4.0, 0.5), 0.5 + 0.5 * 0.25 * 4.0 / (1.0 + 3.0));
    assert_eq!(score(&child, 0.0, 0.5), 0.5);
}

#[test]
fn select_takes_the_best_score_and_of_equal_scores_the_lowest_move() {
    let kids = children([
        leaf(40, 0.2, 0.0, 0),
        leaf(30, 0.7, 0.0, 0),
        leaf(20, 0.7, 0.0, 0),
        leaf(10, 0.1, 0.0, 0),
    ]);
    assert_eq!(select(&kids, 1.0, 0.5), Some(20));
    let explore = children([leaf(1, 0.0, 0.2, 0), leaf(2, 0.0, 0.9, 9), leaf(3, 0.0, 0.5, 0)]);
    assert_eq!(select(&explore, 2.0, 1.0), Some(3));
    assert_eq!(select(&children([leaf(624, -1.0, 0.0, 0)]), 1.0, 0.5), Some(624));
    assert_eq!(select(&children([]), 1.0, 0.5), None);
    // Moves from 625 on are not looked at.
    assert_eq!(select(&children([leaf(625, 1.0, 0.0, 0)]), 1.0, 0.5), None);
}

#[test]
fn populate_keeps_the_last_successor_of_a_move() {
    let mut node: Node<f64> = Node::from(position(0), Status::Ongoing);
    node.visited_count = 1;
    let twice = vec![
        Successor { action: 3, game: position(1), status: Status::Ongoing },
        Successor { action: 9, game: position(2), status: Status::Ongoing },
        Successor { action: 3, game: position(7), status: Status::Win },
    ];
    let back = node.populate(&evaluation(position(0)).0, 0.5, &twice);
    assert_eq!(back, -0.5);
    let kids = node.children.as_ref().unwrap();
    assert_eq!(kids.len(), 2);
    assert_eq!(kids[&3].game, position(7));
    assert_eq!(kids[&3].status, Status::Win);
    assert_eq!(kids[&9].game, position(2));
}

#[test]
fn improved_policy_holds_the_childrens_means() {
    let mut node: Node<f64> = Node::from(position(0), Status::Ongoing);
    for _ in 0..20 {
        node.rollout(&evaluation, &successors, &root, 0.5);
    }
    let policy = node.improved_policy();
    assert_eq!(policy.len(), 625);
    let kids = node.children.as_ref().unwrap();
    for (index, entry) in policy.iter().enumerate() {
        if index == 3 {
            assert_eq!(*entry, kids[&3].expected_reward);
        } else if index == 10 {
            assert_eq!(*entry, kids[&10].expected_reward);
        } else {
            assert_eq!(*entry, 0.0);
        }
    }
    assert!(policy[3] != 0.0 || policy[10] != 0.0);
}

#[test]
fn improved_policy_right_after_expansion_is_all_zero() {
    let mut node: Node<f64> = Node::from(position(0), Status::Ongoing);
    node.rollout(&evaluation, &successors, &root, 0.5);
    assert!(node.improved_policy().iter().all(|entry| *entry == 0.0));
}

#[test]
fn step_promotes_the_child() {
    let mut node: Node<f64> = Node::from(position(0), Status::Ongoing);
    for _ in 0..10 {
        node.rollout(&evaluation, &successors, &root, 0.5);
    }
    let visits = node.children.as_ref().unwrap()[&10].visited_count;
    let reward = node.children.as_ref().unwrap()[&10].expected_reward;
    let child = node.step(10, successors).unwrap();
    assert_eq!(child.game, position(2));
    assert_eq!(child.visited_count, visits);
    assert_eq!(child.expected_reward, reward);
}

#[test]
fn step_on_an_unexpanded_node_asks_for_the_successors() {
    let node: Node<f64> = Node::from(position(1), Status::Ongoing);
    let child = node.step(3, successors).unwrap();
    assert_eq!(child.game, position(3));
    assert_eq!(child.status, Status::Ongoing);
    assert_eq!(child.policy, 1.0);
    assert_eq!(child.visited_count, 0);
    assert!(child.children.is_none());
}

#[test]
fn step_by_a_move_that_leads_nowhere_gives_nothing() {
    let mut node: Node<f64> = Node::from(position(0), Status::Ongoing);
    node.rollout(&evaluation, &successors, &root, 0.5);
    assert!(node.step(4, successors).is_none());
    let fresh: Node<f64> = Node::from(position(0), Status::Ongoing);
    assert!(fresh.step(4, successors).is_none());
}

#[test]
fn a_move_can_be_drawn_from_weights_that_are_not_negative_and_not_all_zero() {
    assert!(is_sampleable(&vec![0., 0.5, 0.]));
    assert!(is_sampleable(&vec![1e-300]));
    assert!(!is_sampleable(&vec![0., 0., 0.]));
    assert!(!is_sampleable(&Vec::<f64>::new()));
    assert!(!is_sampleable(&vec![0.5, -0.1]));
    assert!(!is_sampleable(&vec![0.5, f64::NAN]));
    let mut node: Node<f64> = Node::from(position(0), Status::Ongoing);
    node.rollout(&evaluation, &successors, &root, 0.5);
    assert!(!is_sampleable(&node.improved_policy()));
}

#[test]
fn rollouts_add_their_number_to_the_visit_count() {
    let mut node: Node<f64> = Node::from(position(0), Status::Ongoing);
    node.rollouts(0, &evaluation, &successors, &root, 0.5);
    assert_eq!(node.visited_count, 0);
    assert!(node.children.is_none());
    node.rollouts(25, &evaluation, &successors, &root, 0.5);
    assert_eq!(node.visited_count, 25);
    check_counts(&node);
    let mut twin: Node<f64> = Node::from(position(0), Status::Ongoing);
    for _ in 0..25 {
        twin.rollout(&evaluation, &successors, &root, 0.5);
    }
    assert_eq!(twin.expected_reward, node.expected_reward);
    assert_eq!(twin.improved_policy(), node.improved_policy());
}

#[test]
fn random_root_is_an_unvisited_opening() {
    let node: Node<f64> = Node::random();
    assert_eq!(node.status, Status::Ongoing);
    assert_eq!(node.visited_count, 0);
    assert_eq!(node.policy, 1.0);
    assert!(node.children.is_none());
    assert_eq!(node.game.my, 0b11111 | 2 << 25);
}
