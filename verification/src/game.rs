//! Positions of the game as the search holds them.

use rand::distributions::Distribution;
use rand::distributions::Uniform;
use rand::thread_rng;
use vstd::prelude::*;
use crate::tensor::repeat;
use crate::tensor::Tensor;
use crate::tensor::Tensor3;

verus! {

/// The number of moves that a position can name: one for each pair of a
/// square to leave and a square to reach on the board of five by five.
pub const ACTIONS: usize = 625;

/// A position, from the side of the player to move: that player's pieces
/// and king, the opponent's, the cards in the two hands, and the card on
/// the table.
#[derive(Clone, Copy, Debug, PartialEq, Eq)]
pub struct Game {
    pub my: u32,
    pub other: u32,
    pub cards: u32,
    pub table: u32,
}

/// How a position stands for the player to move.
#[derive(Clone, Copy, Debug, PartialEq, Eq)]
pub enum Status {
    /// The game goes on.
    Ongoing,
    /// The player to move has lost.
    Loss,
    /// The player to move has won.
    Win,
}

/// A position that one legal move leads to.
#[derive(Clone, Copy, Debug, PartialEq, Eq)]
pub struct Successor {
    /// The move's index: the square left times 25, plus the square reached.
    pub action: usize,
    /// The position after the move, from the side of the player then to
    /// move.
    pub game: Game,
    /// How that position stands for the player then to move.
    pub status: Status,
}

/// The index of the move from square `from` to square `to`.
pub fn action_index(from: u32, to: u32) -> (r: usize)
    requires
        from < 25,
        to < 25,
    ensures
        r == from * 25 + to,
        r < ACTIONS,
{
    (from * 25 + to) as usize
}

/// Square `i` is the lowest of the 25 squares that `mask` marks.
pub open spec fn is_lowest_square(mask: u32, i: u32) -> bool {
    &&& i < 25
    &&& mask & (1u32 << i) != 0
    &&& forall|j: u32| j < i ==> mask & (1u32 << j) == 0
}

/// The lowest of the 25 squares that `mask` marks.
pub fn lowest_square(mask: u32) -> (r: Option<u32>)
    ensures
        r is Some ==> is_lowest_square(mask, r->Some_0),
        r is None ==> forall|j: u32| j < 25 ==> mask & (1u32 << j) == 0,
{
    let mut i: u32 = 0;
    while i < 25
        invariant
            i <= 25,
            forall|j: u32| j < i ==> mask & (1u32 << j) == 0,
        decreases 25 - i,
    {
        if mask & (1u32 << i) != 0 {
            return Some(i);
        }
        i += 1;
    }
    None
}

/// The index of the move that took the mover's pieces from `before` to
/// `after`: from the lowest square that was left to the lowest square
/// that was reached. `None` where no square was left or none was reached.
pub fn move_index(before: u32, after: u32) -> (r: Option<usize>)
    ensures
        match r {
            Some(index) => exists|from: u32, to: u32|
                is_lowest_square(before & !after, from) && is_lowest_square(after & !before, to)
                    && index == #[trigger] (from * 25 + to),
            None => (forall|j: u32| j < 25 ==> (before & !after) & (1u32 << j) == 0) || (forall|
                j: u32,
            | j < 25 ==> (after & !before) & (1u32 << j) == 0),
        },
        r is Some ==> r->Some_0 < ACTIONS,
{
    match (lowest_square(before & !after), lowest_square(after & !before)) {
        (Some(from), Some(to)) => Some(action_index(from, to)),
        _ => None,
    }
}

/// The number of cards of the game.
pub const CARDS: u32 = 16;

/// A sample of `Uniform::new(0, bound)` from `thread_rng()`: some number
/// below `bound`, which must not be zero.
#[verifier::external_body]
fn sample_below(bound: u32) -> (r: u32)
    requires
        bound > 0,
    ensures
        r < bound,
{
    Uniform::new(0u32, bound).sample(&mut thread_rng())
}

/// `cards` are five different cards.
pub open spec fn is_deal(cards: Seq<u32>) -> bool {
    &&& cards.len() == 5
    &&& forall|i: int| 0 <= i < 5 ==> #[trigger] cards[i] < CARDS
    &&& forall|i: int, j: int| 0 <= i < j < 5 ==> cards[i] != cards[j]
}

/// The opening position with the first two cards in the hand of the
/// player to move, the next two in the opponent's, and the last on the
/// table.
pub open spec fn opening(cards: Seq<u32>) -> Game {
    Game {
        my: 0b11111u32 | (2u32 << 25),
        other: 0b11111u32 | (2u32 << 25),
        cards: ((1u32 << cards[0]) | (1u32 << cards[1])) | (((1u32 << cards[2]) | (1u32
            << cards[3])) << 16),
        table: cards[4],
    }
}

/// The opening position for five different cards.
pub fn deal(cards: &Vec<u32>) -> (r: Game)
    requires
        is_deal(cards@),
    ensures
        r == opening(cards@),
{
    assert(cards@[0] < CARDS && cards@[1] < CARDS && cards@[2] < CARDS && cards@[3] < CARDS);
    let my_cards: u32 = (1u32 << cards[0]) | (1u32 << cards[1]);
    let other_cards: u32 = (1u32 << cards[2]) | (1u32 << cards[3]);
    Game {
        my: 0b11111u32 | (2u32 << 25),
        other: 0b11111u32 | (2u32 << 25),
        cards: my_cards | (other_cards << 16),
        table: cards[4],
    }
}

/// Five different cards, each drawn at random from those left.
pub fn draw_cards() -> (r: Vec<u32>)
    ensures
        is_deal(r@),
{
    let mut pool: Vec<u32> = Vec::new();
    let mut c: u32 = 0;
    while c < CARDS
        invariant
            c <= CARDS,
            pool@.len() == c,
            forall|i: int| 0 <= i < c ==> pool@[i] == i,
        decreases CARDS - c,
    {
        pool.push(c);
        c += 1;
    }
    let mut cards: Vec<u32> = Vec::new();
    let mut k: u32 = 0;
    while k < 5
        invariant
            k <= 5,
            cards@.len() == k,
            pool@.len() == CARDS - k,
            forall|i: int| 0 <= i < pool@.len() ==> #[trigger] pool@[i] < CARDS,
            forall|i: int, j: int| 0 <= i < j < pool@.len() ==> pool@[i] != pool@[j],
            forall|i: int| 0 <= i < cards@.len() ==> #[trigger] cards@[i] < CARDS,
            forall|i: int, j: int| 0 <= i < j < cards@.len() ==> cards@[i] != cards@[j],
            forall|i: int, j: int|
                0 <= i < cards@.len() && 0 <= j < pool@.len() ==> cards@[i] != pool@[j],
        decreases 5 - k,
    {
        let at = sample_below(CARDS - k) as usize;
        let card = pool.remove(at);
        cards.push(card);
        k += 1;
    }
    cards
}

/// A random opening position.
pub fn random_game() -> (r: Game)
    ensures
        exists|cards: Seq<u32>| is_deal(cards) && r == opening(cards),
{
    let cards = draw_cards();
    let game = deal(&cards);
    assert(is_deal(cards@) && game == opening(cards@));
    game
}

/// Whether cell `j` of a plane is marked in `bitmap`: the plane's 25 cells
/// are the bitmap's low 25 bits, the highest of them first.
pub open spec fn marks(bitmap: u32, j: int) -> bool {
    bitmap & (0x8000_0000u32 >> ((j + 7) as u32)) != 0
}

/// Writes `one` into the cells from `start` on that `bitmap` marks.
pub fn write_bitmap_into_data<T: Copy>(data: &mut Vec<T>, bitmap: u32, start: usize, one: T)
    requires
        start + 25 <= old(data)@.len(),
    ensures
        final(data)@.len() == old(data)@.len(),
        forall|i: int|
            0 <= i < old(data)@.len() ==> final(data)@[i] == (if start <= i < start + 25 && marks(
                bitmap,
                i - start,
            ) {
                one
            } else {
                old(data)@[i]
            }),
{
    let total: usize = data.len();
    let mut i: u32 = 7;
    while i < 32
        invariant
            7 <= i <= 32,
            total == data@.len(),
            start + 25 <= old(data)@.len(),
            data@.len() == old(data)@.len(),
            forall|p: int|
                0 <= p < old(data)@.len() ==> data@[p] == (if start <= p < start + (i - 7) && marks(
                    bitmap,
                    p - start,
                ) {
                    one
                } else {
                    old(data)@[p]
                }),
        decreases 32 - i,
    {
        if bitmap & (0x8000_0000u32 >> i) != 0 {
            data[start + (i - 7) as usize] = one;
        }
        i += 1;
    }
}

/// The kings' plane: the cell of the king of the player to move, counted
/// from the last cell, and the cell of the opponent's king, counted from
/// the first.
pub open spec fn kings(game: Game) -> u32 {
    (1u32 << (game.my >> 25)) | ((1u32 << 24) >> (game.other >> 25))
}

/// Whether cell `j` of a plane is marked in `bitmap` read the other way
/// round: the lowest bit first.
pub open spec fn marks_mirrored(bitmap: u32, j: int) -> bool {
    bitmap & (1u32 << (j as u32)) != 0
}

/// Writes `one` into the cells from `start` on that `bitmap` marks when it
/// is read the other way round.
pub fn write_mirrored_into_data<T: Copy>(data: &mut Vec<T>, bitmap: u32, start: usize, one: T)
    requires
        start + 25 <= old(data)@.len(),
    ensures
        final(data)@.len() == old(data)@.len(),
        forall|i: int|
            0 <= i < old(data)@.len() ==> final(data)@[i] == (if start <= i < start + 25
                && marks_mirrored(bitmap, i - start) {
                one
            } else {
                old(data)@[i]
            }),
{
    let total: usize = data.len();
    let mut i: u32 = 0;
    while i < 25
        invariant
            i <= 25,
            total == data@.len(),
            start + 25 <= old(data)@.len(),
            data@.len() == old(data)@.len(),
            forall|p: int|
                0 <= p < old(data)@.len() ==> data@[p] == (if start <= p < start + i
                    && marks_mirrored(bitmap, p - start) {
                    one
                } else {
                    old(data)@[p]
                }),
        decreases 25 - i,
    {
        if bitmap & (1u32 << i) != 0 {
            data[start + i as usize] = one;
        }
        i += 1;
    }
}

/// Whether cell `cell` of plane `plane` of a position's input is marked:
/// the planes are the pieces of the player to move, the opponent's pieces
/// seen from the other side, the kings, and the five cards.
pub open spec fn input_marks(game: Game, piece_mask: u32, cards: Seq<u32>, plane: int, cell: int) -> bool {
    if plane == 0 {
        marks(game.my & piece_mask, cell)
    } else if plane == 1 {
        marks_mirrored(game.other & piece_mask, cell)
    } else if plane == 2 {
        marks(kings(game), cell)
    } else {
        marks(cards[plane - 3], cell)
    }
}

/// The input of the network for a position: eight planes of five by five,
/// `one` in the cells that are marked and `zero` elsewhere. `cards` are
/// the bitmaps of the two cards of the player to move, of the opponent's
/// two, and of the card on the table; `piece_mask` selects the pieces'
/// bits of a player's word.
pub fn game_to_input<T: Copy>(
    game: &Game,
    piece_mask: u32,
    cards: &Vec<u32>,
    zero: T,
    one: T,
) -> (r: Tensor3<T, 5, 5, 8>)
    requires
        cards@.len() == 5,
        game.my >> 25 < 32,
        game.other >> 25 < 32,
    ensures
        r.wf(),
        forall|p: int|
            0 <= p < 200 ==> r@[p] == (if input_marks(*game, piece_mask, cards@, p / 25, p % 25) {
                one
            } else {
                zero
            }),
{
    let mut data: Vec<T> = repeat(zero, 200);
    write_bitmap_into_data(&mut data, game.my & piece_mask, 0, one);
    write_mirrored_into_data(&mut data, game.other & piece_mask, 25, one);
    let kings: u32 = (1u32 << (game.my >> 25)) | ((1u32 << 24) >> (game.other >> 25));
    write_bitmap_into_data(&mut data, kings, 50, one);
    write_bitmap_into_data(&mut data, cards[0], 75, one);
    write_bitmap_into_data(&mut data, cards[1], 100, one);
    write_bitmap_into_data(&mut data, cards[2], 125, one);
    write_bitmap_into_data(&mut data, cards[3], 150, one);
    write_bitmap_into_data(&mut data, cards[4], 175, one);
    proof {
        Tensor3::<T, 5, 5, 8>::lemma_volume();
        assert forall|p: int| 0 <= p < 200 implies data@[p] == (if input_marks(
            *game,
            piece_mask,
            cards@,
            p / 25,
            p % 25,
        ) {
            one
        } else {
            zero
        }) by {
            let plane = p / 25;
            assert(p - plane * 25 == p % 25);
        }
    }
    Tensor3::from_parts(data)
}

} // verus!
