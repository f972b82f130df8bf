use alphazero::game::{
    action_index, deal, draw_cards, game_to_input, lowest_square, move_index, random_game,
    write_bitmap_into_data,
    write_mirrored_into_data, Game, ACTIONS,
};
use alphazero::tensor::{Tensor, Tensor3};

#[test]
fn write_bitmap() {
    let mut data = vec![0.; 30];
    write_bitmap_into_data(&mut data, 0b10011011, 5, 1.);
    assert_eq!(
        data,
        vec![
            0., 0., 0., 0., 0., //
            0., 0., 0., 0., 0., //
            0., 0., 0., 0., 0., //
            0., 0., 0., 0., 0., //
            0., 0., 1., 0., 0., //
            1., 1., 0., 1., 1.,
        ]
    );
}

#[test]
fn write_mirrored_reads_the_lowest_bit_first() {
    let mut data = vec![0; 27];
    write_mirrored_into_data(&mut data, 0b10011011 | 1 << 24 | 1 << 25, 1, 7);
    let mut expected = vec![0; 27];
    for cell in [0, 1, 3, 4, 7, 24] {
        expected[1 + cell] = 7;
    }
    assert_eq!(data, expected);
}

#[test]
fn convert() {
    let game = Game {
        my: 0b11111 | 2 << 25,
        other: 0b11111 | 2 << 25,
        cards: 0b00011 | 0b01100 << 16,
        table: 4,
    };
    let cards = vec![
        0b00000_00100_00010_00100_00000,
        0b00000_00100_01010_00000_00000,
        0b00000_00100_01000_00100_00000,
        0b00000_01010_01010_00000_00000,
        0b00000_00100_10001_00000_00000,
    ];
    let input = game_to_input(&game, (1 << 25) - 1, &cards, 0., 1.);
    assert_eq!(
        input,
        Tensor3::new(vec![
            0., 0., 0., 0., 0., //
            0., 0., 0., 0., 0., //
            0., 0., 0., 0., 0., //
            0., 0., 0., 0., 0., //
            1., 1., 1., 1., 1., //
            //
            1., 1., 1., 1., 1., //
            0., 0., 0., 0., 0., //
            0., 0., 0., 0., 0., //
            0., 0., 0., 0., 0., //
            0., 0., 0., 0., 0., //
            //
            0., 0., 1., 0., 0., //
            0., 0., 0., 0., 0., //
            0., 0., 0., 0., 0., //
            0., 0., 0., 0., 0., //
            0., 0., 1., 0., 0., //
            //
            0., 0., 0., 0., 0., //
            0., 0., 1., 0., 0., //
            0., 0., 0., 1., 0., //
            0., 0., 1., 0., 0., //
            0., 0., 0., 0., 0., //
            //
            0., 0., 0., 0., 0., //
            0., 0., 1., 0., 0., //
            0., 1., 0., 1., 0., //
            0., 0., 0., 0., 0., //
            0., 0., 0., 0., 0., //
            //
            0., 0., 0., 0., 0., //
            0., 0., 1., 0., 0., //
            0., 1., 0., 0., 0., //
            0., 0., 1., 0., 0., //
            0., 0., 0., 0., 0., //
            //
            0., 0., 0., 0., 0., //
            0., 1., 0., 1., 0., //
            0., 1., 0., 1., 0., //
            0., 0., 0., 0., 0., //
            0., 0., 0., 0., 0., //
            //
            0., 0., 0., 0., 0., //
            0., 0., 1., 0., 0., //
            1., 0., 0., 0., 1., //
            0., 0., 0., 0., 0., //
            0., 0., 0., 0., 0.,
        ])
        .unwrap()
    );
}

#[test]
fn game_to_input_mirrors_the_opponent() {
    let game = Game { my: 1 | 24 << 25, other: 1 << 3 | 1 << 24 | 4 << 25, cards: 0, table: 0 };
    let input: Tensor3<i32, 5, 5, 8> = game_to_input(&game, (1 << 25) - 1, &vec![0; 5], 0, 1);
    let data = input.get_data();
    let ones: Vec<usize> = (0..200).filter(|&i| data[i] == 1).collect();
    // Own piece at bit 0 is the last cell of plane 0; the opponent's bits 3
    // and 24 are cells 3 and 24 of plane 1; the own king at square 24 is
    // the first cell of plane 2, the opponent's at square 4 the fifth.
    assert_eq!(ones, vec![24, 25 + 3, 25 + 24, 50, 50 + 4]);
}

#[test]
fn deal_places_the_cards() {
    assert_eq!(
        deal(&vec![0, 1, 2, 3, 4]),
        Game {
            my: 0b11111 | 2 << 25,
            other: 0b11111 | 2 << 25,
            cards: 0b00011 | 0b01100 << 16,
            table: 4,
        }
    );
    assert_eq!(
        deal(&vec![15, 7, 0, 9, 3]),
        Game {
            my: 0b11111 | 2 << 25,
            other: 0b11111 | 2 << 25,
            cards: (1 << 15 | 1 << 7) | (1 | 1 << 9) << 16,
            table: 3,
        }
    );
}

#[test]
fn draw_cards_gives_five_different_cards() {
    for _ in 0..200 {
        let cards = draw_cards();
        assert_eq!(cards.len(), 5);
        for i in 0..5 {
            assert!(cards[i] < 16);
            for j in 0..i {
                assert_ne!(cards[i], cards[j]);
            }
        }
    }
}

#[test]
fn random_game_is_an_opening_with_five_different_cards() {
    let mut tables = vec![false; 16];
    for _ in 0..400 {
        let game = random_game();
        assert_eq!(game.my, 0b11111 | 2 << 25);
        assert_eq!(game.other, 0b11111 | 2 << 25);
        assert!(game.table < 16);
        let mine = game.cards & 0xffff;
        let theirs = game.cards >> 16;
        assert_eq!(mine.count_ones(), 2);
        assert_eq!(theirs.count_ones(), 2);
        assert_eq!(mine & theirs, 0);
        assert_eq!((mine | theirs) & (1 << game.table), 0);
        tables[game.table as usize] = true;
    }
    // A sampler that handed its bound back, or a constant, would leave
    // most cards unseen.
    assert!(tables.iter().filter(|&&seen| seen).count() > 8);
}

#[test]
fn action_index_is_from_times_25_plus_to() {
    assert_eq!(action_index(0, 0), 0);
    assert_eq!(action_index(1, 2), 27);
    assert_eq!(action_index(24, 24), 624);
    assert_eq!(ACTIONS, 625);
}

#[test]
fn lowest_square_is_the_lowest_marked_bit_below_25() {
    assert_eq!(lowest_square(0), None);
    assert_eq!(lowest_square(1), Some(0));
    assert_eq!(lowest_square(0b1010_0000), Some(5));
    assert_eq!(lowest_square(1 << 24), Some(24));
    assert_eq!(lowest_square(1 << 25), None);
    assert_eq!(lowest_square(u32::MAX << 25), None);
}

#[test]
fn move_index_is_the_square_left_times_25_plus_the_square_reached() {
    // The piece on square 3 goes to square 8.
    assert_eq!(move_index(0b01111, 0b1_0000_0111), Some(3 * 25 + 8));
    // The piece on square 24 goes to square 0.
    assert_eq!(move_index(1 << 24 | 1 << 7, 1 | 1 << 7), Some(24 * 25));
    // Bits above the board do not count.
    assert_eq!(move_index(1 << 2 | 2 << 25, 1 << 4 | 3 << 25), Some(2 * 25 + 4));
    assert_eq!(move_index(0b11, 0b11), None);
    assert_eq!(move_index(0b11, 0b01), None);
    assert_eq!(move_index(0b01, 0b11), None);
}
