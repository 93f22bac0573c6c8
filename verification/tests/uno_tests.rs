use rust_lessons::control_flow_3::{draw_card, parse_judge, quiz, read_line, Deck, Game, Judge, Turn};

fn lines(text: &[&str]) -> Vec<String> {
    text.iter().map(|line| line.to_string()).collect()
}

#[test]
fn first_cards_are_three_and_six() {
    let mut deck: Deck = Deck::new();
    assert_eq!(draw_card(&mut deck), 3);
    assert_eq!(draw_card(&mut deck), 6);
}

#[test]
fn cards_follow_the_seed() {
    let mut deck: Deck = Deck::new();
    let mut seed: i32 = 0;
    let mut n: u32 = 0;
    while n < 300 {
        seed = (seed * 71 + 3) % 100;
        assert_eq!(draw_card(&mut deck), (seed % 10) as usize);
        n += 1;
    }
}

#[test]
fn seed_moves_on_with_each_card() {
    let mut deck: Deck = Deck::new();
    assert_eq!(deck.seed(), 0);
    draw_card(&mut deck);
    assert_eq!(deck.seed(), 3);
    draw_card(&mut deck);
    assert_eq!(deck.seed(), 16);
    draw_card(&mut deck);
    assert_eq!(deck.seed(), 39);
    draw_card(&mut deck);
    assert_eq!(deck.seed(), 72);
}

fn hand(game: &Game) -> Vec<u64> {
    (0..13).map(|n| game.held_of(n)).collect()
}

#[test]
fn cards_drawn_are_kept_by_number() {
    let mut game: Game = Game::new();
    assert_eq!(hand(&game), vec![0; 13]);
    assert_eq!(game.play(Judge::PlusTwo), Turn::Next);
    assert_eq!(hand(&game), vec![0, 0, 0, 1, 0, 0, 1, 0, 0, 0, 0, 0, 0]);
    // The 2 is not held: the 9 is drawn and kept, the 2 is drawn and played.
    assert_eq!(game.play(Judge::Number(2)), Turn::Next);
    assert_eq!(hand(&game), vec![0, 0, 0, 1, 0, 0, 1, 0, 0, 1, 0, 0, 0]);
    assert_eq!(game.play(Judge::Number(3)), Turn::Next);
    assert_eq!(hand(&game), vec![0, 0, 0, 0, 0, 0, 1, 0, 0, 1, 0, 0, 0]);
    assert_eq!(game.play(Judge::Number(6)), Turn::Uno);
    assert_eq!(hand(&game), vec![0, 0, 0, 0, 0, 0, 0, 0, 0, 1, 0, 0, 0]);
    assert_eq!(game.total(), 4);
    assert_eq!(game.held_of(13), 0);
    assert_eq!(game.held_of(usize::MAX), 0);
}

#[test]
fn a_number_can_be_held_more_than_once() {
    let mut game: Game = Game::new();
    let mut turn: u32 = 0;
    while turn < 5 {
        assert_eq!(game.play(Judge::PlusFour), Turn::Next);
        turn += 1;
    }
    assert_eq!(hand(&game), vec![2, 2, 2, 2, 2, 2, 2, 2, 2, 2, 0, 0, 0]);
    assert_eq!(game.play(Judge::Number(7)), Turn::Next);
    assert_eq!(game.play(Judge::Number(7)), Turn::Next);
    assert_eq!(hand(&game), vec![2, 2, 2, 2, 2, 2, 2, 0, 2, 2, 0, 0, 0]);
    assert_eq!((game.total(), game.cards_held()), (20, 18));
}

#[test]
fn announcement_gives_the_count() {
    let mut game: Game = Game::new();
    assert_eq!(game.announcement(), "UNO!\n0\n");
    assert_eq!(game.play(Judge::Number(0)), Turn::Next);
    assert_eq!(game.announcement(), "UNO!\n10\n");
}

#[test]
fn cards_come_round_after_ten() {
    let mut deck: Deck = Deck::new();
    let mut drawn: Vec<usize> = Vec::new();
    let mut n: u32 = 0;
    while n < 40 {
        drawn.push(draw_card(&mut deck));
        n += 1;
    }
    assert_eq!(&drawn[..10], &[3, 6, 9, 2, 5, 8, 1, 4, 7, 0]);
    assert_eq!(&drawn[10..20], &drawn[..10]);
    assert_eq!(&drawn[30..40], &drawn[..10]);
}

#[test]
fn example_game_ends_after_four_draws() {
    assert_eq!(quiz(&lines(&["+2", "2", "3", "6"])), Some("UNO!\n4\n".to_string()));
}

#[test]
fn lines_after_uno_are_not_played() {
    assert_eq!(
        quiz(&lines(&["+2", "2", "3", "6", "nonsense", "+4"])),
        Some("UNO!\n4\n".to_string())
    );
}

#[test]
fn white_space_around_a_card_is_left_aside() {
    assert_eq!(quiz(&lines(&["+2\n", " 2 \n", "\t3\r\n", "6\n"])), Some("UNO!\n4\n".to_string()));
}

#[test]
fn game_without_uno_gives_nothing() {
    assert_eq!(quiz(&lines(&[])), None);
    assert_eq!(quiz(&lines(&["+2"])), None);
    assert_eq!(quiz(&lines(&["+2", "2", "3"])), None);
    assert_eq!(quiz(&lines(&["3"])), None);
}

#[test]
fn line_that_names_no_card_gives_nothing() {
    assert_eq!(quiz(&lines(&["+3", "2", "3", "6"])), None);
    assert_eq!(quiz(&lines(&["+2", "two", "3", "6"])), None);
    assert_eq!(quiz(&lines(&["+2", "", "3", "6"])), None);
    assert_eq!(quiz(&lines(&["13"])), None);
}

#[test]
fn number_that_the_deck_never_yields_gives_nothing() {
    assert_eq!(quiz(&lines(&["10"])), None);
    assert_eq!(quiz(&lines(&["+2", "12", "3", "6"])), None);
}

#[test]
fn uno_on_the_first_draw_of_two_is_not_called() {
    // After "+2" two cards are held, so the game goes on; "3" then leaves one.
    assert_eq!(quiz(&lines(&["+2", "3"])), Some("UNO!\n2\n".to_string()));
}

#[test]
fn drawing_until_a_card_comes_counts_every_draw() {
    // From a new deck the cards are 3 6 9 2 5 8 1 4 7 0: the 0 is the tenth,
    // and the nine before it are kept.
    let mut game: Game = Game::new();
    assert_eq!(game.play(Judge::Number(0)), Turn::Next);
    assert_eq!(game.total(), 10);
    assert_eq!(game.cards_held(), 9);
}

#[test]
fn drawing_until_the_next_card_draws_one() {
    let mut game: Game = Game::new();
    assert_eq!(game.play(Judge::Number(3)), Turn::Next);
    assert_eq!(game.total(), 1);
    assert_eq!(game.cards_held(), 0);
    assert_eq!(game.play(Judge::Number(9)), Turn::Uno);
    assert_eq!(game.total(), 3);
    assert_eq!(game.cards_held(), 1);
}

#[test]
fn held_card_is_played_without_a_draw() {
    let mut game: Game = Game::new();
    assert_eq!(game.play(Judge::PlusFour), Turn::Next);
    assert_eq!((game.total(), game.cards_held()), (4, 4));
    assert_eq!(game.play(Judge::Number(9)), Turn::Next);
    assert_eq!((game.total(), game.cards_held()), (4, 3));
    // No 9 is held now. The deck goes on with 5 8 1 4 7 0 3 6 9: eight cards
    // are kept and the ninth is played.
    assert_eq!(game.play(Judge::Number(9)), Turn::Next);
    assert_eq!((game.total(), game.cards_held()), (13, 11));
}

#[test]
fn plus_two_and_plus_four_draw_two_and_four() {
    let mut game: Game = Game::new();
    assert_eq!(game.play(Judge::PlusTwo), Turn::Next);
    assert_eq!((game.total(), game.cards_held()), (2, 2));
    assert_eq!(game.play(Judge::PlusFour), Turn::Next);
    assert_eq!((game.total(), game.cards_held()), (6, 6));
}

#[test]
fn stuck_turn_changes_nothing() {
    let mut game: Game = Game::new();
    assert_eq!(game.play(Judge::PlusTwo), Turn::Next);
    assert_eq!(game.play(Judge::Number(10)), Turn::Stuck);
    assert_eq!(game.play(Judge::Number(11)), Turn::Stuck);
    assert_eq!(game.play(Judge::Number(12)), Turn::Stuck);
    assert_eq!(game.play(Judge::Number(13)), Turn::Stuck);
    assert_eq!(game.play(Judge::Number(usize::MAX)), Turn::Stuck);
    assert_eq!((game.total(), game.cards_held()), (2, 2));
    assert_eq!(game.play(Judge::Number(3)), Turn::Uno);
}

#[test]
fn play_line_reads_the_card_and_plays_it() {
    let mut game: Game = Game::new();
    assert_eq!(game.play_line(" +2\n"), Some(Turn::Next));
    assert_eq!(game.play_line("two"), None);
    assert_eq!((game.total(), game.cards_held()), (2, 2));
    assert_eq!(game.play_line("6\n"), Some(Turn::Uno));
    assert_eq!((game.total(), game.cards_held()), (2, 1));
}

#[test]
fn parse_judge_reads_the_special_cards() {
    assert_eq!(parse_judge("+2"), Some(Judge::PlusTwo));
    assert_eq!(parse_judge("+4"), Some(Judge::PlusFour));
}

#[test]
fn parse_judge_reads_numbers_up_to_twelve() {
    let mut n: usize = 0;
    while n <= 12 {
        assert_eq!(parse_judge(&n.to_string()), Some(Judge::Number(n)));
        n += 1;
    }
    assert_eq!(parse_judge("007"), Some(Judge::Number(7)));
}

#[test]
fn parse_judge_refuses_the_rest() {
    assert_eq!(parse_judge("13"), None);
    assert_eq!(parse_judge("+3"), None);
    assert_eq!(parse_judge("+12"), None);
    assert_eq!(parse_judge("-1"), None);
    assert_eq!(parse_judge(""), None);
    assert_eq!(parse_judge(" 2"), None);
    assert_eq!(parse_judge("2 "), None);
    assert_eq!(parse_judge("+2 "), None);
    assert_eq!(parse_judge("++2"), None);
    assert_eq!(parse_judge("two"), None);
    assert_eq!(parse_judge("99999999999999999999999999999"), None);
}

#[test]
fn read_line_trims() {
    assert_eq!(read_line("  +2 \n"), "+2");
    assert_eq!(read_line("\n"), "");
    assert_eq!(read_line(""), "");
    assert_eq!(read_line("12\r\n"), "12");
}

#[test]
fn long_game_counts_all_draws() {
    let mut text: Vec<&str> = Vec::new();
    let mut n: usize = 0;
    while n < 1000 {
        text.push("+4");
        n += 1;
    }
    assert_eq!(quiz(&lines(&text)), None);
    let mut game: Game = Game::new();
    for line in &text {
        assert_eq!(game.play_line(line), Some(Turn::Next));
    }
    assert_eq!((game.total(), game.cards_held()), (4000, 4000));
}
