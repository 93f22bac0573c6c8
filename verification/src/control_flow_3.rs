//! Loops, and a game of UNO played against a judge with a deck whose cards
//! come in a fixed order.

use crate::decimal::{decimal, natural_of, parse_natural, write_natural};
use crate::text::{same_text, trim, trimmed};
use vstd::prelude::*;

verus! {

/// The seed that follows `seed` in the deck.
pub open spec fn next_seed(seed: int) -> int {
    (seed * 71 + 3) % 100
}

/// The number on the card that a deck shows at `seed`.
pub open spec fn card_of(seed: int) -> int {
    seed % 10
}

/// The seed of a deck after `k` cards were drawn from it at `seed`.
pub open spec fn seed_after(seed: int, k: nat) -> int
    decreases k,
{
    if k == 0 {
        seed
    } else {
        next_seed(seed_after(seed, (k - 1) as nat))
    }
}

/// The number on the `k`-th card drawn from a deck at `seed`, counting from 1.
pub open spec fn card_at(seed: int, k: nat) -> int {
    card_of(seed_after(seed, k))
}

/// How many cards are drawn from a deck at `seed` until one with the number
/// `n` comes, for `n` from 0 to 9. Each card is three more than the one
/// before it, modulo ten, so every number comes within ten cards.
pub open spec fn draws_until(seed: int, n: int) -> nat {
    let k = ((n - card_of(seed)) * 7) % 10;
    if k == 0 {
        10
    } else {
        k as nat
    }
}

/// A deck of cards numbered 0 to 9 that come in a fixed order. Its view is
/// its seed, which is 0 for a new deck and stays below 100.
#[derive(Debug)]
pub struct Deck {
    seed: u32,
}

impl View for Deck {
    type V = int;

    closed spec fn view(&self) -> int {
        self.seed as int
    }
}

impl Deck {
    #[verifier::type_invariant]
    spec fn in_range(&self) -> bool {
        self.seed < 100
    }

    /// A deck from which no card was drawn yet.
    pub fn new() -> (deck: Deck)
        ensures
            deck@ == 0,
    {
        Deck { seed: 0 }
    }

    /// The deck's seed.
    pub fn seed(&self) -> (seed: u32)
        ensures
            seed == self@,
            seed < 100,
    {
        proof {
            use_type_invariant(self);
        }
        self.seed
    }
}

/// Draws the next card: the deck moves on to the next seed, and the card's
/// number is that seed modulo ten.
pub fn draw_card(deck: &mut Deck) -> (card: usize)
    ensures
        final(deck)@ == next_seed(old(deck)@),
        card == card_of(final(deck)@),
        0 <= final(deck)@ < 100,
        card <= 9,
    no_unwind
{
    proof {
        use_type_invariant(&*deck);
    }
    let val = deck.seed;
    let next = (val * 71 + 3) % 100;
    deck.seed = next;
    (next % 10) as usize
}

/// Each card is three more than the one before it, modulo ten.
pub proof fn lemma_next_card(seed: int)
    requires
        0 <= seed,
    ensures
        card_of(next_seed(seed)) == (card_of(seed) + 3) % 10,
        0 <= next_seed(seed) < 100,
{
    let x = seed * 71 + 3;
    let t = seed / 10;
    let s = seed % 10;
    let v = (s + 3) / 10;
    let u = (s + 3) % 10;
    let big = x / 100;
    let a = x % 100;
    assert(a == 10 * (71 * t + 7 * s + v - 10 * big) + u);
    lemma_remainder(a, 71 * t + 7 * s + v - 10 * big, u);
}

/// The remainder of `10 * q + r` by ten is `r`, for `r` below ten.
proof fn lemma_remainder(x: int, q: int, r: int)
    requires
        x == 10 * q + r,
        0 <= r < 10,
    ensures
        x % 10 == r,
{
}

/// The `k`-th card is `3 * k` more than the deck's seed, modulo ten.
pub proof fn lemma_card_at(seed: int, k: nat)
    requires
        0 <= seed,
    ensures
        card_at(seed, k) == (card_of(seed) + 3 * k) % 10,
        0 <= seed_after(seed, k),
    decreases k,
{
    if k > 0 {
        lemma_card_at(seed, (k - 1) as nat);
        lemma_next_card(seed_after(seed, (k - 1) as nat));
        let x = card_of(seed) + 3 * (k - 1);
        let r = x % 10;
        assert(card_at(seed, k) == (r + 3) % 10);
        lemma_remainder(x + 3, x / 10 + (r + 3) / 10, (r + 3) % 10);
    }
}

/// `draws_until` counts the draws up to the first card with the number `n`:
/// that card has the number, and none before it has.
pub proof fn lemma_draws_until(seed: int, n: int)
    requires
        0 <= seed,
        0 <= n <= 9,
    ensures
        1 <= draws_until(seed, n) <= 10,
        card_at(seed, draws_until(seed, n)) == n,
        forall|j: nat| 1 <= j < draws_until(seed, n) ==> card_at(seed, j) != n,
{
    let c = card_of(seed);
    let k = draws_until(seed, n);
    lemma_card_at(seed, k);
    lemma_steps_to(c, n, k as int);
    assert forall|j: nat| 1 <= j < k implies card_at(seed, j) != n by {
        lemma_card_at(seed, j);
        lemma_steps_to(c, n, j as int);
    }
}

/// Going `j` steps of three from `c` ends on `n`, modulo ten, exactly when
/// `j` is seven times their difference, modulo ten.
proof fn lemma_steps_to(c: int, n: int, j: int)
    requires
        0 <= c <= 9,
        0 <= n <= 9,
        0 <= j,
    ensures
        (c + 3 * j) % 10 == n <==> j % 10 == ((n - c) * 7) % 10,
{
    let q = ((n - c) * 7) / 10;
    let m = ((n - c) * 7) % 10;
    let p = (c + 3 * j) / 10;
    let r = (c + 3 * j) % 10;
    let h = j / 10;
    let l = j % 10;
    if r == n {
        assert(j == 10 * (7 * p + q - 2 * j) + m);
        lemma_remainder(j, 7 * p + q - 2 * j, m);
    }
    if l == m {
        assert(c + 3 * j == 10 * (3 * h - 3 * q + 2 * n - 2 * c) + n);
        lemma_remainder(c + 3 * j, 3 * h - 3 * q + 2 * n - 2 * c, n);
    }
}

/// The numbers come round again after ten cards.
pub proof fn lemma_cards_repeat(seed: int, k: nat)
    requires
        0 <= seed,
    ensures
        card_at(seed, k + 10) == card_at(seed, k),
{
    lemma_card_at(seed, k);
    lemma_card_at(seed, k + 10);
    let x = card_of(seed) + 3 * k;
    lemma_remainder(x + 30, x / 10 + 3, x % 10);
}

/// A card that the judge shows: a number, or an order to draw two or four.
#[derive(Clone, Copy, Debug, PartialEq, Eq)]
pub enum Judge {
    Number(usize),
    PlusTwo,
    PlusFour,
}

/// How a turn ended.
#[derive(Clone, Copy, Debug, PartialEq, Eq)]
pub enum Turn {
    /// No card is held, or more than one: the game goes on.
    Next,
    /// Exactly one card is held: the player calls UNO and the game is over.
    Uno,
    /// The judge's number is not held and the deck never yields it: nothing
    /// was drawn or played.
    Stuck,
}

/// The state of a game: the deck's seed, how many cards of each number from
/// 0 to 12 the player holds, and how many cards were drawn so far.
pub struct Table {
    pub seed: int,
    pub hand: Seq<nat>,
    pub drawn: nat,
}

/// The number of cards in `hand`.
pub open spec fn held(hand: Seq<nat>) -> nat
    decreases hand.len(),
{
    if hand.len() == 0 {
        0
    } else {
        held(hand.drop_last()) + hand.last()
    }
}

/// The table before the first turn: a new deck, no card held, none drawn.
pub open spec fn start() -> Table {
    Table { seed: 0, hand: Seq::new(13, |n: int| 0nat), drawn: 0 }
}

/// The table after one card was drawn and kept.
pub open spec fn draw(t: Table) -> Table {
    let seed = next_seed(t.seed);
    let card = card_of(seed);
    Table { seed, hand: t.hand.update(card, t.hand[card] + 1), drawn: t.drawn + 1 }
}

/// The table after `k` cards were drawn and kept.
pub open spec fn draw_many(t: Table, k: nat) -> Table
    decreases k,
{
    if k == 0 {
        t
    } else {
        draw(draw_many(t, (k - 1) as nat))
    }
}

/// Whether the player can answer `judge`: an order to draw always, a number
/// where a card with it is held or the deck yields it.
pub open spec fn playable(t: Table, judge: Judge) -> bool {
    match judge {
        Judge::Number(n) => (n < 13 && t.hand[n as int] > 0) || n <= 9,
        _ => true,
    }
}

/// The table after the player answered `judge`.
///
/// On a number that is held, one card with it is played. On another number
/// from 0 to 9, cards are drawn and kept until one with the number comes,
/// and that one is played. On an order to draw, two or four cards are drawn
/// and kept. A number that cannot be answered leaves the table as it is.
pub open spec fn play(t: Table, judge: Judge) -> Table {
    match judge {
        Judge::PlusTwo => draw_many(t, 2),
        Judge::PlusFour => draw_many(t, 4),
        Judge::Number(n) => {
            if n < 13 && t.hand[n as int] > 0 {
                Table { hand: t.hand.update(n as int, (t.hand[n as int] - 1) as nat), ..t }
            } else if n <= 9 {
                let kept = draw_many(t, (draws_until(t.seed, n as int) - 1) as nat);
                Table { seed: next_seed(kept.seed), hand: kept.hand, drawn: kept.drawn + 1 }
            } else {
                t
            }
        },
    }
}

/// How the turn ends in which the player answers `judge`.
pub open spec fn turn_of(t: Table, judge: Judge) -> Turn {
    if !playable(t, judge) {
        Turn::Stuck
    } else if held(play(t, judge).hand) == 1 {
        Turn::Uno
    } else {
        Turn::Next
    }
}

/// The judge's card that a line of input names: `+2`, `+4`, or a number
/// from 0 to 12 in decimal digits.
pub open spec fn judge_of(line: Seq<char>) -> Option<Judge> {
    if line == seq!['+', '2'] {
        Some(Judge::PlusTwo)
    } else if line == seq!['+', '4'] {
        Some(Judge::PlusFour)
    } else {
        match natural_of(line) {
            Some(n) => if n <= 12 {
                Some(Judge::Number(n as usize))
            } else {
                None
            },
            None => None,
        }
    }
}

/// The number of cards drawn when UNO is called, for a game that goes from
/// table `t` through the judge's cards on `lines`, one to a line with white
/// space around it. `None` where a line names no card, the player cannot
/// answer, or the lines end before UNO is called.
pub open spec fn finish(t: Table, lines: Seq<Seq<char>>) -> Option<nat>
    decreases lines.len(),
{
    if lines.len() == 0 {
        None
    } else {
        match judge_of(trimmed(lines[0])) {
            None => None,
            Some(judge) => match turn_of(t, judge) {
                Turn::Stuck => None,
                Turn::Uno => Some(play(t, judge).drawn),
                Turn::Next => finish(play(t, judge), lines.drop_first()),
            },
        }
    }
}

/// What the game writes when UNO is called after `drawn` cards were drawn.
pub open spec fn uno_text(drawn: nat) -> Seq<char> {
    ("UNO!"@.push('\n') + decimal(drawn)).push('\n')
}

/// Changing how many cards of one number are held changes the number of
/// cards held by as much.
pub proof fn lemma_held_update(hand: Seq<nat>, n: int, v: nat)
    requires
        0 <= n < hand.len(),
    ensures
        held(hand.update(n, v)) == held(hand) - hand[n] + v,
        hand[n] <= held(hand),
    decreases hand.len(),
{
    if n == hand.len() - 1 {
        assert(hand.update(n, v).drop_last() == hand.drop_last());
    } else {
        lemma_held_update(hand.drop_last(), n, v);
        assert(hand.update(n, v).drop_last() == hand.drop_last().update(n, v));
    }
}

/// Drawing `k` cards moves the deck on by `k` seeds, counts `k` more cards
/// as drawn and puts `k` more cards into the hand.
pub proof fn lemma_draw_many(t: Table, k: nat)
    requires
        0 <= t.seed,
        t.hand.len() == 13,
    ensures
        draw_many(t, k).seed == seed_after(t.seed, k),
        draw_many(t, k).drawn == t.drawn + k,
        draw_many(t, k).hand.len() == 13,
        held(draw_many(t, k).hand) == held(t.hand) + k,
        0 <= draw_many(t, k).seed,
    decreases k,
{
    if k > 0 {
        let before = draw_many(t, (k - 1) as nat);
        lemma_draw_many(t, (k - 1) as nat);
        lemma_next_card(before.seed);
        let card = card_of(next_seed(before.seed));
        lemma_held_update(before.hand, card, before.hand[card] + 1);
    }
}

/// Whether `hand` has room for the numbers 0 to 12 and holds no card with a
/// number above 9, as the deck yields none.
pub open spec fn from_deck(hand: Seq<nat>) -> bool {
    hand.len() == 13 && hand[10] == 0 && hand[11] == 0 && hand[12] == 0
}

/// Cards that are drawn come from the deck.
pub proof fn lemma_draw_many_from_deck(t: Table, k: nat)
    requires
        0 <= t.seed,
        from_deck(t.hand),
    ensures
        from_deck(draw_many(t, k).hand),
    decreases k,
{
    if k > 0 {
        lemma_draw_many_from_deck(t, (k - 1) as nat);
        lemma_draw_many(t, (k - 1) as nat);
        lemma_next_card(draw_many(t, (k - 1) as nat).seed);
    }
}

/// A turn draws at most ten cards and leaves a table as well formed as it
/// found it. It changes the number of cards held by what it draws and keeps,
/// less the one card that it plays.
pub proof fn lemma_play(t: Table, judge: Judge)
    requires
        0 <= t.seed,
        from_deck(t.hand),
    ensures
        0 <= play(t, judge).seed,
        from_deck(play(t, judge).hand),
        t.drawn <= play(t, judge).drawn <= t.drawn + 10,
        held(play(t, judge).hand) + t.drawn + (if playable(t, judge) && judge is Number {
            1nat
        } else {
            0nat
        }) == held(t.hand) + play(t, judge).drawn,
{
    match judge {
        Judge::PlusTwo => {
            lemma_draw_many(t, 2);
            lemma_draw_many_from_deck(t, 2);
        },
        Judge::PlusFour => {
            lemma_draw_many(t, 4);
            lemma_draw_many_from_deck(t, 4);
        },
        Judge::Number(n) => {
            if n < 13 && t.hand[n as int] > 0 {
                lemma_held_update(t.hand, n as int, (t.hand[n as int] - 1) as nat);
            } else if n <= 9 {
                lemma_draws_until(t.seed, n as int);
                let k = (draws_until(t.seed, n as int) - 1) as nat;
                lemma_draw_many(t, k);
                lemma_draw_many_from_deck(t, k);
                lemma_next_card(draw_many(t, k).seed);
            }
        },
    }
}

/// With cards from the deck only, the player is stuck exactly on a number
/// above 9.
pub proof fn lemma_stuck(t: Table, judge: Judge)
    requires
        from_deck(t.hand),
    ensures
        turn_of(t, judge) is Stuck <==> (judge matches Judge::Number(n) && n > 9),
{
}

/// Once UNO is called the game is over: lines that follow change nothing.
pub proof fn lemma_finish_ignores_rest(t: Table, lines: Seq<Seq<char>>, rest: Seq<Seq<char>>)
    requires
        finish(t, lines) is Some,
    ensures
        finish(t, lines + rest) == finish(t, lines),
    decreases lines.len(),
{
    let all = lines + rest;
    assert(all[0] == lines[0]);
    match judge_of(trimmed(lines[0])) {
        None => {},
        Some(judge) => {
            if turn_of(t, judge) is Next {
                assert(all.drop_first() == lines.drop_first() + rest);
                lemma_finish_ignores_rest(play(t, judge), lines.drop_first(), rest);
            }
        },
    }
}

/// A game of UNO in progress. Its view is the table.
#[derive(Debug)]
pub struct Game {
    deck: Deck,
    cards: [u64; 13],
    total: u64,
}

impl View for Game {
    type V = Table;

    closed spec fn view(&self) -> Table {
        Table { seed: self.deck@, hand: hand_of(self.cards), drawn: self.total as nat }
    }
}

/// The hand that an array of counts stands for.
spec fn hand_of(cards: [u64; 13]) -> Seq<nat> {
    Seq::new(13, |n: int| cards[n] as nat)
}

impl Game {
    #[verifier::type_invariant]
    spec fn sound(&self) -> bool {
        &&& held(self@.hand) <= self.total
        &&& from_deck(self@.hand)
    }

    /// A game before its first turn.
    pub fn new() -> (game: Game)
        ensures
            game@ == start(),
    {
        let cards: [u64; 13] = [0; 13];
        proof {
            assert(hand_of(cards) =~= start().hand);
            lemma_held_zero(hand_of(cards), 13);
            assert(hand_of(cards).take(13) == hand_of(cards));
        }
        Game { deck: Deck::new(), cards, total: 0 }
    }

    /// How many cards were drawn so far.
    pub fn total(&self) -> (n: u64)
        ensures
            n == self@.drawn,
    {
        self.total
    }

    /// How many cards with the number `n` the player holds.
    pub fn held_of(&self, n: usize) -> (count: u64)
        ensures
            self@.hand.len() == 13,
            count == (if n < 13 {
                self@.hand[n as int]
            } else {
                0
            }),
    {
        if n < 13 {
            self.cards[n]
        } else {
            0
        }
    }

    /// How many cards the player holds.
    pub fn cards_held(&self) -> (n: u64)
        ensures
            n == held(self@.hand),
            from_deck(self@.hand),
            0 <= self@.seed < 100,
            n <= self@.drawn,
    {
        proof {
            use_type_invariant(self);
            use_type_invariant(&self.deck);
        }
        let ghost hand = self@.hand;
        let mut n: u64 = 0;
        let mut i: usize = 0;
        while i < 13
            invariant
                i <= 13,
                hand == self@.hand,
                hand.len() == 13,
                n == held(hand.take(i as int)),
                held(hand) <= self.total,
            decreases 13 - i,
        {
            proof {
                lemma_held_prefix(hand, i + 1);
                assert(hand.take(i + 1).drop_last() == hand.take(i as int));
            }
            n = n + self.cards[i];
            i = i + 1;
        }
        assert(hand.take(13) == hand);
        n
    }

    /// What the game writes when UNO is called: `UNO!` and, on the next
    /// line, how many cards were drawn.
    pub fn announcement(&self) -> (text: String)
        ensures
            text@ == uno_text(self@.drawn),
    {
        let mut text = "UNO!".to_string();
        text.push('\n');
        write_natural(&mut text, self.total);
        text.push('\n');
        text
    }

    /// Draws one card and keeps it.
    fn take(&mut self)
        requires
            old(self).total < u64::MAX,
        ensures
            final(self)@ == draw(old(self)@),
            final(self)@.hand.len() == 13,
            0 <= final(self)@.seed < 100,
            held(final(self)@.hand) == held(old(self)@.hand) + 1,
    {
        proof {
            use_type_invariant(&*self);
            use_type_invariant(&self.deck);
        }
        let ghost before = self@;
        self.total = self.total + 1;
        let card = draw_card(&mut self.deck);
        proof {
            lemma_held_update(before.hand, card as int, before.hand[card as int] + 1);
        }
        let mut cards = self.cards;
        cards[card] = cards[card] + 1;
        assert(hand_of(cards) =~= draw(before).hand);
        self.cards = cards;
    }

    /// Answers the judge's card.
    ///
    /// The count of cards drawn must leave room for the ten cards that one
    /// turn draws at most.
    pub fn play(&mut self, judge: Judge) -> (turn: Turn)
        requires
            old(self)@.drawn + 10 <= u64::MAX,
        ensures
            final(self)@ == play(old(self)@, judge),
            turn == turn_of(old(self)@, judge),
            turn is Stuck <==> (judge matches Judge::Number(n) && n > 9),
            final(self)@.drawn <= old(self)@.drawn + 10,
    {
        proof {
            use_type_invariant(&*self);
            use_type_invariant(&self.deck);
        }
        let ghost before = self@;
        match judge {
            Judge::PlusTwo => {
                self.take();
                self.take();
                proof {
                    reveal_with_fuel(draw_many, 3);
                }
            },
            Judge::PlusFour => {
                self.take();
                self.take();
                self.take();
                self.take();
                proof {
                    reveal_with_fuel(draw_many, 5);
                }
            },
            Judge::Number(n) => {
                if n < 13 && self.cards[n] > 0 {
                    let mut cards = self.cards;
                    cards[n] = cards[n] - 1;
                    proof {
                        lemma_held_update(before.hand, n as int, (before.hand[n as int] - 1) as nat);
                        assert(hand_of(cards) =~= play(before, judge).hand);
                    }
                    self.cards = cards;
                } else if n <= 9 {
                    self.draw_until(n);
                } else {
                    return Turn::Stuck;
                }
            },
        }
        if self.cards_held() == 1 {
            Turn::Uno
        } else {
            Turn::Next
        }
    }

    /// Answers the judge's card that a line of input names, white space
    /// around it left aside. `None`, with the game as it was, where the line
    /// names no card.
    pub fn play_line(&mut self, buffer: &str) -> (turn: Option<Turn>)
        requires
            old(self)@.drawn + 10 <= u64::MAX,
        ensures
            match judge_of(trimmed(buffer@)) {
                Some(judge) => final(self)@ == play(old(self)@, judge) && turn == Some(
                    turn_of(old(self)@, judge),
                ),
                None => final(self)@ == old(self)@ && turn is None,
            },
            final(self)@.drawn <= old(self)@.drawn + 10,
    {
        let line = read_line(buffer);
        match parse_judge(line.as_str()) {
            Some(judge) => Some(self.play(judge)),
            None => None,
        }
    }

    /// Draws and keeps cards until one with the number `n` comes, which is
    /// drawn and played at once.
    fn draw_until(&mut self, n: usize)
        requires
            n <= 9,
            old(self)@.hand[n as int] == 0,
            old(self)@.drawn + 10 <= u64::MAX,
        ensures
            final(self)@ == play(old(self)@, Judge::Number(n)),
            final(self)@.drawn <= old(self)@.drawn + 10,
    {
        proof {
            use_type_invariant(&*self);
            use_type_invariant(&self.deck);
        }
        let ghost before = self@;
        let ghost goal = draws_until(before.seed, n as int);
        let ghost k: nat = 0;
        proof {
            lemma_draws_until(before.seed, n as int);
        }
        loop
            invariant_except_break
                self@ == draw_many(before, k),
                k < goal,
            invariant
                n <= 9,
                goal == draws_until(before.seed, n as int),
                1 <= goal <= 10,
                0 <= before.seed,
                before.hand.len() == 13,
                before.drawn + 10 <= u64::MAX,
                held(before.hand) <= before.drawn,
                card_at(before.seed, goal) == n,
                forall|j: nat| 1 <= j < goal ==> card_at(before.seed, j) != n,
            ensures
                self@ == (Table {
                    seed: next_seed(draw_many(before, (goal - 1) as nat).seed),
                    hand: draw_many(before, (goal - 1) as nat).hand,
                    drawn: draw_many(before, (goal - 1) as nat).drawn + 1,
                }),
                self@.drawn <= before.drawn + 10,
            decreases goal - k,
        {
            let ghost kept = self@;
            proof {
                lemma_draw_many(before, k);
                use_type_invariant(&*self);
            }
            self.total = self.total + 1;
            let card = draw_card(&mut self.deck);
            assert(card == card_at(before.seed, k + 1));
            if card == n {
                assert(k + 1 == goal);
                break ;
            }
            proof {
                lemma_held_update(kept.hand, card as int, kept.hand[card as int] + 1);
            }
            let mut cards = self.cards;
            cards[card] = cards[card] + 1;
            assert(hand_of(cards) =~= draw(kept).hand);
            self.cards = cards;
            proof {
                k = k + 1;
            }
        }
    }
}

/// The line that was read, without the white space around it.
pub fn read_line(buffer: &str) -> (line: String)
    ensures
        line@ == trimmed(buffer@),
{
    trim(buffer).to_string()
}

/// Reads the judge's card that `line` names.
pub fn parse_judge(line: &str) -> (judge: Option<Judge>)
    ensures
        judge == judge_of(line@),
{
    proof {
        reveal_strlit("+2");
        reveal_strlit("+4");
        assert("+2"@ =~= seq!['+', '2']);
        assert("+4"@ =~= seq!['+', '4']);
    }
    if same_text(line, "+2") {
        Some(Judge::PlusTwo)
    } else if same_text(line, "+4") {
        Some(Judge::PlusFour)
    } else {
        match parse_natural(line, 12) {
            Some(n) => Some(Judge::Number(n as usize)),
            None => None,
        }
    }
}

/// Plays a game of UNO from its start against the judge's cards on `lines`
/// and returns what the game writes: `UNO!` and, on the next line, how many
/// cards were drawn.
///
/// `None` where UNO is never called: a line names no card, the player cannot
/// answer, or the lines end first. The lines must be few enough for the
/// count of cards drawn, at most ten a line, to fit in 64 bits.
pub fn quiz(lines: &Vec<String>) -> (out: Option<String>)
    requires
        lines.len() * 10 <= u64::MAX,
    ensures
        match finish(start(), lines.deep_view()) {
            Some(drawn) => out matches Some(text) && text@ == uno_text(drawn),
            None => out is None,
        },
{
    let ghost all = lines.deep_view();
    let mut game = Game::new();
    let mut i: usize = 0;
    assert(all.skip(0) == all);
    while i < lines.len()
        invariant
            i <= lines.len(),
            lines.len() * 10 <= u64::MAX,
            all == lines.deep_view(),
            game@.drawn <= 10 * i,
            finish(start(), all) == finish(game@, all.skip(i as int)),
        decreases lines.len() - i,
    {
        proof {
            assert(all.skip(i as int)[0] == lines[i as int]@);
            assert(all.skip(i as int).drop_first() == all.skip(i + 1));
        }
        match game.play_line(lines[i].as_str()) {
            None => {
                return None;
            },
            Some(Turn::Stuck) => {
                return None;
            },
            Some(Turn::Uno) => {
                return Some(game.announcement());
            },
            Some(Turn::Next) => {},
        }
        i = i + 1;
    }
    None
}

/// A hand with no card of any number holds no card.
proof fn lemma_held_zero(hand: Seq<nat>, i: int)
    requires
        0 <= i <= hand.len(),
        forall|n: int| 0 <= n < hand.len() ==> hand[n] == 0,
    ensures
        held(hand.take(i)) == 0,
    decreases i,
{
    if i > 0 {
        lemma_held_zero(hand, i - 1);
        assert(hand.take(i).drop_last() == hand.take(i - 1));
    }
}

/// The cards of the first numbers are no more than the cards of all.
proof fn lemma_held_prefix(hand: Seq<nat>, i: int)
    requires
        0 <= i <= hand.len(),
    ensures
        held(hand.take(i)) <= held(hand),
    decreases hand.len() - i,
{
    if i == hand.len() {
        assert(hand.take(i) == hand);
    } else {
        lemma_held_prefix(hand.drop_last(), i);
        assert(hand.drop_last().take(i) == hand.take(i));
    }
}

} // verus!
