//! Deck and hand management, trick resolution and match scoring.

use vstd::prelude::*;

use rand::seq::SliceRandom;

use vstd::string::StringExecFns;

use crate::card::Card;
use crate::card::CardWithSuit;
use crate::card::Suit;
use crate::card::spec_beats;
use crate::card::spec_card_label;

verus! {

/// Whose turn it is to play a card.
#[derive(Copy, Clone, Debug, PartialEq, Eq, Structural)]
pub enum Turn {
    Player,
    Computer,
}

/// The side that plays after the given one: turns alternate strictly.
pub open spec fn other_side(t: Turn) -> Turn {
    match t {
        Turn::Player => Turn::Computer,
        Turn::Computer => Turn::Player,
    }
}

/// A growable pile of cards: used for the deck, both hands and the stack of
/// played cards.
pub struct CardList(pub Vec<CardWithSuit>);

impl View for CardList {
    type V = Seq<CardWithSuit>;

    open spec fn view(&self) -> Seq<CardWithSuit> {
        self.0@
    }
}

impl CardList {
    /// An empty pile.
    pub fn new() -> (r: CardList)
        ensures
            r@ == Seq::<CardWithSuit>::empty(),
    {
        CardList(Vec::new())
    }

    /// How many cards the pile holds.
    pub fn len(&self) -> (r: usize)
        ensures
            r == self@.len(),
    {
        self.0.len()
    }

    /// Put a card on top of the pile.
    pub fn push(&mut self, c: CardWithSuit)
        ensures
            final(self)@ == old(self)@.push(c),
    {
        self.0.push(c);
    }

    /// Take the top card off the pile, if any.
    pub fn pop(&mut self) -> (r: Option<CardWithSuit>)
        ensures
            old(self)@.len() > 0 ==> r == Some(old(self)@.last()) && final(self)@ == old(
                self,
            )@.drop_last(),
            old(self)@.len() == 0 ==> r is None && final(self)@ == old(self)@,
    {
        self.0.pop()
    }

    /// The top card of the pile, if any, without removing it.
    pub fn last_card(&self) -> (r: Option<CardWithSuit>)
        ensures
            self@.len() > 0 ==> r == Some(self@.last()),
            self@.len() == 0 ==> r is None,
    {
        if self.0.len() == 0 {
            None
        } else {
            Some(self.0[self.0.len() - 1])
        }
    }

    /// Remove the card at `i` by swap-remove: the pile's last card moves into
    /// the freed slot, so the order of the remaining cards is not preserved.
    pub fn swap_remove(&mut self, i: usize) -> (r: CardWithSuit)
        requires
            i < old(self)@.len(),
        ensures
            r == old(self)@[i as int],
            final(self)@ == old(self)@.update(i as int, old(self)@.last()).drop_last(),
    {
        self.0.swap_remove(i)
    }

    /// The display text of the pile: the card labels joined by " - ".
    pub fn label(&self) -> (r: String)
        ensures
            r@ == spec_list_label(self@),
    {
        let mut s = String::new();
        let mut i: usize = 0;
        while i < self.0.len()
            invariant
                i <= self@.len(),
                s@ == spec_list_label(self@.take(i as int)),
            decreases self@.len() - i,
        {
            if i > 0 {
                s.append(" - ");
            }
            let lbl = self.0[i].label();
            s.append(lbl.as_str());
            proof {
                let t = self@.take(i as int + 1);
                assert(t.drop_last() =~= self@.take(i as int));
                assert(t.last() == self@[i as int]);
                assert(s@ =~= spec_list_label(t));
            }
            i = i + 1;
        }
        proof {
            assert(self@.take(self@.len() as int) =~= self@);
        }
        s
    }
}

/// The display text of a pile of cards, joined by " - ": empty for the empty
/// pile, the last card's label appended after a separator otherwise.
pub open spec fn spec_list_label(cards: Seq<CardWithSuit>) -> Seq<char>
    decreases cards.len(),
{
    if cards.len() == 0 {
        Seq::<char>::empty()
    } else if cards.len() == 1 {
        spec_card_label(cards[0])
    } else {
        spec_list_label(cards.drop_last()) + " - "@ + spec_card_label(cards.last())
    }
}

/// Whether a draw position within the six-card deal is odd; odd draws go to
/// the side that is not dealing first.
pub fn is_odd(n: u32) -> (r: bool)
    ensures
        r == (n % 2 == 1),
{
    n % 2 == 1
}

/// The rank at a position of the deck's build order: the ten ranks from the
/// strongest (Three) down to the weakest (Four).
pub open spec fn rank_at(i: int) -> Card {
    if i == 0 {
        Card::Three
    } else if i == 1 {
        Card::Two
    } else if i == 2 {
        Card::Ace
    } else if i == 3 {
        Card::Knight
    } else if i == 4 {
        Card::Joker
    } else if i == 5 {
        Card::Queen
    } else if i == 6 {
        Card::Seven
    } else if i == 7 {
        Card::Six
    } else if i == 8 {
        Card::Five
    } else {
        Card::Four
    }
}

/// The suit at a position of the deck's build order.
pub open spec fn suit_at(i: int) -> Suit {
    if i == 0 {
        Suit::Diamonds
    } else if i == 1 {
        Suit::Spades
    } else if i == 2 {
        Suit::Clubs
    } else {
        Suit::Hearts
    }
}

/// The deck as built, before the shuffle: 40 cards in suit-major, rank-minor
/// order, one for every rank and suit pair.
pub open spec fn fresh_deck() -> Seq<CardWithSuit> {
    Seq::new(40, |i: int| CardWithSuit(rank_at(i % 10), suit_at(i / 10)))
}

/// Exec mirror of `rank_at`.
fn rank_at_index(i: usize) -> (r: Card)
    requires
        i < 10,
    ensures
        r == rank_at(i as int),
{
    if i == 0 {
        Card::Three
    } else if i == 1 {
        Card::Two
    } else if i == 2 {
        Card::Ace
    } else if i == 3 {
        Card::Knight
    } else if i == 4 {
        Card::Joker
    } else if i == 5 {
        Card::Queen
    } else if i == 6 {
        Card::Seven
    } else if i == 7 {
        Card::Six
    } else if i == 8 {
        Card::Five
    } else {
        Card::Four
    }
}

/// Exec mirror of `suit_at`.
fn suit_at_index(i: usize) -> (r: Suit)
    requires
        i < 4,
    ensures
        r == suit_at(i as int),
{
    if i == 0 {
        Suit::Diamonds
    } else if i == 1 {
        Suit::Spades
    } else if i == 2 {
        Suit::Clubs
    } else {
        Suit::Hearts
    }
}

/// Law: the fresh deck is the full pack — 40 cards, no repeats, and every
/// rank and suit pair among them.
pub proof fn lemma_fresh_deck_complete()
    ensures
        fresh_deck().len() == 40,
        forall|i: int, j: int| 0 <= i < j < 40 ==> fresh_deck()[i] != fresh_deck()[j],
        forall|c: CardWithSuit| fresh_deck().contains(c),
{
    assert forall|i: int, j: int| 0 <= i < j < 40 implies fresh_deck()[i] != fresh_deck()[j] by {
        if fresh_deck()[i] == fresh_deck()[j] {
            assert(rank_at(i % 10) == rank_at(j % 10));
            assert(suit_at(i / 10) == suit_at(j / 10));
            assert(i % 10 == j % 10);
            assert(i / 10 == j / 10);
            assert(i == 10 * (i / 10) + i % 10) by {
                vstd::arithmetic::div_mod::lemma_fundamental_div_mod(i, 10);
            }
            assert(j == 10 * (j / 10) + j % 10) by {
                vstd::arithmetic::div_mod::lemma_fundamental_div_mod(j, 10);
            }
        }
    }
    assert forall|c: CardWithSuit| fresh_deck().contains(c) by {
        assert(exists|ri: int| 0 <= ri < 10 && rank_at(ri) == c.0) by {
            match c.0 {
                Card::Three => assert(rank_at(0) == c.0),
                Card::Two => assert(rank_at(1) == c.0),
                Card::Ace => assert(rank_at(2) == c.0),
                Card::Knight => assert(rank_at(3) == c.0),
                Card::Joker => assert(rank_at(4) == c.0),
                Card::Queen => assert(rank_at(5) == c.0),
                Card::Seven => assert(rank_at(6) == c.0),
                Card::Six => assert(rank_at(7) == c.0),
                Card::Five => assert(rank_at(8) == c.0),
                Card::Four => assert(rank_at(9) == c.0),
            }
        }
        assert(exists|si: int| 0 <= si < 4 && suit_at(si) == c.1) by {
            match c.1 {
                Suit::Diamonds => assert(suit_at(0) == c.1),
                Suit::Spades => assert(suit_at(1) == c.1),
                Suit::Clubs => assert(suit_at(2) == c.1),
                Suit::Hearts => assert(suit_at(3) == c.1),
            }
        }
        let ri = choose|ri: int| 0 <= ri < 10 && rank_at(ri) == c.0;
        let si = choose|si: int| 0 <= si < 4 && suit_at(si) == c.1;
        let i = si * 10 + ri;
        assert(0 <= i < 40);
        assert(i % 10 == ri && i / 10 == si) by (nonlinear_arith)
            requires
                0 <= ri < 10,
                0 <= si < 4,
                i == si * 10 + ri,
        ;
        assert(fresh_deck()[i] == c);
    }
}

/// Law: a deck holding the fresh pack's cards — as `build_deck` leaves it,
/// whatever order the shuffle picked — holds exactly 40 cards, no two alike,
/// and every rank and suit pair among them.
pub proof fn lemma_deck_is_full_pack(deck: Seq<CardWithSuit>)
    requires
        deck.to_multiset() == fresh_deck().to_multiset(),
    ensures
        deck.len() == 40,
        deck.no_duplicates(),
        forall|c: CardWithSuit| deck.contains(c),
{
    broadcast use vstd::seq_lib::group_to_multiset_ensures;

    lemma_fresh_deck_complete();
    assert(deck.len() == deck.to_multiset().len());
    assert(fresh_deck().len() == fresh_deck().to_multiset().len());
    assert(fresh_deck().no_duplicates());
    fresh_deck().lemma_multiset_has_no_duplicates();
    deck.lemma_multiset_has_no_duplicates_conv();
    assert forall|c: CardWithSuit| deck.contains(c) by {
        assert(fresh_deck().contains(c));
        assert(fresh_deck().to_multiset().count(c) > 0);
    }
}

/// Relies on rand's `SliceRandom::shuffle`: a uniformly random in-place
/// permutation of the slice, driven by the thread-local generator of
/// `rand::rng()`. Every outcome holds the same cards, reordered.
#[verifier::external_body]
fn shuffle_cards(cards: &mut Vec<CardWithSuit>)
    ensures
        final(cards)@.to_multiset() == old(cards)@.to_multiset(),
        final(cards)@.len() == old(cards)@.len(),
{
    let mut rng = rand::rng();
    cards.shuffle(&mut rng);
}

/// A match score reaching this threshold ends the match at once.
pub const WINNING_SCORE: u8 = 12;

/// The whole state of one match against the computer.
pub struct Game {
    /// The human player's hand.
    pub player_hand: CardList,
    /// The computer's hand.
    pub computer_hand: CardList,
    /// The card flipped after the deal; it fixes the manilha rank for the
    /// round and is cleared at round end.
    pub turned_card: Option<CardWithSuit>,
    /// The deck the round is dealt from; rebuilt and reshuffled every round.
    pub deck: CardList,
    /// The player's match score; persists across rounds.
    pub player_score: u8,
    /// The computer's match score; persists across rounds.
    pub computer_score: u8,
    /// Whose turn it is; alternates after every single card played and
    /// carries over across rounds.
    pub turn: Turn,
    /// The round accumulator: +1 per trick the player takes, -1 per trick the
    /// computer takes. Non-negative at round end favours the player.
    pub turn_score: i8,
    /// The cards played so far, both sides interleaved.
    pub turn_stack: CardList,
    /// How much a round win adds to the winner's match score.
    pub score_increment: u8,
}

/// The hands are the same in both states.
pub open spec fn same_hands(a: Game, b: Game) -> bool {
    a.player_hand@ == b.player_hand@ && a.computer_hand@ == b.computer_hand@
}

/// The match scores and the increment are the same in both states.
pub open spec fn same_scores(a: Game, b: Game) -> bool {
    a.player_score == b.player_score && a.computer_score == b.computer_score
        && a.score_increment == b.score_increment
}

/// The turn indicator, the round accumulator and the stack of played cards
/// are the same in both states.
pub open spec fn same_turn_state(a: Game, b: Game) -> bool {
    a.turn == b.turn && a.turn_score == b.turn_score && a.turn_stack@ == b.turn_stack@
}

/// The three cards one side receives from a deal off the top of `deck`:
/// draws alternate, so one side takes the draws at even positions (offset 0),
/// the other those at odd positions (offset 1).
pub open spec fn dealt_cards(deck: Seq<CardWithSuit>, offset: int) -> Seq<CardWithSuit> {
    seq![
        deck[deck.len() - 1 - offset],
        deck[deck.len() - 3 - offset],
        deck[deck.len() - 5 - offset],
    ]
}

/// The deal offset of the player's draws: the side whose turn it is takes the
/// even positions.
pub open spec fn player_deal_offset(t: Turn) -> int {
    if t == Turn::Player {
        0
    } else {
        1
    }
}

/// Which side takes a resolved trick: the side whose turn it is wins exactly
/// when its card beats the card played just before it.
pub open spec fn player_wins_trick(
    last_drawn: CardWithSuit,
    drawn: CardWithSuit,
    turned: CardWithSuit,
    turn: Turn,
) -> bool {
    (turn == Turn::Player) == spec_beats(drawn, last_drawn, turned)
}

/// How resolving a trick in state `g` against the newly drawn card moves the
/// round accumulator: one step towards the winning side, no step when there
/// is no played card to resolve against.
pub open spec fn trick_delta(g: Game, drawn: CardWithSuit) -> int {
    if g.turn_stack@.len() == 0 {
        0
    } else if player_wins_trick(g.turn_stack@.last(), drawn, g.turned_card->Some_0, g.turn) {
        1
    } else {
        -1
    }
}

impl Game {
    /// A match about to start: empty piles, zero scores, the player to play
    /// first, one point per round won.
    pub fn new() -> (r: Game)
        ensures
            r.player_hand@.len() == 0,
            r.computer_hand@.len() == 0,
            r.turned_card is None,
            r.deck@.len() == 0,
            r.player_score == 0,
            r.computer_score == 0,
            r.turn == Turn::Player,
            r.turn_score == 0,
            r.turn_stack@.len() == 0,
            r.score_increment == 1,
    {
        Game {
            player_hand: CardList::new(),
            computer_hand: CardList::new(),
            turned_card: None,
            deck: CardList::new(),
            player_score: 0,
            computer_score: 0,
            turn: Turn::Player,
            turn_score: 0,
            turn_stack: CardList::new(),
            score_increment: 1,
        }
    }

    /// Prepare the first round's deck.
    pub fn init(&mut self)
        ensures
            final(self).deck@.to_multiset() == fresh_deck().to_multiset(),
            final(self).deck@.len() == 40,
            same_hands(*final(self), *old(self)),
            same_scores(*final(self), *old(self)),
            same_turn_state(*final(self), *old(self)),
            final(self).turned_card == old(self).turned_card,
    {
        self.build_deck();
    }

    /// Both match scores, player first.
    pub fn get_scores(&self) -> (r: (u8, u8))
        ensures
            r.0 == self.player_score,
            r.1 == self.computer_score,
    {
        (self.player_score, self.computer_score)
    }

    /// Replace the deck with a freshly built, freshly shuffled full pack: all
    /// 40 cards, in an order the random generator picks.
    pub fn build_deck(&mut self)
        ensures
            final(self).deck@.to_multiset() == fresh_deck().to_multiset(),
            final(self).deck@.len() == 40,
            same_hands(*final(self), *old(self)),
            same_scores(*final(self), *old(self)),
            same_turn_state(*final(self), *old(self)),
            final(self).turned_card == old(self).turned_card,
    {
        let mut deck = CardList::new();
        let mut s: usize = 0;
        while s < 4
            invariant
                s <= 4,
                deck@ == fresh_deck().take(10 * s),
            decreases 4 - s,
        {
            let mut c: usize = 0;
            while c < 10
                invariant
                    s < 4,
                    c <= 10,
                    deck@ == fresh_deck().take(10 * s + c),
                decreases 10 - c,
            {
                let card = CardWithSuit(rank_at_index(c), suit_at_index(s));
                proof {
                    let n = 10 * s as int + c as int;
                    assert(n % 10 == c as int && n / 10 == s as int) by (nonlinear_arith)
                        requires
                            0 <= c < 10,
                            0 <= s < 4,
                            n == 10 * s + c,
                    ;
                    assert(fresh_deck()[n] == card);
                    assert(fresh_deck().take(n + 1) =~= fresh_deck().take(n).push(
                        fresh_deck()[n],
                    ));
                }
                deck.push(card);
                c = c + 1;
            }
            s = s + 1;
        }
        assert(deck@ =~= fresh_deck());
        shuffle_cards(&mut deck.0);
        self.deck = deck;
    }

    /// Draw the deck's top card and hand it to one side.
    fn deal_one(&mut self, side: Turn)
        requires
            old(self).deck@.len() > 0,
        ensures
            final(self).deck@ == old(self).deck@.drop_last(),
            side == Turn::Player ==> final(self).player_hand@ == old(self).player_hand@.push(
                old(self).deck@.last(),
            ) && final(self).computer_hand@ == old(self).computer_hand@,
            side == Turn::Computer ==> final(self).computer_hand@ == old(
                self,
            ).computer_hand@.push(old(self).deck@.last()) && final(self).player_hand@ == old(
                self,
            ).player_hand@,
            final(self).turned_card == old(self).turned_card,
            same_scores(*final(self), *old(self)),
            same_turn_state(*final(self), *old(self)),
    {
        let card = match self.deck.pop() {
            Some(c) => c,
            None => vstd::pervasive::unreached(),
        };
        match side {
            Turn::Player => self.player_hand.push(card),
            Turn::Computer => self.computer_hand.push(card),
        }
    }

    /// Deal six cards off the top of the deck — alternating sides, the side
    /// whose turn it is first — then flip one more as the turned card.
    pub fn build_hands_and_flip(&mut self)
        requires
            old(self).deck@.len() >= 7,
        ensures
            final(self).player_hand@ == old(self).player_hand@ + dealt_cards(
                old(self).deck@,
                player_deal_offset(old(self).turn),
            ),
            final(self).computer_hand@ == old(self).computer_hand@ + dealt_cards(
                old(self).deck@,
                1 - player_deal_offset(old(self).turn),
            ),
            final(self).player_hand@.len() == old(self).player_hand@.len() + 3,
            final(self).computer_hand@.len() == old(self).computer_hand@.len() + 3,
            final(self).deck@ == old(self).deck@.take(old(self).deck@.len() - 7),
            final(self).turned_card == Some(old(self).deck@[old(self).deck@.len() - 7]),
            same_scores(*final(self), *old(self)),
            same_turn_state(*final(self), *old(self)),
    {
        let first = self.turn;
        let second = match first {
            Turn::Player => Turn::Computer,
            Turn::Computer => Turn::Player,
        };
        self.deal_one(first);
        self.deal_one(second);
        self.deal_one(first);
        self.deal_one(second);
        self.deal_one(first);
        self.deal_one(second);
        self.turned_card = self.deck.pop();
        proof {
            let d = old(self).deck@;
            let n = d.len() as int;
            assert(self.deck@ =~= d.take(n - 7));
            if old(self).turn == Turn::Player {
                assert(self.player_hand@ =~= old(self).player_hand@ + dealt_cards(d, 0));
                assert(self.computer_hand@ =~= old(self).computer_hand@ + dealt_cards(d, 1));
            } else {
                assert(self.computer_hand@ =~= old(self).computer_hand@ + dealt_cards(d, 0));
                assert(self.player_hand@ =~= old(self).player_hand@ + dealt_cards(d, 1));
            }
        }
    }

    /// The computer's play: it always discards the last card it holds.
    pub fn take_computer_hand(&mut self) -> (r: CardWithSuit)
        requires
            old(self).computer_hand@.len() > 0,
        ensures
            r == old(self).computer_hand@.last(),
            final(self).computer_hand@ == old(self).computer_hand@.drop_last(),
            final(self).player_hand@ == old(self).player_hand@,
            final(self).deck@ == old(self).deck@,
            final(self).turned_card == old(self).turned_card,
            same_scores(*final(self), *old(self)),
            same_turn_state(*final(self), *old(self)),
    {
        match self.computer_hand.pop() {
            Some(c) => c,
            None => vstd::pervasive::unreached(),
        }
    }

    /// The player's play: remove the card at a 1-based position of the hand,
    /// by swap-remove — the hand's last card moves into the freed slot, so
    /// the order of what remains is not preserved. An out-of-range position
    /// is rejected: `None` comes back and nothing changes.
    pub fn play_player_card(&mut self, position: u8) -> (r: Option<CardWithSuit>)
        ensures
            1 <= position && position as int <= old(self).player_hand@.len() ==> r == Some(
                old(self).player_hand@[position as int - 1],
            ) && final(self).player_hand@ == old(self).player_hand@.update(
                position as int - 1,
                old(self).player_hand@.last(),
            ).drop_last(),
            !(1 <= position && position as int <= old(self).player_hand@.len()) ==> r is None
                && final(self).player_hand@ == old(self).player_hand@,
            final(self).computer_hand@ == old(self).computer_hand@,
            final(self).deck@ == old(self).deck@,
            final(self).turned_card == old(self).turned_card,
            same_scores(*final(self), *old(self)),
            same_turn_state(*final(self), *old(self)),
    {
        if 1 <= position && position as usize <= self.player_hand.len() {
            Some(self.player_hand.swap_remove(position as usize - 1))
        } else {
            None
        }
    }

    /// Resolve a trick: set the drawn card against the card played just
    /// before it (the top of the stack of played cards) and move the round
    /// accumulator one step towards the side that took the trick. With an
    /// empty stack there is nothing to resolve and nothing changes.
    pub fn check_who_won_hand(&mut self, drawn_card: &CardWithSuit)
        requires
            old(self).turned_card is Some,
            i8::MIN < old(self).turn_score < i8::MAX,
        ensures
            final(self).turn_score == old(self).turn_score + trick_delta(*old(self), *drawn_card),
            same_hands(*final(self), *old(self)),
            same_scores(*final(self), *old(self)),
            final(self).deck@ == old(self).deck@,
            final(self).turned_card == old(self).turned_card,
            final(self).turn == old(self).turn,
            final(self).turn_stack@ == old(self).turn_stack@,
    {
        let last_drawn = match self.turn_stack.last_card() {
            Some(c) => c,
            None => {
                return ;
            },
        };
        let turned = match self.turned_card {
            Some(t) => t,
            None => vstd::pervasive::unreached(),
        };
        let drawn_wins = drawn_card.beats(&last_drawn, &turned);
        let player_won = match self.turn {
            Turn::Player => drawn_wins,
            Turn::Computer => !drawn_wins,
        };
        if player_won {
            self.turn_score = self.turn_score + 1;
        } else {
            self.turn_score = self.turn_score - 1;
        }
    }

    /// One play of the round: when the card completes a trick (an odd 0-based
    /// position of the six), resolve the trick first; then put the card on
    /// the stack of played cards and pass the turn to the other side.
    pub fn play_card(&mut self, drawn_card: CardWithSuit, hand_index: u32)
        requires
            old(self).turned_card is Some,
            i8::MIN < old(self).turn_score < i8::MAX,
        ensures
            final(self).turn_stack@ == old(self).turn_stack@.push(drawn_card),
            final(self).turn == other_side(old(self).turn),
            hand_index % 2 == 1 ==> final(self).turn_score == old(self).turn_score + trick_delta(
                *old(self),
                drawn_card,
            ),
            hand_index % 2 == 0 ==> final(self).turn_score == old(self).turn_score,
            same_hands(*final(self), *old(self)),
            same_scores(*final(self), *old(self)),
            final(self).deck@ == old(self).deck@,
            final(self).turned_card == old(self).turned_card,
    {
        if hand_index > 0 && is_odd(hand_index) {
            self.check_who_won_hand(&drawn_card);
        }
        self.turn_stack.push(drawn_card);
        self.turn = match self.turn {
            Turn::Player => Turn::Computer,
            Turn::Computer => Turn::Player,
        };
    }

    /// End-of-round reset: a fresh shuffled deck, empty hands, the round
    /// accumulator back at zero and the turned card cleared. The match scores
    /// and the turn indicator persist across rounds, as does the stack of
    /// played cards.
    pub fn reset_turn(&mut self)
        ensures
            final(self).deck@.to_multiset() == fresh_deck().to_multiset(),
            final(self).deck@.len() == 40,
            final(self).turn_score == 0,
            final(self).player_hand@.len() == 0,
            final(self).computer_hand@.len() == 0,
            final(self).turned_card is None,
            same_scores(*final(self), *old(self)),
            final(self).turn == old(self).turn,
            final(self).turn_stack@ == old(self).turn_stack@,
    {
        self.build_deck();
        self.turn_score = 0;
        self.computer_hand = CardList::new();
        self.player_hand = CardList::new();
        self.turned_card = None;
    }

    /// Award the round: a non-negative round accumulator favours the player,
    /// a negative one the computer; the winner's match score grows by the
    /// round increment.
    pub fn apply_round_score(&mut self)
        requires
            old(self).player_score + old(self).score_increment <= u8::MAX,
            old(self).computer_score + old(self).score_increment <= u8::MAX,
        ensures
            old(self).turn_score >= 0 ==> final(self).player_score == old(self).player_score + old(
                self,
            ).score_increment && final(self).computer_score == old(self).computer_score,
            old(self).turn_score < 0 ==> final(self).computer_score == old(self).computer_score
                + old(self).score_increment && final(self).player_score == old(self).player_score,
            final(self).score_increment == old(self).score_increment,
            same_hands(*final(self), *old(self)),
            same_turn_state(*final(self), *old(self)),
            final(self).deck@ == old(self).deck@,
            final(self).turned_card == old(self).turned_card,
    {
        if self.turn_score >= 0 {
            self.player_score = self.player_score + self.score_increment;
        } else {
            self.computer_score = self.computer_score + self.score_increment;
        }
    }

    /// The match winner, the moment a score reaches the winning threshold:
    /// the player's score is checked first, though both can never reach it in
    /// the same round.
    pub fn match_winner(&self) -> (r: Option<Turn>)
        ensures
            r == spec_match_winner(*self),
    {
        if self.player_score >= WINNING_SCORE {
            Some(Turn::Player)
        } else if self.computer_score >= WINNING_SCORE {
            Some(Turn::Computer)
        } else {
            None
        }
    }
}

/// Who has won the match in the given state: the side whose score has reached
/// the winning threshold, if either has.
pub open spec fn spec_match_winner(g: Game) -> Option<Turn> {
    if g.player_score >= WINNING_SCORE {
        Some(Turn::Player)
    } else if g.computer_score >= WINNING_SCORE {
        Some(Turn::Computer)
    } else {
        None
    }
}

} // verus!
