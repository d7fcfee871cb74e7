//! The card model: suits, ranks, the manilha relation and the trick
//! comparison that layers manilha precedence over the base ordering.

use vstd::prelude::*;
use vstd::string::StringExecFns;

verus! {

/// The four suits. Their strength, used to break rank ties and to compare
/// two manilhas, is Diamonds > Spades > Clubs > Hearts.
#[derive(Copy, Clone, Debug, PartialEq, Eq, Structural)]
pub enum Suit {
    Clubs,
    Hearts,
    Spades,
    Diamonds,
}

/// The ten ranks, declared in descending strength of the base ordering:
/// Three is the strongest, Four the weakest.
#[derive(Copy, Clone, Debug, PartialEq, Eq, Structural)]
pub enum Card {
    Three,
    Two,
    Ace,
    Knight,
    Joker,
    Queen,
    Seven,
    Six,
    Five,
    Four,
}

/// A playing card: a rank and a suit. Equality is structural.
#[derive(Copy, Clone, Debug, PartialEq, Eq, Structural)]
pub struct CardWithSuit(pub Card, pub Suit);

/// Position of a rank in the base strength ordering: 0 for the weakest
/// (Four) up to 9 for the strongest (Three).
pub open spec fn rank_strength(c: Card) -> int {
    match c {
        Card::Three => 9,
        Card::Two => 8,
        Card::Ace => 7,
        Card::Knight => 6,
        Card::Joker => 5,
        Card::Queen => 4,
        Card::Seven => 3,
        Card::Six => 2,
        Card::Five => 1,
        Card::Four => 0,
    }
}

/// Position of a suit in the suit strength ordering: 0 for the weakest
/// (Hearts) up to 3 for the strongest (Diamonds).
pub open spec fn suit_strength(s: Suit) -> int {
    match s {
        Suit::Hearts => 0,
        Suit::Clubs => 1,
        Suit::Spades => 2,
        Suit::Diamonds => 3,
    }
}

/// Total strength of a card in the base (manilha-blind) ordering: rank
/// decides first, suit breaks rank ties. Distinct for all 40 cards.
pub open spec fn card_strength(c: CardWithSuit) -> int {
    rank_strength(c.0) * 4 + suit_strength(c.1)
}

/// The manilha relation: a card is a manilha when its rank is the next
/// stronger rank after the turned card's rank, wrapping from the strongest
/// (Three) back to the weakest (Four).
pub open spec fn is_manilha_spec(c: CardWithSuit, turned: CardWithSuit) -> bool {
    rank_strength(c.0) == (rank_strength(turned.0) + 1) % 10
}

/// Whether card `a` takes the trick over card `b`, given the round's turned
/// card: a manilha beats every non-manilha; between two manilhas only suit
/// strength counts; between two non-manilhas the base ordering decides.
pub open spec fn spec_beats(a: CardWithSuit, b: CardWithSuit, turned: CardWithSuit) -> bool {
    if is_manilha_spec(a, turned) && is_manilha_spec(b, turned) {
        suit_strength(a.1) > suit_strength(b.1)
    } else if is_manilha_spec(a, turned) {
        true
    } else if is_manilha_spec(b, turned) {
        false
    } else {
        card_strength(a) > card_strength(b)
    }
}

/// Exec mirror of `rank_strength`.
pub fn rank_strength_of(c: Card) -> (r: u8)
    ensures
        r == rank_strength(c),
{
    match c {
        Card::Three => 9,
        Card::Two => 8,
        Card::Ace => 7,
        Card::Knight => 6,
        Card::Joker => 5,
        Card::Queen => 4,
        Card::Seven => 3,
        Card::Six => 2,
        Card::Five => 1,
        Card::Four => 0,
    }
}

/// Exec mirror of `suit_strength`.
pub fn suit_strength_of(s: Suit) -> (r: u8)
    ensures
        r == suit_strength(s),
{
    match s {
        Suit::Hearts => 0,
        Suit::Clubs => 1,
        Suit::Spades => 2,
        Suit::Diamonds => 3,
    }
}

impl CardWithSuit {
    /// Whether this card is a manilha for the given turned card.
    pub fn is_manilha(&self, turned_card: &CardWithSuit) -> (r: bool)
        ensures
            r == is_manilha_spec(*self, *turned_card),
    {
        let t = rank_strength_of(turned_card.0);
        let m = rank_strength_of(self.0);
        m == (t + 1) % 10
    }

    /// Base-ordering comparison: rank strength first, suit strength on a
    /// rank tie. Ignores manilha status; trick resolution layers that on top.
    pub fn stronger_than(&self, other: &CardWithSuit) -> (r: bool)
        ensures
            r == (card_strength(*self) > card_strength(*other)),
    {
        let ra = rank_strength_of(self.0);
        let rb = rank_strength_of(other.0);
        if ra != rb {
            ra > rb
        } else {
            suit_strength_of(self.1) > suit_strength_of(other.1)
        }
    }

    /// Whether this card takes the trick over `other`, given the turned card.
    pub fn beats(&self, other: &CardWithSuit, turned_card: &CardWithSuit) -> (r: bool)
        ensures
            r == spec_beats(*self, *other, *turned_card),
    {
        let self_manilha = self.is_manilha(turned_card);
        let other_manilha = other.is_manilha(turned_card);
        if self_manilha && other_manilha {
            suit_strength_of(self.1) > suit_strength_of(other.1)
        } else if self_manilha {
            true
        } else if other_manilha {
            false
        } else {
            self.stronger_than(other)
        }
    }
}

/// Law: manilha precedence is absolute. A manilha beats every non-manilha,
/// whatever the base ordering says of the two cards.
pub proof fn lemma_manilha_beats_non_manilha(
    a: CardWithSuit,
    b: CardWithSuit,
    turned: CardWithSuit,
)
    requires
        is_manilha_spec(a, turned),
        !is_manilha_spec(b, turned),
    ensures
        spec_beats(a, b, turned),
        !spec_beats(b, a, turned),
{
}

/// Law: between two manilhas only suit strength decides the trick.
pub proof fn lemma_manilha_suit_decides(a: CardWithSuit, b: CardWithSuit, turned: CardWithSuit)
    requires
        is_manilha_spec(a, turned),
        is_manilha_spec(b, turned),
    ensures
        spec_beats(a, b, turned) == (suit_strength(a.1) > suit_strength(b.1)),
{
}

/// The display text of a rank.
pub open spec fn spec_rank_label(c: Card) -> Seq<char> {
    match c {
        Card::Three => "3"@,
        Card::Two => "2"@,
        Card::Ace => "A"@,
        Card::Knight => "K"@,
        Card::Joker => "J"@,
        Card::Queen => "Q"@,
        Card::Seven => "7"@,
        Card::Six => "6"@,
        Card::Five => "5"@,
        Card::Four => "4"@,
    }
}

/// The display glyph of a suit.
pub open spec fn spec_suit_glyph(s: Suit) -> Seq<char> {
    match s {
        Suit::Clubs => "♣"@,
        Suit::Hearts => "♥"@,
        Suit::Spades => "♠"@,
        Suit::Diamonds => "♦"@,
    }
}

/// The display text of a card: its rank followed by its suit glyph.
pub open spec fn spec_card_label(c: CardWithSuit) -> Seq<char> {
    spec_rank_label(c.0) + spec_suit_glyph(c.1)
}

/// Exec mirror of `spec_rank_label`.
pub fn rank_label(c: Card) -> (r: &'static str)
    ensures
        r@ == spec_rank_label(c),
{
    match c {
        Card::Three => "3",
        Card::Two => "2",
        Card::Ace => "A",
        Card::Knight => "K",
        Card::Joker => "J",
        Card::Queen => "Q",
        Card::Seven => "7",
        Card::Six => "6",
        Card::Five => "5",
        Card::Four => "4",
    }
}

/// Exec mirror of `spec_suit_glyph`.
pub fn suit_glyph(s: Suit) -> (r: &'static str)
    ensures
        r@ == spec_suit_glyph(s),
{
    match s {
        Suit::Clubs => "♣",
        Suit::Hearts => "♥",
        Suit::Spades => "♠",
        Suit::Diamonds => "♦",
    }
}

impl CardWithSuit {
    /// The display text of this card.
    pub fn label(&self) -> (r: String)
        ensures
            r@ == spec_card_label(*self),
    {
        let mut s = String::from_str(rank_label(self.0));
        s.append(suit_glyph(self.1));
        s
    }
}

/// Law: trick comparison admits no tie. Of two distinct cards, exactly one
/// beats the other, whatever the turned card is.
pub proof fn lemma_no_ties(a: CardWithSuit, b: CardWithSuit, turned: CardWithSuit)
    requires
        a != b,
    ensures
        spec_beats(a, b, turned) != spec_beats(b, a, turned),
{
}

} // verus!
