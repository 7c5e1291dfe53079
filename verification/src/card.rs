use vstd::prelude::*;
use vstd::string::StringExecFns;

verus! {

/// One of the four card categories, in the fixed enumeration order
/// a fresh deck is built in.
#[derive(Clone, Copy, Debug, PartialEq, Eq, Structural)]
pub enum Suit {
    Hearts,
    Diamonds,
    Clubs,
    Spades,
}

/// One of the thirteen card face values, from two up to ace.
#[derive(Clone, Copy, Debug, PartialEq, Eq, Structural)]
pub enum Rank {
    Two,
    Three,
    Four,
    Five,
    Six,
    Seven,
    Eight,
    Nine,
    Ten,
    Jack,
    Queen,
    King,
    Ace,
}

/// A playing card: a rank together with a suit.
#[derive(Clone, Copy, Debug, PartialEq, Eq, Structural)]
pub struct Card {
    pub rank: Rank,
    pub suit: Suit,
}

/// Position of a suit in the fixed enumeration order.
pub open spec fn suit_index(s: Suit) -> int {
    match s {
        Suit::Hearts => 0,
        Suit::Diamonds => 1,
        Suit::Clubs => 2,
        Suit::Spades => 3,
    }
}

/// Position of a rank in the fixed enumeration order.
pub open spec fn rank_index(r: Rank) -> int {
    match r {
        Rank::Two => 0,
        Rank::Three => 1,
        Rank::Four => 2,
        Rank::Five => 3,
        Rank::Six => 4,
        Rank::Seven => 5,
        Rank::Eight => 6,
        Rank::Nine => 7,
        Rank::Ten => 8,
        Rank::Jack => 9,
        Rank::Queen => 10,
        Rank::King => 11,
        Rank::Ace => 12,
    }
}

/// Position of a card in a fresh deck: suit-major, rank-minor.
pub open spec fn card_index(c: Card) -> int {
    suit_index(c.suit) * 13 + rank_index(c.rank)
}

/// The suit at a given position of the enumeration order.
pub open spec fn suit_of_index(i: int) -> Suit {
    if i == 0 {
        Suit::Hearts
    } else if i == 1 {
        Suit::Diamonds
    } else if i == 2 {
        Suit::Clubs
    } else {
        Suit::Spades
    }
}

/// The rank at a given position of the enumeration order.
pub open spec fn rank_of_index(i: int) -> Rank {
    if i == 0 {
        Rank::Two
    } else if i == 1 {
        Rank::Three
    } else if i == 2 {
        Rank::Four
    } else if i == 3 {
        Rank::Five
    } else if i == 4 {
        Rank::Six
    } else if i == 5 {
        Rank::Seven
    } else if i == 6 {
        Rank::Eight
    } else if i == 7 {
        Rank::Nine
    } else if i == 8 {
        Rank::Ten
    } else if i == 9 {
        Rank::Jack
    } else if i == 10 {
        Rank::Queen
    } else if i == 11 {
        Rank::King
    } else {
        Rank::Ace
    }
}

/// The card at a given position of a fresh deck.
pub open spec fn card_of_index(i: int) -> Card {
    Card { rank: rank_of_index(i % 13), suit: suit_of_index(i / 13) }
}

/// `card_index` and `card_of_index` invert each other on deck positions.
pub proof fn lemma_card_index_bijective()
    ensures
        forall|i: int| 0 <= i < 52 ==> #[trigger] card_index(card_of_index(i)) == i,
        forall|c: Card| 0 <= card_index(c) < 52 && card_of_index(#[trigger] card_index(c)) == c,
{
    assert forall|i: int| 0 <= i < 52 implies #[trigger] card_index(card_of_index(i)) == i by {
        assert(0 <= i / 13 < 4);
        assert(0 <= i % 13 < 13);
        assert((i / 13) * 13 + i % 13 == i);
    }
    assert forall|c: Card| 0 <= card_index(c) < 52 && card_of_index(
        #[trigger] card_index(c),
    ) == c by {
        let s = suit_index(c.suit);
        let r = rank_index(c.rank);
        assert(0 <= s < 4 && 0 <= r < 13);
        assert((s * 13 + r) / 13 == s);
        assert((s * 13 + r) % 13 == r);
    }
}

/// The suit at a given position, as executable code.
pub fn suit_from_index(i: usize) -> (s: Suit)
    requires
        i < 4,
    ensures
        s == suit_of_index(i as int),
{
    if i == 0 {
        Suit::Hearts
    } else if i == 1 {
        Suit::Diamonds
    } else if i == 2 {
        Suit::Clubs
    } else {
        Suit::Spades
    }
}

/// The rank at a given position, as executable code.
pub fn rank_from_index(i: usize) -> (r: Rank)
    requires
        i < 13,
    ensures
        r == rank_of_index(i as int),
{
    if i == 0 {
        Rank::Two
    } else if i == 1 {
        Rank::Three
    } else if i == 2 {
        Rank::Four
    } else if i == 3 {
        Rank::Five
    } else if i == 4 {
        Rank::Six
    } else if i == 5 {
        Rank::Seven
    } else if i == 6 {
        Rank::Eight
    } else if i == 7 {
        Rank::Nine
    } else if i == 8 {
        Rank::Ten
    } else if i == 9 {
        Rank::Jack
    } else if i == 10 {
        Rank::Queen
    } else if i == 11 {
        Rank::King
    } else {
        Rank::Ace
    }
}

/// The lower-case name of a suit.
pub open spec fn spec_suit_name(s: Suit) -> Seq<char> {
    match s {
        Suit::Hearts => "hearts"@,
        Suit::Diamonds => "diamonds"@,
        Suit::Clubs => "clubs"@,
        Suit::Spades => "spades"@,
    }
}

/// The lower-case name of a rank.
pub open spec fn spec_rank_name(r: Rank) -> Seq<char> {
    match r {
        Rank::Two => "two"@,
        Rank::Three => "three"@,
        Rank::Four => "four"@,
        Rank::Five => "five"@,
        Rank::Six => "six"@,
        Rank::Seven => "seven"@,
        Rank::Eight => "eight"@,
        Rank::Nine => "nine"@,
        Rank::Ten => "ten"@,
        Rank::Jack => "jack"@,
        Rank::Queen => "queen"@,
        Rank::King => "king"@,
        Rank::Ace => "ace"@,
    }
}

/// The display label of a card: "rank of suit".
pub open spec fn spec_card_label(c: Card) -> Seq<char> {
    spec_rank_name(c.rank) + " of "@ + spec_suit_name(c.suit)
}

impl Suit {
    /// The lower-case name of this suit.
    pub fn name(&self) -> (r: &'static str)
        ensures
            r@ == spec_suit_name(*self),
    {
        match self {
            Suit::Hearts => "hearts",
            Suit::Diamonds => "diamonds",
            Suit::Clubs => "clubs",
            Suit::Spades => "spades",
        }
    }
}

impl Rank {
    /// The lower-case name of this rank.
    pub fn name(&self) -> (r: &'static str)
        ensures
            r@ == spec_rank_name(*self),
    {
        match self {
            Rank::Two => "two",
            Rank::Three => "three",
            Rank::Four => "four",
            Rank::Five => "five",
            Rank::Six => "six",
            Rank::Seven => "seven",
            Rank::Eight => "eight",
            Rank::Nine => "nine",
            Rank::Ten => "ten",
            Rank::Jack => "jack",
            Rank::Queen => "queen",
            Rank::King => "king",
            Rank::Ace => "ace",
        }
    }
}

impl Card {
    /// The display label of this card, "rank of suit".
    pub fn label(&self) -> (r: String)
        ensures
            r@ == spec_card_label(*self),
    {
        let mut s = String::from_str(self.rank.name());
        s.append(" of ");
        s.append(self.suit.name());
        s
    }
}

} // verus!
