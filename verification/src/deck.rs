use vstd::prelude::*;
use crate::card::{Card, card_of_index, card_index, lemma_card_index_bijective, spec_card_label,
    suit_from_index, rank_from_index};
use crate::shuffle::{fresh_rng, shuffle_cards};

verus! {

/// The one failure the deck can report: a deal asked for more cards
/// than remain.
#[derive(Clone, Copy, Debug, PartialEq, Eq, Structural)]
pub enum DealError {
    InsufficientCards,
}

/// An ordered collection of the cards remaining in play.
#[derive(Debug)]
pub struct Deck {
    cards: Vec<Card>,
}

impl View for Deck {
    type V = Seq<Card>;

    closed spec fn view(&self) -> Seq<Card> {
        self.cards@
    }
}

/// The fresh deck: all 52 cards, suit-major and rank-minor, in the fixed
/// enumeration order of suits and ranks.
pub open spec fn standard_deck() -> Seq<Card> {
    Seq::new(52, |i: int| card_of_index(i))
}

/// The fresh deck holds exactly 52 cards and every (rank, suit) pair
/// exactly once: no duplicates, none missing.
pub proof fn lemma_standard_deck_complete()
    ensures
        standard_deck().len() == 52,
        standard_deck().no_duplicates(),
        forall|c: Card| standard_deck().contains(c),
{
    lemma_card_index_bijective();
    assert forall|i: int, j: int|
        0 <= i < 52 && 0 <= j < 52 && i != j implies standard_deck()[i]
        != standard_deck()[j] by {
        assert(card_index(card_of_index(i)) == i);
        assert(card_index(card_of_index(j)) == j);
    }
    assert forall|c: Card| standard_deck().contains(c) by {
        assert(standard_deck()[card_index(c)] == c);
    }
}

/// A deck that holds the same cards as a duplicate-free one, in whatever
/// order, is itself duplicate-free, has the same size, and contains
/// exactly the same cards.
pub proof fn lemma_permutation_preserves_no_duplicates(a: Seq<Card>, b: Seq<Card>)
    requires
        a.to_multiset() == b.to_multiset(),
        a.no_duplicates(),
    ensures
        b.no_duplicates(),
        b.len() == a.len(),
        forall|c: Card| a.contains(c) <==> b.contains(c),
{
    a.to_multiset_ensures();
    b.to_multiset_ensures();
    a.lemma_multiset_has_no_duplicates();
    b.lemma_multiset_has_no_duplicates_conv();
    assert forall|c: Card| a.contains(c) <==> b.contains(c) by {
        assert(a.to_multiset().count(c) == b.to_multiset().count(c));
        if a.contains(c) {
            assert(a.to_multiset().count(c) > 0);
            assert(b.contains(c));
        }
        if b.contains(c) {
            assert(b.to_multiset().count(c) > 0);
            assert(a.contains(c));
        }
    }
}

/// Dealing `n` cards from a duplicate-free deck splits it exactly: the
/// dealt suffix has length `n`, the remaining prefix keeps the other
/// cards, every card on either side was in the deck, no card is on both
/// sides, and prefix and suffix together recompose the deck.
pub proof fn lemma_deal_partitions(deck: Seq<Card>, n: int)
    requires
        0 <= n <= deck.len(),
        deck.no_duplicates(),
    ensures
        deck.subrange(deck.len() - n, deck.len() as int).len() == n,
        deck.subrange(0, deck.len() - n).len() == deck.len() - n,
        forall|c: Card|
            deck.subrange(deck.len() - n, deck.len() as int).contains(c) ==> deck.contains(c),
        forall|c: Card| deck.subrange(0, deck.len() - n).contains(c) ==> deck.contains(c),
        forall|c: Card|
            !(#[trigger] deck.subrange(0, deck.len() - n).contains(c) && deck.subrange(
                deck.len() - n,
                deck.len() as int,
            ).contains(c)),
        deck.subrange(0, deck.len() - n) + deck.subrange(deck.len() - n, deck.len() as int)
            == deck,
{
    let rest = deck.subrange(0, deck.len() - n);
    let dealt = deck.subrange(deck.len() - n, deck.len() as int);
    assert(rest + dealt =~= deck);
    assert forall|c: Card| dealt.contains(c) implies deck.contains(c) by {
        let i = choose|i: int| 0 <= i < dealt.len() && dealt[i] == c;
        assert(deck[deck.len() - n + i] == c);
    }
    assert forall|c: Card| rest.contains(c) implies deck.contains(c) by {
        let i = choose|i: int| 0 <= i < rest.len() && rest[i] == c;
        assert(deck[i] == c);
    }
    assert forall|c: Card| !(rest.contains(c) && dealt.contains(c)) by {
        if rest.contains(c) && dealt.contains(c) {
            let i = choose|i: int| 0 <= i < rest.len() && rest[i] == c;
            let j = choose|j: int| 0 <= j < dealt.len() && dealt[j] == c;
            assert(deck[i] == c);
            assert(deck[deck.len() - n + j] == c);
        }
    }
}

/// Dealing zero cards returns the empty sequence and leaves the deck as
/// it was: the dealt suffix of length zero is empty and the remaining
/// prefix is the whole deck.
pub proof fn lemma_deal_zero(deck: Seq<Card>)
    ensures
        deck.subrange(deck.len() - 0, deck.len() as int) == Seq::<Card>::empty(),
        deck.subrange(0, deck.len() - 0) == deck,
{
    assert(deck.subrange(deck.len() as int, deck.len() as int) =~= Seq::<Card>::empty());
    assert(deck.subrange(0, deck.len() as int) =~= deck);
}

/// Dealing every remaining card returns the whole deck and leaves it
/// empty, so repeated deals whose counts sum to the deck's size exhaust
/// it without error.
pub proof fn lemma_deal_all(deck: Seq<Card>)
    ensures
        deck.subrange(deck.len() - deck.len(), deck.len() as int) == deck,
        deck.subrange(0, deck.len() - deck.len()) == Seq::<Card>::empty(),
{
    assert(deck.subrange(0, deck.len() as int) =~= deck);
    assert(deck.subrange(0, 0) =~= Seq::<Card>::empty());
}

impl Deck {
    /// A deck is well formed when no card occurs in it twice.
    pub open spec fn wf(&self) -> bool {
        self@.no_duplicates()
    }

    /// Construct the fresh ordered deck: all 52 cards, one for every
    /// (rank, suit) pair, suit-major and rank-minor.
    pub fn new() -> (deck: Deck)
        ensures
            deck@ == standard_deck(),
            deck@.len() == 52,
            deck.wf(),
            forall|c: Card| deck@.contains(c),
    {
        let mut cards: Vec<Card> = Vec::new();
        let mut i: usize = 0;
        while i < 52
            invariant
                i <= 52,
                cards@.len() == i as int,
                forall|k: int| 0 <= k < i ==> cards@[k] == card_of_index(k),
            decreases 52 - i,
        {
            let suit = suit_from_index(i / 13);
            let rank = rank_from_index(i % 13);
            cards.push(Card { rank, suit });
            i += 1;
        }
        proof {
            assert(cards@ =~= standard_deck());
            lemma_standard_deck_complete();
        }
        Deck { cards }
    }

    /// How many cards remain.
    pub fn len(&self) -> (n: usize)
        ensures
            n == self@.len(),
    {
        self.cards.len()
    }

    /// The remaining cards, top of the construction order first.
    pub fn cards(&self) -> (r: &Vec<Card>)
        ensures
            r@ == self@,
    {
        &self.cards
    }

    /// Randomly permute the deck in place. The multiset of cards is
    /// unchanged: the same cards remain, in the same number, and a deck
    /// without duplicates stays without duplicates.
    pub fn shuffle(&mut self)
        ensures
            final(self)@.to_multiset() == old(self)@.to_multiset(),
            final(self)@.len() == old(self)@.len(),
            forall|c: Card| old(self)@.contains(c) <==> final(self)@.contains(c),
            old(self).wf() ==> final(self).wf(),
    {
        let mut rng = fresh_rng();
        shuffle_cards(&mut self.cards, &mut rng);
        proof {
            old(self)@.to_multiset_ensures();
            self@.to_multiset_ensures();
            assert forall|c: Card| old(self)@.contains(c) <==> self@.contains(c) by {
                assert(old(self)@.to_multiset().count(c) == self@.to_multiset().count(c));
            }
            if old(self).wf() {
                lemma_permutation_preserves_no_duplicates(old(self)@, self@);
            }
        }
    }

    /// Remove and return `num_cards` cards from the end of the deck
    /// opposite its top. When more cards are asked for than remain, the
    /// deal fails with `InsufficientCards` and the deck is unchanged;
    /// otherwise exactly the last `num_cards` cards are returned, in
    /// order, and exactly the others remain.
    pub fn deal(&mut self, num_cards: usize) -> (result: Result<Vec<Card>, DealError>)
        ensures
            num_cards <= old(self)@.len() ==> (result matches Ok(dealt) && dealt@ == old(
                self,
            )@.subrange(old(self)@.len() - num_cards, old(self)@.len() as int) && final(self)@
                == old(self)@.subrange(0, old(self)@.len() - num_cards)),
            num_cards > old(self)@.len() ==> (result matches Err(e) && e
                == DealError::InsufficientCards && final(self)@ == old(self)@),
            old(self).wf() ==> final(self).wf(),
    {
        if num_cards > self.cards.len() {
            return Err(DealError::InsufficientCards);
        }
        let at = self.cards.len() - num_cards;
        let dealt = self.cards.split_off(at);
        Ok(dealt)
    }

    /// The display labels of the remaining cards, in deck order.
    pub fn labels(&self) -> (r: Vec<String>)
        ensures
            r@.len() == self@.len(),
            forall|i: int| 0 <= i < r@.len() ==> r@[i]@ == spec_card_label(self@[i]),
    {
        let mut r: Vec<String> = Vec::new();
        let mut i: usize = 0;
        while i < self.cards.len()
            invariant
                i <= self.cards@.len(),
                r@.len() == i as int,
                forall|k: int| 0 <= k < i ==> r@[k]@ == spec_card_label(self.cards@[k]),
            decreases self.cards@.len() - i,
        {
            let c = self.cards[i];
            r.push(c.label());
            i += 1;
        }
        r
    }
}

} // verus!
