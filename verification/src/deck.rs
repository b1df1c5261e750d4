use vstd::prelude::*;

use crate::model::{all_pairs_valid, pair_valid, PairV, TermPair};

verus! {

/// One two-field note built from a pair: the front is the term, the back the
/// definition; the packaging model also generates the reversed card.
#[derive(Debug)]
pub struct Card {
    pub front: String,
    pub back: String,
}

/// Mathematical image of `Card`.
pub struct CardV {
    pub front: Seq<char>,
    pub back: Seq<char>,
}

impl View for Card {
    type V = CardV;

    open spec fn view(&self) -> CardV {
        CardV { front: self.front@, back: self.back@ }
    }
}

impl DeepView for Card {
    type V = CardV;

    open spec fn deep_view(&self) -> CardV {
        self.view()
    }
}

/// An assembled deck, ready to be handed to the packaging collaborator.
#[derive(Debug)]
pub struct CardDeck {
    pub id: i64,
    pub title: String,
    pub description: String,
    pub cards: Vec<Card>,
}

/// Why assembling a deck failed; always fatal to the whole run.
#[derive(Clone, Copy, PartialEq, Eq, Structural, Debug)]
pub enum AssemblyError {
    /// A note was about to be built from an empty field (defensive boundary;
    /// extraction never yields such a pair).
    InvalidCard,
}

/// The cards a pair sequence yields: one per pair, in pair order.
pub open spec fn spec_cards(ps: Seq<PairV>) -> Seq<CardV> {
    ps.map_values(|p: PairV| CardV { front: p.term, back: p.definition })
}

/// Builds the in-memory deck: one card per pair, preserving pair order; a
/// pair with an empty field is rejected as `InvalidCard`.
pub fn assemble(id: i64, title: &str, description: &str, pairs: &Vec<TermPair>) -> (r: Result<
    CardDeck,
    AssemblyError,
>)
    ensures
        match r {
            Ok(d) => all_pairs_valid(pairs.deep_view()) && d.id == id && d.title@ == title@
                && d.description@ == description@ && d.cards.deep_view() == spec_cards(
                pairs.deep_view(),
            ),
            Err(e) => e == AssemblyError::InvalidCard && !all_pairs_valid(pairs.deep_view()),
        },
{
    let ghost ps = pairs.deep_view();
    let mut cards: Vec<Card> = Vec::new();
    let mut i: usize = 0;
    proof {
        assert(cards.deep_view() =~= spec_cards(ps.take(0)));
    }
    while i < pairs.len()
        invariant
            ps == pairs.deep_view(),
            ps.len() == pairs.len(),
            0 <= i <= pairs.len(),
            all_pairs_valid(ps.take(i as int)),
            cards.deep_view() == spec_cards(ps.take(i as int)),
        decreases pairs.len() - i,
    {
        let pair = &pairs[i];
        if pair.term.as_str().is_empty() || pair.definition.as_str().is_empty() {
            assert(!pair_valid(ps[i as int]));
            return Err(AssemblyError::InvalidCard);
        }
        let card = Card { front: pair.term.clone(), back: pair.definition.clone() };
        let ghost old_cards = cards.deep_view();
        cards.push(card);
        proof {
            assert(pair_valid(ps[i as int]));
            assert(all_pairs_valid(ps.take(i + 1 as int))) by {
                assert(forall|k: int|
                    0 <= k < i + 1 ==> #[trigger] ps.take(i + 1 as int)[k] == ps[k]);
            }
            assert(cards.deep_view() =~= old_cards.push(card.deep_view()));
            assert(cards.deep_view() =~= spec_cards(ps.take(i + 1 as int)));
        }
        i = i + 1;
    }
    proof {
        assert(ps.take(ps.len() as int) =~= ps);
    }
    Ok(CardDeck { id, title: title.to_owned(), description: description.to_owned(), cards })
}

/// Law: assembling is one card per pair, each card's fields the pair's term
/// and definition in that order, and a function of the pairs alone.
pub proof fn lemma_cards_round_trip(ps: Seq<PairV>)
    ensures
        spec_cards(ps).len() == ps.len(),
        forall|i: int|
            0 <= i < ps.len() ==> #[trigger] spec_cards(ps)[i] == (CardV {
                front: ps[i].term,
                back: ps[i].definition,
            }),
{
}

} // verus!
