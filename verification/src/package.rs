use vstd::prelude::*;

use crate::deck::{spec_cards, CardV};
use crate::model::PairV;

verus! {

/// genanki-rs's deck type; opaque here, written to disk by the caller.
#[verifier::external_type_specification]
#[verifier::external_body]
pub struct ExPackageDeck(genanki_rs::Deck);

/// The note rows a package deck holds: one row per note in insertion order,
/// each row the note's field texts in field order.
pub uninterp spec fn package_rows(d: genanki_rs::Deck) -> Seq<Seq<Seq<char>>>;

/// The numeric identifier a package deck was created with.
pub uninterp spec fn package_id(d: genanki_rs::Deck) -> i64;

/// The name a package deck was created with.
pub uninterp spec fn package_title(d: genanki_rs::Deck) -> Seq<char>;

/// Relies on genanki_rs::Deck::new: it stores the given id, name and
/// description and starts with no notes.
#[verifier::external_body]
fn new_package(id: i64, title: &str, description: &str) -> (d: genanki_rs::Deck)
    ensures
        package_rows(d) == Seq::<Seq<Seq<char>>>::empty(),
        package_id(d) == id,
        package_title(d) == title@,
{
    genanki_rs::Deck::new(id, title, description)
}

/// Relies on genanki_rs::Note::new and Deck::add_note: with the built-in
/// basic-and-reversed-card model and exactly two fields, Note::new always
/// returns Ok whatever the field texts hold (the model's requirement
/// computation is a fixed success and the field ordinals it reads are 0 and
/// 1), the note's fields are the given texts in order, and add_note appends
/// the note to the deck, changing nothing else.
#[verifier::external_body]
fn push_note(deck: &mut genanki_rs::Deck, front: &str, back: &str)
    ensures
        package_rows(*final(deck)) == package_rows(*old(deck)).push(seq![front@, back@]),
        package_id(*final(deck)) == package_id(*old(deck)),
        package_title(*final(deck)) == package_title(*old(deck)),
{
    let model = genanki_rs::basic_and_reversed_card_model();
    let note = genanki_rs::Note::new(model, vec![front, back]).expect("two fields fit the model");
    deck.add_note(note);
}

/// The note rows a card sequence yields: one row per card, the card's front
/// then its back.
pub open spec fn spec_rows(cs: Seq<CardV>) -> Seq<Seq<Seq<char>>> {
    cs.map_values(|c: CardV| seq![c.front, c.back])
}

/// Builds the package deck: one note per card, in card order, each note's two
/// fields the card's front and back, under the deck's id and title.
pub fn build_package(deck: &crate::deck::CardDeck) -> (g: genanki_rs::Deck)
    ensures
        package_rows(g) == spec_rows(deck.cards.deep_view()),
        package_id(g) == deck.id,
        package_title(g) == deck.title@,
{
    let ghost cs = deck.cards.deep_view();
    let mut g = new_package(deck.id, deck.title.as_str(), deck.description.as_str());
    let mut i: usize = 0;
    proof {
        assert(package_rows(g) =~= spec_rows(cs.take(0)));
    }
    while i < deck.cards.len()
        invariant
            cs == deck.cards.deep_view(),
            cs.len() == deck.cards.len(),
            0 <= i <= deck.cards.len(),
            package_rows(g) == spec_rows(cs.take(i as int)),
            package_id(g) == deck.id,
            package_title(g) == deck.title@,
        decreases deck.cards.len() - i,
    {
        let card = &deck.cards[i];
        push_note(&mut g, card.front.as_str(), card.back.as_str());
        proof {
            assert(package_rows(g) =~= spec_rows(cs.take(i + 1 as int)));
        }
        i = i + 1;
    }
    proof {
        assert(cs.take(cs.len() as int) =~= cs);
    }
    g
}

/// Law (round trip): packaging the deck assembled from a pair sequence yields
/// exactly one note row per pair, the row's two fields the pair's term and
/// definition in that order. The rows depend on the pairs alone, so repeated
/// builds from the same pairs yield the same notes, whatever deck ids the
/// calls pick.
pub proof fn lemma_package_round_trip(ps: Seq<PairV>)
    ensures
        spec_rows(spec_cards(ps)).len() == ps.len(),
        forall|i: int|
            0 <= i < ps.len() ==> #[trigger] spec_rows(spec_cards(ps))[i] == seq![
                ps[i].term,
                ps[i].definition,
            ],
{
}

} // verus!
