use vstd::prelude::*;
use vstd::string::StringExecFns;

use crate::card::{Card, CardData};
use crate::deck::{cards_decoded, decode_cards, first_card_error};
use crate::error::DecodeError;
use crate::render::verbose_text;

verus! {

/// How many search results are listed.
pub const RESULT_LIMIT: usize = 5;

/// The cards that a catalog search returned.
#[derive(Debug)]
pub struct CardSearchResponse {
    pub cards: Vec<Card>,
}

pub open spec fn is_original(c: Card) -> bool {
    !c.dup
}

/// The cards of `cards` that are not reprints, in their order.
pub open spec fn originals(cards: Seq<Card>) -> Seq<Card> {
    cards.filter(|c: Card| is_original(c))
}

/// The cards a search listing shows: the first originals, up to the limit.
pub open spec fn shown(cards: Seq<Card>) -> Seq<Card> {
    let o = originals(cards);
    if o.len() <= RESULT_LIMIT {
        o
    } else {
        o.take(RESULT_LIMIT as int)
    }
}

/// Each card's verbose form on lines of its own.
pub open spec fn listing_text(cs: Seq<Card>) -> Seq<char>
    decreases cs.len(),
{
    if cs.len() == 0 {
        Seq::empty()
    } else {
        listing_text(cs.drop_last()) + verbose_text(cs.last()) + seq!['\n']
    }
}

pub open spec fn derefs(r: Seq<&Card>) -> Seq<Card> {
    r.map_values(|c: &Card| *c)
}

impl CardSearchResponse {
    /// Validates every card record of a search reply; the first failure is the result.
    pub fn decode(records: &Vec<CardData>) -> (r: Result<CardSearchResponse, DecodeError>)
        ensures
            match first_card_error(records@) {
                None => r matches Ok(resp) && cards_decoded(records@, resp.cards@),
                Some(e) => r == Err::<CardSearchResponse, DecodeError>(e),
            },
    {
        match decode_cards(records) {
            Ok(cards) => Ok(CardSearchResponse { cards }),
            Err(e) => Err(e),
        }
    }

    /// The cards that are not reprints of another card, in reply order.
    pub fn originals(&self) -> (r: Vec<&Card>)
        ensures
            derefs(r@) == originals(self.cards@),
    {
        let mut out: Vec<&Card> = Vec::new();
        let mut i: usize = 0;
        while i < self.cards.len()
            invariant
                i <= self.cards.len(),
                derefs(out@) == originals(self.cards@.take(i as int)),
            decreases self.cards.len() - i,
        {
            let c = &self.cards[i];
            proof {
                let t = self.cards@.take(i as int);
                assert(self.cards@.take(i + 1) =~= t.push(*c));
                t.lemma_filter_push(*c, |c: Card| is_original(c));
            }
            if !c.dup {
                out.push(c);
            }
            assert(derefs(out@) =~= originals(self.cards@.take(i + 1)));
            i += 1;
        }
        assert(self.cards@.take(self.cards.len() as int) =~= self.cards@);
        out
    }

    /// The listing of a search: the verbose form of each of the first original cards,
    /// up to the limit, one after the other.
    pub fn listing(&self) -> (r: String)
        ensures
            r@ == listing_text(shown(self.cards@)),
    {
        let found = self.originals();
        let n = if found.len() <= RESULT_LIMIT {
            found.len()
        } else {
            RESULT_LIMIT
        };
        let ghost shown_cards = shown(self.cards@);
        assert(shown_cards =~= derefs(found@).take(n as int));
        let mut s = String::new();
        let mut i: usize = 0;
        while i < n
            invariant
                i <= n,
                n <= found.len(),
                shown_cards =~= derefs(found@).take(n as int),
                s@ == listing_text(shown_cards.take(i as int)),
            decreases n - i,
        {
            proof {
                reveal_strlit("\n");
                assert(shown_cards.take(i + 1).drop_last() =~= shown_cards.take(i as int));
            }
            let text = found[i].verbose();
            s.append(text.as_str());
            s.append("\n");
            assert(s@ =~= listing_text(shown_cards.take(i + 1)));
            i += 1;
        }
        assert(shown_cards.take(n as int) =~= shown_cards);
        s
    }
}

/// Dropping reprints keeps exactly the cards that are not reprints, in their order:
/// every kept card is an original, and a card of the input is kept exactly when it is
/// an original, each original once per occurrence.
pub proof fn lemma_originals(cards: Seq<Card>)
    ensures
        forall|i: int| 0 <= i < originals(cards).len() ==> !(#[trigger] originals(cards)[i]).dup,
        originals(cards) == (if cards.len() == 0 {
            Seq::<Card>::empty()
        } else if cards.last().dup {
            originals(cards.drop_last())
        } else {
            originals(cards.drop_last()).push(cards.last())
        }),
{
    if cards.len() > 0 {
        cards.drop_last().lemma_filter_push(cards.last(), |c: Card| is_original(c));
        assert(cards.drop_last().push(cards.last()) =~= cards);
    } else {
        reveal(Seq::filter);
    }
    assert forall|i: int| 0 <= i < originals(cards).len() implies !(
    #[trigger] originals(cards)[i]).dup by {
        cards.lemma_filter_pred(|c: Card| is_original(c), i);
    }
}

} // verus!
