use vstd::prelude::*;

use vstd::string::StringExecFns;

use crate::aggregate::{aggregate, aggregation_of, counted};
use crate::card::{card_parts, decode_card, decodes_to, Card, CardData};
use crate::render::{compact_text, decimal, push_decimal, repeated};
use crate::error::{lookup, DecodeError, EnumKind};
use crate::taxonomy::{class_name, class_of_id, Class, ClassData};

verus! {

/// A sideboard record: its host card and the cards it holds, before validation.
#[derive(Debug)]
pub struct SideboardData {
    pub sideboard_card: CardData,
    pub cards_in_sideboard: Vec<CardData>,
}

/// A deck record as the catalog service sends it, before validation.
#[derive(Debug)]
pub struct DeckData {
    pub deck_code: String,
    pub format: String,
    pub class: ClassData,
    pub cards: Vec<CardData>,
    pub sideboard_cards: Option<Vec<SideboardData>>,
}

/// A group of cards tied to a host card of the deck.
#[derive(Debug)]
pub struct Sideboard {
    pub sideboard_card: Card,
    pub cards_in_sideboard: Vec<Card>,
}

/// A validated deck. The card lists hold one entry per copy.
#[derive(Debug)]
pub struct Deck {
    pub deck_code: String,
    pub format: String,
    pub class: Class,
    pub cards: Vec<Card>,
    pub sideboard_cards: Option<Vec<Sideboard>>,
}

/// The first error met when the records are decoded in order, if any.
pub open spec fn first_card_error(ds: Seq<CardData>) -> Option<DecodeError>
    decreases ds.len(),
{
    if ds.len() == 0 {
        None
    } else {
        match first_card_error(ds.drop_last()) {
            Some(e) => Some(e),
            None => match card_parts(ds.last()) {
                Err(e) => Some(e),
                Ok(_) => None,
            },
        }
    }
}

/// `cs` is what decoding the records `ds` one by one yields.
pub open spec fn cards_decoded(ds: Seq<CardData>, cs: Seq<Card>) -> bool {
    &&& cs.len() == ds.len()
    &&& forall|i: int| 0 <= i < ds.len() ==> decodes_to(#[trigger] ds[i], Ok(cs[i]))
    &&& forall|i: int| 0 <= i < cs.len() ==> (#[trigger] cs[i]).wf()
}

pub open spec fn sideboard_error(s: SideboardData) -> Option<DecodeError> {
    match card_parts(s.sideboard_card) {
        Err(e) => Some(e),
        Ok(_) => first_card_error(s.cards_in_sideboard@),
    }
}

pub open spec fn first_sideboard_error(ss: Seq<SideboardData>) -> Option<DecodeError>
    decreases ss.len(),
{
    if ss.len() == 0 {
        None
    } else {
        match first_sideboard_error(ss.drop_last()) {
            Some(e) => Some(e),
            None => sideboard_error(ss.last()),
        }
    }
}

pub open spec fn sideboard_decoded(s: SideboardData, b: Sideboard) -> bool {
    &&& decodes_to(s.sideboard_card, Ok(b.sideboard_card))
    &&& b.sideboard_card.wf()
    &&& cards_decoded(s.cards_in_sideboard@, b.cards_in_sideboard@)
}

/// The first error met when a deck record is decoded: its class, then its cards in
/// order, then each sideboard's host card and cards in order.
pub open spec fn deck_error(d: DeckData) -> Option<DecodeError> {
    match lookup(class_of_id(d.class.id), EnumKind::Class, d.class.id) {
        Err(e) => Some(e),
        Ok(_) => match first_card_error(d.cards@) {
            Some(e) => Some(e),
            None => match d.sideboard_cards {
                None => None,
                Some(ss) => first_sideboard_error(ss@),
            },
        },
    }
}

/// `k` is the deck decoded from record `d`.
pub open spec fn deck_decoded(d: DeckData, k: Deck) -> bool {
    &&& k.deck_code@ == d.deck_code@
    &&& k.format@ == d.format@
    &&& class_of_id(d.class.id) == Some(k.class)
    &&& cards_decoded(d.cards@, k.cards@)
    &&& match (d.sideboard_cards, k.sideboard_cards) {
        (None, None) => true,
        (Some(ss), Some(bs)) => bs@.len() == ss@.len() && forall|i: int|
            0 <= i < ss@.len() ==> sideboard_decoded(#[trigger] ss@[i], bs@[i]),
        _ => false,
    }
}

proof fn lemma_card_error_prefix(ds: Seq<CardData>, i: int)
    requires
        0 <= i <= ds.len(),
        first_card_error(ds.take(i)) is Some,
    ensures
        first_card_error(ds) == first_card_error(ds.take(i)),
    decreases ds.len(),
{
    if i < ds.len() {
        assert(ds.drop_last().take(i) =~= ds.take(i));
        lemma_card_error_prefix(ds.drop_last(), i);
    } else {
        assert(ds.take(i) =~= ds);
    }
}

proof fn lemma_sideboard_error_prefix(ss: Seq<SideboardData>, i: int)
    requires
        0 <= i <= ss.len(),
        first_sideboard_error(ss.take(i)) is Some,
    ensures
        first_sideboard_error(ss) == first_sideboard_error(ss.take(i)),
    decreases ss.len(),
{
    if i < ss.len() {
        assert(ss.drop_last().take(i) =~= ss.take(i));
        lemma_sideboard_error_prefix(ss.drop_last(), i);
    } else {
        assert(ss.take(i) =~= ss);
    }
}

/// Decodes card records in order; the first record that fails is the result.
pub fn decode_cards(ds: &Vec<CardData>) -> (r: Result<Vec<Card>, DecodeError>)
    ensures
        match first_card_error(ds@) {
            None => r matches Ok(cs) && cards_decoded(ds@, cs@),
            Some(e) => r == Err::<Vec<Card>, DecodeError>(e),
        },
{
    let mut out: Vec<Card> = Vec::new();
    let mut i: usize = 0;
    while i < ds.len()
        invariant
            i <= ds.len(),
            first_card_error(ds@.take(i as int)) is None,
            cards_decoded(ds@.take(i as int), out@),
        decreases ds.len() - i,
    {
        proof {
            assert(ds@.take(i + 1).drop_last() =~= ds@.take(i as int));
        }
        match decode_card(&ds[i]) {
            Ok(c) => {
                out.push(c);
                proof {
                    assert forall|j: int| 0 <= j < i + 1 implies decodes_to(
                        #[trigger] ds@.take(i + 1)[j],
                        Ok(out@[j]),
                    ) by {
                        if j < i {
                            assert(ds@.take(i + 1)[j] == ds@.take(i as int)[j]);
                        }
                    }
                }
            },
            Err(e) => {
                proof {
                    lemma_card_error_prefix(ds@, i + 1);
                }
                return Err(e);
            },
        }
        i += 1;
    }
    assert(ds@.take(ds.len() as int) =~= ds@);
    Ok(out)
}

/// Decodes a sideboard record: its host card, then its cards.
pub fn decode_sideboard(s: &SideboardData) -> (r: Result<Sideboard, DecodeError>)
    ensures
        match sideboard_error(*s) {
            None => r matches Ok(b) && sideboard_decoded(*s, b),
            Some(e) => r == Err::<Sideboard, DecodeError>(e),
        },
{
    let sideboard_card = match decode_card(&s.sideboard_card) {
        Ok(c) => c,
        Err(e) => return Err(e),
    };
    let cards_in_sideboard = match decode_cards(&s.cards_in_sideboard) {
        Ok(cs) => cs,
        Err(e) => return Err(e),
    };
    Ok(Sideboard { sideboard_card, cards_in_sideboard })
}

fn decode_sideboards(ss: &Vec<SideboardData>) -> (r: Result<Vec<Sideboard>, DecodeError>)
    ensures
        match first_sideboard_error(ss@) {
            None => r matches Ok(bs) && bs@.len() == ss@.len() && forall|i: int|
                0 <= i < ss@.len() ==> sideboard_decoded(#[trigger] ss@[i], bs@[i]),
            Some(e) => r == Err::<Vec<Sideboard>, DecodeError>(e),
        },
{
    let mut out: Vec<Sideboard> = Vec::new();
    let mut i: usize = 0;
    while i < ss.len()
        invariant
            i <= ss.len(),
            first_sideboard_error(ss@.take(i as int)) is None,
            out@.len() == i,
            forall|j: int| 0 <= j < i ==> sideboard_decoded(#[trigger] ss@[j], out@[j]),
        decreases ss.len() - i,
    {
        proof {
            assert(ss@.take(i + 1).drop_last() =~= ss@.take(i as int));
        }
        match decode_sideboard(&ss[i]) {
            Ok(b) => {
                out.push(b);
            },
            Err(e) => {
                proof {
                    lemma_sideboard_error_prefix(ss@, i + 1);
                }
                return Err(e);
            },
        }
        i += 1;
    }
    assert(ss@.take(ss.len() as int) =~= ss@);
    Ok(out)
}

/// Validates a deck record: the class, every card of the main list, and each
/// sideboard's host card and cards. All or nothing; the first failure is the result.
pub fn decode_deck(d: &DeckData) -> (r: Result<Deck, DecodeError>)
    ensures
        match deck_error(*d) {
            None => r matches Ok(k) && deck_decoded(*d, k),
            Some(e) => r == Err::<Deck, DecodeError>(e),
        },
{
    let class = match d.class.decode() {
        Ok(c) => c,
        Err(e) => return Err(e),
    };
    let cards = match decode_cards(&d.cards) {
        Ok(cs) => cs,
        Err(e) => return Err(e),
    };
    let sideboard_cards = match &d.sideboard_cards {
        None => None,
        Some(ss) => match decode_sideboards(ss) {
            Ok(bs) => Some(bs),
            Err(e) => return Err(e),
        },
    };
    Ok(Deck {
        deck_code: d.deck_code.clone(),
        format: d.format.clone(),
        class,
        cards,
        sideboard_cards,
    })
}

/// The repeat count of a listing line, right-aligned in three columns; blank for a
/// single copy.
pub open spec fn count_column(n: nat) -> Seq<char> {
    if n == 1 {
        repeated(' ', 3)
    } else {
        let c = decimal(n) + seq!['x'];
        if c.len() < 3 {
            repeated(' ', (3 - c.len()) as nat) + c
        } else {
            c
        }
    }
}

/// One listing line per entry: count column, a space, the card's one-line form.
pub open spec fn entries_text(v: Seq<(Card, nat)>) -> Seq<char>
    decreases v.len(),
{
    if v.len() == 0 {
        Seq::empty()
    } else {
        entries_text(v.drop_last()) + count_column(v.last().1) + seq![' '] + compact_text(v.last().0)
            + seq!['\n']
    }
}

pub open spec fn sideboards_text(bs: Seq<Sideboard>) -> Seq<char>
    decreases bs.len(),
{
    if bs.len() == 0 {
        Seq::empty()
    } else {
        sideboards_text(bs.drop_last()) + "Sideboard of "@ + bs.last().sideboard_card.name@ + ":\n"@
            + entries_text(aggregation_of(bs.last().cards_in_sideboard@))
    }
}

pub open spec fn has_sideboards(k: Deck) -> bool {
    k.sideboard_cards matches Some(bs) && bs@.len() > 0
}

/// The deck listing: a header with format, class and code, then the aggregated main
/// list (labelled when there are sideboards), then each sideboard with its own
/// aggregated list.
pub open spec fn deck_text(k: Deck) -> Seq<char> {
    k.format@ + " "@ + class_name(k.class) + " deck.\n"@ + k.deck_code@ + "\n"@ + (if has_sideboards(k) {
        "Main Deck:\n"@
    } else {
        Seq::empty()
    }) + entries_text(aggregation_of(k.cards@)) + match k.sideboard_cards {
        Some(bs) => sideboards_text(bs@),
        None => Seq::empty(),
    }
}

proof fn lemma_decimal_len(n: nat)
    ensures
        decimal(n).len() >= 1,
        decimal(n).len() == 1 <==> n < 10,
    decreases n,
{
    if n >= 10 {
        lemma_decimal_len(n / 10);
    }
}

fn push_count_column(s: &mut String, n: usize)
    requires
        n >= 1,
    ensures
        final(s)@ == old(s)@ + count_column(n as nat),
{
    proof {
        reveal_strlit("   ");
        reveal_strlit(" ");
        reveal_strlit("x");
        lemma_decimal_len(n as nat);
        assert("x"@ =~= seq!['x']);
        assert(" "@ =~= repeated(' ', 1));
        assert("   "@ =~= repeated(' ', 3));
    }
    if n == 1 {
        s.append("   ");
    } else {
        if n < 10 {
            s.append(" ");
        }
        push_decimal(s, n as u64);
        s.append("x");
    }
    assert(s@ =~= old(s)@ + count_column(n as nat));
}

fn push_entries(s: &mut String, entries: &Vec<(&Card, usize)>)
    requires
        forall|k: int| 0 <= k < entries@.len() ==> (#[trigger] entries@[k]).1 >= 1,
    ensures
        final(s)@ == old(s)@ + entries_text(counted(entries@)),
{
    let ghost v = counted(entries@);
    let mut i: usize = 0;
    while i < entries.len()
        invariant
            i <= entries.len(),
            v == counted(entries@),
            forall|k: int| 0 <= k < entries@.len() ==> (#[trigger] entries@[k]).1 >= 1,
            s@ == old(s)@ + entries_text(v.take(i as int)),
        decreases entries.len() - i,
    {
        let (card, n) = entries[i];
        proof {
            reveal_strlit(" ");
            reveal_strlit("\n");
            assert(v.take(i + 1).drop_last() =~= v.take(i as int));
            assert(v.take(i + 1).last() == (*card, n as nat));
        }
        push_count_column(s, n);
        s.append(" ");
        card.push_compact(s);
        s.append("\n");
        assert(s@ =~= old(s)@ + entries_text(v.take(i + 1)));
        i += 1;
    }
    assert(v.take(entries.len() as int) =~= v);
}

fn push_aggregated(s: &mut String, cards: &Vec<Card>)
    ensures
        final(s)@ == old(s)@ + entries_text(aggregation_of(cards@)),
{
    let entries = aggregate(cards);
    proof {
        assert forall|k: int| 0 <= k < entries@.len() implies (#[trigger] entries@[k]).1 >= 1 by {
            assert(counted(entries@)[k].1 == entries@[k].1 as nat);
            lemma_aggregated_count_positive(cards@, counted(entries@), k);
        }
    }
    push_entries(s, &entries);
}

proof fn lemma_aggregated_count_positive(cards: Seq<Card>, v: Seq<(Card, nat)>, k: int)
    requires
        crate::aggregate::is_aggregation(cards, v),
        0 <= k < v.len(),
    ensures
        v[k].1 >= 1,
{
    assert(crate::aggregate::first_of_id(cards, v[k].0));
    let j = choose|j: int| 0 <= j < cards.len() && cards[j] == v[k].0 && forall|j2: int|
        0 <= j2 < j ==> #[trigger] cards[j2].id != v[k].0.id;
    crate::aggregate::lemma_count_id_present(cards, j);
}

impl Deck {
    /// The deck listing.
    pub fn render(&self) -> (r: String)
        ensures
            r@ == deck_text(*self),
    {
        let mut s = String::new();
        s.append(self.format.as_str());
        s.append(" ");
        s.append(self.class.name());
        s.append(" deck.\n");
        s.append(self.deck_code.as_str());
        s.append("\n");
        let labelled = match &self.sideboard_cards {
            Some(bs) => bs.len() > 0,
            None => false,
        };
        if labelled {
            s.append("Main Deck:\n");
        }
        push_aggregated(&mut s, &self.cards);
        let ghost head = s@;
        match &self.sideboard_cards {
            Some(bs) => {
                let mut i: usize = 0;
                while i < bs.len()
                    invariant
                        i <= bs.len(),
                        s@ == head + sideboards_text(bs@.take(i as int)),
                    decreases bs.len() - i,
                {
                    proof {
                        assert(bs@.take(i + 1).drop_last() =~= bs@.take(i as int));
                    }
                    s.append("Sideboard of ");
                    s.append(bs[i].sideboard_card.name.as_str());
                    s.append(":\n");
                    push_aggregated(&mut s, &bs[i].cards_in_sideboard);
                    assert(s@ =~= head + sideboards_text(bs@.take(i + 1)));
                    i += 1;
                }
                assert(bs@.take(bs.len() as int) =~= bs@);
            },
            None => {},
        }
        assert(s@ =~= deck_text(*self));
        s
    }
}

} // verus!
