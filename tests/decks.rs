use hsb::aggregate::aggregate;
use hsb::card::{decode_card, Card, CardData};
use hsb::deck::{decode_deck, DeckData, SideboardData};
use hsb::error::{DecodeError, EnumKind};
use hsb::search::CardSearchResponse;
use hsb::taxonomy::{Class, ClassData};

fn record(id: usize, name: &str, rarity_id: u8, cost: u8) -> CardData {
    CardData {
        id,
        card_type_id: 5,
        class_id: 12,
        multi_class_ids: vec![],
        rarity_id,
        card_set_id: 1,
        name: name.to_string(),
        text: String::new(),
        mana_cost: cost,
        rune_cost: None,
        attack: None,
        health: None,
        durability: None,
        armor: None,
        minion_type_id: None,
        multi_type_ids: None,
        spell_school_id: None,
        image: String::new(),
        copy_of_card_id: None,
    }
}

fn card(id: usize, name: &str, rarity_id: u8, cost: u8) -> Card {
    decode_card(&record(id, name, rarity_id, cost)).unwrap()
}

fn summary(v: &[(&Card, usize)]) -> Vec<(usize, usize)> {
    v.iter().map(|(c, n)| (c.id, *n)).collect()
}

#[test]
fn aggregation_counts_every_card() {
    let cards = vec![
        card(2, "B", 1, 2),
        card(1, "A", 1, 1),
        card(2, "B", 1, 2),
        card(3, "C", 5, 9),
        card(2, "B", 1, 2),
    ];
    let agg = aggregate(&cards);
    assert_eq!(summary(&agg), vec![(3, 1), (1, 1), (2, 3)]);
    assert_eq!(agg.iter().map(|(_, n)| *n).sum::<usize>(), cards.len());
}

#[test]
fn aggregation_ignores_input_order() {
    let a = vec![card(1, "A", 1, 1), card(2, "B", 1, 2), card(1, "A", 1, 1), card(4, "D", 3, 0)];
    let b = vec![card(4, "D", 3, 0), card(1, "A", 1, 1), card(1, "A", 1, 1), card(2, "B", 1, 2)];
    assert_eq!(summary(&aggregate(&a)), summary(&aggregate(&b)));
    assert_eq!(summary(&aggregate(&a)), vec![(4, 1), (1, 2), (2, 1)]);
}

#[test]
fn aggregation_of_no_cards_is_empty() {
    let cards: Vec<Card> = vec![];
    assert!(aggregate(&cards).is_empty());
}

#[test]
fn equal_keys_are_listed_by_id() {
    let cards = vec![card(9, "Same", 1, 1), card(3, "Same", 1, 1), card(9, "Same", 1, 1)];
    assert_eq!(summary(&aggregate(&cards)), vec![(3, 1), (9, 2)]);
}

fn deck_record(cards: Vec<CardData>, sideboards: Option<Vec<SideboardData>>) -> DeckData {
    DeckData {
        deck_code: "AAECAQcG".to_string(),
        format: "standard".to_string(),
        class: ClassData { id: 10 },
        cards,
        sideboard_cards: sideboards,
    }
}

#[test]
fn deck_lists_repeats_with_count_column() {
    let d = deck_record(
        vec![record(1, "Alpha", 1, 1), record(1, "Alpha", 1, 1), record(2, "Beta", 1, 2)],
        None,
    );
    let deck = decode_deck(&d).unwrap();
    assert_eq!(deck.class, Class::Warrior);
    let a = card(1, "Alpha", 1, 1).compact();
    let b = card(2, "Beta", 1, 2).compact();
    assert_eq!(
        deck.render(),
        format!("standard Warrior deck.\nAAECAQcG\n 2x {a}\n    {b}\n")
    );
}

#[test]
fn deck_with_many_copies_fills_the_column() {
    let d = deck_record((0..12).map(|_| record(1, "Alpha", 1, 1)).collect(), None);
    let deck = decode_deck(&d).unwrap();
    let a = card(1, "Alpha", 1, 1).compact();
    assert_eq!(deck.render(), format!("standard Warrior deck.\nAAECAQcG\n12x {a}\n"));
}

#[test]
fn deck_with_sideboards_labels_main_list() {
    let sb = SideboardData {
        sideboard_card: record(7, "Host", 5, 3),
        cards_in_sideboard: vec![record(8, "Extra", 1, 1), record(8, "Extra", 1, 1)],
    };
    let d = deck_record(vec![record(7, "Host", 5, 3)], Some(vec![sb]));
    let deck = decode_deck(&d).unwrap();
    let host = card(7, "Host", 5, 3).compact();
    let extra = card(8, "Extra", 1, 1).compact();
    assert_eq!(
        deck.render(),
        format!(
            "standard Warrior deck.\nAAECAQcG\nMain Deck:\n    {host}\nSideboard of Host:\n 2x {extra}\n"
        )
    );
}

#[test]
fn deck_decode_is_all_or_nothing() {
    let mut bad = record(3, "Bad", 1, 1);
    bad.card_type_id = 99;
    let d = deck_record(vec![record(1, "A", 1, 1), bad], None);
    assert!(matches!(decode_deck(&d), Err(DecodeError::UnknownCardType { id: 99 })));
    let mut d = deck_record(vec![record(1, "A", 1, 1)], None);
    d.class = ClassData { id: 13 };
    assert!(matches!(
        decode_deck(&d),
        Err(DecodeError::UnknownEnumId { kind: EnumKind::Class, id: 13 })
    ));
    let mut bad = record(3, "Bad", 1, 1);
    bad.rarity_id = 0;
    let sb = SideboardData { sideboard_card: record(7, "Host", 5, 3), cards_in_sideboard: vec![bad] };
    let d = deck_record(vec![record(1, "A", 1, 1)], Some(vec![sb]));
    assert!(matches!(
        decode_deck(&d),
        Err(DecodeError::UnknownEnumId { kind: EnumKind::Rarity, id: 0 })
    ));
}

#[test]
fn search_drops_reprints_and_keeps_order() {
    let mut records = vec![];
    for i in 0..8usize {
        let mut r = record(i, &format!("Card{i}"), 1, i as u8);
        if i % 3 == 1 {
            r.copy_of_card_id = Some(100 + i);
        }
        records.push(r);
    }
    let resp = CardSearchResponse::decode(&records).unwrap();
    let ids: Vec<usize> = resp.originals().iter().map(|c| c.id).collect();
    assert_eq!(ids, vec![0, 2, 3, 5, 6]);
    assert!(resp.originals().iter().all(|c| !c.dup));
}

#[test]
fn search_listing_shows_first_five_originals() {
    let records: Vec<CardData> = (0..7usize).map(|i| record(i, &format!("N{i}"), 1, 1)).collect();
    let resp = CardSearchResponse::decode(&records).unwrap();
    let expected: String = resp.cards[..5].iter().map(|c| format!("{}\n", c.verbose())).collect();
    assert_eq!(resp.listing(), expected);
    assert!(resp.listing().starts_with("N0 common Neutral 1 mana spell.\nSet 1.\n\nImage: \n"));
}

#[test]
fn deck_with_hundred_copies_overflows_the_column() {
    let d = deck_record((0..100).map(|_| record(1, "Alpha", 1, 1)).collect(), None);
    let deck = decode_deck(&d).unwrap();
    let a = card(1, "Alpha", 1, 1).compact();
    assert_eq!(deck.render(), format!("standard Warrior deck.\nAAECAQcG\n100x {a}\n"));
}
