use std::cmp::Ordering;

use hsb::card::{decode_card, Card, CardData, CardType, RuneCost};
use hsb::error::{DecodeError, EnumKind, Field};
use hsb::taxonomy::{Class, ClassData, MinionType, Rarity, SpellSchool};

fn record(id: usize, name: &str, card_type_id: u8) -> CardData {
    CardData {
        id,
        card_type_id,
        class_id: 4,
        multi_class_ids: vec![],
        rarity_id: 5,
        card_set_id: 1635,
        name: name.to_string(),
        text: "Some text.".to_string(),
        mana_cost: 10,
        rune_cost: None,
        attack: Some(10),
        health: Some(10),
        durability: Some(3),
        armor: Some(5),
        minion_type_id: None,
        multi_type_ids: None,
        spell_school_id: None,
        image: "https://img/x.png".to_string(),
        copy_of_card_id: None,
    }
}

fn card(id: usize, name: &str, rarity_id: u8, cost: u8) -> Card {
    let mut d = record(id, name, 4);
    d.rarity_id = rarity_id;
    d.mana_cost = cost;
    decode_card(&d).unwrap()
}

#[test]
fn class_table_decodes_known_ids_only() {
    let table = [
        (1, Class::DeathKnight),
        (14, Class::DemonHunter),
        (2, Class::Druid),
        (3, Class::Hunter),
        (4, Class::Mage),
        (5, Class::Paladin),
        (6, Class::Priest),
        (7, Class::Rogue),
        (8, Class::Shaman),
        (9, Class::Warlock),
        (10, Class::Warrior),
        (12, Class::Neutral),
    ];
    for id in 0..=255u8 {
        let expected = table.iter().find(|(k, _)| *k == id).map(|(_, c)| *c);
        match expected {
            Some(c) => assert_eq!(Class::from_id(id), Ok(c)),
            None => assert_eq!(
                Class::from_id(id),
                Err(DecodeError::UnknownEnumId { kind: EnumKind::Class, id })
            ),
        }
    }
    assert_eq!(ClassData { id: 9 }.decode(), Ok(Class::Warlock));
}

#[test]
fn rarity_table_decodes_known_ids_only() {
    let table = [
        (1, Rarity::Common),
        (2, Rarity::Free),
        (3, Rarity::Rare),
        (4, Rarity::Epic),
        (5, Rarity::Legendary),
    ];
    for id in 0..=255u8 {
        match table.iter().find(|(k, _)| *k == id) {
            Some((_, r)) => assert_eq!(Rarity::from_id(id), Ok(*r)),
            None => assert_eq!(
                Rarity::from_id(id),
                Err(DecodeError::UnknownEnumId { kind: EnumKind::Rarity, id })
            ),
        }
    }
}

#[test]
fn spell_school_table_decodes_known_ids_only() {
    let table = [
        (1, SpellSchool::Arcane),
        (2, SpellSchool::Fire),
        (3, SpellSchool::Frost),
        (4, SpellSchool::Nature),
        (5, SpellSchool::Holy),
        (6, SpellSchool::Shadow),
        (7, SpellSchool::Fel),
    ];
    for id in 0..=255u8 {
        match table.iter().find(|(k, _)| *k == id) {
            Some((_, s)) => assert_eq!(SpellSchool::from_id(id), Ok(*s)),
            None => assert_eq!(
                SpellSchool::from_id(id),
                Err(DecodeError::UnknownEnumId { kind: EnumKind::SpellSchool, id })
            ),
        }
    }
}

#[test]
fn minion_type_table_decodes_known_ids_only() {
    let table = [
        (11, MinionType::Undead),
        (14, MinionType::Murloc),
        (15, MinionType::Demon),
        (17, MinionType::Mech),
        (18, MinionType::Elemental),
        (20, MinionType::Beast),
        (21, MinionType::Totem),
        (23, MinionType::Pirate),
        (24, MinionType::Dragon),
        (26, MinionType::All),
        (43, MinionType::Quilboar),
        (92, MinionType::Naga),
    ];
    for id in 0..=255u8 {
        match table.iter().find(|(k, _)| *k == id) {
            Some((_, t)) => assert_eq!(MinionType::from_id(id), Ok(*t)),
            None => assert_eq!(
                MinionType::from_id(id),
                Err(DecodeError::UnknownEnumId { kind: EnumKind::MinionType, id })
            ),
        }
    }
    assert_eq!(MinionType::All.name(), "Amalgam");
}

#[test]
fn legendary_mage_minion_decodes_and_renders() {
    let c = decode_card(&record(1, "Archmage", 4)).unwrap();
    assert_eq!(c.class, vec![Class::Mage]);
    assert_eq!(c.rarity, Rarity::Legendary);
    assert!(!c.dup);
    assert_eq!(c.compact(), "Archmage Legendary Mage 10 mana 10/10 minion.");
}

#[test]
fn unknown_card_type_is_rejected() {
    let r = decode_card(&record(1, "X", 99));
    assert!(matches!(r, Err(DecodeError::UnknownCardType { id: 99 })));
}

#[test]
fn missing_required_fields_are_reported() {
    let mut hero = record(1, "H", 3);
    hero.armor = None;
    assert!(matches!(
        decode_card(&hero),
        Err(DecodeError::MissingRequiredField { field: Field::Armor })
    ));
    let mut minion = record(2, "M", 4);
    minion.attack = None;
    assert!(matches!(
        decode_card(&minion),
        Err(DecodeError::MissingRequiredField { field: Field::Attack })
    ));
    let mut minion = record(3, "M", 4);
    minion.health = None;
    assert!(matches!(
        decode_card(&minion),
        Err(DecodeError::MissingRequiredField { field: Field::Health })
    ));
    let mut weapon = record(4, "W", 7);
    weapon.durability = None;
    assert!(matches!(
        decode_card(&weapon),
        Err(DecodeError::MissingRequiredField { field: Field::Durability })
    ));
    let mut location = record(5, "L", 39);
    location.durability = None;
    assert!(matches!(
        decode_card(&location),
        Err(DecodeError::MissingRequiredField { field: Field::Durability })
    ));
}

#[test]
fn bad_ids_fail_the_whole_card() {
    let mut d = record(1, "X", 4);
    d.multi_class_ids = vec![4, 77];
    assert!(matches!(
        decode_card(&d),
        Err(DecodeError::UnknownEnumId { kind: EnumKind::Class, id: 77 })
    ));
    let mut d = record(1, "X", 4);
    d.rarity_id = 9;
    assert!(matches!(
        decode_card(&d),
        Err(DecodeError::UnknownEnumId { kind: EnumKind::Rarity, id: 9 })
    ));
    let mut d = record(1, "X", 5);
    d.spell_school_id = Some(8);
    assert!(matches!(
        decode_card(&d),
        Err(DecodeError::UnknownEnumId { kind: EnumKind::SpellSchool, id: 8 })
    ));
    let mut d = record(1, "X", 4);
    d.minion_type_id = Some(20);
    d.multi_type_ids = Some(vec![24, 2]);
    assert!(matches!(
        decode_card(&d),
        Err(DecodeError::UnknownEnumId { kind: EnumKind::MinionType, id: 2 })
    ));
}

#[test]
fn class_set_rules() {
    let mut d = record(1, "X", 4);
    d.class_id = 7;
    d.multi_class_ids = vec![6, 9, 6];
    let c = decode_card(&d).unwrap();
    assert_eq!(c.class, vec![Class::Priest, Class::Warlock]);
    assert_eq!(c.compact(), "X Legendary Priest/Warlock 10 mana 10/10 minion.");
}

#[test]
fn minion_type_set_rules() {
    let mut d = record(1, "X", 4);
    d.minion_type_id = Some(20);
    let c = decode_card(&d).unwrap();
    assert!(matches!(&c.card_type, CardType::Minion { minion_types, .. } if *minion_types == vec![MinionType::Beast]));
    assert_eq!(c.compact(), "X Legendary Mage 10 mana 10/10 Beast.");

    let mut d = record(2, "Y", 4);
    d.minion_type_id = Some(20);
    d.multi_type_ids = Some(vec![24, 20]);
    let c = decode_card(&d).unwrap();
    assert_eq!(c.compact(), "Y Legendary Mage 10 mana 10/10 Beast/Dragon.");

    let mut d = record(3, "Z", 4);
    d.multi_type_ids = Some(vec![92]);
    let c = decode_card(&d).unwrap();
    assert_eq!(c.compact(), "Z Legendary Mage 10 mana 10/10 Naga.");
}

#[test]
fn type_descriptions_render() {
    let mut d = record(1, "H", 3);
    d.rarity_id = 4;
    d.mana_cost = 7;
    assert_eq!(decode_card(&d).unwrap().compact(), "H epic Mage 7 mana Hero card with 5 armor.");
    let mut d = record(2, "S", 5);
    d.rarity_id = 1;
    d.mana_cost = 0;
    assert_eq!(decode_card(&d).unwrap().compact(), "S common Mage 0 mana spell.");
    d.spell_school_id = Some(2);
    d.rarity_id = 2;
    assert_eq!(decode_card(&d).unwrap().compact(), "S free Mage 0 mana Fire spell.");
    let mut d = record(3, "W", 7);
    d.rarity_id = 3;
    d.attack = Some(123);
    assert_eq!(decode_card(&d).unwrap().compact(), "W rare Mage 10 mana 123/3 weapon.");
    let d = record(4, "L", 39);
    assert_eq!(decode_card(&d).unwrap().compact(), "L Legendary Mage 10 mana 3 durability location.");
}

#[test]
fn rune_cost_prefixes_cost() {
    let mut d = record(1, "R", 5);
    d.class_id = 1;
    d.mana_cost = 2;
    d.rune_cost = Some(RuneCost { blood: 2, frost: 1, unholy: 0 });
    assert_eq!(decode_card(&d).unwrap().compact(), "R Legendary DeathKnight BBF 2 mana spell.");
}

#[test]
fn verbose_form_adds_set_text_and_image() {
    let c = decode_card(&record(1, "A", 5)).unwrap();
    assert_eq!(
        c.verbose(),
        "A Legendary Mage 10 mana spell.\nSet 1635.\nSome text.\nImage: https://img/x.png"
    );
}

#[test]
fn dup_flag_follows_copy_reference() {
    let mut d = record(1, "A", 5);
    d.copy_of_card_id = Some(17);
    assert!(decode_card(&d).unwrap().dup);
}

#[test]
fn card_order_is_rarity_then_cost_then_name() {
    let legendary = card(1, "Zed", 5, 9);
    let epic = card(2, "Abe", 4, 1);
    let cheap = card(3, "Bob", 1, 1);
    let dear = card(4, "Bob", 1, 2);
    let named_a = card(5, "Al", 1, 2);
    assert_eq!(legendary.compare(&epic), Ordering::Less);
    assert_eq!(epic.compare(&legendary), Ordering::Greater);
    assert_eq!(cheap.compare(&dear), Ordering::Less);
    assert_eq!(named_a.compare(&dear), Ordering::Less);
    assert_eq!(dear.compare(&named_a), Ordering::Greater);
    assert!(legendary < epic && epic < cheap && cheap < dear);
    let twin = card(9, "Bob", 1, 2);
    assert_eq!(dear.compare(&twin), Ordering::Equal);
    assert!(dear != twin);
    assert!(dear.same_card(&card(4, "Other", 2, 0)));
}

#[test]
fn largest_stats_render_in_full() {
    let mut d = record(1, "Big", 4);
    d.mana_cost = 255;
    d.attack = Some(255);
    d.health = Some(0);
    d.card_set_id = usize::MAX;
    let c = decode_card(&d).unwrap();
    assert_eq!(c.compact(), "Big Legendary Mage 255 mana 255/0 minion.");
    assert!(c.verbose().contains(&format!("Set {}.", usize::MAX)));
}
