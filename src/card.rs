use vstd::prelude::*;
use vstd::utf8::{encode_utf8, encode_utf8_decode_utf8};

use std::cmp::Ordering;

use crate::error::{lookup, DecodeError, EnumKind, Field};
use crate::taxonomy::{
    class_of_id, minion_type_of_id, rarity_of_id, rarity_rank, spell_school_of_id, Class,
    MinionType, Rarity, SpellSchool,
};

verus! {

/// The extra rune component of a card's cost.
#[derive(Debug, Clone, Copy, PartialEq, Eq, Structural)]
pub struct RuneCost {
    pub blood: u8,
    pub frost: u8,
    pub unholy: u8,
}

/// What kind of card it is, with the attributes that kind requires.
#[derive(Debug)]
pub enum CardType {
    Hero { armor: u8 },
    Minion { attack: u8, health: u8, minion_types: Vec<MinionType> },
    Spell { school: Option<SpellSchool> },
    Weapon { attack: u8, durability: u8 },
    Location { durability: u8 },
}

/// The mathematical value of a `CardType`.
pub enum CardTypeView {
    Hero { armor: u8 },
    Minion { attack: u8, health: u8, minion_types: Seq<MinionType> },
    Spell { school: Option<SpellSchool> },
    Weapon { attack: u8, durability: u8 },
    Location { durability: u8 },
}

impl View for CardType {
    type V = CardTypeView;

    open spec fn view(&self) -> CardTypeView {
        match self {
            CardType::Hero { armor } => CardTypeView::Hero { armor: *armor },
            CardType::Minion { attack, health, minion_types } => CardTypeView::Minion {
                attack: *attack,
                health: *health,
                minion_types: minion_types@,
            },
            CardType::Spell { school } => CardTypeView::Spell { school: *school },
            CardType::Weapon { attack, durability } => CardTypeView::Weapon {
                attack: *attack,
                durability: *durability,
            },
            CardType::Location { durability } => CardTypeView::Location { durability: *durability },
        }
    }
}

/// A card record as the catalog service sends it, before validation.
#[derive(Debug)]
pub struct CardData {
    pub id: usize,
    pub card_type_id: u8,
    pub class_id: u8,
    pub multi_class_ids: Vec<u8>,
    pub rarity_id: u8,
    pub card_set_id: usize,
    pub name: String,
    pub text: String,
    pub mana_cost: u8,
    pub rune_cost: Option<RuneCost>,
    pub attack: Option<u8>,
    pub health: Option<u8>,
    pub durability: Option<u8>,
    pub armor: Option<u8>,
    pub minion_type_id: Option<u8>,
    pub multi_type_ids: Option<Vec<u8>>,
    pub spell_school_id: Option<u8>,
    pub image: String,
    pub copy_of_card_id: Option<usize>,
}

/// A validated card. Two cards are the same card when their catalog ids agree.
#[derive(Debug)]
pub struct Card {
    pub id: usize,
    pub card_set: usize,
    pub name: String,
    pub class: Vec<Class>,
    pub cost: u8,
    pub rune_cost: Option<RuneCost>,
    pub card_type: CardType,
    pub rarity: Rarity,
    pub text: String,
    pub dup: bool,
    pub image: String,
}

impl Card {
    /// The class set is non-empty and, like the minion type set, holds each member once.
    pub open spec fn wf(&self) -> bool {
        &&& self.class@.len() > 0
        &&& self.class@.no_duplicates()
        &&& match self.card_type@ {
            CardTypeView::Minion { minion_types, .. } => minion_types.no_duplicates(),
            _ => true,
        }
    }
}

/// Decodes a list of class ids in order, keeping the first occurrence of each class
/// and failing on the first id outside the table.
pub open spec fn decode_classes(ids: Seq<u8>) -> Result<Seq<Class>, DecodeError>
    decreases ids.len(),
{
    if ids.len() == 0 {
        Ok(Seq::empty())
    } else {
        match decode_classes(ids.drop_last()) {
            Err(e) => Err(e),
            Ok(cs) => match lookup(class_of_id(ids.last()), EnumKind::Class, ids.last()) {
                Err(e) => Err(e),
                Ok(c) => Ok(if cs.contains(c) { cs } else { cs.push(c) }),
            },
        }
    }
}

/// Decodes a list of minion type ids in order, keeping the first occurrence of each
/// type and failing on the first id outside the table.
pub open spec fn decode_minion_types(ids: Seq<u8>) -> Result<Seq<MinionType>, DecodeError>
    decreases ids.len(),
{
    if ids.len() == 0 {
        Ok(Seq::empty())
    } else {
        match decode_minion_types(ids.drop_last()) {
            Err(e) => Err(e),
            Ok(ts) => match lookup(minion_type_of_id(ids.last()), EnumKind::MinionType, ids.last()) {
                Err(e) => Err(e),
                Ok(t) => Ok(if ts.contains(t) { ts } else { ts.push(t) }),
            },
        }
    }
}

/// The class ids a record stands for: its multi-class list, or its primary class
/// when that list is empty.
pub open spec fn class_ids(d: CardData) -> Seq<u8> {
    if d.multi_class_ids@.len() == 0 {
        seq![d.class_id]
    } else {
        d.multi_class_ids@
    }
}

/// The minion type ids a record carries: the primary one, if any, then the multi-type list.
pub open spec fn minion_type_ids(d: CardData) -> Seq<u8> {
    let first = match d.minion_type_id {
        Some(t) => seq![t],
        None => Seq::empty(),
    };
    let rest = match d.multi_type_ids {
        Some(v) => v@,
        None => Seq::empty(),
    };
    first + rest
}

/// The card type a record decodes to, dispatched on its type discriminator.
pub open spec fn card_type_of(d: CardData) -> Result<CardTypeView, DecodeError> {
    match d.card_type_id {
        3 => match d.armor {
            Some(armor) => Ok(CardTypeView::Hero { armor }),
            None => Err(DecodeError::MissingRequiredField { field: Field::Armor }),
        },
        4 => match (d.attack, d.health) {
            (None, _) => Err(DecodeError::MissingRequiredField { field: Field::Attack }),
            (_, None) => Err(DecodeError::MissingRequiredField { field: Field::Health }),
            (Some(attack), Some(health)) => match decode_minion_types(minion_type_ids(d)) {
                Err(e) => Err(e),
                Ok(minion_types) => Ok(CardTypeView::Minion { attack, health, minion_types }),
            },
        },
        5 => match d.spell_school_id {
            None => Ok(CardTypeView::Spell { school: None }),
            Some(id) => match lookup(spell_school_of_id(id), EnumKind::SpellSchool, id) {
                Err(e) => Err(e),
                Ok(s) => Ok(CardTypeView::Spell { school: Some(s) }),
            },
        },
        7 => match (d.attack, d.durability) {
            (None, _) => Err(DecodeError::MissingRequiredField { field: Field::Attack }),
            (_, None) => Err(DecodeError::MissingRequiredField { field: Field::Durability }),
            (Some(attack), Some(durability)) => Ok(CardTypeView::Weapon { attack, durability }),
        },
        39 => match d.durability {
            Some(durability) => Ok(CardTypeView::Location { durability }),
            None => Err(DecodeError::MissingRequiredField { field: Field::Durability }),
        },
        id => Err(DecodeError::UnknownCardType { id }),
    }
}

/// The validated parts of a record (classes, card type, rarity), or the first error
/// met when they are decoded in that order.
pub open spec fn card_parts(d: CardData) -> Result<(Seq<Class>, CardTypeView, Rarity), DecodeError> {
    match decode_classes(class_ids(d)) {
        Err(e) => Err(e),
        Ok(classes) => match card_type_of(d) {
            Err(e) => Err(e),
            Ok(t) => match lookup(rarity_of_id(d.rarity_id), EnumKind::Rarity, d.rarity_id) {
                Err(e) => Err(e),
                Ok(rarity) => Ok((classes, t, rarity)),
            },
        },
    }
}

/// `c` is the card built from record `d` with the given validated parts.
pub open spec fn built_from(
    c: Card,
    d: CardData,
    classes: Seq<Class>,
    t: CardTypeView,
    rarity: Rarity,
) -> bool {
    &&& c.id == d.id
    &&& c.card_set == d.card_set_id
    &&& c.name@ == d.name@
    &&& c.class@ == classes
    &&& c.cost == d.mana_cost
    &&& c.rune_cost == d.rune_cost
    &&& c.card_type@ == t
    &&& c.rarity == rarity
    &&& c.text@ == d.text@
    &&& c.dup == d.copy_of_card_id is Some
    &&& c.image@ == d.image@
}

/// What decoding record `d` yields: the card built from its parts, or the first error.
pub open spec fn decodes_to(d: CardData, r: Result<Card, DecodeError>) -> bool {
    match card_parts(d) {
        Ok((classes, t, rarity)) => r matches Ok(c) && built_from(c, d, classes, t, rarity),
        Err(e) => r == Err::<Card, DecodeError>(e),
    }
}

proof fn lemma_decode_classes_wf(ids: Seq<u8>)
    ensures
        decode_classes(ids) matches Ok(cs) ==> cs.no_duplicates() && (ids.len() > 0 ==> cs.len() > 0),
    decreases ids.len(),
{
    if ids.len() > 0 {
        lemma_decode_classes_wf(ids.drop_last());
    }
}

proof fn lemma_decode_minion_types_wf(ids: Seq<u8>)
    ensures
        decode_minion_types(ids) matches Ok(ts) ==> ts.no_duplicates(),
    decreases ids.len(),
{
    if ids.len() > 0 {
        lemma_decode_minion_types_wf(ids.drop_last());
    }
}

proof fn lemma_decode_classes_err_prefix(ids: Seq<u8>, i: int)
    requires
        0 <= i <= ids.len(),
        decode_classes(ids.take(i)) is Err,
    ensures
        decode_classes(ids) == decode_classes(ids.take(i)),
    decreases ids.len(),
{
    if i < ids.len() {
        assert(ids.drop_last().take(i) =~= ids.take(i));
        lemma_decode_classes_err_prefix(ids.drop_last(), i);
    } else {
        assert(ids.take(i) =~= ids);
    }
}

proof fn lemma_decode_minion_types_err_prefix(ids: Seq<u8>, i: int)
    requires
        0 <= i <= ids.len(),
        decode_minion_types(ids.take(i)) is Err,
    ensures
        decode_minion_types(ids) == decode_minion_types(ids.take(i)),
    decreases ids.len(),
{
    if i < ids.len() {
        assert(ids.drop_last().take(i) =~= ids.take(i));
        lemma_decode_minion_types_err_prefix(ids.drop_last(), i);
    } else {
        assert(ids.take(i) =~= ids);
    }
}

fn contains_class(v: &Vec<Class>, c: Class) -> (r: bool)
    ensures
        r == v@.contains(c),
{
    let mut i: usize = 0;
    while i < v.len()
        invariant
            i <= v.len(),
            forall|k: int| 0 <= k < i ==> v@[k] != c,
        decreases v.len() - i,
    {
        if v[i] == c {
            return true;
        }
        i += 1;
    }
    false
}

fn contains_minion_type(v: &Vec<MinionType>, t: MinionType) -> (r: bool)
    ensures
        r == v@.contains(t),
{
    let mut i: usize = 0;
    while i < v.len()
        invariant
            i <= v.len(),
            forall|k: int| 0 <= k < i ==> v@[k] != t,
        decreases v.len() - i,
    {
        if v[i] == t {
            return true;
        }
        i += 1;
    }
    false
}

/// Decodes class ids into a duplicate-free class list; fails on the first unknown id.
pub fn classes_from_ids(ids: &Vec<u8>) -> (r: Result<Vec<Class>, DecodeError>)
    ensures
        match decode_classes(ids@) {
            Ok(cs) => r matches Ok(v) && v@ == cs,
            Err(e) => r == Err::<Vec<Class>, DecodeError>(e),
        },
{
    let mut out: Vec<Class> = Vec::new();
    let mut i: usize = 0;
    while i < ids.len()
        invariant
            i <= ids.len(),
            decode_classes(ids@.take(i as int)) == Ok::<Seq<Class>, DecodeError>(out@),
        decreases ids.len() - i,
    {
        proof {
            assert(ids@.take(i + 1).drop_last() =~= ids@.take(i as int));
        }
        let c = match Class::from_id(ids[i]) {
            Ok(c) => c,
            Err(e) => {
                proof {
                    lemma_decode_classes_err_prefix(ids@, i + 1);
                }
                return Err(e);
            },
        };
        if !contains_class(&out, c) {
            out.push(c);
        }
        i += 1;
    }
    assert(ids@.take(ids.len() as int) =~= ids@);
    Ok(out)
}

/// Decodes minion type ids into a duplicate-free type list; fails on the first unknown id.
pub fn minion_types_from_ids(ids: &Vec<u8>) -> (r: Result<Vec<MinionType>, DecodeError>)
    ensures
        match decode_minion_types(ids@) {
            Ok(ts) => r matches Ok(v) && v@ == ts,
            Err(e) => r == Err::<Vec<MinionType>, DecodeError>(e),
        },
{
    let mut out: Vec<MinionType> = Vec::new();
    let mut i: usize = 0;
    while i < ids.len()
        invariant
            i <= ids.len(),
            decode_minion_types(ids@.take(i as int)) == Ok::<Seq<MinionType>, DecodeError>(out@),
        decreases ids.len() - i,
    {
        proof {
            assert(ids@.take(i + 1).drop_last() =~= ids@.take(i as int));
        }
        let t = match MinionType::from_id(ids[i]) {
            Ok(t) => t,
            Err(e) => {
                proof {
                    lemma_decode_minion_types_err_prefix(ids@, i + 1);
                }
                return Err(e);
            },
        };
        if !contains_minion_type(&out, t) {
            out.push(t);
        }
        i += 1;
    }
    assert(ids@.take(ids.len() as int) =~= ids@);
    Ok(out)
}

fn card_type_from(d: &CardData) -> (r: Result<CardType, DecodeError>)
    ensures
        match card_type_of(*d) {
            Ok(t) => r matches Ok(ct) && ct@ == t,
            Err(e) => r matches Err(e2) && e2 == e,
        },
{
    match d.card_type_id {
        3 => match d.armor {
            Some(armor) => Ok(CardType::Hero { armor }),
            None => Err(DecodeError::MissingRequiredField { field: Field::Armor }),
        },
        4 => {
            let attack = match d.attack {
                Some(a) => a,
                None => return Err(DecodeError::MissingRequiredField { field: Field::Attack }),
            };
            let health = match d.health {
                Some(h) => h,
                None => return Err(DecodeError::MissingRequiredField { field: Field::Health }),
            };
            let mut ids: Vec<u8> = Vec::new();
            if let Some(t) = d.minion_type_id {
                ids.push(t);
            }
            if let Some(v) = &d.multi_type_ids {
                let mut i: usize = 0;
                let ghost start = ids@;
                while i < v.len()
                    invariant
                        i <= v.len(),
                        ids@ == start + v@.take(i as int),
                    decreases v.len() - i,
                {
                    ids.push(v[i]);
                    proof {
                        assert(v@.take(i + 1) =~= v@.take(i as int).push(v@[i as int]));
                    }
                    i += 1;
                }
                assert(v@.take(v.len() as int) =~= v@);
            }
            assert(ids@ =~= minion_type_ids(*d));
            let minion_types = minion_types_from_ids(&ids)?;
            Ok(CardType::Minion { attack, health, minion_types })
        },
        5 => match d.spell_school_id {
            None => Ok(CardType::Spell { school: None }),
            Some(id) => {
                let s = SpellSchool::from_id(id)?;
                Ok(CardType::Spell { school: Some(s) })
            },
        },
        7 => match (d.attack, d.durability) {
            (None, _) => Err(DecodeError::MissingRequiredField { field: Field::Attack }),
            (_, None) => Err(DecodeError::MissingRequiredField { field: Field::Durability }),
            (Some(attack), Some(durability)) => Ok(CardType::Weapon { attack, durability }),
        },
        39 => match d.durability {
            Some(durability) => Ok(CardType::Location { durability }),
            None => Err(DecodeError::MissingRequiredField { field: Field::Durability }),
        },
        id => Err(DecodeError::UnknownCardType { id }),
    }
}

/// Validates a card record. Decoding is all or nothing: the classes, then the card
/// type, then the rarity are decoded, and the first failure is the result.
pub fn decode_card(d: &CardData) -> (r: Result<Card, DecodeError>)
    ensures
        decodes_to(*d, r),
        r matches Ok(c) ==> c.wf(),
{
    proof {
        lemma_decode_classes_wf(class_ids(*d));
        lemma_decode_minion_types_wf(minion_type_ids(*d));
    }
    let class = if d.multi_class_ids.len() == 0 {
        let ids = vec![d.class_id];
        assert(ids@ =~= class_ids(*d));
        classes_from_ids(&ids)
    } else {
        classes_from_ids(&d.multi_class_ids)
    };
    let class = match class {
        Ok(class) => class,
        Err(e) => return Err(e),
    };
    let card_type = match card_type_from(d) {
        Ok(t) => t,
        Err(e) => return Err(e),
    };
    let rarity = match Rarity::from_id(d.rarity_id) {
        Ok(r) => r,
        Err(e) => return Err(e),
    };
    Ok(Card {
        id: d.id,
        card_set: d.card_set_id,
        name: d.name.clone(),
        class,
        cost: d.mana_cost,
        rune_cost: d.rune_cost,
        card_type,
        rarity,
        text: d.text.clone(),
        dup: d.copy_of_card_id.is_some(),
        image: d.image.clone(),
    })
}

/// Lexicographic order of byte strings, the order std gives `String`.
pub open spec fn lex_cmp(a: Seq<u8>, b: Seq<u8>) -> Ordering
    decreases a.len(),
{
    if a.len() == 0 {
        if b.len() == 0 { Ordering::Equal } else { Ordering::Less }
    } else if b.len() == 0 {
        Ordering::Greater
    } else if a[0] < b[0] {
        Ordering::Less
    } else if a[0] > b[0] {
        Ordering::Greater
    } else {
        lex_cmp(a.drop_first(), b.drop_first())
    }
}

/// The bytes by which a card's name is ordered.
pub open spec fn name_key(c: Card) -> Seq<u8> {
    encode_utf8(c.name@)
}

/// The display order of cards: rarity in declared order, then cost, then name.
pub open spec fn card_cmp(a: Card, b: Card) -> Ordering {
    if rarity_rank(a.rarity) < rarity_rank(b.rarity) {
        Ordering::Less
    } else if rarity_rank(a.rarity) > rarity_rank(b.rarity) {
        Ordering::Greater
    } else if a.cost < b.cost {
        Ordering::Less
    } else if a.cost > b.cost {
        Ordering::Greater
    } else {
        lex_cmp(name_key(a), name_key(b))
    }
}

pub open spec fn reversed(o: Ordering) -> Ordering {
    match o {
        Ordering::Less => Ordering::Greater,
        Ordering::Equal => Ordering::Equal,
        Ordering::Greater => Ordering::Less,
    }
}

proof fn lemma_lex_cmp_laws(a: Seq<u8>, b: Seq<u8>, c: Seq<u8>)
    ensures
        lex_cmp(b, a) == reversed(lex_cmp(a, b)),
        lex_cmp(a, b) == Ordering::Equal <==> a == b,
        lex_cmp(a, b) == Ordering::Less && lex_cmp(b, c) == Ordering::Less ==> lex_cmp(a, c)
            == Ordering::Less,
    decreases a.len(),
{
    if a.len() > 0 && b.len() > 0 {
        lemma_lex_cmp_laws(a.drop_first(), b.drop_first(), c.drop_first());
        if a[0] == b[0] && a.drop_first() == b.drop_first() {
            assert(a =~= seq![a[0]] + a.drop_first());
            assert(b =~= seq![b[0]] + b.drop_first());
        }
        if c.len() > 0 && a[0] == b[0] && b[0] == c[0] {
            assert(lex_cmp(a, c) == lex_cmp(a.drop_first(), c.drop_first()));
        }
    } else if a.len() == 0 && b.len() == 0 {
        assert(a =~= b);
    }
}

/// The display order is a strict total order on (rarity, cost, name): swapping the
/// arguments reverses it, two cards compare equal exactly when rarity, cost and name
/// all agree, and it is transitive.
pub proof fn lemma_card_order(a: Card, b: Card, c: Card)
    ensures
        card_cmp(b, a) == reversed(card_cmp(a, b)),
        card_cmp(a, b) == Ordering::Equal <==> (a.rarity == b.rarity && a.cost == b.cost
            && a.name@ == b.name@),
        card_cmp(a, b) == Ordering::Less && card_cmp(b, c) == Ordering::Less ==> card_cmp(a, c)
            == Ordering::Less,
{
    lemma_lex_cmp_laws(name_key(a), name_key(b), name_key(c));
    encode_utf8_decode_utf8(a.name@);
    encode_utf8_decode_utf8(b.name@);
    assert(rarity_rank(a.rarity) == rarity_rank(b.rarity) ==> a.rarity == b.rarity);
}

fn compare_bytes(a: &[u8], b: &[u8]) -> (r: Ordering)
    ensures
        r == lex_cmp(a@, b@),
{
    let mut i: usize = 0;
    assert(a@.skip(0) =~= a@);
    assert(b@.skip(0) =~= b@);
    while i < a.len() && i < b.len()
        invariant
            i <= a.len(),
            i <= b.len(),
            lex_cmp(a@, b@) == lex_cmp(a@.skip(i as int), b@.skip(i as int)),
        decreases a.len() - i,
    {
        if a[i] < b[i] {
            return Ordering::Less;
        } else if a[i] > b[i] {
            return Ordering::Greater;
        }
        proof {
            assert(a@.skip(i as int).drop_first() =~= a@.skip(i + 1));
            assert(b@.skip(i as int).drop_first() =~= b@.skip(i + 1));
        }
        i += 1;
    }
    if i < b.len() {
        Ordering::Less
    } else if i < a.len() {
        Ordering::Greater
    } else {
        Ordering::Equal
    }
}

impl Card {
    /// Compares two cards in display order.
    pub fn compare(&self, other: &Card) -> (r: Ordering)
        ensures
            r == card_cmp(*self, *other),
    {
        let ra = self.rarity.rank();
        let rb = other.rarity.rank();
        if ra < rb {
            Ordering::Less
        } else if ra > rb {
            Ordering::Greater
        } else if self.cost < other.cost {
            Ordering::Less
        } else if self.cost > other.cost {
            Ordering::Greater
        } else {
            compare_bytes(self.name.as_str().as_bytes(), other.name.as_str().as_bytes())
        }
    }

    /// Whether two cards are the same catalog card.
    pub fn same_card(&self, other: &Card) -> (r: bool)
        ensures
            r == (self.id == other.id),
    {
        self.id == other.id
    }
}

impl PartialEq for Card {
    fn eq(&self, other: &Card) -> (r: bool) {
        self.id == other.id
    }
}

impl vstd::std_specs::cmp::PartialEqSpecImpl for Card {
    open spec fn obeys_eq_spec() -> bool {
        true
    }

    open spec fn eq_spec(&self, other: &Card) -> bool {
        self.id == other.id
    }
}

impl Eq for Card {
}

impl PartialOrd for Card {
    fn partial_cmp(&self, other: &Card) -> (r: Option<Ordering>) {
        Some(self.compare(other))
    }
}

impl vstd::std_specs::cmp::PartialOrdSpecImpl for Card {
    open spec fn obeys_partial_cmp_spec() -> bool {
        true
    }

    open spec fn partial_cmp_spec(&self, other: &Card) -> Option<Ordering> {
        Some(card_cmp(*self, *other))
    }
}

} // verus!
