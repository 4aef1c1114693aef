use vstd::prelude::*;

use crate::error::{lookup, DecodeError, EnumKind};

verus! {

/// A hero class, or the neutral pseudo-class.
#[derive(Debug, Clone, Copy, PartialEq, Eq, Structural, Hash)]
pub enum Class {
    DeathKnight,
    DemonHunter,
    Druid,
    Hunter,
    Mage,
    Paladin,
    Priest,
    Rogue,
    Shaman,
    Warlock,
    Warrior,
    Neutral,
}

/// The class table of the catalog service.
pub open spec fn class_of_id(id: u8) -> Option<Class> {
    match id {
        1 => Some(Class::DeathKnight),
        14 => Some(Class::DemonHunter),
        2 => Some(Class::Druid),
        3 => Some(Class::Hunter),
        4 => Some(Class::Mage),
        5 => Some(Class::Paladin),
        6 => Some(Class::Priest),
        7 => Some(Class::Rogue),
        8 => Some(Class::Shaman),
        9 => Some(Class::Warlock),
        10 => Some(Class::Warrior),
        12 => Some(Class::Neutral),
        _ => None,
    }
}

/// The identifier under which the catalog service lists a class.
pub open spec fn class_id(c: Class) -> u8 {
    match c {
        Class::DeathKnight => 1,
        Class::DemonHunter => 14,
        Class::Druid => 2,
        Class::Hunter => 3,
        Class::Mage => 4,
        Class::Paladin => 5,
        Class::Priest => 6,
        Class::Rogue => 7,
        Class::Shaman => 8,
        Class::Warlock => 9,
        Class::Warrior => 10,
        Class::Neutral => 12,
    }
}

pub open spec fn class_name(c: Class) -> Seq<char> {
    match c {
        Class::DeathKnight => "DeathKnight"@,
        Class::DemonHunter => "DemonHunter"@,
        Class::Druid => "Druid"@,
        Class::Hunter => "Hunter"@,
        Class::Mage => "Mage"@,
        Class::Paladin => "Paladin"@,
        Class::Priest => "Priest"@,
        Class::Rogue => "Rogue"@,
        Class::Shaman => "Shaman"@,
        Class::Warlock => "Warlock"@,
        Class::Warrior => "Warrior"@,
        Class::Neutral => "Neutral"@,
    }
}

impl Class {
    /// Decodes a class identifier; an identifier outside the table is an error.
    pub fn from_id(id: u8) -> (r: Result<Class, DecodeError>)
        ensures
            r == lookup(class_of_id(id), EnumKind::Class, id),
    {
        match id {
            1 => Ok(Class::DeathKnight),
            14 => Ok(Class::DemonHunter),
            2 => Ok(Class::Druid),
            3 => Ok(Class::Hunter),
            4 => Ok(Class::Mage),
            5 => Ok(Class::Paladin),
            6 => Ok(Class::Priest),
            7 => Ok(Class::Rogue),
            8 => Ok(Class::Shaman),
            9 => Ok(Class::Warlock),
            10 => Ok(Class::Warrior),
            12 => Ok(Class::Neutral),
            _ => Err(DecodeError::UnknownEnumId { kind: EnumKind::Class, id }),
        }
    }

    /// The display name of the class.
    pub fn name(&self) -> (r: &'static str)
        ensures
            r@ == class_name(*self),
    {
        match self {
            Class::DeathKnight => "DeathKnight",
            Class::DemonHunter => "DemonHunter",
            Class::Druid => "Druid",
            Class::Hunter => "Hunter",
            Class::Mage => "Mage",
            Class::Paladin => "Paladin",
            Class::Priest => "Priest",
            Class::Rogue => "Rogue",
            Class::Shaman => "Shaman",
            Class::Warlock => "Warlock",
            Class::Warrior => "Warrior",
            Class::Neutral => "Neutral",
        }
    }
}

/// The wire form of a class: an object that holds only its identifier.
#[derive(Debug, Clone, Copy, PartialEq, Eq, Structural)]
pub struct ClassData {
    pub id: u8,
}

impl ClassData {
    /// Decodes the class that the object names.
    pub fn decode(&self) -> (r: Result<Class, DecodeError>)
        ensures
            r == lookup(class_of_id(self.id), EnumKind::Class, self.id),
    {
        Class::from_id(self.id)
    }
}

/// Card rarity, declared from the highest to the lowest.
#[derive(Debug, Clone, Copy, PartialEq, Eq, Structural, PartialOrd, Ord, Hash)]
pub enum Rarity {
    Legendary,
    Epic,
    Rare,
    Common,
    Free,
}

pub open spec fn rarity_of_id(id: u8) -> Option<Rarity> {
    match id {
        1 => Some(Rarity::Common),
        2 => Some(Rarity::Free),
        3 => Some(Rarity::Rare),
        4 => Some(Rarity::Epic),
        5 => Some(Rarity::Legendary),
        _ => None,
    }
}

pub open spec fn rarity_id(r: Rarity) -> u8 {
    match r {
        Rarity::Common => 1,
        Rarity::Free => 2,
        Rarity::Rare => 3,
        Rarity::Epic => 4,
        Rarity::Legendary => 5,
    }
}

/// Position of a rarity in the declared order; cards sort by it ascending.
pub open spec fn rarity_rank(r: Rarity) -> u8 {
    match r {
        Rarity::Legendary => 0,
        Rarity::Epic => 1,
        Rarity::Rare => 2,
        Rarity::Common => 3,
        Rarity::Free => 4,
    }
}

pub open spec fn rarity_name(r: Rarity) -> Seq<char> {
    match r {
        Rarity::Legendary => "Legendary"@,
        Rarity::Epic => "epic"@,
        Rarity::Rare => "rare"@,
        Rarity::Common => "common"@,
        Rarity::Free => "free"@,
    }
}

impl Rarity {
    /// Decodes a rarity identifier; an identifier outside the table is an error.
    pub fn from_id(id: u8) -> (r: Result<Rarity, DecodeError>)
        ensures
            r == lookup(rarity_of_id(id), EnumKind::Rarity, id),
    {
        match id {
            1 => Ok(Rarity::Common),
            2 => Ok(Rarity::Free),
            3 => Ok(Rarity::Rare),
            4 => Ok(Rarity::Epic),
            5 => Ok(Rarity::Legendary),
            _ => Err(DecodeError::UnknownEnumId { kind: EnumKind::Rarity, id }),
        }
    }

    pub fn rank(&self) -> (r: u8)
        ensures
            r == rarity_rank(*self),
    {
        match self {
            Rarity::Legendary => 0,
            Rarity::Epic => 1,
            Rarity::Rare => 2,
            Rarity::Common => 3,
            Rarity::Free => 4,
        }
    }

    pub fn name(&self) -> (r: &'static str)
        ensures
            r@ == rarity_name(*self),
    {
        match self {
            Rarity::Legendary => "Legendary",
            Rarity::Epic => "epic",
            Rarity::Rare => "rare",
            Rarity::Common => "common",
            Rarity::Free => "free",
        }
    }
}

#[derive(Debug, Clone, Copy, PartialEq, Eq, Structural, Hash)]
pub enum SpellSchool {
    Arcane,
    Fire,
    Frost,
    Nature,
    Holy,
    Shadow,
    Fel,
}

pub open spec fn spell_school_of_id(id: u8) -> Option<SpellSchool> {
    match id {
        1 => Some(SpellSchool::Arcane),
        2 => Some(SpellSchool::Fire),
        3 => Some(SpellSchool::Frost),
        4 => Some(SpellSchool::Nature),
        5 => Some(SpellSchool::Holy),
        6 => Some(SpellSchool::Shadow),
        7 => Some(SpellSchool::Fel),
        _ => None,
    }
}

pub open spec fn spell_school_id(s: SpellSchool) -> u8 {
    match s {
        SpellSchool::Arcane => 1,
        SpellSchool::Fire => 2,
        SpellSchool::Frost => 3,
        SpellSchool::Nature => 4,
        SpellSchool::Holy => 5,
        SpellSchool::Shadow => 6,
        SpellSchool::Fel => 7,
    }
}

pub open spec fn spell_school_name(s: SpellSchool) -> Seq<char> {
    match s {
        SpellSchool::Arcane => "Arcane"@,
        SpellSchool::Fire => "Fire"@,
        SpellSchool::Frost => "Frost"@,
        SpellSchool::Nature => "Nature"@,
        SpellSchool::Holy => "Holy"@,
        SpellSchool::Shadow => "Shadow"@,
        SpellSchool::Fel => "Fel"@,
    }
}

impl SpellSchool {
    /// Decodes a spell school identifier; an identifier outside the table is an error.
    pub fn from_id(id: u8) -> (r: Result<SpellSchool, DecodeError>)
        ensures
            r == lookup(spell_school_of_id(id), EnumKind::SpellSchool, id),
    {
        match id {
            1 => Ok(SpellSchool::Arcane),
            2 => Ok(SpellSchool::Fire),
            3 => Ok(SpellSchool::Frost),
            4 => Ok(SpellSchool::Nature),
            5 => Ok(SpellSchool::Holy),
            6 => Ok(SpellSchool::Shadow),
            7 => Ok(SpellSchool::Fel),
            _ => Err(DecodeError::UnknownEnumId { kind: EnumKind::SpellSchool, id }),
        }
    }

    pub fn name(&self) -> (r: &'static str)
        ensures
            r@ == spell_school_name(*self),
    {
        match self {
            SpellSchool::Arcane => "Arcane",
            SpellSchool::Fire => "Fire",
            SpellSchool::Frost => "Frost",
            SpellSchool::Nature => "Nature",
            SpellSchool::Holy => "Holy",
            SpellSchool::Shadow => "Shadow",
            SpellSchool::Fel => "Fel",
        }
    }
}

/// A minion tribe; `All` is the amalgam that belongs to every tribe.
#[derive(Debug, Clone, Copy, PartialEq, Eq, Structural, Hash)]
pub enum MinionType {
    Undead,
    Murloc,
    Demon,
    Mech,
    Elemental,
    Beast,
    Totem,
    Pirate,
    Dragon,
    All,
    Quilboar,
    Naga,
}

pub open spec fn minion_type_of_id(id: u8) -> Option<MinionType> {
    match id {
        11 => Some(MinionType::Undead),
        14 => Some(MinionType::Murloc),
        15 => Some(MinionType::Demon),
        17 => Some(MinionType::Mech),
        18 => Some(MinionType::Elemental),
        20 => Some(MinionType::Beast),
        21 => Some(MinionType::Totem),
        23 => Some(MinionType::Pirate),
        24 => Some(MinionType::Dragon),
        26 => Some(MinionType::All),
        43 => Some(MinionType::Quilboar),
        92 => Some(MinionType::Naga),
        _ => None,
    }
}

pub open spec fn minion_type_id(t: MinionType) -> u8 {
    match t {
        MinionType::Undead => 11,
        MinionType::Murloc => 14,
        MinionType::Demon => 15,
        MinionType::Mech => 17,
        MinionType::Elemental => 18,
        MinionType::Beast => 20,
        MinionType::Totem => 21,
        MinionType::Pirate => 23,
        MinionType::Dragon => 24,
        MinionType::All => 26,
        MinionType::Quilboar => 43,
        MinionType::Naga => 92,
    }
}

pub open spec fn minion_type_name(t: MinionType) -> Seq<char> {
    match t {
        MinionType::Undead => "Undead"@,
        MinionType::Murloc => "Murloc"@,
        MinionType::Demon => "Demon"@,
        MinionType::Mech => "Mech"@,
        MinionType::Elemental => "Elemental"@,
        MinionType::Beast => "Beast"@,
        MinionType::Totem => "Totem"@,
        MinionType::Pirate => "Pirate"@,
        MinionType::Dragon => "Dragon"@,
        MinionType::All => "Amalgam"@,
        MinionType::Quilboar => "Quilboar"@,
        MinionType::Naga => "Naga"@,
    }
}

impl MinionType {
    /// Decodes a minion type identifier; an identifier outside the table is an error.
    pub fn from_id(id: u8) -> (r: Result<MinionType, DecodeError>)
        ensures
            r == lookup(minion_type_of_id(id), EnumKind::MinionType, id),
    {
        match id {
            11 => Ok(MinionType::Undead),
            14 => Ok(MinionType::Murloc),
            15 => Ok(MinionType::Demon),
            17 => Ok(MinionType::Mech),
            18 => Ok(MinionType::Elemental),
            20 => Ok(MinionType::Beast),
            21 => Ok(MinionType::Totem),
            23 => Ok(MinionType::Pirate),
            24 => Ok(MinionType::Dragon),
            26 => Ok(MinionType::All),
            43 => Ok(MinionType::Quilboar),
            92 => Ok(MinionType::Naga),
            _ => Err(DecodeError::UnknownEnumId { kind: EnumKind::MinionType, id }),
        }
    }

    pub fn name(&self) -> (r: &'static str)
        ensures
            r@ == minion_type_name(*self),
    {
        match self {
            MinionType::Undead => "Undead",
            MinionType::Murloc => "Murloc",
            MinionType::Demon => "Demon",
            MinionType::Mech => "Mech",
            MinionType::Elemental => "Elemental",
            MinionType::Beast => "Beast",
            MinionType::Totem => "Totem",
            MinionType::Pirate => "Pirate",
            MinionType::Dragon => "Dragon",
            MinionType::All => "Amalgam",
            MinionType::Quilboar => "Quilboar",
            MinionType::Naga => "Naga",
        }
    }
}

/// Each table is a bijection between its identifiers and its variants: every
/// variant's identifier decodes back to that variant, and an identifier that
/// decodes at all is the identifier of what it decodes to.
pub proof fn lemma_tables_round_trip()
    ensures
        forall|c: Class| class_of_id(#[trigger] class_id(c)) == Some(c),
        forall|id: u8| #[trigger] class_of_id(id) is Some ==> class_id(class_of_id(id).unwrap()) == id,
        forall|r: Rarity| rarity_of_id(#[trigger] rarity_id(r)) == Some(r),
        forall|id: u8| #[trigger] rarity_of_id(id) is Some ==> rarity_id(rarity_of_id(id).unwrap()) == id,
        forall|s: SpellSchool| spell_school_of_id(#[trigger] spell_school_id(s)) == Some(s),
        forall|id: u8| #[trigger] spell_school_of_id(id) is Some ==> spell_school_id(spell_school_of_id(id).unwrap()) == id,
        forall|t: MinionType| minion_type_of_id(#[trigger] minion_type_id(t)) == Some(t),
        forall|id: u8| #[trigger] minion_type_of_id(id) is Some ==> minion_type_id(minion_type_of_id(id).unwrap()) == id,
{
}

} // verus!
