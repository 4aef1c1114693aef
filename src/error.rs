use vstd::prelude::*;

verus! {

/// The closed enumerations that a numeric catalog identifier is decoded against.
#[derive(Debug, Clone, Copy, PartialEq, Eq, Structural)]
pub enum EnumKind {
    Class,
    Rarity,
    SpellSchool,
    MinionType,
}

/// The type-specific numeric attributes that a card record may lack.
#[derive(Debug, Clone, Copy, PartialEq, Eq, Structural)]
pub enum Field {
    Armor,
    Attack,
    Health,
    Durability,
}

/// Why a catalog record could not be turned into a domain value.
#[derive(Debug, Clone, Copy, PartialEq, Eq, Structural)]
pub enum DecodeError {
    /// The identifier is not in the mapping table of that enumeration.
    UnknownEnumId { kind: EnumKind, id: u8 },
    /// The card type discriminator is none of the known ones.
    UnknownCardType { id: u8 },
    /// The record's card type needs an attribute that the record does not carry.
    MissingRequiredField { field: Field },
}

/// The result of looking `id` up in the table of `kind`, where `found` is the table's entry.
pub open spec fn lookup<T>(found: Option<T>, kind: EnumKind, id: u8) -> Result<T, DecodeError> {
    match found {
        Some(v) => Ok(v),
        None => Err(DecodeError::UnknownEnumId { kind, id }),
    }
}

} // verus!
