use vstd::prelude::*;
use vstd::string::StringExecFns;

use crate::card::{Card, CardType, CardTypeView, RuneCost};
use crate::taxonomy::{
    class_name, minion_type_name, rarity_name, spell_school_name, Class, MinionType,
};

verus! {

pub open spec fn decimal_digit(d: nat) -> char {
    if d == 0 {
        '0'
    } else if d == 1 {
        '1'
    } else if d == 2 {
        '2'
    } else if d == 3 {
        '3'
    } else if d == 4 {
        '4'
    } else if d == 5 {
        '5'
    } else if d == 6 {
        '6'
    } else if d == 7 {
        '7'
    } else if d == 8 {
        '8'
    } else {
        '9'
    }
}

/// The decimal notation of `n`, without sign or leading zeros.
pub open spec fn decimal(n: nat) -> Seq<char>
    decreases n,
{
    if n < 10 {
        seq![decimal_digit(n)]
    } else {
        decimal(n / 10).push(decimal_digit(n % 10))
    }
}

/// `n` copies of `c`.
pub open spec fn repeated(c: char, n: nat) -> Seq<char> {
    Seq::new(n, |i: int| c)
}

/// One letter per rune: `B` for blood, then `F` for frost, then `U` for unholy.
pub open spec fn rune_text(r: RuneCost) -> Seq<char> {
    repeated('B', r.blood as nat) + repeated('F', r.frost as nat) + repeated('U', r.unholy as nat)
}

/// The parts joined by `/`.
pub open spec fn join_slash(parts: Seq<Seq<char>>) -> Seq<char>
    decreases parts.len(),
{
    if parts.len() == 0 {
        Seq::empty()
    } else if parts.len() == 1 {
        parts[0]
    } else {
        join_slash(parts.drop_last()) + seq!['/'] + parts.last()
    }
}

pub open spec fn classes_text(cs: Seq<Class>) -> Seq<char> {
    join_slash(cs.map_values(|c: Class| class_name(c)))
}

pub open spec fn minion_types_text(ts: Seq<MinionType>) -> Seq<char> {
    join_slash(ts.map_values(|t: MinionType| minion_type_name(t)))
}

/// The description of a card type within the compact card form.
pub open spec fn card_type_text(t: CardTypeView) -> Seq<char> {
    match t {
        CardTypeView::Hero { armor } => "Hero card with "@ + decimal(armor as nat) + " armor"@,
        CardTypeView::Minion { attack, health, minion_types } => decimal(attack as nat) + "/"@
            + decimal(health as nat) + " "@ + if minion_types.len() == 0 {
            "minion"@
        } else {
            minion_types_text(minion_types)
        },
        CardTypeView::Spell { school } => match school {
            Some(s) => spell_school_name(s) + " spell"@,
            None => "spell"@,
        },
        CardTypeView::Weapon { attack, durability } => decimal(attack as nat) + "/"@ + decimal(
            durability as nat,
        ) + " weapon"@,
        CardTypeView::Location { durability } => decimal(durability as nat)
            + " durability location"@,
    }
}

/// The rune code and a space, when the card has a rune cost.
pub open spec fn rune_prefix(r: Option<RuneCost>) -> Seq<char> {
    match r {
        Some(r) => rune_text(r) + " "@,
        None => Seq::empty(),
    }
}

/// The one-line form: name, rarity, classes, rune code, cost and type description.
pub open spec fn compact_text(c: Card) -> Seq<char> {
    c.name@ + " "@ + rarity_name(c.rarity) + " "@ + classes_text(c.class@) + " "@ + rune_prefix(
        c.rune_cost,
    ) + decimal(c.cost as nat) + " mana "@ + card_type_text(c.card_type@) + "."@
}

/// The one-line form followed by the set, the card text and the image reference.
pub open spec fn verbose_text(c: Card) -> Seq<char> {
    compact_text(c) + "\nSet "@ + decimal(c.card_set as nat) + ".\n"@ + c.text@ + "\nImage: "@
        + c.image@
}

fn digit_str(d: u64) -> (r: &'static str)
    requires
        d < 10,
    ensures
        r@ == seq![decimal_digit(d as nat)],
{
    proof {
        reveal_strlit("0");
        reveal_strlit("1");
        reveal_strlit("2");
        reveal_strlit("3");
        reveal_strlit("4");
        reveal_strlit("5");
        reveal_strlit("6");
        reveal_strlit("7");
        reveal_strlit("8");
        reveal_strlit("9");
    }
    match d {
        0 => "0",
        1 => "1",
        2 => "2",
        3 => "3",
        4 => "4",
        5 => "5",
        6 => "6",
        7 => "7",
        8 => "8",
        _ => "9",
    }
}

/// Appends the decimal notation of `n`.
pub fn push_decimal(s: &mut String, n: u64)
    ensures
        final(s)@ == old(s)@ + decimal(n as nat),
    decreases n,
{
    if n >= 10 {
        push_decimal(s, n / 10);
    }
    s.append(digit_str(n % 10));
    proof {
        if n >= 10 {
            assert(old(s)@ + decimal(n as nat) =~= old(s)@ + decimal((n / 10) as nat) + seq![
                decimal_digit((n % 10) as nat),
            ]);
        } else {
            assert(old(s)@ + decimal(n as nat) =~= old(s)@ + seq![decimal_digit((n % 10) as nat)]);
        }
    }
}

fn push_repeated(s: &mut String, letter: &str, c: Ghost<char>, n: u8)
    requires
        letter@ == seq![c@],
    ensures
        final(s)@ == old(s)@ + repeated(c@, n as nat),
{
    let mut i: u8 = 0;
    while i < n
        invariant
            i <= n,
            letter@ == seq![c@],
            s@ == old(s)@ + repeated(c@, i as nat),
        decreases n - i,
    {
        s.append(letter);
        proof {
            assert(repeated(c@, (i + 1) as nat) =~= repeated(c@, i as nat) + seq![c@]);
        }
        i += 1;
    }
}

impl RuneCost {
    /// Appends the rune code of this cost.
    pub fn push_code(&self, s: &mut String)
        ensures
            final(s)@ == old(s)@ + rune_text(*self),
    {
        proof {
            reveal_strlit("B");
            reveal_strlit("F");
            reveal_strlit("U");
            assert("B"@ =~= seq!['B']);
            assert("F"@ =~= seq!['F']);
            assert("U"@ =~= seq!['U']);
        }
        push_repeated(s, "B", Ghost('B'), self.blood);
        push_repeated(s, "F", Ghost('F'), self.frost);
        push_repeated(s, "U", Ghost('U'), self.unholy);
    }
}

fn push_classes(s: &mut String, cs: &Vec<Class>)
    ensures
        final(s)@ == old(s)@ + classes_text(cs@),
{
    let ghost names = cs@.map_values(|c: Class| class_name(c));
    let mut i: usize = 0;
    while i < cs.len()
        invariant
            i <= cs.len(),
            names == cs@.map_values(|c: Class| class_name(c)),
            s@ == old(s)@ + join_slash(names.take(i as int)),
        decreases cs.len() - i,
    {
        proof {
            reveal_strlit("/");
            assert("/"@ =~= seq!['/']);
            assert(names.take(i + 1).drop_last() =~= names.take(i as int));
            assert(names.take(i + 1).last() == names[i as int]);
        }
        if i > 0 {
            s.append("/");
        }
        s.append(cs[i].name());
        proof {
            if i == 0 {
                assert(join_slash(names.take(1)) == names[0]);
            }
            assert(s@ =~= old(s)@ + join_slash(names.take(i + 1)));
        }
        i += 1;
    }
    assert(names.take(cs.len() as int) =~= names);
}

fn push_minion_types(s: &mut String, ts: &Vec<MinionType>)
    ensures
        final(s)@ == old(s)@ + minion_types_text(ts@),
{
    let ghost names = ts@.map_values(|t: MinionType| minion_type_name(t));
    let mut i: usize = 0;
    while i < ts.len()
        invariant
            i <= ts.len(),
            names == ts@.map_values(|t: MinionType| minion_type_name(t)),
            s@ == old(s)@ + join_slash(names.take(i as int)),
        decreases ts.len() - i,
    {
        proof {
            reveal_strlit("/");
            assert("/"@ =~= seq!['/']);
            assert(names.take(i + 1).drop_last() =~= names.take(i as int));
            assert(names.take(i + 1).last() == names[i as int]);
        }
        if i > 0 {
            s.append("/");
        }
        s.append(ts[i].name());
        proof {
            if i == 0 {
                assert(join_slash(names.take(1)) == names[0]);
            }
            assert(s@ =~= old(s)@ + join_slash(names.take(i + 1)));
        }
        i += 1;
    }
    assert(names.take(ts.len() as int) =~= names);
}

impl CardType {
    /// Appends the description of this card type.
    pub fn push_description(&self, s: &mut String)
        ensures
            final(s)@ == old(s)@ + card_type_text(self@),
    {
        match self {
            CardType::Hero { armor } => {
                s.append("Hero card with ");
                push_decimal(s, *armor as u64);
                s.append(" armor");
            },
            CardType::Minion { attack, health, minion_types } => {
                push_decimal(s, *attack as u64);
                s.append("/");
                push_decimal(s, *health as u64);
                s.append(" ");
                if minion_types.len() == 0 {
                    s.append("minion");
                } else {
                    push_minion_types(s, minion_types);
                }
            },
            CardType::Spell { school } => match school {
                Some(school) => {
                    s.append(school.name());
                    s.append(" spell");
                },
                None => s.append("spell"),
            },
            CardType::Weapon { attack, durability } => {
                push_decimal(s, *attack as u64);
                s.append("/");
                push_decimal(s, *durability as u64);
                s.append(" weapon");
            },
            CardType::Location { durability } => {
                push_decimal(s, *durability as u64);
                s.append(" durability location");
            },
        }
        assert(s@ =~= old(s)@ + card_type_text(self@));
    }
}

impl Card {
    /// Appends the one-line form of the card.
    pub fn push_compact(&self, s: &mut String)
        ensures
            final(s)@ == old(s)@ + compact_text(*self),
    {
        s.append(self.name.as_str());
        s.append(" ");
        s.append(self.rarity.name());
        s.append(" ");
        push_classes(s, &self.class);
        s.append(" ");
        match &self.rune_cost {
            Some(r) => {
                r.push_code(s);
                s.append(" ");
            },
            None => {},
        }
        push_decimal(s, self.cost as u64);
        s.append(" mana ");
        self.card_type.push_description(s);
        s.append(".");
        assert(s@ =~= old(s)@ + compact_text(*self));
    }

    /// The one-line form of the card.
    pub fn compact(&self) -> (r: String)
        ensures
            r@ == compact_text(*self),
    {
        let mut s = String::new();
        self.push_compact(&mut s);
        assert(s@ =~= compact_text(*self));
        s
    }

    /// The one-line form followed by the set, the card text and the image reference.
    pub fn verbose(&self) -> (r: String)
        ensures
            r@ == verbose_text(*self),
    {
        let mut s = String::new();
        self.push_compact(&mut s);
        s.append("\nSet ");
        push_decimal(&mut s, self.card_set as u64);
        s.append(".\n");
        s.append(self.text.as_str());
        s.append("\nImage: ");
        s.append(self.image.as_str());
        assert(s@ =~= verbose_text(*self));
        s
    }
}

} // verus!
