//! What an item adds to a character.

use vstd::prelude::*;

verus! {

/// What an item, or a set of items, adds to a character.
#[derive(Debug, Clone, Copy, PartialEq, Eq, Structural)]
pub struct ItemBonuses {
    pub life: i32,
    pub mana: i32,
    pub energy_shield: i32,
    pub armour: i32,
    pub evasion: i32,
    pub fire_resistance: i32,
    pub cold_resistance: i32,
    pub lightning_resistance: i32,
    pub chaos_resistance: i32,
    pub strength: i32,
    pub dexterity: i32,
    pub intelligence: i32,
}

/// The numbers of [`ItemBonuses`], of any size.
pub struct BonusTotals {
    pub life: int,
    pub mana: int,
    pub energy_shield: int,
    pub armour: int,
    pub evasion: int,
    pub fire_resistance: int,
    pub cold_resistance: int,
    pub lightning_resistance: int,
    pub chaos_resistance: int,
    pub strength: int,
    pub dexterity: int,
    pub intelligence: int,
}

impl View for ItemBonuses {
    type V = BonusTotals;

    open spec fn view(&self) -> BonusTotals {
        BonusTotals {
            life: self.life as int,
            mana: self.mana as int,
            energy_shield: self.energy_shield as int,
            armour: self.armour as int,
            evasion: self.evasion as int,
            fire_resistance: self.fire_resistance as int,
            cold_resistance: self.cold_resistance as int,
            lightning_resistance: self.lightning_resistance as int,
            chaos_resistance: self.chaos_resistance as int,
            strength: self.strength as int,
            dexterity: self.dexterity as int,
            intelligence: self.intelligence as int,
        }
    }
}

/// Nothing added.
pub open spec fn no_bonuses() -> BonusTotals {
    BonusTotals {
        life: 0,
        mana: 0,
        energy_shield: 0,
        armour: 0,
        evasion: 0,
        fire_resistance: 0,
        cold_resistance: 0,
        lightning_resistance: 0,
        chaos_resistance: 0,
        strength: 0,
        dexterity: 0,
        intelligence: 0,
    }
}

/// What two items add together.
pub open spec fn plus(a: BonusTotals, b: BonusTotals) -> BonusTotals {
    BonusTotals {
        life: a.life + b.life,
        mana: a.mana + b.mana,
        energy_shield: a.energy_shield + b.energy_shield,
        armour: a.armour + b.armour,
        evasion: a.evasion + b.evasion,
        fire_resistance: a.fire_resistance + b.fire_resistance,
        cold_resistance: a.cold_resistance + b.cold_resistance,
        lightning_resistance: a.lightning_resistance + b.lightning_resistance,
        chaos_resistance: a.chaos_resistance + b.chaos_resistance,
        strength: a.strength + b.strength,
        dexterity: a.dexterity + b.dexterity,
        intelligence: a.intelligence + b.intelligence,
    }
}

/// Whether a number fits in the integers that bonuses are made of.
pub open spec fn fits(n: int) -> bool {
    i32::MIN <= n <= i32::MAX
}

/// Whether every number fits in the integers that bonuses are made of.
pub open spec fn all_fit(t: BonusTotals) -> bool {
    &&& fits(t.life)
    &&& fits(t.mana)
    &&& fits(t.energy_shield)
    &&& fits(t.armour)
    &&& fits(t.evasion)
    &&& fits(t.fire_resistance)
    &&& fits(t.cold_resistance)
    &&& fits(t.lightning_resistance)
    &&& fits(t.chaos_resistance)
    &&& fits(t.strength)
    &&& fits(t.dexterity)
    &&& fits(t.intelligence)
}

/// What a row of items adds.
pub open spec fn sum_of(list: Seq<BonusTotals>) -> BonusTotals
    decreases list.len(),
{
    if list.len() == 0 {
        no_bonuses()
    } else {
        plus(sum_of(list.drop_last()), list.last())
    }
}

/// Whether the numbers fit all the way when a row of items is added up from the first one.
pub open spec fn sums_fit(list: Seq<BonusTotals>) -> bool {
    forall|n: int| 0 <= n <= list.len() ==> all_fit(sum_of(#[trigger] list.take(n)))
}

impl ItemBonuses {
    /// Adds what another item adds.
    pub fn add(&mut self, other: &Self)
        requires
            all_fit(plus(old(self)@, other@)),
        ensures
            final(self)@ == plus(old(self)@, other@),
    {
        self.life = self.life + other.life;
        self.mana = self.mana + other.mana;
        self.energy_shield = self.energy_shield + other.energy_shield;
        self.armour = self.armour + other.armour;
        self.evasion = self.evasion + other.evasion;
        self.fire_resistance = self.fire_resistance + other.fire_resistance;
        self.cold_resistance = self.cold_resistance + other.cold_resistance;
        self.lightning_resistance = self.lightning_resistance + other.lightning_resistance;
        self.chaos_resistance = self.chaos_resistance + other.chaos_resistance;
        self.strength = self.strength + other.strength;
        self.dexterity = self.dexterity + other.dexterity;
        self.intelligence = self.intelligence + other.intelligence;
    }

    /// The sum with what another item adds, where it fits.
    pub fn checked_sum(&self, other: &Self) -> (r: Option<ItemBonuses>)
        ensures
            match r {
                Some(sum) => sum@ == plus(self@, other@),
                None => !all_fit(plus(self@, other@)),
            },
    {
        Some(
            ItemBonuses {
                life: self.life.checked_add(other.life)?,
                mana: self.mana.checked_add(other.mana)?,
                energy_shield: self.energy_shield.checked_add(other.energy_shield)?,
                armour: self.armour.checked_add(other.armour)?,
                evasion: self.evasion.checked_add(other.evasion)?,
                fire_resistance: self.fire_resistance.checked_add(other.fire_resistance)?,
                cold_resistance: self.cold_resistance.checked_add(other.cold_resistance)?,
                lightning_resistance: self.lightning_resistance.checked_add(
                    other.lightning_resistance,
                )?,
                chaos_resistance: self.chaos_resistance.checked_add(other.chaos_resistance)?,
                strength: self.strength.checked_add(other.strength)?,
                dexterity: self.dexterity.checked_add(other.dexterity)?,
                intelligence: self.intelligence.checked_add(other.intelligence)?,
            },
        )
    }
}

impl Default for ItemBonuses {
    fn default() -> (r: Self)
        ensures
            r@ == no_bonuses(),
    {
        ItemBonuses {
            life: 0,
            mana: 0,
            energy_shield: 0,
            armour: 0,
            evasion: 0,
            fire_resistance: 0,
            cold_resistance: 0,
            lightning_resistance: 0,
            chaos_resistance: 0,
            strength: 0,
            dexterity: 0,
            intelligence: 0,
        }
    }
}

/// It does not matter which of two items is added to the other.
pub proof fn adding_commutes(a: BonusTotals, b: BonusTotals)
    ensures
        plus(a, b) == plus(b, a),
{
}

/// It does not matter how three items are grouped.
pub proof fn adding_associates(a: BonusTotals, b: BonusTotals, c: BonusTotals)
    ensures
        plus(plus(a, b), c) == plus(a, plus(b, c)),
{
}

/// Two rows add what their sums add together.
pub proof fn sums_add_up(a: Seq<BonusTotals>, b: Seq<BonusTotals>)
    ensures
        sum_of(a + b) == plus(sum_of(a), sum_of(b)),
    decreases b.len(),
{
    if b.len() == 0 {
        assert(a + b =~= a);
    } else {
        assert((a + b).drop_last() =~= a + b.drop_last());
        assert((a + b).last() == b.last());
        sums_add_up(a, b.drop_last());
    }
}

/// The same items in another order add the same.
pub proof fn order_does_not_matter(a: Seq<BonusTotals>, b: Seq<BonusTotals>)
    requires
        a.to_multiset() == b.to_multiset(),
    ensures
        sum_of(a) == sum_of(b),
    decreases a.len(),
{
    broadcast use vstd::seq_lib::group_to_multiset_ensures;

    if a.len() > 0 {
        let x = a.last();
        let init = a.drop_last();
        assert(a =~= init.push(x));
        assert(a.contains(x));
        assert(b.to_multiset().count(x) > 0);
        assert(b.contains(x));
        let i = choose|i: int| 0 <= i < b.len() && b[i] == x;
        let before = b.take(i);
        let after = b.skip(i + 1);
        let rest = before + after;
        assert(b =~= before + (seq![x] + after));
        assert(b.remove(i) =~= rest);
        assert(init.to_multiset() =~= a.to_multiset().remove(x));
        assert(rest.to_multiset() =~= b.to_multiset().remove(x));
        order_does_not_matter(init, rest);
        sums_add_up(before, after);
        sums_add_up(before, seq![x] + after);
        sums_add_up(seq![x], after);
        assert(seq![x].drop_last() =~= Seq::<BonusTotals>::empty());
        reveal_with_fuel(sum_of, 2);
        assert(sum_of(seq![x]) == plus(no_bonuses(), x));
    } else {
        assert(a.to_multiset().len() == 0);
        assert(b.to_multiset().len() == b.len());
    }
}

} // verus!
