//! Items, and what an entity carries and wears.

use vstd::prelude::*;
use vstd::string::StringExecFns;
use crate::ui::list::ListRenderable;
use crate::util::text::{decimal, decimal_spec};

verus! {

/// What an item is good for. A weapon does damage from the first number of
/// `damage` up to, not including, the second; it hits with `accuracy`
/// thousandths; its `range` is in cells, zero for a weapon of close combat.
#[derive(Clone, Copy, Debug, PartialEq, Eq)]
pub enum ItemKind {
    Weapon { damage: (usize, usize), accuracy: usize, range: usize },
    Armor { health: usize, damage_reduction: usize },
}

/// Where an item is worn or held.
#[derive(Clone, Copy, Debug, PartialEq, Eq, Structural)]
pub enum ItemSlot {
    Primary,
    Secondary,
    Head,
    Body,
    Legs,
    Feet,
}

/// Something to wear, hold or carry: its name, what it is good for, and the
/// slot it belongs to, if it belongs to one.
#[derive(Clone, Debug, PartialEq, Eq)]
pub struct Item {
    pub name: String,
    pub kind: ItemKind,
    pub slot: Option<ItemSlot>,
}

/// An item that lies on the map and can be picked up.
#[derive(Clone, Debug, PartialEq, Eq)]
pub struct Grabbable(pub Item);

/// What an entity may leave behind when it dies: with `chance` thousandths
/// one of `items`.
#[derive(Debug, PartialEq, Eq)]
pub struct DropsLoot {
    pub chance: usize,
    pub items: Vec<Item>,
}

/// What an entity wears and holds, slot by slot.
#[derive(Clone, Debug, PartialEq, Eq)]
pub struct Equip {
    pub primary: Option<Item>,
    pub secondary: Option<Item>,
    pub head: Option<Item>,
    pub body: Option<Item>,
    pub legs: Option<Item>,
    pub feet: Option<Item>,
}

/// What an entity carries without wearing or holding it.
pub struct Inventory {
    pub contents: Vec<Item>,
}

/// Marks the entity that the player steers.
#[derive(Clone, Copy, Debug, PartialEq, Eq, Structural)]
pub struct Player {}

impl Item {
    /// Another item like this one.
    pub fn duplicate(&self) -> (copy: Item)
        ensures
            copy == *self,
    {
        Item { name: self.name.clone(), kind: self.kind, slot: self.slot }
    }
}

/// The name of a slot, as shown.
pub open spec fn slot_name(slot: ItemSlot) -> Seq<char> {
    match slot {
        ItemSlot::Primary => "Primary"@,
        ItemSlot::Secondary => "Secondary"@,
        ItemSlot::Head => "Head"@,
        ItemSlot::Body => "Body"@,
        ItemSlot::Legs => "Legs"@,
        ItemSlot::Feet => "Feet"@,
    }
}

fn name_of(slot: ItemSlot) -> (s: &'static str)
    ensures
        s@ == slot_name(slot),
{
    match slot {
        ItemSlot::Primary => "Primary",
        ItemSlot::Secondary => "Secondary",
        ItemSlot::Head => "Head",
        ItemSlot::Body => "Body",
        ItemSlot::Legs => "Legs",
        ItemSlot::Feet => "Feet",
    }
}

/// The most damage that a weapon does: one less than the end of its
/// range of damage.
pub open spec fn most_damage(damage: (usize, usize)) -> nat {
    if damage.1 > 0 {
        (damage.1 - 1) as nat
    } else {
        0
    }
}

fn labelled(label: &str, n: usize) -> (s: String)
    ensures
        s@ == label@ + decimal_spec(n as nat),
{
    let number = decimal(n);
    String::from_str(label).concat(number.as_str())
}

impl ListRenderable for Item {
    /// The name of the item, then what it does: for a weapon its damage,
    /// its accuracy and its range; for armour where it is worn, if
    /// anywhere, and what it adds to health and to the reduction of damage.
    open spec fn lines(&self) -> Seq<Seq<char>> {
        match self.kind {
            ItemKind::Weapon { damage, accuracy, range } => seq![
                self.name@,
                "Damage: "@ + decimal_spec(damage.0 as nat) + " to "@ + decimal_spec(
                    most_damage(damage),
                ),
                "Accuracy: "@ + decimal_spec(accuracy as nat) + "/1000"@,
                if range > 0 {
                    "Range: "@ + decimal_spec(range as nat)
                } else {
                    "Range: Melee"@
                },
            ],
            ItemKind::Armor { health, damage_reduction } => {
                let place = match self.slot {
                    Some(slot) => seq![slot_name(slot) + " Armor"@],
                    None => Seq::empty(),
                };
                seq![self.name@] + place + seq![
                    "Health Bonus: "@ + decimal_spec(health as nat),
                    "Damage Reduction: "@ + decimal_spec(damage_reduction as nat),
                ]
            },
        }
    }

    fn render(&self) -> (r: Vec<String>) {
        let mut result: Vec<String> = Vec::new();
        result.push(self.name.clone());
        match self.kind {
            ItemKind::Weapon { damage, accuracy, range } => {
                let most = if damage.1 > 0 {
                    damage.1 - 1
                } else {
                    0
                };
                let d = labelled("Damage: ", damage.0).concat(" to ").concat(decimal(most).as_str());
                result.push(d);
                result.push(labelled("Accuracy: ", accuracy).concat("/1000"));
                if range > 0 {
                    result.push(labelled("Range: ", range));
                } else {
                    result.push(String::from_str("Range: Melee"));
                }
            },
            ItemKind::Armor { health, damage_reduction } => {
                if let Some(slot) = self.slot {
                    result.push(String::from_str(name_of(slot)).concat(" Armor"));
                }
                result.push(labelled("Health Bonus: ", health));
                result.push(labelled("Damage Reduction: ", damage_reduction));
            },
        }
        proof {
            let lines = self.lines();
            assert(result@.len() == lines.len());
            assert forall|k: int| 0 <= k < result@.len() implies (#[trigger] result@[k])@
                == lines[k] by {}
        }
        result
    }
}

impl Player {
    pub fn new() -> (p: Player) {
        Player {  }
    }
}

impl DropsLoot {
    pub fn new(chance: usize, items: Vec<Item>) -> (d: DropsLoot)
        ensures
            d.chance == chance,
            d.items == items,
    {
        DropsLoot { chance: chance, items: items }
    }
}

/// The items of one slot, none or one.
pub open spec fn worn(slot: Option<Item>) -> Seq<Item> {
    match slot {
        Some(item) => seq![item],
        None => Seq::empty(),
    }
}

impl Equip {
    /// What is in the given slot.
    pub open spec fn at(&self, slot: ItemSlot) -> Option<Item> {
        match slot {
            ItemSlot::Primary => self.primary,
            ItemSlot::Secondary => self.secondary,
            ItemSlot::Head => self.head,
            ItemSlot::Body => self.body,
            ItemSlot::Legs => self.legs,
            ItemSlot::Feet => self.feet,
        }
    }

    /// This equipment with the given slot holding `item`.
    pub open spec fn with(&self, slot: ItemSlot, item: Option<Item>) -> Equip {
        match slot {
            ItemSlot::Primary => Equip { primary: item, ..*self },
            ItemSlot::Secondary => Equip { secondary: item, ..*self },
            ItemSlot::Head => Equip { head: item, ..*self },
            ItemSlot::Body => Equip { body: item, ..*self },
            ItemSlot::Legs => Equip { legs: item, ..*self },
            ItemSlot::Feet => Equip { feet: item, ..*self },
        }
    }

    /// All that is worn and held, in the order of the slots.
    pub open spec fn equipped(&self) -> Seq<Item> {
        worn(self.primary) + worn(self.secondary) + worn(self.head) + worn(self.body) + worn(
            self.legs,
        ) + worn(self.feet)
    }

    pub fn new() -> (e: Equip)
        ensures
            e.primary is None,
            e.secondary is None,
            e.head is None,
            e.body is None,
            e.legs is None,
            e.feet is None,
    {
        Equip { primary: None, secondary: None, head: None, body: None, legs: None, feet: None }
    }

    /// Puts `item` into the slot it belongs to and returns what was there.
    /// An item that belongs to no slot is dropped and changes nothing.
    pub fn equip(&mut self, item: Item) -> (former: Option<Item>)
        ensures
            match item.slot {
                Some(slot) => former == old(self).at(slot) && *final(self) == old(self).with(
                    slot,
                    Some(item),
                ),
                None => former is None && *final(self) == *old(self),
            },
    {
        match item.slot {
            Some(ItemSlot::Primary) => {
                let former = self.primary.take();
                self.primary = Some(item);
                former
            },
            Some(ItemSlot::Secondary) => {
                let former = self.secondary.take();
                self.secondary = Some(item);
                former
            },
            Some(ItemSlot::Head) => {
                let former = self.head.take();
                self.head = Some(item);
                former
            },
            Some(ItemSlot::Body) => {
                let former = self.body.take();
                self.body = Some(item);
                former
            },
            Some(ItemSlot::Legs) => {
                let former = self.legs.take();
                self.legs = Some(item);
                former
            },
            Some(ItemSlot::Feet) => {
                let former = self.feet.take();
                self.feet = Some(item);
                former
            },
            None => None,
        }
    }

    /// Empties the given slot and returns what was there.
    pub fn unequip(&mut self, slot: ItemSlot) -> (former: Option<Item>)
        ensures
            former == old(self).at(slot),
            *final(self) == old(self).with(slot, None),
    {
        match slot {
            ItemSlot::Primary => self.primary.take(),
            ItemSlot::Secondary => self.secondary.take(),
            ItemSlot::Head => self.head.take(),
            ItemSlot::Body => self.body.take(),
            ItemSlot::Legs => self.legs.take(),
            ItemSlot::Feet => self.feet.take(),
        }
    }

    /// All that is worn and held, in the order of the slots.
    pub fn list_equipped(&self) -> (result: Vec<&Item>)
        ensures
            result@.len() == self.equipped().len(),
            forall|k: int| 0 <= k < result@.len() ==> *result@[k] == self.equipped()[k],
    {
        let mut result: Vec<&Item> = Vec::new();
        let ghost mut listed: Seq<Item> = Seq::empty();
        if let Some(i) = &self.primary {
            result.push(i);
        }
        proof {
            listed = worn(self.primary);
        }
        assert(result@.len() == listed.len() && forall|k: int|
            0 <= k < result@.len() ==> *result@[k] == listed[k]);
        if let Some(i) = &self.secondary {
            result.push(i);
        }
        proof {
            listed = listed + worn(self.secondary);
        }
        assert(result@.len() == listed.len() && forall|k: int|
            0 <= k < result@.len() ==> *result@[k] == listed[k]);
        if let Some(i) = &self.head {
            result.push(i);
        }
        proof {
            listed = listed + worn(self.head);
        }
        assert(result@.len() == listed.len() && forall|k: int|
            0 <= k < result@.len() ==> *result@[k] == listed[k]);
        if let Some(i) = &self.body {
            result.push(i);
        }
        proof {
            listed = listed + worn(self.body);
        }
        assert(result@.len() == listed.len() && forall|k: int|
            0 <= k < result@.len() ==> *result@[k] == listed[k]);
        if let Some(i) = &self.legs {
            result.push(i);
        }
        proof {
            listed = listed + worn(self.legs);
        }
        assert(result@.len() == listed.len() && forall|k: int|
            0 <= k < result@.len() ==> *result@[k] == listed[k]);
        if let Some(i) = &self.feet {
            result.push(i);
        }
        proof {
            listed = listed + worn(self.feet);
        }
        result
    }
}

/// What an item adds to the reduction of damage when worn.
pub open spec fn armour_of(slot: Option<Item>) -> int {
    match slot {
        Some(item) => match item.kind {
            ItemKind::Armor { health, damage_reduction } => damage_reduction as int,
            ItemKind::Weapon { .. } => 0,
        },
        None => 0,
    }
}

/// What an item adds to the health when worn.
pub open spec fn vigour_of(slot: Option<Item>) -> int {
    match slot {
        Some(item) => match item.kind {
            ItemKind::Armor { health, damage_reduction } => health as int,
            ItemKind::Weapon { .. } => 0,
        },
        None => 0,
    }
}

fn bonus_of(slot: &Option<Item>) -> (b: (usize, usize))
    ensures
        b.0 == armour_of(*slot),
        b.1 == vigour_of(*slot),
{
    match slot {
        Some(item) => match item.kind {
            ItemKind::Armor { health, damage_reduction } => (damage_reduction, health),
            ItemKind::Weapon { .. } => (0, 0),
        },
        None => (0, 0),
    }
}

impl Equip {
    /// The reduction of damage that all that is worn adds up to.
    pub open spec fn armour(&self) -> int {
        armour_of(self.primary) + armour_of(self.secondary) + armour_of(self.head) + armour_of(
            self.body,
        ) + armour_of(self.legs) + armour_of(self.feet)
    }

    /// The health that all that is worn adds.
    pub open spec fn vigour(&self) -> int {
        vigour_of(self.primary) + vigour_of(self.secondary) + vigour_of(self.head) + vigour_of(
            self.body,
        ) + vigour_of(self.legs) + vigour_of(self.feet)
    }

    /// The reduction of damage and the health that all that is worn adds,
    /// where both fit the machine word.
    pub fn protection(&self) -> (p: Option<(usize, usize)>)
        ensures
            p is Some <==> self.armour() <= usize::MAX && self.vigour() <= usize::MAX,
            p is Some ==> p.unwrap().0 == self.armour() && p.unwrap().1 == self.vigour(),
    {
        let a = bonus_of(&self.primary);
        let b = bonus_of(&self.secondary);
        let c = bonus_of(&self.head);
        let d = bonus_of(&self.body);
        let e = bonus_of(&self.legs);
        let f = bonus_of(&self.feet);
        let armour: u128 = a.0 as u128 + b.0 as u128 + c.0 as u128 + d.0 as u128 + e.0 as u128
            + f.0 as u128;
        let vigour: u128 = a.1 as u128 + b.1 as u128 + c.1 as u128 + d.1 as u128 + e.1 as u128
            + f.1 as u128;
        if armour <= usize::MAX as u128 && vigour <= usize::MAX as u128 {
            Some((armour as usize, vigour as usize))
        } else {
            None
        }
    }
}

impl Inventory {
    pub fn new() -> (i: Inventory)
        ensures
            i.contents@.len() == 0,
    {
        Inventory { contents: Vec::new() }
    }
}

} // verus!
