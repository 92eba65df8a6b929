//! Plain data carried by entities: actor markers, stats, names, render
//! hints and item records. The registry stores these; the movement and
//! visibility systems read and update them.

use vstd::prelude::*;

verus! {

/// Marker for the player entity.
#[derive(Clone, Copy, Debug, PartialEq, Eq, Hash, Structural)]
pub struct Player;

/// Marker for a hostile actor.
#[derive(Clone, Copy, Debug, PartialEq, Eq, Hash, Structural)]
pub struct Monster;

/// Marker for a neutral actor.
#[derive(Clone, Copy, Debug, PartialEq, Eq, Hash, Structural)]
pub struct NPC;

/// Combat and initiative numbers of an actor.
#[derive(Clone, Copy, Debug, PartialEq, Eq, Hash, Structural)]
pub struct Stats {
    pub health: i32,
    pub max_health: i32,
    pub attack: i32,
    pub defense: i32,
    pub speed: i32,
}

impl Stats {
    /// A fresh actor starts at full health.
    pub fn new(health: i32, attack: i32, defense: i32, speed: i32) -> (r: Self)
        ensures
            r == (Stats { health, max_health: health, attack, defense, speed }),
    {
        Self { health, max_health: health, attack, defense, speed }
    }
}

/// Display name of an entity.
#[derive(Clone, Debug)]
pub struct Name(pub String);

/// Longer flavour text of an entity.
#[derive(Clone, Debug)]
pub struct Description(pub String);

impl Description {
    pub fn new(description: String) -> (r: Self)
        ensures
            r.0@ == description@,
    {
        Self(description)
    }
}

/// A color as red, green and blue channels in hundredths (0 through 100 for
/// 0.0 through 1.0); the renderer divides by 100 to get its channel floats.
#[derive(Clone, Copy, Debug, PartialEq, Eq, Hash, Structural)]
pub struct ColorRgb {
    pub r: u8,
    pub g: u8,
    pub b: u8,
}

impl ColorRgb {
    pub fn new(r: u8, g: u8, b: u8) -> (c: Self)
        ensures
            c == (ColorRgb { r, g, b }),
    {
        Self { r, g, b }
    }
}

/// What the renderer needs to draw an entity: a glyph, colors, and a
/// z-order (higher draws later, so on top).
#[derive(Clone, Copy, Debug, PartialEq, Eq, Hash, Structural)]
pub struct Renderable {
    pub glyph: char,
    pub fg: ColorRgb,
    pub bg: ColorRgb,
    pub render_order: i32,
}

impl Renderable {
    pub fn new(glyph: char, fg: ColorRgb, bg: ColorRgb, render_order: i32) -> (r: Self)
        ensures
            r == (Renderable { glyph, fg, bg, render_order }),
    {
        Self { glyph, fg, bg, render_order }
    }
}

/// Marker for an entity that can lie on the floor and be picked up.
#[derive(Clone, Copy, Debug, PartialEq, Eq, Hash, Structural)]
pub struct Item;

/// Marker for an item consumed on use.
#[derive(Clone, Copy, Debug, PartialEq, Eq, Hash, Structural)]
pub struct Consumable;

/// Where an equippable item is worn.
#[derive(Clone, Copy, Debug, PartialEq, Eq, Hash, Structural)]
pub enum EquipmentSlot {
    Head,
    Torso,
    Legs,
    Feet,
    Hands,
    MainHand,
    OffHand,
}

/// An item that can be worn or wielded in one slot.
#[derive(Clone, Copy, Debug, PartialEq, Eq, Hash, Structural)]
pub struct Equippable {
    pub slot: EquipmentSlot,
}

/// An item carried in an entity's backpack.
#[derive(Clone, Copy, Debug, PartialEq, Eq, Hash, Structural)]
pub struct InBackpack {
    pub owner: crate::registry::EntityId,
}

/// An item currently worn or wielded by an entity.
#[derive(Clone, Copy, Debug, PartialEq, Eq, Hash, Structural)]
pub struct Equipped {
    pub owner: crate::registry::EntityId,
    pub slot: EquipmentSlot,
}

} // verus!
