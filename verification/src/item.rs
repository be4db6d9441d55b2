//! Items creatures can hold, with their display names and the actions each
//! one affords.

use vstd::prelude::*;
use crate::action::{Action, Cost, CraftType, InteractionType, ODDS_CERTAIN};
use crate::crop::Crop;
use crate::tile::Structure;

verus! {

#[derive(Debug, Clone, Copy, PartialEq, Eq, Hash, Structural)]
pub enum Item {
    /// Fixed affordance: inspecting the surroundings.
    Eyes,
    /// Fixed affordance: taking loose items.
    Hands,
    Reed,
    Flower,
    Pebble,
    Stone,
    SharpStone,
    Pitcher,
    FilledPitcher,
    Hoe,
    GreenSeed,
    YellowSeed,
    BrownSeed,
    Stick,
    Log,
    Plank,
    DiscLeaf,
    KnifeLeaf,
    HardwoodStick,
    HardwoodKnife,
    HardwoodTable,
    SawBlade,
    Tinder,
    MarkerStone,
    Ash,
}

impl Item {
    /// The ordered list of actions this item affords; the first one a tile
    /// answers wins.
    pub open spec fn actions_spec(self) -> Seq<Action> {
        match self {
            Item::Eyes => seq![Action::Inspect],
            Item::Hands => seq![Action::take_spec()],
            Item::Reed => Seq::empty(),
            Item::Flower => seq![
                Action::Craft(CraftType::Marker, Item::MarkerStone, Cost::MarkerOffering),
            ],
            Item::Pebble => Seq::empty(),
            Item::Stone => seq![
                Action::Interact(
                    crate::action::Interact {
                        typ: InteractionType::Smash,
                        level: 1u32,
                        use_item: true,
                        received: None,
                    },
                ),
            ],
            Item::SharpStone => seq![
                Action::Interact(
                    crate::action::Interact {
                        typ: InteractionType::Cut,
                        level: 1u32,
                        use_item: false,
                        received: None,
                    },
                ),
            ],
            Item::Pitcher => seq![
                Action::Craft(CraftType::Water, Item::FilledPitcher, Cost::Nothing),
            ],
            Item::FilledPitcher => seq![
                Action::Interact(
                    crate::action::Interact {
                        typ: InteractionType::Water,
                        level: 1u32,
                        use_item: true,
                        received: Some(Item::Pitcher),
                    },
                ),
            ],
            Item::Hoe => seq![Action::Clear],
            Item::GreenSeed => seq![
                Action::Build(Structure::Crop(Crop::greenseed_spec()), Cost::Nothing),
            ],
            Item::YellowSeed => seq![
                Action::Build(Structure::Crop(Crop::yellowseed_spec()), Cost::Nothing),
            ],
            Item::BrownSeed => seq![
                Action::Build(Structure::Crop(Crop::brownseed_spec()), Cost::Nothing),
            ],
            Item::Stick => seq![
                Action::Craft(CraftType::GardeningTable, Item::Hoe, Cost::HoeParts),
                Action::Interact(
                    crate::action::Interact {
                        typ: InteractionType::Fuel,
                        level: 1u32,
                        use_item: true,
                        received: None,
                    },
                ),
            ],
            Item::Log => Seq::empty(),
            Item::Plank => Seq::empty(),
            Item::DiscLeaf => seq![
                Action::Interact(
                    crate::action::Interact {
                        typ: InteractionType::Fuel,
                        level: 1u32,
                        use_item: true,
                        received: None,
                    },
                ),
            ],
            Item::KnifeLeaf => seq![
                Action::Interact(
                    crate::action::Interact {
                        typ: InteractionType::Cut,
                        level: 2u32,
                        use_item: true,
                        received: None,
                    },
                ),
            ],
            Item::HardwoodStick => seq![
                Action::Interact(
                    crate::action::Interact {
                        typ: InteractionType::Fuel,
                        level: 2u32,
                        use_item: true,
                        received: None,
                    },
                ),
            ],
            Item::HardwoodKnife => seq![
                Action::Interact(
                    crate::action::Interact {
                        typ: InteractionType::Cut,
                        level: 2u32,
                        use_item: false,
                        received: None,
                    },
                ),
            ],
            Item::HardwoodTable => seq![Action::Build(Structure::HardwoodTable, Cost::Nothing)],
            Item::SawBlade => seq![
                Action::Interact(
                    crate::action::Interact {
                        typ: InteractionType::BuildSaw,
                        level: 1u32,
                        use_item: true,
                        received: None,
                    },
                ),
            ],
            Item::Tinder => seq![Action::Build(Structure::Fireplace, Cost::FireplacePebbles)],
            Item::MarkerStone => seq![Action::BuildClaim(Structure::MarkStone)],
            Item::Ash => seq![
                Action::Interact(
                    crate::action::Interact {
                        typ: InteractionType::Fertilize,
                        level: 1u32,
                        use_item: true,
                        received: None,
                    },
                ),
            ],
        }
    }

    pub fn actions(&self) -> (r: Vec<Action>)
        ensures
            r@ =~= self.actions_spec(),
    {
        match self {
            Item::Eyes => vec![Action::Inspect],
            Item::Hands => vec![Action::take()],
            Item::Reed => Vec::new(),
            Item::Flower => vec![
                Action::Craft(CraftType::Marker, Item::MarkerStone, Cost::MarkerOffering),
            ],
            Item::Pebble => Vec::new(),
            Item::Stone => vec![Action::interact(InteractionType::Smash, 1, true)],
            Item::SharpStone => vec![Action::interact(InteractionType::Cut, 1, false)],
            Item::Pitcher => vec![
                Action::Craft(CraftType::Water, Item::FilledPitcher, Cost::Nothing),
            ],
            Item::FilledPitcher => vec![
                Action::interact_change(InteractionType::Water, 1, Item::Pitcher),
            ],
            Item::Hoe => vec![Action::Clear],
            Item::GreenSeed => vec![
                Action::Build(Structure::Crop(Crop::greenseed()), Cost::Nothing),
            ],
            Item::YellowSeed => vec![
                Action::Build(Structure::Crop(Crop::yellowseed()), Cost::Nothing),
            ],
            Item::BrownSeed => vec![
                Action::Build(Structure::Crop(Crop::brownseed()), Cost::Nothing),
            ],
            Item::Stick => vec![
                Action::Craft(CraftType::GardeningTable, Item::Hoe, Cost::HoeParts),
                Action::interact(InteractionType::Fuel, 1, true),
            ],
            Item::Log => Vec::new(),
            Item::Plank => Vec::new(),
            Item::DiscLeaf => vec![Action::interact(InteractionType::Fuel, 1, true)],
            Item::KnifeLeaf => vec![Action::interact(InteractionType::Cut, 2, true)],
            Item::HardwoodStick => vec![Action::interact(InteractionType::Fuel, 2, true)],
            Item::HardwoodKnife => vec![Action::interact(InteractionType::Cut, 2, false)],
            Item::HardwoodTable => vec![Action::Build(Structure::HardwoodTable, Cost::Nothing)],
            Item::SawBlade => vec![Action::interact(InteractionType::BuildSaw, 1, true)],
            Item::Tinder => vec![Action::Build(Structure::Fireplace, Cost::FireplacePebbles)],
            Item::MarkerStone => vec![Action::BuildClaim(Structure::MarkStone)],
            Item::Ash => vec![Action::interact(InteractionType::Fertilize, 1, true)],
        }
    }

    /// The display name of the item.
    pub fn name(&self) -> (r: &'static str)
        ensures
            r@ == self.name_spec(),
    {
        match self {
            Item::Eyes => "<eyes>",
            Item::Hands => "<hands>",
            Item::Reed => "reed",
            Item::Flower => "flower",
            Item::Pebble => "pebble",
            Item::Stone => "stone",
            Item::SharpStone => "sharp stone",
            Item::Pitcher => "pitcher",
            Item::FilledPitcher => "water pitcher",
            Item::Hoe => "hoe",
            Item::GreenSeed => "green seed",
            Item::YellowSeed => "yellow seed",
            Item::BrownSeed => "brown seed",
            Item::Stick => "stick",
            Item::Log => "log",
            Item::Plank => "plank",
            Item::DiscLeaf => "discleaf",
            Item::KnifeLeaf => "knifeleaf",
            Item::HardwoodStick => "hardwood stick",
            Item::HardwoodKnife => "wood knife",
            Item::HardwoodTable => "wood table",
            Item::SawBlade => "saw blade",
            Item::Tinder => "tinder",
            Item::MarkerStone => "marker stone",
            Item::Ash => "ash",
        }
    }

    pub open spec fn name_spec(self) -> Seq<char> {
        match self {
            Item::Eyes => "<eyes>"@,
            Item::Hands => "<hands>"@,
            Item::Reed => "reed"@,
            Item::Flower => "flower"@,
            Item::Pebble => "pebble"@,
            Item::Stone => "stone"@,
            Item::SharpStone => "sharp stone"@,
            Item::Pitcher => "pitcher"@,
            Item::FilledPitcher => "water pitcher"@,
            Item::Hoe => "hoe"@,
            Item::GreenSeed => "green seed"@,
            Item::YellowSeed => "yellow seed"@,
            Item::BrownSeed => "brown seed"@,
            Item::Stick => "stick"@,
            Item::Log => "log"@,
            Item::Plank => "plank"@,
            Item::DiscLeaf => "discleaf"@,
            Item::KnifeLeaf => "knifeleaf"@,
            Item::HardwoodStick => "hardwood stick"@,
            Item::HardwoodKnife => "wood knife"@,
            Item::HardwoodTable => "wood table"@,
            Item::SawBlade => "saw blade"@,
            Item::Tinder => "tinder"@,
            Item::MarkerStone => "marker stone"@,
            Item::Ash => "ash"@,
        }
    }

    /// A short description, if the item has one.
    pub fn description(&self) -> (r: Option<&'static str>)
        ensures
            match r {
                Some(s) => self.description_spec() is Some && s@ == self.description_spec()->0,
                None => self.description_spec() is None,
            },
    {
        match self {
            Item::Eyes => Some("Inspect things around you"),
            Item::Hands => Some("Take items that are laying loose"),
            Item::Reed => Some("Some cut reeds"),
            Item::Flower => Some("A pretty flower"),
            Item::Pebble => Some("A small stone"),
            Item::Stone => Some("A mid-size stone. Stones can be broken by smashing two together"),
            Item::SharpStone => Some(
                "A small stone with a sharp edge. It can be used to cut things, though it is very crude and may not always work",
            ),
            Item::Pitcher => Some(
                "A pitcher from the pitcher plant. It can function as a bucket",
            ),
            Item::FilledPitcher => Some(
                "A pitcher from the pitcher plant, filled with water",
            ),
            Item::Hoe => Some(
                "A simple hoe that can be used to clear the ground of small vegetation",
            ),
            Item::GreenSeed => Some("Unknown green seed"),
            Item::YellowSeed => Some("Unknown yellow seed"),
            Item::BrownSeed => Some("Unknown brown seed"),
            Item::Stick => Some("Stick"),
            Item::Log => Some("A log of wood"),
            Item::Plank => Some("A sawn wooden plank"),
            Item::DiscLeaf => Some("Disk leaf"),
            Item::KnifeLeaf => Some("Knife leaf"),
            Item::HardwoodStick => Some("A strong stick"),
            Item::HardwoodKnife => Some("A surprisingly effective wooden knife"),
            Item::HardwoodTable => Some("A wooden table"),
            Item::SawBlade => Some("A hardwood saw blade"),
            Item::Tinder => Some(
                "Tinder from the tinder fungus. Can be placed with some pebbles on a clear space to create a fireplace",
            ),
            Item::MarkerStone => Some(
                "A marker stone that can be placed to create a land claim",
            ),
            Item::Ash => Some("Wood ash. Can be used as fertilizer"),
        }
    }

    pub open spec fn description_spec(self) -> Option<Seq<char>> {
        match self {
            Item::Eyes => Some("Inspect things around you"@),
            Item::Hands => Some("Take items that are laying loose"@),
            Item::Reed => Some("Some cut reeds"@),
            Item::Flower => Some("A pretty flower"@),
            Item::Pebble => Some("A small stone"@),
            Item::Stone => Some("A mid-size stone. Stones can be broken by smashing two together"@),
            Item::SharpStone => Some(
                "A small stone with a sharp edge. It can be used to cut things, though it is very crude and may not always work"@,
            ),
            Item::Pitcher => Some("A pitcher from the pitcher plant. It can function as a bucket"@),
            Item::FilledPitcher => Some("A pitcher from the pitcher plant, filled with water"@),
            Item::Hoe => Some(
                "A simple hoe that can be used to clear the ground of small vegetation"@,
            ),
            Item::GreenSeed => Some("Unknown green seed"@),
            Item::YellowSeed => Some("Unknown yellow seed"@),
            Item::BrownSeed => Some("Unknown brown seed"@),
            Item::Stick => Some("Stick"@),
            Item::Log => Some("A log of wood"@),
            Item::Plank => Some("A sawn wooden plank"@),
            Item::DiscLeaf => Some("Disk leaf"@),
            Item::KnifeLeaf => Some("Knife leaf"@),
            Item::HardwoodStick => Some("A strong stick"@),
            Item::HardwoodKnife => Some("A surprisingly effective wooden knife"@),
            Item::HardwoodTable => Some("A wooden table"@),
            Item::SawBlade => Some("A hardwood saw blade"@),
            Item::Tinder => Some(
                "Tinder from the tinder fungus. Can be placed with some pebbles on a clear space to create a fireplace"@,
            ),
            Item::MarkerStone => Some("A marker stone that can be placed to create a land claim"@),
            Item::Ash => Some("Wood ash. Can be used as fertilizer"@),
        }
    }
}

} // verus!
