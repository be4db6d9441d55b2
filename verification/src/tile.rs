//! Grounds, structures and tiles, with their behaviour tables and the
//! dispatch that resolves one item use against one tile.

use vstd::prelude::*;
use vstd::string::StringExecFns;
use crate::action::{
    Action, Cost, CraftType, Interact, Interactable, InteractionModel, InteractionResult,
    InteractionType, ODDS_CERTAIN,
};
use crate::crop::Crop;
use crate::item::Item;
use crate::sprite::Sprite;
use crate::tickstamp::Tickstamp;
use crate::worldmessages::SoundType;

verus! {

/// The ground layer of a tile.
#[derive(Debug, Clone, Copy, PartialEq, Eq, Hash, Structural)]
pub enum Ground {
    Dirt,
    Grass1,
    Grass2,
    Grass3,
    Moss,
    DeadLeaves,
    Sanctuary,
    Water,
    RockFloor,
    StoneFloor,
    WoodFloor,
    Empty,
}

impl Ground {
    pub open spec fn sprite_spec(self) -> Option<Sprite> {
        match self {
            Ground::Dirt => Some(Sprite::Dirt),
            Ground::Grass1 => Some(Sprite::Grass1),
            Ground::Grass2 => Some(Sprite::Grass2),
            Ground::Grass3 => Some(Sprite::Grass3),
            Ground::Moss => Some(Sprite::Moss),
            Ground::DeadLeaves => Some(Sprite::DeadLeaves),
            Ground::Sanctuary => Some(Sprite::Sanctuary),
            Ground::Water => Some(Sprite::Water),
            Ground::RockFloor => Some(Sprite::RockFloor),
            Ground::StoneFloor => Some(Sprite::StoneFloor),
            Ground::WoodFloor => Some(Sprite::WoodFloor),
            Ground::Empty => None,
        }
    }

    pub fn sprite(self) -> (r: Option<Sprite>)
        ensures
            r == self.sprite_spec(),
    {
        match self {
            Ground::Dirt => Some(Sprite::Dirt),
            Ground::Grass1 => Some(Sprite::Grass1),
            Ground::Grass2 => Some(Sprite::Grass2),
            Ground::Grass3 => Some(Sprite::Grass3),
            Ground::Moss => Some(Sprite::Moss),
            Ground::DeadLeaves => Some(Sprite::DeadLeaves),
            Ground::Sanctuary => Some(Sprite::Sanctuary),
            Ground::Water => Some(Sprite::Water),
            Ground::RockFloor => Some(Sprite::RockFloor),
            Ground::StoneFloor => Some(Sprite::StoneFloor),
            Ground::WoodFloor => Some(Sprite::WoodFloor),
            Ground::Empty => None,
        }
    }

    /// Whether creatures can stand on this ground.
    pub open spec fn accessible_spec(self) -> bool {
        match self {
            Ground::Water => false,
            Ground::Empty => false,
            _ => true,
        }
    }

    pub fn accessible(self) -> (r: bool)
        ensures
            r == self.accessible_spec(),
    {
        !(self == Ground::Water || self == Ground::Empty)
    }

    /// What clearing this ground leaves behind.
    pub open spec fn clear_spec(self) -> Option<Ground> {
        match self {
            Ground::Grass1 => Some(Ground::Dirt),
            Ground::Grass2 => Some(Ground::Dirt),
            Ground::Grass3 => Some(Ground::Dirt),
            Ground::Moss => Some(Ground::Dirt),
            Ground::DeadLeaves => Some(Ground::Dirt),
            _ => None,
        }
    }

    pub fn clear(self) -> (r: Option<Ground>)
        ensures
            r == self.clear_spec(),
    {
        match self {
            Ground::Grass1 => Some(Ground::Dirt),
            Ground::Grass2 => Some(Ground::Dirt),
            Ground::Grass3 => Some(Ground::Dirt),
            Ground::Moss => Some(Ground::Dirt),
            Ground::DeadLeaves => Some(Ground::Dirt),
            _ => None,
        }
    }

    pub open spec fn describe_spec(self) -> Option<Seq<char>> {
        match self {
            Ground::Dirt => Some("Dirt"@),
            Ground::Grass1 => Some("Grass"@),
            Ground::Grass2 => Some("Grass"@),
            Ground::Grass3 => Some("Grass"@),
            Ground::Moss => Some("Moss"@),
            Ground::DeadLeaves => Some("Old leaves"@),
            Ground::Sanctuary => Some("Ornate stone floor"@),
            Ground::Water => Some("Water"@),
            Ground::RockFloor => Some("Rock floor"@),
            Ground::StoneFloor => Some("Stone floor"@),
            Ground::WoodFloor => Some("Wooden plank floor"@),
            Ground::Empty => None,
        }
    }

    pub fn describe(self) -> (r: Option<&'static str>)
        ensures
            match r {
                Some(s) => self.describe_spec() is Some && s@ == self.describe_spec()->0,
                None => self.describe_spec() is None,
            },
    {
        match self {
            Ground::Dirt => Some("Dirt"),
            Ground::Grass1 => Some("Grass"),
            Ground::Grass2 => Some("Grass"),
            Ground::Grass3 => Some("Grass"),
            Ground::Moss => Some("Moss"),
            Ground::DeadLeaves => Some("Old leaves"),
            Ground::Sanctuary => Some("Ornate stone floor"),
            Ground::Water => Some("Water"),
            Ground::RockFloor => Some("Rock floor"),
            Ground::StoneFloor => Some("Stone floor"),
            Ground::WoodFloor => Some("Wooden plank floor"),
            Ground::Empty => None,
        }
    }

    /// The craft surface this ground exposes.
    pub open spec fn craft_spec(self) -> Option<CraftType> {
        match self {
            Ground::Water => Some(CraftType::Water),
            _ => None,
        }
    }

    pub fn craft(self) -> (r: Option<CraftType>)
        ensures
            r == self.craft_spec(),
    {
        match self {
            Ground::Water => Some(CraftType::Water),
            _ => None,
        }
    }

    /// Whether structures may be built on this ground.
    pub open spec fn buildable_spec(self) -> bool {
        match self {
            Ground::Dirt => true,
            Ground::RockFloor => true,
            Ground::StoneFloor => true,
            _ => false,
        }
    }

    pub fn buildable(self) -> (r: bool)
        ensures
            r == self.buildable_spec(),
    {
        self == Ground::Dirt || self == Ground::RockFloor || self == Ground::StoneFloor
    }

    /// Whether nature reclaims change entries on this ground.
    pub open spec fn restoring_spec(self) -> bool {
        self == Ground::Dirt
    }

    pub fn restoring(self) -> (r: bool)
        ensures
            r == self.restoring_spec(),
    {
        self == Ground::Dirt
    }
}

/// The structure standing on a tile.
#[derive(Debug, Clone, Copy, PartialEq, Eq, Hash, Structural)]
pub enum Structure {
    Air,
    Wall,
    WoodWall,
    Rock,
    RockMid,
    Sapling,
    YoungTree,
    Tree,
    OldTree,
    OldTreeTinder,
    DenseGrassGrn,
    DenseGrassBrn,
    DenseGrassY,
    Heather,
    Rush,
    Shrub,
    Bush,
    Reed,
    PitcherPlant,
    Flower,
    Pebble,
    Stone,
    Gravel,
    Sage,
    Fireplace,
    Fire,
    AshPlace,
    GardeningTable,
    MarkerAltar,
    MarkStone,
    Stick,
    SeedingHardwood,
    SeedingDiscLeaf,
    SeedingKnifeLeaf,
    DiscLeaf,
    KnifeLeaf,
    HardwoodStick,
    HardwoodKnife,
    HardwoodTable,
    SawTable,
    SawBlade,
    PlankWall,
    Crop(Crop),
}

impl Structure {
    pub open spec fn sprite_spec(self) -> Option<Sprite> {
        match self {
            Structure::Air => None,
            Structure::Wall => Some(Sprite::Wall),
            Structure::WoodWall => Some(Sprite::WoodWall),
            Structure::Rock => Some(Sprite::Rock),
            Structure::RockMid => Some(Sprite::RockMid),
            Structure::Sapling => Some(Sprite::Sapling),
            Structure::YoungTree => Some(Sprite::YoungTree),
            Structure::Tree => Some(Sprite::Tree),
            Structure::OldTree => Some(Sprite::OldTree),
            Structure::OldTreeTinder => Some(Sprite::OldTreeTinder),
            Structure::DenseGrassGrn => Some(Sprite::DenseGrass),
            Structure::DenseGrassBrn => Some(Sprite::DenseGrass),
            Structure::DenseGrassY => Some(Sprite::DenseGrass),
            Structure::Heather => Some(Sprite::Heather),
            Structure::Rush => Some(Sprite::Rush),
            Structure::Shrub => Some(Sprite::Shrub),
            Structure::Bush => Some(Sprite::Bush),
            Structure::Reed => Some(Sprite::Reed),
            Structure::PitcherPlant => Some(Sprite::PitcherPlant),
            Structure::Flower => Some(Sprite::Flower),
            Structure::Pebble => Some(Sprite::Pebble),
            Structure::Stone => Some(Sprite::Stone),
            Structure::Gravel => Some(Sprite::Gravel),
            Structure::Sage => Some(Sprite::Sage),
            Structure::Fireplace => Some(Sprite::Fireplace),
            Structure::Fire => Some(Sprite::Fire),
            Structure::AshPlace => Some(Sprite::AshPlace),
            Structure::GardeningTable => Some(Sprite::WorkTable),
            Structure::MarkerAltar => Some(Sprite::Altar),
            Structure::MarkStone => Some(Sprite::MarkStone),
            Structure::Stick => Some(Sprite::Stick),
            Structure::SeedingHardwood => Some(Sprite::SeedingHardwood),
            Structure::SeedingDiscLeaf => Some(Sprite::SeedingDiscLeaf),
            Structure::SeedingKnifeLeaf => Some(Sprite::SeedingKnifeLeaf),
            Structure::DiscLeaf => Some(Sprite::DiscLeaf),
            Structure::KnifeLeaf => Some(Sprite::KnifeLeaf),
            Structure::HardwoodStick => Some(Sprite::HardwoodStick),
            Structure::HardwoodKnife => Some(Sprite::HardwoodKnife),
            Structure::HardwoodTable => Some(Sprite::HardwoodTable),
            Structure::SawTable => Some(Sprite::SawTable),
            Structure::SawBlade => Some(Sprite::SawBlade),
            Structure::PlankWall => Some(Sprite::WoodWall),
            Structure::Crop(c) => Some(c.typ.sprite_spec()),
        }
    }

    pub fn sprite(self) -> (r: Option<Sprite>)
        ensures
            r == self.sprite_spec(),
    {
        match self {
            Structure::Air => None,
            Structure::Wall => Some(Sprite::Wall),
            Structure::WoodWall => Some(Sprite::WoodWall),
            Structure::Rock => Some(Sprite::Rock),
            Structure::RockMid => Some(Sprite::RockMid),
            Structure::Sapling => Some(Sprite::Sapling),
            Structure::YoungTree => Some(Sprite::YoungTree),
            Structure::Tree => Some(Sprite::Tree),
            Structure::OldTree => Some(Sprite::OldTree),
            Structure::OldTreeTinder => Some(Sprite::OldTreeTinder),
            Structure::DenseGrassGrn => Some(Sprite::DenseGrass),
            Structure::DenseGrassBrn => Some(Sprite::DenseGrass),
            Structure::DenseGrassY => Some(Sprite::DenseGrass),
            Structure::Heather => Some(Sprite::Heather),
            Structure::Rush => Some(Sprite::Rush),
            Structure::Shrub => Some(Sprite::Shrub),
            Structure::Bush => Some(Sprite::Bush),
            Structure::Reed => Some(Sprite::Reed),
            Structure::PitcherPlant => Some(Sprite::PitcherPlant),
            Structure::Flower => Some(Sprite::Flower),
            Structure::Pebble => Some(Sprite::Pebble),
            Structure::Stone => Some(Sprite::Stone),
            Structure::Gravel => Some(Sprite::Gravel),
            Structure::Sage => Some(Sprite::Sage),
            Structure::Fireplace => Some(Sprite::Fireplace),
            Structure::Fire => Some(Sprite::Fire),
            Structure::AshPlace => Some(Sprite::AshPlace),
            Structure::GardeningTable => Some(Sprite::WorkTable),
            Structure::MarkerAltar => Some(Sprite::Altar),
            Structure::MarkStone => Some(Sprite::MarkStone),
            Structure::Stick => Some(Sprite::Stick),
            Structure::SeedingHardwood => Some(Sprite::SeedingHardwood),
            Structure::SeedingDiscLeaf => Some(Sprite::SeedingDiscLeaf),
            Structure::SeedingKnifeLeaf => Some(Sprite::SeedingKnifeLeaf),
            Structure::DiscLeaf => Some(Sprite::DiscLeaf),
            Structure::KnifeLeaf => Some(Sprite::KnifeLeaf),
            Structure::HardwoodStick => Some(Sprite::HardwoodStick),
            Structure::HardwoodKnife => Some(Sprite::HardwoodKnife),
            Structure::HardwoodTable => Some(Sprite::HardwoodTable),
            Structure::SawTable => Some(Sprite::SawTable),
            Structure::SawBlade => Some(Sprite::SawBlade),
            Structure::PlankWall => Some(Sprite::WoodWall),
            Structure::Crop(c) => Some(c.sprite()),
        }
    }

    /// Whether this structure blocks movement.
    pub open spec fn blocking_spec(self) -> bool {
        match self {
            Structure::Wall => true,
            Structure::WoodWall => true,
            Structure::Rock => true,
            Structure::RockMid => true,
            Structure::YoungTree => true,
            Structure::Tree => true,
            Structure::OldTree => true,
            Structure::OldTreeTinder => true,
            Structure::Sage => true,
            Structure::Fireplace => true,
            Structure::Fire => true,
            Structure::AshPlace => true,
            Structure::GardeningTable => true,
            Structure::MarkerAltar => true,
            Structure::MarkStone => true,
            Structure::PlankWall => true,
            _ => false,
        }
    }

    pub fn blocking(self) -> (r: bool)
        ensures
            r == self.blocking_spec(),
    {
        match self {
            Structure::Wall => true,
            Structure::WoodWall => true,
            Structure::Rock => true,
            Structure::RockMid => true,
            Structure::YoungTree => true,
            Structure::Tree => true,
            Structure::OldTree => true,
            Structure::OldTreeTinder => true,
            Structure::Sage => true,
            Structure::Fireplace => true,
            Structure::Fire => true,
            Structure::AshPlace => true,
            Structure::GardeningTable => true,
            Structure::MarkerAltar => true,
            Structure::MarkStone => true,
            Structure::PlankWall => true,
            _ => false,
        }
    }

    /// Whether the spot is open: nothing stands here.
    pub open spec fn is_open_spec(self) -> bool {
        self == Structure::Air
    }

    pub fn is_open(self) -> (r: bool)
        ensures
            r == self.is_open_spec(),
    {
        self == Structure::Air
    }

    /// The name a talking structure answers most actions with.
    pub open spec fn explain_spec(self) -> Option<Seq<char>> {
        match self {
            Structure::Sage => Some("Sage"@),
            _ => None,
        }
    }

    pub fn explain(self) -> (r: Option<&'static str>)
        ensures
            match r {
                Some(s) => self.explain_spec() is Some && s@ == self.explain_spec()->0,
                None => self.explain_spec() is None,
            },
    {
        match self {
            Structure::Sage => Some("Sage"),
            _ => None,
        }
    }

    /// The interaction table of this structure.
    pub open spec fn interactions_spec(self) -> Seq<Interactable> {
        match self {
            Structure::YoungTree => seq![
                harvest_row(InteractionType::Chop, 1u32, ODDS_CERTAIN, ODDS_CERTAIN, Item::Stick),
            ],
            Structure::Tree => seq![
                harvest_row(InteractionType::Chop, 1u32, ODDS_CERTAIN, ODDS_CERTAIN, Item::Log),
            ],
            Structure::OldTree => seq![
                harvest_row(InteractionType::Chop, 1u32, ODDS_CERTAIN, ODDS_CERTAIN, Item::Stick),
            ],
            Structure::OldTreeTinder => seq![
                Interactable {
                    action_type: InteractionType::Cut,
                    min_level: 1u32,
                    odds_first: 0x8000u32,
                    odds_rest: ODDS_CERTAIN,
                    remains: Some(Structure::OldTree),
                    loot: Some(Item::Tinder),
                },
            ],
            Structure::DenseGrassGrn => seq![
                harvest_row(InteractionType::Take, 0u32, 6554u32, 6554u32, Item::GreenSeed),
            ],
            Structure::DenseGrassBrn => seq![
                harvest_row(InteractionType::Take, 0u32, 6554u32, 6554u32, Item::BrownSeed),
            ],
            Structure::DenseGrassY => seq![
                harvest_row(InteractionType::Take, 0u32, 6554u32, 6554u32, Item::YellowSeed),
            ],
            Structure::Reed => seq![
                harvest_row(InteractionType::Cut, 1u32, 0x8000u32, ODDS_CERTAIN, Item::Reed),
            ],
            Structure::PitcherPlant => seq![
                harvest_row(InteractionType::Cut, 1u32, 0x8000u32, ODDS_CERTAIN, Item::Pitcher),
            ],
            Structure::Stone => seq![
                Interactable {
                    action_type: InteractionType::Smash,
                    min_level: 1u32,
                    odds_first: 26214u32,
                    odds_rest: ODDS_CERTAIN,
                    remains: Some(Structure::Gravel),
                    loot: Some(Item::SharpStone),
                },
            ],
            Structure::Fireplace => seq![
                Interactable {
                    action_type: InteractionType::Fuel,
                    min_level: 1u32,
                    odds_first: ODDS_CERTAIN,
                    odds_rest: ODDS_CERTAIN,
                    remains: Some(Structure::Fire),
                    loot: None,
                },
            ],
            Structure::AshPlace => seq![
                Interactable {
                    action_type: InteractionType::Take,
                    min_level: 0u32,
                    odds_first: ODDS_CERTAIN,
                    odds_rest: ODDS_CERTAIN,
                    remains: Some(Structure::Fireplace),
                    loot: Some(Item::Ash),
                },
            ],
            Structure::Stick => seq![take_row(Item::Stick)],
            Structure::SeedingHardwood => seq![take_row(Item::BrownSeed)],
            Structure::SeedingDiscLeaf => seq![take_row(Item::GreenSeed)],
            Structure::SeedingKnifeLeaf => seq![take_row(Item::YellowSeed)],
            Structure::DiscLeaf => seq![take_row(Item::DiscLeaf)],
            Structure::KnifeLeaf => seq![take_row(Item::KnifeLeaf)],
            Structure::HardwoodStick => seq![take_row(Item::HardwoodStick)],
            Structure::HardwoodKnife => seq![take_row(Item::HardwoodKnife)],
            Structure::HardwoodTable => seq![
                take_row(Item::HardwoodTable),
                Interactable {
                    action_type: InteractionType::BuildSaw,
                    min_level: 1u32,
                    odds_first: ODDS_CERTAIN,
                    odds_rest: ODDS_CERTAIN,
                    remains: Some(Structure::SawTable),
                    loot: None,
                },
            ],
            Structure::SawBlade => seq![take_row(Item::SawBlade)],
            Structure::PlankWall => seq![
                harvest_row(InteractionType::Chop, 1u32, ODDS_CERTAIN, ODDS_CERTAIN, Item::Plank),
            ],
            Structure::Crop(c) => c.all_interactions_spec(),
            _ => Seq::empty(),
        }
    }

    pub fn interactions(self) -> (r: Vec<Interactable>)
        ensures
            r@ =~= self.interactions_spec(),
    {
        match self {
            Structure::YoungTree => vec![
                Interactable::harvest(
                    InteractionType::Chop,
                    1,
                    ODDS_CERTAIN,
                    ODDS_CERTAIN,
                    Item::Stick,
                ),
            ],
            Structure::Tree => vec![
                Interactable::harvest(
                    InteractionType::Chop,
                    1,
                    ODDS_CERTAIN,
                    ODDS_CERTAIN,
                    Item::Log,
                ),
            ],
            Structure::OldTree => vec![
                Interactable::harvest(
                    InteractionType::Chop,
                    1,
                    ODDS_CERTAIN,
                    ODDS_CERTAIN,
                    Item::Stick,
                ),
            ],
            Structure::OldTreeTinder => vec![
                Interactable::new(
                    InteractionType::Cut,
                    1,
                    0x8000,
                    ODDS_CERTAIN,
                    Some(Structure::OldTree),
                    Some(Item::Tinder),
                ),
            ],
            Structure::DenseGrassGrn => vec![
                Interactable::harvest(InteractionType::Take, 0, 6554, 6554, Item::GreenSeed),
            ],
            Structure::DenseGrassBrn => vec![
                Interactable::harvest(InteractionType::Take, 0, 6554, 6554, Item::BrownSeed),
            ],
            Structure::DenseGrassY => vec![
                Interactable::harvest(InteractionType::Take, 0, 6554, 6554, Item::YellowSeed),
            ],
            Structure::Reed => vec![
                Interactable::harvest(InteractionType::Cut, 1, 0x8000, ODDS_CERTAIN, Item::Reed),
            ],
            Structure::PitcherPlant => vec![
                Interactable::harvest(
                    InteractionType::Cut,
                    1,
                    0x8000,
                    ODDS_CERTAIN,
                    Item::Pitcher,
                ),
            ],
            Structure::Stone => vec![
                Interactable::new(
                    InteractionType::Smash,
                    1,
                    26214,
                    ODDS_CERTAIN,
                    Some(Structure::Gravel),
                    Some(Item::SharpStone),
                ),
            ],
            Structure::Fireplace => vec![
                Interactable::transform(InteractionType::Fuel, 1, Structure::Fire),
            ],
            Structure::AshPlace => vec![
                Interactable::new(
                    InteractionType::Take,
                    0,
                    ODDS_CERTAIN,
                    ODDS_CERTAIN,
                    Some(Structure::Fireplace),
                    Some(Item::Ash),
                ),
            ],
            Structure::Stick => vec![Interactable::take(Item::Stick)],
            Structure::SeedingHardwood => vec![Interactable::take(Item::BrownSeed)],
            Structure::SeedingDiscLeaf => vec![Interactable::take(Item::GreenSeed)],
            Structure::SeedingKnifeLeaf => vec![Interactable::take(Item::YellowSeed)],
            Structure::DiscLeaf => vec![Interactable::take(Item::DiscLeaf)],
            Structure::KnifeLeaf => vec![Interactable::take(Item::KnifeLeaf)],
            Structure::HardwoodStick => vec![Interactable::take(Item::HardwoodStick)],
            Structure::HardwoodKnife => vec![Interactable::take(Item::HardwoodKnife)],
            Structure::HardwoodTable => vec![
                Interactable::take(Item::HardwoodTable),
                Interactable::transform(InteractionType::BuildSaw, 1, Structure::SawTable),
            ],
            Structure::SawBlade => vec![Interactable::take(Item::SawBlade)],
            Structure::PlankWall => vec![
                Interactable::harvest(
                    InteractionType::Chop,
                    1,
                    ODDS_CERTAIN,
                    ODDS_CERTAIN,
                    Item::Plank,
                ),
            ],
            Structure::Crop(c) => c.all_interactions(),
            _ => Vec::new(),
        }
    }

    /// The item this structure can simply be taken as.
    pub open spec fn take_spec(self) -> Option<Item> {
        match self {
            Structure::Flower => Some(Item::Flower),
            Structure::Pebble => Some(Item::Pebble),
            Structure::Stone => Some(Item::Stone),
            _ => None,
        }
    }

    pub fn take(self) -> (r: Option<Item>)
        ensures
            r == self.take_spec(),
    {
        match self {
            Structure::Flower => Some(Item::Flower),
            Structure::Pebble => Some(Item::Pebble),
            Structure::Stone => Some(Item::Stone),
            _ => None,
        }
    }

    pub open spec fn describe_str_spec(self) -> Option<Seq<char>> {
        match self {
            Structure::Air => None,
            Structure::Wall => Some("Stone wall"@),
            Structure::WoodWall => Some("Wooden wall"@),
            Structure::Rock => Some("Natural rock wall"@),
            Structure::RockMid => Some("Natural rock wall"@),
            Structure::Sapling => Some("Sapling"@),
            Structure::YoungTree => Some("Young tree"@),
            Structure::Tree => Some("Tree"@),
            Structure::OldTree => Some("Dead tree"@),
            Structure::OldTreeTinder => Some("Dead tree with tinder fungus on it"@),
            Structure::DenseGrassGrn => Some("Dense grass"@),
            Structure::DenseGrassBrn => Some("Dense grass"@),
            Structure::DenseGrassY => Some("Dense grass"@),
            Structure::Heather => Some("Heather"@),
            Structure::Rush => Some("Rush"@),
            Structure::Shrub => Some("Some shrub"@),
            Structure::Bush => Some("Just a bush"@),
            Structure::Reed => Some("Reeds. Can be cut"@),
            Structure::PitcherPlant => Some("Pitcher plant. Can be cut"@),
            Structure::Flower => Some("Flower"@),
            Structure::Pebble => Some("Pebble. A small stone"@),
            Structure::Stone => Some(
                "Stone. A medium-size cobble. Can be smashed to try to get smaller stones"@,
            ),
            Structure::Gravel => Some("Gravel. Small stone rocks"@),
            Structure::Sage => Some(
                "Sage. An old wise person with grey hair. This sage can tell you about items in your inventory"@,
            ),
            Structure::Fireplace => Some("Fireplace. Safe place to have a fire"@),
            Structure::Fire => Some("Fire. Safely contained in fireplace."@),
            Structure::AshPlace => Some("Fireplace. Filled with ash"@),
            Structure::GardeningTable => Some(
                "Gardening worktable. Build a crude hoe with a stick, some reed rope and a sharp stone"@,
            ),
            Structure::MarkerAltar => Some(
                "Marker Altar. Bring 10 flowers and a stone to create a marker stone"@,
            ),
            Structure::MarkStone => Some("Mark stone. Center of a land claim"@),
            Structure::Stick => Some("A wooden stick"@),
            Structure::SeedingHardwood => Some("Seeding Hardwood"@),
            Structure::SeedingDiscLeaf => Some("Seeding Disc plant"@),
            Structure::SeedingKnifeLeaf => Some("Seeding Knife plant"@),
            Structure::DiscLeaf => Some("DiscLeaf"@),
            Structure::KnifeLeaf => Some("KnifeLeaf"@),
            Structure::HardwoodStick => Some("Hardwood stick"@),
            Structure::HardwoodKnife => Some("Hardwood knife"@),
            Structure::HardwoodTable => Some("Hardwood Table. Can be used for crafting"@),
            Structure::SawTable => Some("Saw table. Can cut planks from logs"@),
            Structure::SawBlade => Some("Saw blade"@),
            Structure::PlankWall => Some("Wooden wall"@),
            Structure::Crop(_) => None,
        }
    }

    pub fn describe(self) -> (r: Option<&'static str>)
        ensures
            match r {
                Some(s) => self.describe_str_spec() is Some && s@ == self.describe_str_spec()->0,
                None => self.describe_str_spec() is None,
            },
    {
        match self {
            Structure::Air => None,
            Structure::Wall => Some("Stone wall"),
            Structure::WoodWall => Some("Wooden wall"),
            Structure::Rock => Some("Natural rock wall"),
            Structure::RockMid => Some("Natural rock wall"),
            Structure::Sapling => Some("Sapling"),
            Structure::YoungTree => Some("Young tree"),
            Structure::Tree => Some("Tree"),
            Structure::OldTree => Some("Dead tree"),
            Structure::OldTreeTinder => Some("Dead tree with tinder fungus on it"),
            Structure::DenseGrassGrn => Some("Dense grass"),
            Structure::DenseGrassBrn => Some("Dense grass"),
            Structure::DenseGrassY => Some("Dense grass"),
            Structure::Heather => Some("Heather"),
            Structure::Rush => Some("Rush"),
            Structure::Shrub => Some("Some shrub"),
            Structure::Bush => Some("Just a bush"),
            Structure::Reed => Some("Reeds. Can be cut"),
            Structure::PitcherPlant => Some("Pitcher plant. Can be cut"),
            Structure::Flower => Some("Flower"),
            Structure::Pebble => Some("Pebble. A small stone"),
            Structure::Stone => Some(
                "Stone. A medium-size cobble. Can be smashed to try to get smaller stones",
            ),
            Structure::Gravel => Some("Gravel. Small stone rocks"),
            Structure::Sage => Some(
                "Sage. An old wise person with grey hair. This sage can tell you about items in your inventory",
            ),
            Structure::Fireplace => Some("Fireplace. Safe place to have a fire"),
            Structure::Fire => Some("Fire. Safely contained in fireplace."),
            Structure::AshPlace => Some("Fireplace. Filled with ash"),
            Structure::GardeningTable => Some(
                "Gardening worktable. Build a crude hoe with a stick, some reed rope and a sharp stone",
            ),
            Structure::MarkerAltar => Some(
                "Marker Altar. Bring 10 flowers and a stone to create a marker stone",
            ),
            Structure::MarkStone => Some("Mark stone. Center of a land claim"),
            Structure::Stick => Some("A wooden stick"),
            Structure::SeedingHardwood => Some("Seeding Hardwood"),
            Structure::SeedingDiscLeaf => Some("Seeding Disc plant"),
            Structure::SeedingKnifeLeaf => Some("Seeding Knife plant"),
            Structure::DiscLeaf => Some("DiscLeaf"),
            Structure::KnifeLeaf => Some("KnifeLeaf"),
            Structure::HardwoodStick => Some("Hardwood stick"),
            Structure::HardwoodKnife => Some("Hardwood knife"),
            Structure::HardwoodTable => Some("Hardwood Table. Can be used for crafting"),
            Structure::SawTable => Some("Saw table. Can cut planks from logs"),
            Structure::SawBlade => Some("Saw blade"),
            Structure::PlankWall => Some("Wooden wall"),
            Structure::Crop(_) => None,
        }
    }

    /// The full description: crops describe their stage and needs, other
    /// structures their fixed text.
    pub open spec fn description_spec(self) -> Option<Seq<char>> {
        match self {
            Structure::Crop(c) => Some(c.description_spec()),
            _ => self.describe_str_spec(),
        }
    }

    pub fn description(self) -> (r: Option<String>)
        ensures
            match r {
                Some(s) => self.description_spec() is Some && s@ == self.description_spec()->0,
                None => self.description_spec() is None,
            },
    {
        match self {
            Structure::Crop(c) => Some(c.description()),
            _ => match self.describe() {
                Some(s) => Some(s.to_owned()),
                None => None,
            },
        }
    }

    /// The craft surface this structure exposes.
    pub open spec fn craft_spec(self) -> Option<CraftType> {
        match self {
            Structure::GardeningTable => Some(CraftType::GardeningTable),
            Structure::MarkerAltar => Some(CraftType::Marker),
            Structure::HardwoodTable => Some(CraftType::GardeningTable),
            Structure::SawTable => Some(CraftType::SawTable),
            _ => None,
        }
    }

    pub fn craft(self) -> (r: Option<CraftType>)
        ensures
            r == self.craft_spec(),
    {
        match self {
            Structure::GardeningTable => Some(CraftType::GardeningTable),
            Structure::MarkerAltar => Some(CraftType::Marker),
            Structure::HardwoodTable => Some(CraftType::GardeningTable),
            Structure::SawTable => Some(CraftType::SawTable),
            _ => None,
        }
    }

    /// What this structure grows into, if anything: steps, the new
    /// structure, and a shoot spread to the neighbours.
    pub open spec fn grow_spec(self) -> Option<(i64, Structure, Option<Structure>)> {
        match self {
            Structure::Fire => Some((1int as i64, Structure::AshPlace, None::<Structure>)),
            Structure::Crop(c) => c.grow_spec(),
            _ => None,
        }
    }

    pub fn grow(self) -> (r: Option<(i64, Structure, Option<Structure>)>)
        ensures
            r == self.grow_spec(),
    {
        match self {
            Structure::Fire => Some((1, Structure::AshPlace, None)),
            Structure::Crop(c) => c.grow(),
            _ => None,
        }
    }

    /// The inosculation product this structure offers `other`.
    pub open spec fn join_spec(self, other: Structure) -> Option<Structure> {
        match self {
            Structure::Crop(c) => c.join_spec(other),
            _ => None,
        }
    }

    pub fn join(self, other: Structure) -> (r: Option<Structure>)
        ensures
            r == self.join_spec(other),
    {
        match self {
            Structure::Crop(c) => c.join(other),
            _ => None,
        }
    }

    /// The symmetric closure of `join`: either order of the two shoots.
    pub open spec fn joined_spec(self, other: Structure) -> Option<Structure> {
        match self.join_spec(other) {
            Some(s) => Some(s),
            None => other.join_spec(self),
        }
    }

    pub fn joined(&self, other: Structure) -> (r: Option<Structure>)
        ensures
            r == self.joined_spec(other),
    {
        match self.join(other) {
            Some(s) => Some(s),
            None => other.join(*self),
        }
    }

    /// The interaction table plus the take row for takeable structures.
    pub open spec fn interactables_spec(self) -> Seq<Interactable> {
        self.interactions_spec() + match self.take_spec() {
            Some(item) => seq![take_row(item)],
            None => Seq::empty(),
        }
    }

    pub fn interactables(self) -> (r: Vec<Interactable>)
        ensures
            r@ =~= self.interactables_spec(),
    {
        let mut interactions = self.interactions();
        if let Some(item) = self.take() {
            interactions.push(Interactable::take(item));
        }
        interactions
    }
}

/// A harvest row: clearing the structure for loot.
pub open spec fn harvest_row(
    action_type: InteractionType,
    min_level: u32,
    odds_first: u32,
    odds_rest: u32,
    loot: Item,
) -> Interactable {
    Interactable {
        action_type,
        min_level,
        odds_first,
        odds_rest,
        remains: Some(Structure::Air),
        loot: Some(loot),
    }
}

/// A take row: picking the structure up as an item.
pub open spec fn take_row(loot: Item) -> Interactable {
    Interactable {
        action_type: InteractionType::Take,
        min_level: 0u32,
        odds_first: ODDS_CERTAIN,
        odds_rest: ODDS_CERTAIN,
        remains: Some(Structure::Air),
        loot: Some(loot),
    }
}

/// One tile of the world: its ground and the structure standing on it.
#[derive(Debug, Clone, Copy, PartialEq, Eq, Hash, Structural)]
pub struct Tile {
    pub ground: Ground,
    pub structure: Structure,
}

impl Tile {
    /// A tile with nothing standing on the given ground.
    pub fn ground(ground: Ground) -> (t: Tile)
        ensures
            t == Tile::ground_spec(ground),
    {
        Tile { ground, structure: Structure::Air }
    }

    pub open spec fn ground_spec(ground: Ground) -> Tile {
        Tile { ground, structure: Structure::Air }
    }

    pub fn structure(ground: Ground, structure: Structure) -> (t: Tile)
        ensures
            t == (Tile { ground, structure }),
    {
        Tile { ground, structure }
    }

    /// The sprite stack of the tile, structure first.
    pub open spec fn sprites_spec(&self) -> Seq<Sprite> {
        (match self.structure.sprite_spec() {
            Some(s) => seq![s],
            None => Seq::empty(),
        }) + (match self.ground.sprite_spec() {
            Some(s) => seq![s],
            None => Seq::empty(),
        })
    }

    pub fn sprites(&self) -> (r: Vec<Sprite>)
        ensures
            r@ =~= self.sprites_spec(),
    {
        let mut sprites: Vec<Sprite> = Vec::new();
        if let Some(s) = self.structure.sprite() {
            sprites.push(s);
        }
        if let Some(s) = self.ground.sprite() {
            sprites.push(s);
        }
        sprites
    }

    /// A tile blocks iff its ground is inaccessible or its structure blocks.
    pub open spec fn blocking_spec(&self) -> bool {
        !self.ground.accessible_spec() || self.structure.blocking_spec()
    }

    pub fn blocking(&self) -> (r: bool)
        ensures
            r == self.blocking_spec(),
    {
        !self.ground.accessible() || self.structure.blocking()
    }

    /// A tile can be built upon iff its structure is open and its ground is
    /// buildable.
    pub open spec fn can_build_spec(&self) -> bool {
        self.structure.is_open_spec() && self.ground.buildable_spec()
    }

    pub fn can_build(&self) -> (r: bool)
        ensures
            r == self.can_build_spec(),
    {
        self.structure.is_open() && self.ground.buildable()
    }

    /// What the tile grows into.
    pub fn grow(&self) -> (r: Option<(i64, Structure, Option<Structure>)>)
        ensures
            r == self.structure.grow_spec(),
    {
        self.structure.grow()
    }

    /// What one attempt at `action` with `item` on this tile yields. A
    /// talking structure answers everything but inspection with its
    /// explanation. Otherwise the action decides: typed interactions go
    /// through the structure's table; clearing swaps the ground on open
    /// tiles; inspection describes the tile; building and claiming need a
    /// buildable tile and flag the result for the world's policy checks;
    /// crafting needs a matching craft surface. The acting item joins the
    /// cost where the action consumes it.
    pub open spec fn act_spec(self, action: Action, item: Item, time: Tickstamp) -> Option<
        InteractionModel,
    > {
        if self.structure.explain_spec() is Some && action != Action::Inspect {
            Some(
                InteractionModel {
                    remains: None,
                    remains_ground: None,
                    items: Seq::empty(),
                    cost: Seq::empty(),
                    message: Some(
                        (
                            SoundType::Explain,
                            explain_message(self.structure.explain_spec()->0, item),
                        ),
                    ),
                    claim: false,
                    build: false,
                },
            )
        } else {
            match action {
                Action::Interact(interact) => match first_apply(
                    self.structure.interactables_spec(),
                    interact,
                    time,
                ) {
                    Some(m) => Some(
                        if interact.use_item {
                            InteractionModel {
                                remains: m.remains,
                                remains_ground: m.remains_ground,
                                items: m.items,
                                cost: seq![(item, 1u32)],
                                message: m.message,
                                claim: m.claim,
                                build: m.build,
                            }
                        } else {
                            m
                        },
                    ),
                    None => None,
                },
                Action::Clear => if self.structure.is_open_spec() {
                    match self.ground.clear_spec() {
                        Some(g) => Some(
                            InteractionModel {
                                remains: None,
                                remains_ground: Some(g),
                                items: Seq::empty(),
                                cost: Seq::empty(),
                                message: None,
                                claim: false,
                                build: false,
                            },
                        ),
                        None => None,
                    }
                } else {
                    None
                },
                Action::Inspect => Some(
                    InteractionModel {
                        remains: None,
                        remains_ground: None,
                        items: Seq::empty(),
                        cost: Seq::empty(),
                        message: Some((SoundType::Explain, inspect_message(self))),
                        claim: false,
                        build: false,
                    },
                ),
                Action::BuildClaim(structure) => if self.can_build_spec() {
                    Some(
                        InteractionModel {
                            remains: Some(structure),
                            remains_ground: None,
                            items: Seq::empty(),
                            cost: seq![(item, 1u32)],
                            message: None,
                            claim: true,
                            build: false,
                        },
                    )
                } else {
                    None
                },
                Action::Build(structure, cost) => if self.can_build_spec() {
                    Some(
                        InteractionModel {
                            remains: Some(structure),
                            remains_ground: None,
                            items: Seq::empty(),
                            cost: add_cost_spec(cost.list_spec(), item),
                            message: None,
                            claim: false,
                            build: true,
                        },
                    )
                } else {
                    None
                },
                Action::Craft(typ, product, cost) => if self.structure.craft_spec() == Some(typ)
                    || self.ground.craft_spec() == Some(typ) {
                    Some(
                        InteractionModel {
                            remains: None,
                            remains_ground: None,
                            items: seq![product],
                            cost: add_cost_spec(cost.list_spec(), item),
                            message: None,
                            claim: false,
                            build: false,
                        },
                    )
                } else {
                    None
                },
            }
        }
    }

    #[verifier::rlimit(100)]
    pub fn act(&self, action: Action, item: Item, time: Tickstamp) -> (r: Option<
        InteractionResult,
    >)
        ensures
            match r {
                Some(res) => self.act_spec(action, item, time) == Some(res@)
                    && crate::inventory::cost_wf(res.cost@),
                None => self.act_spec(action, item, time) is None,
            },
    {
        if let Some(name) = self.structure.explain() {
            if !(action == Action::Inspect) {
                let mut text: String = name.to_owned();
                text.append(": ");
                match item.description() {
                    Some(d) => text.append(d),
                    None => text.append("Unknown"),
                }
                let mut res = InteractionResult::empty();
                res.message = Some((SoundType::Explain, text));
                return Some(res);
            }
        }
        match action {
            Action::Interact(interact) => {
                let rows = self.structure.interactables();
                match apply_first_row(&rows, interact, time) {
                    Some(found) => {
                        proof {
                            lemma_first_apply_cost(rows@, interact, time);
                        }
                        let mut res = found;
                        if interact.use_item {
                            let mut cost: Vec<(Item, u32)> = Vec::new();
                            cost.push((item, 1));
                            res.cost = cost;
                        }
                        Some(res)
                    },
                    None => None,
                }
            },
            Action::Clear => {
                if self.structure.is_open() {
                    match self.ground.clear() {
                        Some(g) => {
                            let mut res = InteractionResult::empty();
                            res.remains_ground = Some(g);
                            Some(res)
                        },
                        None => None,
                    }
                } else {
                    None
                }
            },
            Action::Inspect => {
                let mut text: String = match self.ground.describe() {
                    Some(s) => s.to_owned(),
                    None => String::new(),
                };
                text.append("  --  ");
                match self.structure.description() {
                    Some(d) => text.append(d.as_str()),
                    None => (),
                }
                let mut res = InteractionResult::empty();
                res.message = Some((SoundType::Explain, text));
                Some(res)
            },
            Action::BuildClaim(structure) => {
                if self.can_build() {
                    let mut cost: Vec<(Item, u32)> = Vec::new();
                    cost.push((item, 1));
                    let mut res = InteractionResult::empty();
                    res.remains = Some(structure);
                    res.cost = cost;
                    res.claim = true;
                    Some(res)
                } else {
                    None
                }
            },
            Action::Build(structure, cost) => {
                if self.can_build() {
                    let mut cost_list = cost.list();
                    proof {
                        lemma_add_cost_wf(cost_list@, item);
                    }
                    add_one_cost(&mut cost_list, item);
                    let mut res = InteractionResult::empty();
                    res.remains = Some(structure);
                    res.cost = cost_list;
                    res.build = true;
                    Some(res)
                } else {
                    None
                }
            },
            Action::Craft(typ, product, cost) => {
                let here = match self.structure.craft() {
                    Some(t) => t == typ,
                    None => false,
                } || match self.ground.craft() {
                    Some(t) => t == typ,
                    None => false,
                };
                if here {
                    let mut cost_list = cost.list();
                    proof {
                        lemma_add_cost_wf(cost_list@, item);
                    }
                    add_one_cost(&mut cost_list, item);
                    let mut items: Vec<Item> = Vec::new();
                    items.push(product);
                    let mut res = InteractionResult::empty();
                    res.items = items;
                    res.cost = cost_list;
                    Some(res)
                } else {
                    None
                }
            },
        }
    }

    /// The result of using `item` on this tile: the first of the item's
    /// actions the tile answers.
    pub open spec fn interact_spec(self, item: Item, time: Tickstamp) -> Option<
        InteractionModel,
    > {
        first_act(self, item.actions_spec(), item, time)
    }

    pub fn interact(&self, item: Item, time: Tickstamp) -> (r: Option<InteractionResult>)
        ensures
            match r {
                Some(res) => self.interact_spec(item, time) == Some(res@)
                    && crate::inventory::cost_wf(res.cost@),
                None => self.interact_spec(item, time) is None,
            },
    {
        let actions = item.actions();
        let mut i: usize = 0;
        proof {
            assert(actions@.skip(0) =~= actions@);
        }
        while i < actions.len()
            invariant
                0 <= i <= actions@.len(),
                actions@ =~= item.actions_spec(),
                first_act(*self, item.actions_spec(), item, time) == first_act(
                    *self,
                    actions@.skip(i as int),
                    item,
                    time,
                ),
            decreases actions@.len() - i,
        {
            proof {
                assert(actions@.skip(i as int)[0] == actions@[i as int]);
                assert(actions@.skip(i as int).drop_first() =~= actions@.skip(i as int + 1));
            }
            match self.act(actions[i], item, time) {
                Some(res) => {
                    return Some(res);
                },
                None => {
                    i = i + 1;
                },
            }
        }
        proof {
            assert(actions@.skip(actions@.len() as int).len() == 0);
        }
        None
    }
}

/// Applies the first row of the table that answers the action.
fn apply_first_row(rows: &Vec<Interactable>, action: Interact, time: Tickstamp) -> (r: Option<
    InteractionResult,
>)
    ensures
        match r {
            Some(res) => first_apply(rows@, action, time) == Some(res@),
            None => first_apply(rows@, action, time) is None,
        },
{
    let mut i: usize = 0;
    proof {
        assert(rows@.skip(0) =~= rows@);
    }
    while i < rows.len()
        invariant
            0 <= i <= rows@.len(),
            first_apply(rows@, action, time) == first_apply(rows@.skip(i as int), action, time),
        decreases rows@.len() - i,
    {
        proof {
            assert(rows@.skip(i as int)[0] == rows@[i as int]);
            assert(rows@.skip(i as int).drop_first() =~= rows@.skip(i as int + 1));
        }
        match rows[i].apply(action, time) {
            Some(found) => {
                return Some(found);
            },
            None => {
                i = i + 1;
            },
        }
    }
    proof {
        assert(rows@.skip(rows@.len() as int).len() == 0);
    }
    None
}

/// The first row of the table that answers the action.
pub open spec fn first_apply(
    rows: Seq<Interactable>,
    action: Interact,
    time: Tickstamp,
) -> Option<InteractionModel>
    decreases rows.len(),
{
    if rows.len() == 0 {
        None
    } else {
        match rows[0].apply_spec(action, time) {
            Some(m) => Some(m),
            None => first_apply(rows.drop_first(), action, time),
        }
    }
}

/// The first of the item's actions that the tile answers.
pub open spec fn first_act(tile: Tile, actions: Seq<Action>, item: Item, time: Tickstamp) -> Option<
    InteractionModel,
>
    decreases actions.len(),
{
    if actions.len() == 0 {
        None
    } else {
        match tile.act_spec(actions[0], item, time) {
            Some(m) => Some(m),
            None => first_act(tile, actions.drop_first(), item, time),
        }
    }
}

/// What a talking structure says: its name, then the acting item's
/// description.
pub open spec fn explain_message(name: Seq<char>, item: Item) -> Seq<char> {
    name + ": "@ + match item.description_spec() {
        Some(d) => d,
        None => "Unknown"@,
    }
}

/// What inspection reports: the ground's description, then the structure's.
pub open spec fn inspect_message(tile: Tile) -> Seq<char> {
    (match tile.ground.describe_spec() {
        Some(d) => d,
        None => Seq::empty(),
    }) + "  --  "@ + (match tile.structure.description_spec() {
        Some(d) => d,
        None => Seq::empty(),
    })
}

/// Whether a cost list holds a stack of `item`.
pub open spec fn has_cost(s: Seq<(Item, u32)>, item: Item) -> bool {
    exists|i: int| 0 <= i < s.len() && (#[trigger] s[i]).0 == item
}

/// The index of the first stack of `item` in a cost list.
pub open spec fn cost_idx(s: Seq<(Item, u32)>, item: Item) -> int
    decreases s.len(),
{
    if s.len() == 0 {
        0
    } else if s[0].0 == item {
        0
    } else {
        1 + cost_idx(s.drop_first(), item)
    }
}

/// A cost list with one more of `item`: its stack grows, or a new stack of
/// one is appended.
pub open spec fn add_cost_spec(s: Seq<(Item, u32)>, item: Item) -> Seq<(Item, u32)> {
    if has_cost(s, item) {
        let i = cost_idx(s, item);
        s.update(i, (item, (s[i].1 + 1) as u32))
    } else {
        s.push((item, 1u32))
    }
}

/// A row's own application never charges a cost.
proof fn lemma_first_apply_cost(rows: Seq<Interactable>, action: Interact, time: Tickstamp)
    ensures
        match first_apply(rows, action, time) {
            Some(m) => m.cost == Seq::<(Item, u32)>::empty(),
            None => true,
        },
    decreases rows.len(),
{
    if rows.len() > 0 {
        match rows[0].apply_spec(action, time) {
            Some(_) => {},
            None => {
                lemma_first_apply_cost(rows.drop_first(), action, time);
            },
        }
    }
}

/// The first index of a stacked item is in bounds and carries it.
proof fn lemma_cost_idx_valid(s: Seq<(Item, u32)>, item: Item)
    requires
        has_cost(s, item),
    ensures
        0 <= cost_idx(s, item) < s.len(),
        s[cost_idx(s, item)].0 == item,
    decreases s.len(),
{
    if s.len() > 0 && s[0].0 != item {
        assert(forall|j: int|
            0 <= j < s.drop_first().len() ==> (#[trigger] s.drop_first()[j]) == s[j + 1]);
        assert(has_cost(s.drop_first(), item)) by {
            let i = choose|i: int| 0 <= i < s.len() && (#[trigger] s[i]).0 == item;
            assert(s.drop_first()[i - 1] == s[i]);
            assert((#[trigger] s.drop_first()[i - 1]).0 == item);
        }
        lemma_cost_idx_valid(s.drop_first(), item);
    }
}

/// Adding one of an item to a cost list with unique lines keeps them unique.
proof fn lemma_add_cost_wf(s: Seq<(Item, u32)>, item: Item)
    requires
        crate::inventory::cost_wf(s),
    ensures
        crate::inventory::cost_wf(add_cost_spec(s, item)),
{
    let out = add_cost_spec(s, item);
    if has_cost(s, item) {
        lemma_cost_idx_valid(s, item);
        assert forall|i: int, j: int| 0 <= i < j < out.len() implies (#[trigger] out[i]).0 != (
        #[trigger] out[j]).0 by {
            let ci = cost_idx(s, item);
            if i != ci && j != ci {
                assert(out[i] == s[i]);
                assert(out[j] == s[j]);
            } else if i == ci {
                assert(out[j] == s[j]);
                assert(s[ci].0 == item);
            } else {
                assert(out[i] == s[i]);
                assert(s[ci].0 == item);
            }
        }
    } else {
        assert forall|i: int, j: int| 0 <= i < j < out.len() implies (#[trigger] out[i]).0 != (
        #[trigger] out[j]).0 by {
            if j < s.len() {
                assert(out[i] == s[i]);
                assert(out[j] == s[j]);
            } else {
                assert(out[i] == s[i]);
                assert((#[trigger] s[i]).0 == out[i].0);
            }
        }
    }
}

/// When entry `i` holds `item` and no earlier entry does, `i` is the first.
proof fn lemma_cost_idx(s: Seq<(Item, u32)>, item: Item, i: int)
    requires
        0 <= i < s.len(),
        s[i].0 == item,
        forall|j: int| 0 <= j < i ==> (#[trigger] s[j]).0 != item,
    ensures
        cost_idx(s, item) == i,
    decreases s.len(),
{
    if s[0].0 == item {
        assert(i == 0);
    } else {
        assert(s.drop_first()[i - 1] == s[i]);
        assert(forall|j: int| 0 <= j < i - 1 ==> (#[trigger] s.drop_first()[j]).0 == s[j + 1].0);
        lemma_cost_idx(s.drop_first(), item, i - 1);
    }
}

/// Adds one of `item` to a cost list in place.
fn add_one_cost(cost: &mut Vec<(Item, u32)>, item: Item)
    requires
        forall|i: int| 0 <= i < old(cost)@.len() ==> (#[trigger] old(cost)@[i]).1 < u32::MAX,
    ensures
        final(cost)@ == add_cost_spec(old(cost)@, item),
{
    let n = cost.len();
    let mut i: usize = 0;
    while i < n
        invariant
            0 <= i <= n,
            n == cost@.len(),
            cost@ == old(cost)@,
            forall|j: int| 0 <= j < old(cost)@.len() ==> (#[trigger] old(cost)@[j]).1 < u32::MAX,
            forall|j: int| 0 <= j < i ==> (#[trigger] cost@[j]).0 != item,
        decreases n - i,
    {
        let (entry_item, count) = cost[i];
        if entry_item == item {
            proof {
                lemma_cost_idx(old(cost)@, item, i as int);
                assert((#[trigger] old(cost)@[i as int]).0 == item);
                assert(has_cost(old(cost)@, item));
            }
            cost.set(i, (item, count + 1));
            return ;
        }
        i = i + 1;
    }
    proof {
        assert(!has_cost(old(cost)@, item));
    }
    cost.push((item, 1));
}

} // verus!
