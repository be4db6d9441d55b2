//! Opaque sprite identifiers handed to clients for rendering.

use vstd::prelude::*;

verus! {

#[derive(Debug, Clone, Copy, PartialEq, Eq, Hash, Structural)]
pub enum Sprite {
    PlayerDefault,
    Sage,
    Dirt,
    Grass1,
    Grass2,
    Grass3,
    StoneFloor,
    WoodFloor,
    RockFloor,
    Gravel,
    DenseGrass,
    Heather,
    Shrub,
    Bush,
    Sanctuary,
    Water,
    Wall,
    WoodWall,
    Rock,
    RockMid,
    Sapling,
    YoungTree,
    Tree,
    OldTree,
    OldTreeTinder,
    Stone,
    Pebble,
    Flower,
    Reed,
    Rush,
    Lilypad,
    Moss,
    DeadLeaves,
    PitcherPlant,
    Fireplace,
    Fire,
    AshPlace,
    MarkStone,
    Altar,
    WorkTable,
    PlantedSeed,
    Seedling,
    YoungLeafPlant,
    LeafPlant,
    YoungKnifePlant,
    KnifePlant,
    YoungHardPlant,
    HardPlant,
    HardKnifePlant,
    HardDiscPlant,
    SawPlant,
    SeedingHardwood,
    SeedingDiscLeaf,
    SeedingKnifeLeaf,
    DiscLeaf,
    KnifeLeaf,
    HardwoodStick,
    HardwoodKnife,
    HardwoodTable,
    SawTable,
    SawBlade,
    Stick,
}

impl Sprite {
    /// The wire name of the sprite, as clients know it.
    pub fn name(self) -> (r: &'static str) {
        match self {
            Sprite::PlayerDefault => "player",
            Sprite::Sage => "sage",
            Sprite::Dirt => "dirt",
            Sprite::Grass1 => "grass1",
            Sprite::Grass2 => "grass2",
            Sprite::Grass3 => "grass3",
            Sprite::StoneFloor => "stonefloor",
            Sprite::WoodFloor => "woodfloor",
            Sprite::RockFloor => "rockfloor",
            Sprite::Gravel => "gravel",
            Sprite::DenseGrass => "densegrass",
            Sprite::Heather => "heather",
            Sprite::Shrub => "shrub",
            Sprite::Bush => "bush",
            Sprite::Sanctuary => "sanctuary",
            Sprite::Water => "water",
            Sprite::Wall => "wall",
            Sprite::WoodWall => "woodwall",
            Sprite::Rock => "rock",
            Sprite::RockMid => "rockmid",
            Sprite::Sapling => "sapling",
            Sprite::YoungTree => "youngtree",
            Sprite::Tree => "tree",
            Sprite::OldTree => "oldtree",
            Sprite::OldTreeTinder => "oldtreetinder",
            Sprite::Stone => "stone",
            Sprite::Pebble => "pebble",
            Sprite::Flower => "flower",
            Sprite::Reed => "reed",
            Sprite::Rush => "rush",
            Sprite::Lilypad => "lilypad",
            Sprite::Moss => "moss",
            Sprite::DeadLeaves => "deadleaves",
            Sprite::PitcherPlant => "pitcherplant",
            Sprite::Fireplace => "fireplace",
            Sprite::Fire => "fire",
            Sprite::AshPlace => "ashplace",
            Sprite::MarkStone => "markstone",
            Sprite::Altar => "altar",
            Sprite::WorkTable => "worktable",
            Sprite::PlantedSeed => "plantedseed",
            Sprite::Seedling => "seedling",
            Sprite::YoungLeafPlant => "youngleafplant",
            Sprite::LeafPlant => "leafplant",
            Sprite::YoungKnifePlant => "youngknifeplant",
            Sprite::KnifePlant => "knifeplant",
            Sprite::YoungHardPlant => "younghardplant",
            Sprite::HardPlant => "hardplant",
            Sprite::HardKnifePlant => "hardknifeplant",
            Sprite::HardDiscPlant => "harddiscplant",
            Sprite::SawPlant => "sawplant",
            Sprite::SeedingHardwood => "seedinghardwood",
            Sprite::SeedingDiscLeaf => "seedingdiscleaf",
            Sprite::SeedingKnifeLeaf => "seedingknifeleaf",
            Sprite::DiscLeaf => "discleaf",
            Sprite::KnifeLeaf => "knifeleaf",
            Sprite::HardwoodStick => "hardwoodstick",
            Sprite::HardwoodKnife => "hardwoodknife",
            Sprite::HardwoodTable => "hardwoodtable",
            Sprite::SawTable => "sawtable",
            Sprite::SawBlade => "sawblade",
            Sprite::Stick => "stick",
        }
    }
}

} // verus!
