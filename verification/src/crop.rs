//! The crop state machine: staged growth gated on watering, fertilized
//! shoots that spread, and inosculation of compatible shoots.

use vstd::prelude::*;
use vstd::string::StringExecFns;
use crate::action::{Interactable, InteractionType};
use crate::sprite::Sprite;
use crate::tile::Structure;

verus! {

/// Set when the crop has been watered; required for any growth.
pub const WATERED: u8 = 0x80;

/// Set when the crop has been fertilized; enables shoot spreading.
pub const FERTILIZED: u8 = 0x40;

/// The species and stage of a planted crop.
#[derive(Debug, Clone, Copy, PartialEq, Eq, Hash, Structural)]
pub enum CropType {
    GreenSeed,
    GreenSeedling,
    YoungLeafPlant,
    LeafPlant,
    LeafShoot,
    YellowSeed,
    YellowSeedling,
    YoungKnifePlant,
    KnifePlant,
    KnifeShoot,
    BrownSeed,
    BrownSeedling,
    YoungHardPlant,
    HardPlant,
    HardShoot,
    HardKnifePlant,
    HardDiscPlant,
    SawPlant,
}

impl CropType {
    pub open spec fn sprite_spec(self) -> Sprite {
        match self {
            CropType::GreenSeed => Sprite::PlantedSeed,
            CropType::GreenSeedling => Sprite::Seedling,
            CropType::YoungLeafPlant => Sprite::YoungLeafPlant,
            CropType::LeafPlant => Sprite::LeafPlant,
            CropType::LeafShoot => Sprite::LeafPlant,
            CropType::YellowSeed => Sprite::PlantedSeed,
            CropType::YellowSeedling => Sprite::Seedling,
            CropType::YoungKnifePlant => Sprite::YoungKnifePlant,
            CropType::KnifePlant => Sprite::KnifePlant,
            CropType::KnifeShoot => Sprite::KnifePlant,
            CropType::BrownSeed => Sprite::PlantedSeed,
            CropType::BrownSeedling => Sprite::Seedling,
            CropType::YoungHardPlant => Sprite::YoungHardPlant,
            CropType::HardPlant => Sprite::HardPlant,
            CropType::HardShoot => Sprite::HardPlant,
            CropType::HardKnifePlant => Sprite::HardKnifePlant,
            CropType::HardDiscPlant => Sprite::HardDiscPlant,
            CropType::SawPlant => Sprite::SawPlant,
        }
    }

    pub fn sprite(self) -> (r: Sprite)
        ensures
            r == self.sprite_spec(),
    {
        match self {
            CropType::GreenSeed => Sprite::PlantedSeed,
            CropType::GreenSeedling => Sprite::Seedling,
            CropType::YoungLeafPlant => Sprite::YoungLeafPlant,
            CropType::LeafPlant => Sprite::LeafPlant,
            CropType::LeafShoot => Sprite::LeafPlant,
            CropType::YellowSeed => Sprite::PlantedSeed,
            CropType::YellowSeedling => Sprite::Seedling,
            CropType::YoungKnifePlant => Sprite::YoungKnifePlant,
            CropType::KnifePlant => Sprite::KnifePlant,
            CropType::KnifeShoot => Sprite::KnifePlant,
            CropType::BrownSeed => Sprite::PlantedSeed,
            CropType::BrownSeedling => Sprite::Seedling,
            CropType::YoungHardPlant => Sprite::YoungHardPlant,
            CropType::HardPlant => Sprite::HardPlant,
            CropType::HardShoot => Sprite::HardPlant,
            CropType::HardKnifePlant => Sprite::HardKnifePlant,
            CropType::HardDiscPlant => Sprite::HardDiscPlant,
            CropType::SawPlant => Sprite::SawPlant,
        }
    }

    /// The next stage of the same crop, with the number of growth steps it
    /// takes, while the plant keeps growing as a crop.
    pub open spec fn next_spec(self) -> Option<(i64, CropType)> {
        match self {
            CropType::GreenSeed => Some((1int as i64, CropType::GreenSeedling)),
            CropType::GreenSeedling => Some((1int as i64, CropType::YoungLeafPlant)),
            CropType::YoungLeafPlant => Some((1int as i64, CropType::LeafPlant)),
            CropType::YellowSeed => Some((1int as i64, CropType::YellowSeedling)),
            CropType::YellowSeedling => Some((1int as i64, CropType::YoungKnifePlant)),
            CropType::YoungKnifePlant => Some((1int as i64, CropType::KnifePlant)),
            CropType::BrownSeed => Some((1int as i64, CropType::BrownSeedling)),
            CropType::BrownSeedling => Some((1int as i64, CropType::YoungHardPlant)),
            CropType::YoungHardPlant => Some((1int as i64, CropType::HardPlant)),
            _ => None,
        }
    }

    pub fn next(self) -> (r: Option<(i64, CropType)>)
        ensures
            r == self.next_spec(),
    {
        match self {
            CropType::GreenSeed => Some((1, CropType::GreenSeedling)),
            CropType::GreenSeedling => Some((1, CropType::YoungLeafPlant)),
            CropType::YoungLeafPlant => Some((1, CropType::LeafPlant)),
            CropType::YellowSeed => Some((1, CropType::YellowSeedling)),
            CropType::YellowSeedling => Some((1, CropType::YoungKnifePlant)),
            CropType::YoungKnifePlant => Some((1, CropType::KnifePlant)),
            CropType::BrownSeed => Some((1, CropType::BrownSeedling)),
            CropType::BrownSeedling => Some((1, CropType::YoungHardPlant)),
            CropType::YoungHardPlant => Some((1, CropType::HardPlant)),
            _ => None,
        }
    }

    /// The structure a mature plant turns into, when it leaves the crop
    /// state machine.
    pub open spec fn grow_spec(self) -> Option<(i64, Structure)> {
        match self {
            CropType::LeafPlant => Some((1int as i64, Structure::SeedingDiscLeaf)),
            CropType::LeafShoot => Some((1int as i64, Structure::DiscLeaf)),
            CropType::KnifePlant => Some((1int as i64, Structure::SeedingKnifeLeaf)),
            CropType::KnifeShoot => Some((1int as i64, Structure::KnifeLeaf)),
            CropType::HardPlant => Some((1int as i64, Structure::SeedingHardwood)),
            CropType::HardShoot => Some((1int as i64, Structure::HardwoodStick)),
            CropType::HardKnifePlant => Some((1int as i64, Structure::HardwoodKnife)),
            CropType::HardDiscPlant => Some((1int as i64, Structure::HardwoodTable)),
            CropType::SawPlant => Some((1int as i64, Structure::SawBlade)),
            _ => None,
        }
    }

    pub fn grow(self) -> (r: Option<(i64, Structure)>)
        ensures
            r == self.grow_spec(),
    {
        match self {
            CropType::LeafPlant => Some((1, Structure::SeedingDiscLeaf)),
            CropType::LeafShoot => Some((1, Structure::DiscLeaf)),
            CropType::KnifePlant => Some((1, Structure::SeedingKnifeLeaf)),
            CropType::KnifeShoot => Some((1, Structure::KnifeLeaf)),
            CropType::HardPlant => Some((1, Structure::SeedingHardwood)),
            CropType::HardShoot => Some((1, Structure::HardwoodStick)),
            CropType::HardKnifePlant => Some((1, Structure::HardwoodKnife)),
            CropType::HardDiscPlant => Some((1, Structure::HardwoodTable)),
            CropType::SawPlant => Some((1, Structure::SawBlade)),
            _ => None,
        }
    }

    /// The shoot species a fertilized plant spreads to its neighbours.
    pub open spec fn fertilized_grow_spec(self) -> Option<CropType> {
        match self {
            CropType::YoungLeafPlant => Some(CropType::LeafShoot),
            CropType::LeafPlant => Some(CropType::LeafShoot),
            CropType::YoungKnifePlant => Some(CropType::KnifeShoot),
            CropType::KnifePlant => Some(CropType::KnifeShoot),
            CropType::YoungHardPlant => Some(CropType::HardShoot),
            CropType::HardPlant => Some(CropType::HardShoot),
            _ => None,
        }
    }

    pub fn fertilized_grow(self) -> (r: Option<CropType>)
        ensures
            r == self.fertilized_grow_spec(),
    {
        match self {
            CropType::YoungLeafPlant => Some(CropType::LeafShoot),
            CropType::LeafPlant => Some(CropType::LeafShoot),
            CropType::YoungKnifePlant => Some(CropType::KnifeShoot),
            CropType::KnifePlant => Some(CropType::KnifeShoot),
            CropType::YoungHardPlant => Some(CropType::HardShoot),
            CropType::HardPlant => Some(CropType::HardShoot),
            _ => None,
        }
    }

    pub open spec fn describe_spec(self) -> Seq<char> {
        match self {
            CropType::GreenSeed => "Planted seed"@,
            CropType::GreenSeedling => "Seedling"@,
            CropType::YoungLeafPlant => "A small plant with big round leaves"@,
            CropType::LeafPlant => "A plant with big round leaves"@,
            CropType::LeafShoot => "A shoot of a plant with big round leaves"@,
            CropType::YellowSeed => "Planted seed"@,
            CropType::YellowSeedling => "Seedling"@,
            CropType::YoungKnifePlant => "A small plant with sharp leaves"@,
            CropType::KnifePlant => "A plant with sharp leaves"@,
            CropType::KnifeShoot => "A shoot of a plant with sharp leaves"@,
            CropType::BrownSeed => "Planted seed"@,
            CropType::BrownSeedling => "Seedling"@,
            CropType::YoungHardPlant => "A small plant with a hard stem"@,
            CropType::HardPlant => "Plant with a very hard stem"@,
            CropType::HardShoot => "A shoot of a plant with hard branches"@,
            CropType::HardKnifePlant =>
                "A shoot of a hardwood plant inosculated with a shoot of a knife plant"@,
            CropType::HardDiscPlant =>
                "A shoot of a hardwood plant inosculated with a shoot of a disc plant"@,
            CropType::SawPlant =>
                "A shoot of a knife plant inosculated with a shoot of a disc plant"@,
        }
    }

    pub fn describe(self) -> (r: &'static str)
        ensures
            r@ == self.describe_spec(),
    {
        match self {
            CropType::GreenSeed => "Planted seed",
            CropType::GreenSeedling => "Seedling",
            CropType::YoungLeafPlant => "A small plant with big round leaves",
            CropType::LeafPlant => "A plant with big round leaves",
            CropType::LeafShoot => "A shoot of a plant with big round leaves",
            CropType::YellowSeed => "Planted seed",
            CropType::YellowSeedling => "Seedling",
            CropType::YoungKnifePlant => "A small plant with sharp leaves",
            CropType::KnifePlant => "A plant with sharp leaves",
            CropType::KnifeShoot => "A shoot of a plant with sharp leaves",
            CropType::BrownSeed => "Planted seed",
            CropType::BrownSeedling => "Seedling",
            CropType::YoungHardPlant => "A small plant with a hard stem",
            CropType::HardPlant => "Plant with a very hard stem",
            CropType::HardShoot => "A shoot of a plant with hard branches",
            CropType::HardKnifePlant =>
                "A shoot of a hardwood plant inosculated with a shoot of a knife plant",
            CropType::HardDiscPlant =>
                "A shoot of a hardwood plant inosculated with a shoot of a disc plant",
            CropType::SawPlant =>
                "A shoot of a knife plant inosculated with a shoot of a disc plant",
        }
    }

    /// The species this one merges with on contact, and what the merger
    /// becomes.
    pub open spec fn inosculate_spec(self) -> Seq<(CropType, CropType)> {
        match self {
            CropType::HardShoot => seq![
                (CropType::LeafShoot, CropType::HardDiscPlant),
                (CropType::KnifeShoot, CropType::HardKnifePlant),
            ],
            _ => Seq::empty(),
        }
    }

    pub fn inosculate(self) -> (r: Vec<(CropType, CropType)>)
        ensures
            r@ =~= self.inosculate_spec(),
    {
        match self {
            CropType::HardShoot => vec![
                (CropType::LeafShoot, CropType::HardDiscPlant),
                (CropType::KnifeShoot, CropType::HardKnifePlant),
            ],
            _ => Vec::new(),
        }
    }
}

/// A planted crop: its species and stage, plus the watered and fertilized
/// flags. Flags are reset on every stage transition.
#[derive(Debug, Clone, Copy, PartialEq, Eq, Hash, Structural)]
pub struct Crop {
    pub typ: CropType,
    pub flags: u8,
}

impl Crop {
    pub open spec fn new_spec(typ: CropType) -> Crop {
        Crop { typ, flags: 0u8 }
    }

    pub open spec fn is_watered(self) -> bool {
        self.flags & WATERED != 0
    }

    pub open spec fn is_fertilized(self) -> bool {
        self.flags & FERTILIZED != 0
    }

    pub open spec fn water_spec(self) -> Crop {
        Crop { typ: self.typ, flags: self.flags | WATERED }
    }

    pub open spec fn fertilize_spec(self) -> Crop {
        Crop { typ: self.typ, flags: self.flags | FERTILIZED }
    }

    /// The interactions a crop answers: its species' own, plus watering when
    /// dry, plus fertilizing when the species can spread and has not been
    /// fertilized yet.
    pub open spec fn all_interactions_spec(self) -> Seq<Interactable> {
        let base = Seq::<Interactable>::empty();
        let with_water = if !self.is_watered() {
            base.push(
                Interactable {
                    action_type: InteractionType::Water,
                    min_level: 1u32,
                    odds_first: crate::action::ODDS_CERTAIN,
                    odds_rest: crate::action::ODDS_CERTAIN,
                    remains: Some(Structure::Crop(self.water_spec())),
                    loot: None,
                },
            )
        } else {
            base
        };
        if !self.is_fertilized() && self.typ.fertilized_grow_spec() is Some {
            with_water.push(
                Interactable {
                    action_type: InteractionType::Fertilize,
                    min_level: 1u32,
                    odds_first: crate::action::ODDS_CERTAIN,
                    odds_rest: crate::action::ODDS_CERTAIN,
                    remains: Some(Structure::Crop(self.fertilize_spec())),
                    loot: None,
                },
            )
        } else {
            with_water
        }
    }

    pub fn all_interactions(&self) -> (r: Vec<Interactable>)
        ensures
            r@ =~= self.all_interactions_spec(),
    {
        let mut interactions: Vec<Interactable> = Vec::new();
        if self.flags & WATERED == 0 {
            interactions.push(
                Interactable::transform(
                    InteractionType::Water,
                    1,
                    Structure::Crop(self.water()),
                ),
            );
        }
        if self.flags & FERTILIZED == 0 && self.typ.fertilized_grow().is_some() {
            interactions.push(
                Interactable::transform(
                    InteractionType::Fertilize,
                    1,
                    Structure::Crop(self.fertilize()),
                ),
            );
        }
        interactions
    }

    pub fn water(&self) -> (r: Crop)
        ensures
            r == self.water_spec(),
    {
        Crop { typ: self.typ, flags: self.flags | WATERED }
    }

    pub fn fertilize(&self) -> (r: Crop)
        ensures
            r == self.fertilize_spec(),
    {
        Crop { typ: self.typ, flags: self.flags | FERTILIZED }
    }

    /// What this crop grows into, if anything: the number of growth steps,
    /// the structure that replaces this one, and the shoot it spreads to its
    /// neighbours. Dry crops do not grow.
    pub open spec fn grow_spec(self) -> Option<(i64, Structure, Option<Structure>)> {
        if !self.is_watered() {
            None
        } else {
            let shoot = if self.is_fertilized() {
                match self.typ.fertilized_grow_spec() {
                    Some(typ) => Some(Structure::Crop(Crop::new_spec(typ))),
                    None => None,
                }
            } else {
                None
            };
            match self.typ.next_spec() {
                Some((steps, typ)) => Some(
                    (steps, Structure::Crop(Crop::new_spec(typ)), shoot),
                ),
                None => match self.typ.grow_spec() {
                    Some((steps, structure)) => Some((steps, structure, shoot)),
                    None => None,
                },
            }
        }
    }

    pub fn grow(&self) -> (r: Option<(i64, Structure, Option<Structure>)>)
        ensures
            r == self.grow_spec(),
    {
        if self.flags & WATERED == 0 {
            return None;
        }
        let shoot: Option<Structure> = if self.flags & FERTILIZED != 0 {
            match self.typ.fertilized_grow() {
                Some(typ) => Some(Structure::Crop(Crop { typ, flags: 0 })),
                None => None,
            }
        } else {
            None
        };
        if let Some((steps, typ)) = self.typ.next() {
            Some((steps, Structure::Crop(Crop { typ, flags: 0 }), shoot))
        } else if let Some((steps, structure)) = self.typ.grow() {
            Some((steps, structure, shoot))
        } else {
            None
        }
    }

    /// The inosculation product with `other`, if the two are compatible
    /// shoots.
    pub open spec fn join_spec(self, other: Structure) -> Option<Structure> {
        match other {
            Structure::Crop(crop) => {
                let table = self.typ.inosculate_spec();
                if exists|i: int| 0 <= i < table.len() && (#[trigger] table[i]).0 == crop.typ {
                    Some(Structure::Crop(Crop::new_spec(table[first_match(table, crop.typ)].1)))
                } else {
                    None
                }
            },
            _ => None,
        }
    }

    pub fn join(&self, other: Structure) -> (r: Option<Structure>)
        ensures
            r == self.join_spec(other),
    {
        if let Structure::Crop(crop) = other {
            let table = self.typ.inosculate();
            let mut i: usize = 0;
            while i < table.len()
                invariant
                    0 <= i <= table@.len(),
                    table@ == self.typ.inosculate_spec(),
                    other == Structure::Crop(crop),
                    forall|j: int| 0 <= j < i ==> (#[trigger] table@[j]).0 != crop.typ,
                decreases table@.len() - i,
            {
                let (with, product) = table[i];
                if with == crop.typ {
                    proof {
                        lemma_first_match(table@, crop.typ, i as int);
                        assert((#[trigger] table@[i as int]).0 == crop.typ);
                        assert(exists|k: int|
                            0 <= k < table@.len() && (#[trigger] table@[k]).0 == crop.typ);
                    }
                    return Some(Structure::Crop(Crop { typ: product, flags: 0 }));
                }
                i = i + 1;
            }
            proof {
                assert(!exists|k: int|
                    0 <= k < table@.len() && (#[trigger] table@[k]).0 == crop.typ);
            }
            None
        } else {
            None
        }
    }

    pub fn sprite(&self) -> (r: Sprite)
        ensures
            r == self.typ.sprite_spec(),
    {
        self.typ.sprite()
    }

    /// The crop's description, with what it still needs appended.
    pub open spec fn description_spec(self) -> Seq<char> {
        let base = self.typ.describe_spec();
        let with_water = if !self.is_watered() {
            base + ". Needs water"@
        } else {
            base
        };
        if !self.is_fertilized() && self.typ.fertilized_grow_spec() is Some {
            with_water + ". Can be fertilized"@
        } else {
            with_water
        }
    }

    pub fn description(&self) -> (r: String)
        ensures
            r@ == self.description_spec(),
    {
        let mut description: String = self.typ.describe().to_owned();
        if self.flags & WATERED == 0 {
            description.append(". Needs water");
        }
        if self.flags & FERTILIZED == 0 && self.typ.fertilized_grow().is_some() {
            description.append(". Can be fertilized");
        }
        description
    }

    pub open spec fn greenseed_spec() -> Crop {
        Crop::new_spec(CropType::GreenSeed)
    }

    pub open spec fn yellowseed_spec() -> Crop {
        Crop::new_spec(CropType::YellowSeed)
    }

    pub open spec fn brownseed_spec() -> Crop {
        Crop::new_spec(CropType::BrownSeed)
    }

    /// A freshly planted green seed.
    pub fn greenseed() -> (r: Crop)
        ensures
            r == Crop::greenseed_spec(),
    {
        Crop { typ: CropType::GreenSeed, flags: 0 }
    }

    /// A freshly planted yellow seed.
    pub fn yellowseed() -> (r: Crop)
        ensures
            r == Crop::yellowseed_spec(),
    {
        Crop { typ: CropType::YellowSeed, flags: 0 }
    }

    /// A freshly planted brown seed.
    pub fn brownseed() -> (r: Crop)
        ensures
            r == Crop::brownseed_spec(),
    {
        Crop { typ: CropType::BrownSeed, flags: 0 }
    }
}

/// The index of the first entry of `table` whose left species is `typ`.
pub open spec fn first_match(table: Seq<(CropType, CropType)>, typ: CropType) -> int
    decreases table.len(),
{
    if table.len() == 0 {
        0
    } else if table[0].0 == typ {
        0
    } else {
        1 + first_match(table.drop_first(), typ)
    }
}

/// When entry `i` matches and no earlier entry does, `i` is the first match.
pub proof fn lemma_first_match(table: Seq<(CropType, CropType)>, typ: CropType, i: int)
    requires
        0 <= i < table.len(),
        table[i].0 == typ,
        forall|j: int| 0 <= j < i ==> (#[trigger] table[j]).0 != typ,
    ensures
        first_match(table, typ) == i,
    decreases table.len(),
{
    if table[0].0 == typ {
        assert(i == 0);
    } else {
        assert(table.drop_first()[i - 1] == table[i]);
        assert(forall|j: int|
            0 <= j < i - 1 ==> (#[trigger] table.drop_first()[j]).0 == table[j + 1].0);
        lemma_first_match(table.drop_first(), typ, i - 1);
    }
}

} // verus!
