//! Actions items can perform, the interaction tables of structures, and the
//! result of one interaction.

use vstd::prelude::*;
use crate::item::Item;
use crate::tile::{Ground, Structure};
use crate::tickstamp::Tickstamp;
use crate::worldmessages::SoundType;
use crate::random::unit_noise;

verus! {

/// Odds and rolls are fractions scaled by 2^16; this value means certainty.
pub const ODDS_CERTAIN: u32 = 0x10000;

/// The seed for loot rolls is the tick seed XORed with this constant.
pub const LOOT_ROLL_SALT: u32 = 84217;

#[derive(Debug, Clone, Copy, PartialEq, Eq, Hash, Structural)]
pub enum InteractionType {
    Take,
    Smash,
    Cut,
    Chop,
    Water,
    Fuel,
    Fertilize,
    BuildSaw,
}

#[derive(Debug, Clone, Copy, PartialEq, Eq, Hash, Structural)]
pub enum CraftType {
    Marker,
    Water,
    GardeningTable,
    SawTable,
}

/// A named resource cost out of the crafting and building tables.
#[derive(Debug, Clone, Copy, PartialEq, Eq, Hash, Structural)]
pub enum Cost {
    /// No resources are consumed.
    Nothing,
    /// A stone and nine flowers, offered for a marker stone.
    MarkerOffering,
    /// Ten pebbles to ring a fireplace.
    FireplacePebbles,
    /// A reed and a sharp stone, lashed to a stick for a hoe.
    HoeParts,
}

impl Cost {
    pub open spec fn list_spec(self) -> Seq<(Item, u32)> {
        match self {
            Cost::Nothing => Seq::empty(),
            Cost::MarkerOffering => seq![(Item::Stone, 1u32), (Item::Flower, 9u32)],
            Cost::FireplacePebbles => seq![(Item::Pebble, 10u32)],
            Cost::HoeParts => seq![(Item::Reed, 1u32), (Item::SharpStone, 1u32)],
        }
    }

    /// The cost as a list of item stacks; each item appears once.
    pub fn list(self) -> (r: Vec<(Item, u32)>)
        ensures
            r@ =~= self.list_spec(),
            forall|i: int| 0 <= i < r@.len() ==> (#[trigger] r@[i]).1 <= 10,
    {
        match self {
            Cost::Nothing => Vec::new(),
            Cost::MarkerOffering => vec![(Item::Stone, 1u32), (Item::Flower, 9u32)],
            Cost::FireplacePebbles => vec![(Item::Pebble, 10u32)],
            Cost::HoeParts => vec![(Item::Reed, 1u32), (Item::SharpStone, 1u32)],
        }
    }
}

/// One attempt at a typed interaction: the acting level, whether the acting
/// item is consumed, and an item always received on success.
#[derive(Debug, Clone, Copy, PartialEq, Eq, Hash, Structural)]
pub struct Interact {
    pub typ: InteractionType,
    pub level: u32,
    pub use_item: bool,
    pub received: Option<Item>,
}

impl Interact {
    /// The always-received items, as a list of zero or one.
    pub open spec fn received_spec(&self) -> Seq<Item> {
        match self.received {
            Some(item) => seq![item],
            None => Seq::empty(),
        }
    }

    pub fn received(&self) -> (r: Vec<Item>)
        ensures
            r@ =~= self.received_spec(),
    {
        match self.received {
            Some(item) => vec![item],
            None => Vec::new(),
        }
    }
}

/// What using an item on a tile can mean.
#[derive(Debug, Clone, Copy, PartialEq, Eq, Hash, Structural)]
pub enum Action {
    Interact(Interact),
    Clear,
    Inspect,
    BuildClaim(Structure),
    Craft(CraftType, Item, Cost),
    Build(Structure, Cost),
}

impl Action {
    /// The bare-hands take action.
    pub fn take() -> (r: Action)
        ensures
            r == Action::take_spec(),
    {
        Action::interact(InteractionType::Take, 0, false)
    }

    pub open spec fn take_spec() -> Action {
        Action::Interact(
            Interact { typ: InteractionType::Take, level: 0u32, use_item: false, received: None },
        )
    }

    pub fn interact(typ: InteractionType, level: u32, use_item: bool) -> (r: Action)
        ensures
            r == (Action::Interact(Interact { typ, level, use_item, received: None })),
    {
        Action::Interact(Interact { typ, level, use_item, received: None })
    }

    /// An interaction that consumes the item and turns it into another.
    pub fn interact_change(typ: InteractionType, level: u32, received: Item) -> (r: Action)
        ensures
            r == (Action::Interact(
                Interact { typ, level, use_item: true, received: Some(received) },
            )),
    {
        Action::Interact(Interact { typ, level, use_item: true, received: Some(received) })
    }
}

/// One row of a structure's interaction table: the action type it answers,
/// the minimum level, success odds by relative level, what the structure
/// becomes and what it yields.
#[derive(Debug, Clone, Copy, PartialEq, Eq, Hash, Structural)]
pub struct Interactable {
    pub action_type: InteractionType,
    pub min_level: u32,
    /// Success odds at exactly the minimum level, scaled by 2^16.
    pub odds_first: u32,
    /// Success odds at any higher level, scaled by 2^16.
    pub odds_rest: u32,
    pub remains: Option<Structure>,
    pub loot: Option<Item>,
}

impl Interactable {
    pub fn new(
        action_type: InteractionType,
        min_level: u32,
        odds_first: u32,
        odds_rest: u32,
        remains: Option<Structure>,
        loot: Option<Item>,
    ) -> (r: Interactable)
        ensures
            r == (Interactable { action_type, min_level, odds_first, odds_rest, remains, loot }),
    {
        Interactable { action_type, min_level, odds_first, odds_rest, remains, loot }
    }

    /// A certain transformation of the structure with no loot.
    pub fn transform(action_type: InteractionType, min_level: u32, into: Structure) -> (r:
        Interactable)
        ensures
            r == (Interactable {
                action_type,
                min_level,
                odds_first: ODDS_CERTAIN,
                odds_rest: ODDS_CERTAIN,
                remains: Some(into),
                loot: None,
            }),
    {
        Interactable::new(action_type, min_level, ODDS_CERTAIN, ODDS_CERTAIN, Some(into), None)
    }

    /// Clearing the structure for loot.
    pub fn harvest(
        action_type: InteractionType,
        min_level: u32,
        odds_first: u32,
        odds_rest: u32,
        loot: Item,
    ) -> (r: Interactable)
        ensures
            r == (Interactable {
                action_type,
                min_level,
                odds_first,
                odds_rest,
                remains: Some(Structure::Air),
                loot: Some(loot),
            }),
    {
        Interactable::new(
            action_type,
            min_level,
            odds_first,
            odds_rest,
            Some(Structure::Air),
            Some(loot),
        )
    }

    /// Picking an item up with certainty.
    pub fn take(loot: Item) -> (r: Interactable)
        ensures
            r == (Interactable {
                action_type: InteractionType::Take,
                min_level: 0u32,
                odds_first: ODDS_CERTAIN,
                odds_rest: ODDS_CERTAIN,
                remains: Some(Structure::Air),
                loot: Some(loot),
            }),
    {
        Interactable::new(
            InteractionType::Take,
            0,
            ODDS_CERTAIN,
            ODDS_CERTAIN,
            Some(Structure::Air),
            Some(loot),
        )
    }

    /// The success odds for an action `rel` levels above the minimum.
    pub open spec fn odds_at(self, rel: int) -> u32 {
        if rel == 0 {
            self.odds_first
        } else {
            self.odds_rest
        }
    }

    /// Whether the loot roll at `time` succeeds against these odds.
    pub open spec fn roll_hits(self, level: u32, time: Tickstamp) -> bool {
        self.odds_at(level - self.min_level) >= unit_noise(
            time.random_seed_spec() ^ LOOT_ROLL_SALT,
        )
    }

    /// What applying `action` at `time` yields, if the row matches.
    pub open spec fn apply_spec(self, action: Interact, time: Tickstamp) -> Option<
        InteractionModel,
    > {
        if self.action_type == action.typ && action.level >= self.min_level {
            Some(
                InteractionModel {
                    remains: self.remains,
                    remains_ground: None,
                    items: action.received_spec() + if self.roll_hits(action.level, time) {
                        loot_seq(self.loot)
                    } else {
                        Seq::empty()
                    },
                    cost: Seq::empty(),
                    message: None,
                    claim: false,
                    build: false,
                },
            )
        } else {
            None
        }
    }

    /// Applies `action` to this row: the row answers matching action types at
    /// sufficient level, yields its loot when the deterministic roll against
    /// its odds succeeds, and always yields the action's received item.
    pub fn apply(&self, action: Interact, time: Tickstamp) -> (r: Option<InteractionResult>)
        ensures
            match r {
                Some(res) => self.apply_spec(action, time) == Some(res@),
                None => self.apply_spec(action, time) is None,
            },
    {
        if self.action_type == action.typ && action.level >= self.min_level {
            let rel: u32 = action.level - self.min_level;
            let odds: u32 = if rel == 0 {
                self.odds_first
            } else {
                self.odds_rest
            };
            let roll: u32 = crate::random::random_unit(time.random_seed() ^ LOOT_ROLL_SALT);
            let mut items: Vec<Item> = action.received();
            if odds >= roll {
                if let Some(loot) = self.loot {
                    items.push(loot);
                }
            }
            proof {
                if self.roll_hits(action.level, time) {
                    assert(items@ =~= action.received_spec() + loot_seq(self.loot));
                } else {
                    assert(items@ =~= action.received_spec() + Seq::<Item>::empty());
                }
            }
            Some(
                InteractionResult {
                    remains: self.remains,
                    remains_ground: None,
                    items,
                    cost: Vec::new(),
                    message: None,
                    claim: false,
                    build: false,
                },
            )
        } else {
            None
        }
    }
}

/// A loot field as a list of zero or one items.
pub open spec fn loot_seq(loot: Option<Item>) -> Seq<Item> {
    match loot {
        Some(item) => seq![item],
        None => Seq::empty(),
    }
}

/// The outcome of one interaction; the world decides whether to apply each
/// field.
#[derive(Debug, Clone)]
pub struct InteractionResult {
    /// What the structure becomes.
    pub remains: Option<Structure>,
    /// What the ground becomes.
    pub remains_ground: Option<Ground>,
    /// Items handed to the acting creature.
    pub items: Vec<Item>,
    /// Item stacks the acting creature must pay; each item appears once.
    pub cost: Vec<(Item, u32)>,
    /// A sound the acting creature hears.
    pub message: Option<(SoundType, String)>,
    /// The world must check claim rules before applying.
    pub claim: bool,
    /// The world must check build permissions before applying.
    pub build: bool,
}

/// The mathematical shape of an interaction result.
pub struct InteractionModel {
    pub remains: Option<Structure>,
    pub remains_ground: Option<Ground>,
    pub items: Seq<Item>,
    pub cost: Seq<(Item, u32)>,
    pub message: Option<(SoundType, Seq<char>)>,
    pub claim: bool,
    pub build: bool,
}

impl View for InteractionResult {
    type V = InteractionModel;

    open spec fn view(&self) -> InteractionModel {
        InteractionModel {
            remains: self.remains,
            remains_ground: self.remains_ground,
            items: self.items@,
            cost: self.cost@,
            message: match self.message {
                Some((sound, ref text)) => Some((sound, text@)),
                None => None,
            },
            claim: self.claim,
            build: self.build,
        }
    }
}

impl InteractionResult {
    /// A result with no effect at all.
    pub fn empty() -> (r: InteractionResult)
        ensures
            r@ == InteractionModel::empty_model(),
    {
        InteractionResult {
            remains: None,
            remains_ground: None,
            items: Vec::new(),
            cost: Vec::new(),
            message: None,
            claim: false,
            build: false,
        }
    }
}

impl InteractionModel {
    pub open spec fn empty_model() -> InteractionModel {
        InteractionModel {
            remains: None,
            remains_ground: None,
            items: Seq::empty(),
            cost: Seq::empty(),
            message: None,
            claim: false,
            build: false,
        }
    }
}

} // verus!
