//! Messages the world sends to each player, and the per-player cache that
//! suppresses unchanged fields.

use vstd::prelude::*;

verus! {

/// The kind of a sound a creature hears; clients render them differently.
#[derive(Debug, Clone, Copy, PartialEq, Eq, Hash, Structural)]
pub enum SoundType {
    BuildError,
    Explain,
}

/// The viewport now anchored for the player.
#[derive(Debug, Clone, Copy, PartialEq, Eq, Structural)]
pub struct ViewAreaMessage {
    pub area: crate::pos::Area,
}

/// A freshly visible strip of the world: for each position of `area` in
/// row-major order, `field` holds an index into `mapping`, the palette of
/// sprite stacks.
#[derive(Debug, Clone)]
pub struct SectionMessage {
    pub field: Vec<usize>,
    pub mapping: Vec<Vec<crate::sprite::Sprite>>,
    pub area: crate::pos::Area,
}

/// The positions whose sprite stacks changed, with the new stacks.
pub type ChangeMessage = Vec<(crate::pos::Pos, Vec<crate::sprite::Sprite>)>;

/// The inventory entries by name and count, and the selector.
pub type InventoryMessage = (Vec<(String, usize)>, usize);

/// The sounds a creature heard this tick.
pub type SoundMessage = Vec<(SoundType, String)>;

/// The visible creatures.
pub type DynamicMessage = Vec<crate::creature::CreatureView>;

/// One bundled tick update for one player; fields equal to the previous
/// tick's are dropped by the cache before sending.
#[derive(Debug)]
pub struct WorldMessage {
    pub pos: Option<crate::vec2::Vec2>,
    pub change: Option<ChangeMessage>,
    pub inventory: Option<InventoryMessage>,
    pub sounds: Option<SoundMessage>,
    pub viewarea: Option<ViewAreaMessage>,
    pub section: Option<SectionMessage>,
    pub dynamics: Option<DynamicMessage>,
}

impl WorldMessage {
    /// A message with every field absent.
    pub fn empty() -> (r: WorldMessage)
        ensures
            r.pos is None,
            r.change is None,
            r.inventory is None,
            r.sounds is None,
            r.viewarea is None,
            r.section is None,
            r.dynamics is None,
    {
        WorldMessage {
            pos: None,
            change: None,
            inventory: None,
            sounds: None,
            viewarea: None,
            section: None,
            dynamics: None,
        }
    }

    /// Whether no field is present.
    pub fn is_empty(&self) -> (r: bool)
        ensures
            r == (self.pos is None && self.change is None && self.inventory is None
                && self.sounds is None && self.viewarea is None && self.section is None
                && self.dynamics is None),
    {
        self.pos.is_none() && self.change.is_none() && self.inventory.is_none()
            && self.sounds.is_none() && self.viewarea.is_none() && self.section.is_none()
            && self.dynamics.is_none()
    }
}

/// The mathematical content of a change message.
pub open spec fn change_view(c: Seq<(crate::pos::Pos, Vec<crate::sprite::Sprite>)>) -> Seq<
    (crate::pos::Pos, Seq<crate::sprite::Sprite>),
> {
    c.map_values(|e: (crate::pos::Pos, Vec<crate::sprite::Sprite>)| (e.0, e.1@))
}

/// The mathematical content of an inventory message.
pub open spec fn inventory_view(v: Seq<(String, usize)>) -> Seq<(Seq<char>, usize)> {
    v.map_values(|e: (String, usize)| (e.0@, e.1))
}

/// The mathematical content of a section message.
pub open spec fn section_view(s: &SectionMessage) -> (
    Seq<usize>,
    Seq<Seq<crate::sprite::Sprite>>,
    crate::pos::Area,
) {
    (s.field@, s.mapping@.map_values(|v: Vec<crate::sprite::Sprite>| v@), s.area)
}

/// Whether two optional fields carry the same content, by the given views.
pub open spec fn same_change(a: &Option<ChangeMessage>, b: &Option<ChangeMessage>) -> bool {
    match (a, b) {
        (Some(x), Some(y)) => change_view(x@) == change_view(y@),
        (None, None) => true,
        _ => false,
    }
}

pub open spec fn same_inventory(a: &Option<InventoryMessage>, b: &Option<InventoryMessage>) -> bool {
    match (a, b) {
        (Some(x), Some(y)) => inventory_view(x.0@) == inventory_view(y.0@) && x.1 == y.1,
        (None, None) => true,
        _ => false,
    }
}

pub open spec fn same_section(a: &Option<SectionMessage>, b: &Option<SectionMessage>) -> bool {
    match (a, b) {
        (Some(x), Some(y)) => x.field@ == y.field@ && x.mapping@.map_values(
            |v: Vec<crate::sprite::Sprite>| v@,
        ) == y.mapping@.map_values(|v: Vec<crate::sprite::Sprite>| v@) && x.area == y.area,
        (None, None) => true,
        _ => false,
    }
}

pub open spec fn same_dynamics(a: &Option<DynamicMessage>, b: &Option<DynamicMessage>) -> bool {
    match (a, b) {
        (Some(x), Some(y)) => x@ == y@,
        (None, None) => true,
        _ => false,
    }
}

pub open spec fn same_pos(a: &Option<crate::vec2::Vec2>, b: &Option<crate::vec2::Vec2>) -> bool {
    a == b
}

pub open spec fn same_viewarea(a: &Option<ViewAreaMessage>, b: &Option<ViewAreaMessage>) -> bool {
    a == b
}

/// The mathematical content of a sound message.
pub open spec fn sound_view(s: Seq<(SoundType, String)>) -> Seq<(SoundType, Seq<char>)> {
    s.map_values(|e: (SoundType, String)| (e.0, e.1@))
}

pub open spec fn same_sounds(a: &Option<SoundMessage>, b: &Option<SoundMessage>) -> bool {
    match (a, b) {
        (Some(x), Some(y)) => sound_view(x@) == sound_view(y@),
        (None, None) => true,
        _ => false,
    }
}

/// Whether two messages carry the same content in every field.
pub open spec fn same_message(a: WorldMessage, b: WorldMessage) -> bool {
    &&& same_pos(&a.pos, &b.pos)
    &&& same_change(&a.change, &b.change)
    &&& same_inventory(&a.inventory, &b.inventory)
    &&& same_sounds(&a.sounds, &b.sounds)
    &&& same_viewarea(&a.viewarea, &b.viewarea)
    &&& same_section(&a.section, &b.section)
    &&& same_dynamics(&a.dynamics, &b.dynamics)
}

/// `m1` is `m0` with every non-event field whose content equals the
/// previous message's dropped; sounds are events and are kept.
pub open spec fn trimmed(m0: WorldMessage, m1: WorldMessage, prev: WorldMessage) -> bool {
    &&& m1.sounds == m0.sounds
    &&& m1.pos == (if same_pos(&m0.pos, &prev.pos) {
        None
    } else {
        m0.pos
    })
    &&& m1.viewarea == (if same_viewarea(&m0.viewarea, &prev.viewarea) {
        None
    } else {
        m0.viewarea
    })
    &&& (m1.change is None) == (same_change(&m0.change, &prev.change) || m0.change is None)
    &&& (m1.change is Some ==> m1.change == m0.change)
    &&& (m1.inventory is None) == (same_inventory(&m0.inventory, &prev.inventory)
        || m0.inventory is None)
    &&& (m1.inventory is Some ==> m1.inventory == m0.inventory)
    &&& (m1.section is None) == (same_section(&m0.section, &prev.section) || m0.section is None)
    &&& (m1.section is Some ==> m1.section == m0.section)
    &&& (m1.dynamics is None) == (same_dynamics(&m0.dynamics, &prev.dynamics)
        || m0.dynamics is None)
    &&& (m1.dynamics is Some ==> m1.dynamics == m0.dynamics)
}

/// `c1` is the cache entry `c0` with every field present in `m` replaced by
/// a copy of `m`'s content.
pub open spec fn merged(c0: WorldMessage, c1: WorldMessage, m: WorldMessage) -> bool {
    &&& c1.pos == (if m.pos is Some {
        m.pos
    } else {
        c0.pos
    })
    &&& (m.change is Some ==> same_change(&c1.change, &m.change))
    &&& (m.change is None ==> c1.change == c0.change)
    &&& (m.inventory is Some ==> same_inventory(&c1.inventory, &m.inventory))
    &&& (m.inventory is None ==> c1.inventory == c0.inventory)
    &&& (m.sounds is Some ==> same_sounds(&c1.sounds, &m.sounds))
    &&& (m.sounds is None ==> c1.sounds == c0.sounds)
    &&& c1.viewarea == (if m.viewarea is Some {
        m.viewarea
    } else {
        c0.viewarea
    })
    &&& (m.section is Some ==> same_section(&c1.section, &m.section))
    &&& (m.section is None ==> c1.section == c0.section)
    &&& (m.dynamics is Some ==> same_dynamics(&c1.dynamics, &m.dynamics))
    &&& (m.dynamics is None ==> c1.dynamics == c0.dynamics)
}

/// Whether some cache entry belongs to the player named `p`.
pub open spec fn has_cached(s: Seq<(crate::player::PlayerId, WorldMessage)>, p: Seq<char>) -> bool {
    exists|i: int| 0 <= i < s.len() && (#[trigger] s[i]).0@ == p
}

/// The index of the first cache entry of the player named `p`.
pub open spec fn cache_idx(s: Seq<(crate::player::PlayerId, WorldMessage)>, p: Seq<char>) -> int
    decreases s.len(),
{
    if s.len() == 0 {
        0
    } else if s[0].0@ == p {
        0
    } else {
        1 + cache_idx(s.drop_first(), p)
    }
}

/// When the player has an entry, `cache_idx` is in bounds, matches, and no
/// earlier entry matches.
pub proof fn lemma_cache_idx_valid(s: Seq<(crate::player::PlayerId, WorldMessage)>, p: Seq<char>)
    requires
        has_cached(s, p),
    ensures
        0 <= cache_idx(s, p) < s.len(),
        s[cache_idx(s, p)].0@ == p,
        forall|j: int| 0 <= j < cache_idx(s, p) ==> (#[trigger] s[j]).0@ != p,
    decreases s.len(),
{
    if s[0].0@ == p {
    } else {
        assert(has_cached(s.drop_first(), p)) by {
            let i = choose|i: int| 0 <= i < s.len() && (#[trigger] s[i]).0@ == p;
            assert(s.drop_first()[i - 1].0@ == p);
        }
        lemma_cache_idx_valid(s.drop_first(), p);
        assert(forall|j: int|
            0 < j < cache_idx(s, p) ==> (#[trigger] s[j]).0@ == s.drop_first()[j - 1].0@);
    }
}

impl WorldMessage {
    /// Drops every non-event field that carries the same content as the
    /// previous message; sounds are events and are always kept.
    pub fn remove_old(&mut self, previous: &WorldMessage)
        ensures
            trimmed(*old(self), *final(self), *previous),
    {
        if opt_pos_eq(&self.pos, &previous.pos) {
            self.pos = None;
        }
        if opt_change_eq(&self.change, &previous.change) {
            self.change = None;
        }
        if opt_inventory_eq(&self.inventory, &previous.inventory) {
            self.inventory = None;
        }
        if opt_viewarea_eq(&self.viewarea, &previous.viewarea) {
            self.viewarea = None;
        }
        if opt_section_eq(&self.section, &previous.section) {
            self.section = None;
        }
        if opt_dynamics_eq(&self.dynamics, &previous.dynamics) {
            self.dynamics = None;
        }
    }
}

fn opt_pos_eq(a: &Option<crate::vec2::Vec2>, b: &Option<crate::vec2::Vec2>) -> (r: bool)
    ensures
        r == same_pos(a, b),
{
    match (a, b) {
        (Some(x), Some(y)) => *x == *y,
        (None, None) => true,
        _ => false,
    }
}

fn opt_viewarea_eq(a: &Option<ViewAreaMessage>, b: &Option<ViewAreaMessage>) -> (r: bool)
    ensures
        r == same_viewarea(a, b),
{
    match (a, b) {
        (Some(x), Some(y)) => *x == *y,
        (None, None) => true,
        _ => false,
    }
}

fn sprites_vec_eq(a: &Vec<crate::sprite::Sprite>, b: &Vec<crate::sprite::Sprite>) -> (r: bool)
    ensures
        r == (a@ == b@),
{
    if a.len() != b.len() {
        proof {
            assert(a@ != b@);
        }
        return false;
    }
    let mut i: usize = 0;
    while i < a.len()
        invariant
            0 <= i <= a@.len(),
            a@.len() == b@.len(),
            forall|j: int| 0 <= j < i ==> a@[j] == b@[j],
        decreases a@.len() - i,
    {
        if !(a[i] == b[i]) {
            proof {
                assert(a@[i as int] != b@[i as int]);
            }
            return false;
        }
        i = i + 1;
    }
    proof {
        assert(a@ =~= b@);
    }
    true
}

fn opt_change_eq(a: &Option<ChangeMessage>, b: &Option<ChangeMessage>) -> (r: bool)
    ensures
        r == same_change(a, b),
{
    match (a, b) {
        (Some(x), Some(y)) => {
            if x.len() != y.len() {
                proof {
                    assert(change_view(x@).len() != change_view(y@).len());
                }
                return false;
            }
            let mut i: usize = 0;
            while i < x.len()
                invariant
                    0 <= i <= x@.len(),
                    x@.len() == y@.len(),
                    same_change(a, b) == (change_view(x@) == change_view(y@)),
                    forall|j: int|
                        0 <= j < i ==> (#[trigger] x@[j]).0 == y@[j].0 && x@[j].1@ == y@[j].1@,
                decreases x@.len() - i,
            {
                let xe = &x[i];
                let ye = &y[i];
                if !(xe.0 == ye.0) || !sprites_vec_eq(&xe.1, &ye.1) {
                    proof {
                        assert(change_view(x@)[i as int] != change_view(y@)[i as int]);
                    }
                    return false;
                }
                i = i + 1;
            }
            proof {
                assert(change_view(x@) =~= change_view(y@));
            }
            true
        },
        (None, None) => true,
        _ => false,
    }
}

fn opt_inventory_eq(a: &Option<InventoryMessage>, b: &Option<InventoryMessage>) -> (r: bool)
    ensures
        r == same_inventory(a, b),
{
    match (a, b) {
        (Some(x), Some(y)) => {
            if x.1 != y.1 || x.0.len() != y.0.len() {
                proof {
                    if x.0@.len() != y.0@.len() {
                        assert(inventory_view(x.0@).len() != inventory_view(y.0@).len());
                    }
                }
                return false;
            }
            let mut i: usize = 0;
            while i < x.0.len()
                invariant
                    0 <= i <= x.0@.len(),
                    x.0@.len() == y.0@.len(),
                    x.1 == y.1,
                    same_inventory(a, b) == (inventory_view(x.0@) == inventory_view(y.0@)),
                    forall|j: int|
                        0 <= j < i ==> (#[trigger] x.0@[j]).0@ == y.0@[j].0@ && x.0@[j].1
                            == y.0@[j].1,
                decreases x.0@.len() - i,
            {
                let xe = &x.0[i];
                let ye = &y.0[i];
                if !(xe.0 == ye.0) || xe.1 != ye.1 {
                    proof {
                        assert(inventory_view(x.0@)[i as int] != inventory_view(y.0@)[i as int]);
                    }
                    return false;
                }
                i = i + 1;
            }
            proof {
                assert(inventory_view(x.0@) =~= inventory_view(y.0@));
            }
            true
        },
        (None, None) => true,
        _ => false,
    }
}

fn opt_section_eq(a: &Option<SectionMessage>, b: &Option<SectionMessage>) -> (r: bool)
    ensures
        r == same_section(a, b),
{
    match (a, b) {
        (Some(x), Some(y)) => {
            if !(x.area == y.area) || x.field.len() != y.field.len() || x.mapping.len()
                != y.mapping.len() {
                proof {
                    if x.mapping@.len() != y.mapping@.len() {
                        assert(x.mapping@.map_values(|v: Vec<crate::sprite::Sprite>| v@).len()
                            != y.mapping@.map_values(|v: Vec<crate::sprite::Sprite>| v@).len());
                    }
                }
                return false;
            }
            let mut i: usize = 0;
            while i < x.field.len()
                invariant
                    0 <= i <= x.field@.len(),
                    x.field@.len() == y.field@.len(),
                    x.area == y.area,
                    x.mapping@.len() == y.mapping@.len(),
                    same_section(a, b) == (x.field@ == y.field@ && x.mapping@.map_values(
                        |v: Vec<crate::sprite::Sprite>| v@,
                    ) == y.mapping@.map_values(|v: Vec<crate::sprite::Sprite>| v@)),
                    forall|j: int| 0 <= j < i ==> (#[trigger] x.field@[j]) == y.field@[j],
                decreases x.field@.len() - i,
            {
                if x.field[i] != y.field[i] {
                    proof {
                        assert(x.field@[i as int] != y.field@[i as int]);
                    }
                    return false;
                }
                i = i + 1;
            }
            let mut i: usize = 0;
            while i < x.mapping.len()
                invariant
                    0 <= i <= x.mapping@.len(),
                    x.mapping@.len() == y.mapping@.len(),
                    x.field@ == y.field@,
                    x.area == y.area,
                    same_section(a, b) == (x.field@ == y.field@ && x.mapping@.map_values(
                        |v: Vec<crate::sprite::Sprite>| v@,
                    ) == y.mapping@.map_values(|v: Vec<crate::sprite::Sprite>| v@)),
                    forall|j: int| 0 <= j < i ==> (#[trigger] x.mapping@[j])@ == y.mapping@[j]@,
                decreases x.mapping@.len() - i,
            {
                if !sprites_vec_eq(&x.mapping[i], &y.mapping[i]) {
                    proof {
                        assert(x.mapping@.map_values(|v: Vec<crate::sprite::Sprite>| v@)[i as int]
                            != y.mapping@.map_values(|v: Vec<crate::sprite::Sprite>| v@)[i as int]);
                    }
                    return false;
                }
                i = i + 1;
            }
            proof {
                assert(x.field@ =~= y.field@);
                assert(x.mapping@.map_values(|v: Vec<crate::sprite::Sprite>| v@) =~= y.mapping@.map_values(
                    |v: Vec<crate::sprite::Sprite>| v@,
                ));
            }
            true
        },
        (None, None) => true,
        _ => false,
    }
}

fn opt_dynamics_eq(a: &Option<DynamicMessage>, b: &Option<DynamicMessage>) -> (r: bool)
    ensures
        r == same_dynamics(a, b),
{
    match (a, b) {
        (Some(x), Some(y)) => {
            if x.len() != y.len() {
                proof {
                    assert(x@.len() != y@.len());
                }
                return false;
            }
            let mut i: usize = 0;
            while i < x.len()
                invariant
                    0 <= i <= x@.len(),
                    x@.len() == y@.len(),
                    same_dynamics(a, b) == (x@ == y@),
                    forall|j: int| 0 <= j < i ==> x@[j] == y@[j],
                decreases x@.len() - i,
            {
                if !(x[i] == y[i]) {
                    proof {
                        assert(x@[i as int] != y@[i as int]);
                    }
                    return false;
                }
                i = i + 1;
            }
            proof {
                assert(x@ =~= y@);
            }
            true
        },
        (None, None) => true,
        _ => false,
    }
}

/// The per-player cache of the last message, used to drop unchanged fields
/// from outgoing messages.
#[derive(Debug)]
pub struct MessageCache {
    pub entries: Vec<(crate::player::PlayerId, WorldMessage)>,
}

impl MessageCache {
    pub fn new() -> (r: MessageCache)
        ensures
            r.entries@.len() == 0,
    {
        MessageCache { entries: Vec::new() }
    }

    /// Drops from `msg` the non-event fields equal to this player's cached
    /// message, and folds the remaining fields into the cache. A player seen
    /// for the first time has nothing dropped.
    pub fn trim(&mut self, player: &crate::player::PlayerId, msg: &mut WorldMessage)
        ensures
            final(msg).sounds == old(msg).sounds,
            !has_cached(old(self).entries@, player@) ==> {
                &&& *final(msg) == *old(msg)
                &&& final(self).entries@.len() == old(self).entries@.len() + 1
                &&& forall|j: int|
                    0 <= j < old(self).entries@.len() ==> final(self).entries@[j] == old(
                        self,
                    ).entries@[j]
                &&& final(self).entries@.last().0@ == player@
                &&& same_message(final(self).entries@.last().1, *old(msg))
            },
            has_cached(old(self).entries@, player@) ==> {
                let k = cache_idx(old(self).entries@, player@);
                &&& trimmed(*old(msg), *final(msg), old(self).entries@[k].1)
                &&& final(self).entries@.len() == old(self).entries@.len()
                &&& forall|j: int|
                    0 <= j < old(self).entries@.len() && j != k ==> final(self).entries@[j]
                        == old(self).entries@[j]
                &&& final(self).entries@[k].0 == old(self).entries@[k].0
                &&& merged(old(self).entries@[k].1, final(self).entries@[k].1, *final(msg))
            },
    {
        let mut i: usize = 0;
        let n = self.entries.len();
        while i < n
            invariant
                0 <= i <= n,
                n == self.entries@.len(),
                *msg == *old(msg),
                self.entries == old(self).entries,
                forall|j: int| 0 <= j < i ==> (#[trigger] self.entries@[j]).0@ != player@,
            decreases n - i,
        {
            if self.entries[i].0 == *player {
                proof {
                    assert(has_cached(old(self).entries@, player@)) by {
                        assert(old(self).entries@[i as int].0@ == player@);
                    }
                    lemma_cache_idx_valid(old(self).entries@, player@);
                    let k = cache_idx(old(self).entries@, player@);
                    if k < i as int {
                        assert(old(self).entries@[k].0@ != player@);
                    }
                    assert(k == i as int);
                }
                let (id, mut cached) = self.entries.remove(i);
                msg.remove_old(&cached);
                merge_message(&mut cached, msg);
                self.entries.insert(i, (id, cached));
                proof {
                    assert(final(self).entries@ =~= old(self).entries@.update(
                        i as int,
                        (id, cached),
                    ));
                }
                return ;
            }
            i = i + 1;
        }
        proof {
            assert(!has_cached(old(self).entries@, player@));
        }
        let copy = copy_message(msg);
        self.entries.push((crate::player::PlayerId(player.0.clone()), copy));
    }

    /// Forgets the player's cached message: the first entry under the
    /// player's name is removed, and a player with none is left alone.
    pub fn remove(&mut self, player: &crate::player::PlayerId)
        ensures
            !has_cached(old(self).entries@, player@) ==> *final(self) == *old(self),
            has_cached(old(self).entries@, player@) ==> final(self).entries@ == old(
                self,
            ).entries@.remove(cache_idx(old(self).entries@, player@)),
    {
        let mut i: usize = 0;
        let n = self.entries.len();
        while i < n
            invariant
                0 <= i <= n,
                n == self.entries@.len(),
                self.entries == old(self).entries,
                forall|j: int| 0 <= j < i ==> (#[trigger] self.entries@[j]).0@ != player@,
            decreases n - i,
        {
            if self.entries[i].0 == *player {
                proof {
                    assert(has_cached(old(self).entries@, player@)) by {
                        assert(old(self).entries@[i as int].0@ == player@);
                    }
                    lemma_cache_idx_valid(old(self).entries@, player@);
                    let k = cache_idx(old(self).entries@, player@);
                    if k < i as int {
                        assert(old(self).entries@[k].0@ != player@);
                    }
                    assert(k == i as int);
                }
                self.entries.remove(i);
                return ;
            }
            i = i + 1;
        }
        proof {
            assert(!has_cached(old(self).entries@, player@));
        }
    }
}

/// Folds the present fields of `other` into `cached`: each present field
/// replaces the cached one with a copy of equal content, and each absent
/// field leaves the cached one alone.
fn merge_message(cached: &mut WorldMessage, other: &WorldMessage)
    ensures
        merged(*old(cached), *final(cached), *other),
{
    if other.pos.is_some() {
        cached.pos = other.pos;
    }
    if other.change.is_some() {
        cached.change = copy_opt_change(&other.change);
    }
    if other.inventory.is_some() {
        cached.inventory = copy_opt_inventory(&other.inventory);
    }
    if other.sounds.is_some() {
        cached.sounds = copy_opt_sounds(&other.sounds);
    }
    if other.viewarea.is_some() {
        cached.viewarea = other.viewarea;
    }
    if other.section.is_some() {
        cached.section = copy_opt_section(&other.section);
    }
    if other.dynamics.is_some() {
        cached.dynamics = copy_opt_dynamics(&other.dynamics);
    }
}

/// A deep copy of a message, equal in every field's content.
fn copy_message(msg: &WorldMessage) -> (r: WorldMessage)
    ensures
        same_message(r, *msg),
{
    WorldMessage {
        pos: msg.pos,
        change: copy_opt_change(&msg.change),
        inventory: copy_opt_inventory(&msg.inventory),
        sounds: copy_opt_sounds(&msg.sounds),
        viewarea: msg.viewarea,
        section: copy_opt_section(&msg.section),
        dynamics: copy_opt_dynamics(&msg.dynamics),
    }
}

fn copy_opt_change(c: &Option<ChangeMessage>) -> (r: Option<ChangeMessage>)
    ensures
        same_change(&r, c),
{
    match c {
        Some(list) => {
            let mut out: Vec<(crate::pos::Pos, Vec<crate::sprite::Sprite>)> = Vec::new();
            let mut i: usize = 0;
            while i < list.len()
                invariant
                    0 <= i <= list@.len(),
                    out@.len() == i,
                    forall|k: int|
                        0 <= k < i ==> (#[trigger] out@[k]).0 == list@[k].0 && out@[k].1@
                            == list@[k].1@,
                decreases list@.len() - i,
            {
                let entry = &list[i];
                let mut sprites: Vec<crate::sprite::Sprite> = Vec::new();
                let mut j: usize = 0;
                while j < entry.1.len()
                    invariant
                        0 <= j <= entry.1@.len(),
                        sprites@.len() == j,
                        forall|k: int| 0 <= k < j ==> sprites@[k] == entry.1@[k],
                    decreases entry.1@.len() - j,
                {
                    sprites.push(entry.1[j]);
                    j = j + 1;
                }
                proof {
                    assert(sprites@ =~= entry.1@);
                }
                out.push((entry.0, sprites));
                i = i + 1;
            }
            proof {
                assert(change_view(out@) =~= change_view(list@));
            }
            Some(out)
        },
        None => None,
    }
}

fn copy_opt_inventory(c: &Option<InventoryMessage>) -> (r: Option<InventoryMessage>)
    ensures
        same_inventory(&r, c),
{
    match c {
        Some((list, sel)) => {
            let mut out: Vec<(String, usize)> = Vec::new();
            let mut i: usize = 0;
            while i < list.len()
                invariant
                    0 <= i <= list@.len(),
                    out@.len() == i,
                    forall|k: int|
                        0 <= k < i ==> (#[trigger] out@[k]).0@ == list@[k].0@ && out@[k].1
                            == list@[k].1,
                decreases list@.len() - i,
            {
                let entry = &list[i];
                out.push((entry.0.clone(), entry.1));
                i = i + 1;
            }
            proof {
                assert(inventory_view(out@) =~= inventory_view(list@));
            }
            Some((out, *sel))
        },
        None => None,
    }
}

fn copy_opt_sounds(c: &Option<SoundMessage>) -> (r: Option<SoundMessage>)
    ensures
        same_sounds(&r, c),
{
    match c {
        Some(list) => {
            let mut out: Vec<(SoundType, String)> = Vec::new();
            let mut i: usize = 0;
            while i < list.len()
                invariant
                    0 <= i <= list@.len(),
                    out@.len() == i,
                    forall|k: int|
                        0 <= k < i ==> (#[trigger] out@[k]).0 == list@[k].0 && out@[k].1@
                            == list@[k].1@,
                decreases list@.len() - i,
            {
                let entry = &list[i];
                out.push((entry.0, entry.1.clone()));
                i = i + 1;
            }
            proof {
                assert(sound_view(out@) =~= sound_view(list@));
            }
            Some(out)
        },
        None => None,
    }
}

fn copy_opt_section(c: &Option<SectionMessage>) -> (r: Option<SectionMessage>)
    ensures
        same_section(&r, c),
{
    match c {
        Some(section) => {
            let mut field: Vec<usize> = Vec::new();
            let mut i: usize = 0;
            while i < section.field.len()
                invariant
                    0 <= i <= section.field@.len(),
                    field@.len() == i,
                    forall|k: int| 0 <= k < i ==> (#[trigger] field@[k]) == section.field@[k],
                decreases section.field@.len() - i,
            {
                field.push(section.field[i]);
                i = i + 1;
            }
            proof {
                assert(field@ =~= section.field@);
            }
            let mut mapping: Vec<Vec<crate::sprite::Sprite>> = Vec::new();
            let mut i: usize = 0;
            while i < section.mapping.len()
                invariant
                    0 <= i <= section.mapping@.len(),
                    mapping@.len() == i,
                    forall|k: int| 0 <= k < i ==> (#[trigger] mapping@[k])@ == section.mapping@[k]@,
                decreases section.mapping@.len() - i,
            {
                let entry = &section.mapping[i];
                let mut sprites: Vec<crate::sprite::Sprite> = Vec::new();
                let mut j: usize = 0;
                while j < entry.len()
                    invariant
                        0 <= j <= entry@.len(),
                        sprites@.len() == j,
                        forall|k: int| 0 <= k < j ==> sprites@[k] == entry@[k],
                    decreases entry@.len() - j,
                {
                    sprites.push(entry[j]);
                    j = j + 1;
                }
                proof {
                    assert(sprites@ =~= entry@);
                }
                mapping.push(sprites);
                i = i + 1;
            }
            proof {
                assert(mapping@.map_values(|v: Vec<crate::sprite::Sprite>| v@)
                    =~= section.mapping@.map_values(|v: Vec<crate::sprite::Sprite>| v@));
            }
            Some(SectionMessage { field, mapping, area: section.area })
        },
        None => None,
    }
}

fn copy_opt_dynamics(c: &Option<DynamicMessage>) -> (r: Option<DynamicMessage>)
    ensures
        same_dynamics(&r, c),
{
    match c {
        Some(list) => {
            let mut out: Vec<crate::creature::CreatureView> = Vec::new();
            let mut i: usize = 0;
            while i < list.len()
                invariant
                    0 <= i <= list@.len(),
                    out@.len() == i,
                    forall|k: int| 0 <= k < i ==> out@[k] == list@[k],
                decreases list@.len() - i,
            {
                out.push(list[i]);
                i = i + 1;
            }
            proof {
                assert(out@ =~= list@);
            }
            Some(out)
        },
        None => None,
    }
}

} // verus!
