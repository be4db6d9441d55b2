//! The inventory: an ordered list of item stacks behind two fixed affordance
//! slots, a selector, and atomic cost payment.

use vstd::prelude::*;
use crate::controls::Selector;
use crate::item::Item;

verus! {

/// The two fixed pseudo-items before the user's stacks.
pub const FIXED_ENTRIES: usize = 2;

/// What an inventory save file holds: the user stacks in order.
pub type InventorySave = Vec<(Item, usize)>;

/// Whether some stack holds `item`.
pub open spec fn has_stack(s: Seq<(Item, usize)>, item: Item) -> bool {
    exists|i: int| 0 <= i < s.len() && (#[trigger] s[i]).0 == item
}

/// The index of the first stack of `item`.
pub open spec fn stack_idx(s: Seq<(Item, usize)>, item: Item) -> int
    decreases s.len(),
{
    if s.len() == 0 {
        0
    } else if s[0].0 == item {
        0
    } else {
        1 + stack_idx(s.drop_first(), item)
    }
}

/// The total number of `item` held across the stacks.
pub open spec fn stack_count(s: Seq<(Item, usize)>, item: Item) -> int
    decreases s.len(),
{
    if s.len() == 0 {
        0
    } else {
        (if s[0].0 == item {
            s[0].1 as int
        } else {
            0
        }) + stack_count(s.drop_first(), item)
    }
}

/// The amount of `item` a cost list asks for.
pub open spec fn cost_amount(cost: Seq<(Item, u32)>, item: Item) -> int
    decreases cost.len(),
{
    if cost.len() == 0 {
        0
    } else {
        (if cost[0].0 == item {
            cost[0].1 as int
        } else {
            0
        }) + cost_amount(cost.drop_first(), item)
    }
}

/// A cost is payable when each line's item is stocked at least that deep at
/// its first stack, the one the line is settled from.
pub open spec fn payable(s: Seq<(Item, usize)>, cost: Seq<(Item, u32)>) -> bool {
    forall|i: int|
        0 <= i < cost.len() ==> has_stack(s, (#[trigger] cost[i]).0) && cost[i].1 <= s[stack_idx(
            s,
            cost[i].0,
        )].1
}

/// The cost lines left once `item`'s line is settled.
pub open spec fn cost_without(cost: Seq<(Item, u32)>, item: Item) -> Seq<(Item, u32)>
    decreases cost.len(),
{
    if cost.len() == 0 {
        Seq::empty()
    } else if cost[0].0 == item {
        cost_without(cost.drop_first(), item)
    } else {
        seq![cost[0]] + cost_without(cost.drop_first(), item)
    }
}

/// The stacks after paying: each cost line is settled once, at its item's
/// first stack, and emptied stacks are purged.
pub open spec fn pay_result(s: Seq<(Item, usize)>, cost: Seq<(Item, u32)>) -> Seq<(Item, usize)>
    decreases s.len(),
{
    if s.len() == 0 {
        Seq::empty()
    } else {
        let left = s[0].1 - cost_amount(cost, s[0].0);
        (if left > 0 {
            seq![(s[0].0, left as usize)]
        } else {
            Seq::empty()
        }) + pay_result(s.drop_first(), cost_without(cost, s[0].0))
    }
}

/// One saturating addition of `item`: an existing stack grows unless full,
/// else a new stack of one is appended while there is room.
pub open spec fn add_capped_spec(s: Seq<(Item, usize)>, item: Item) -> Seq<(Item, usize)> {
    if has_stack(s, item) {
        if s[stack_idx(s, item)].1 == usize::MAX {
            s
        } else {
            s.update(stack_idx(s, item), (item, (s[stack_idx(s, item)].1 + 1) as usize))
        }
    } else if s.len() < 0x0FFF_FFFF {
        s.push((item, 1usize))
    } else {
        s
    }
}

/// Saturating additions of a list of items, in order.
pub open spec fn add_items_spec(s: Seq<(Item, usize)>, items: Seq<Item>) -> Seq<(Item, usize)>
    decreases items.len(),
{
    if items.len() == 0 {
        s
    } else {
        add_items_spec(add_capped_spec(s, items[0]), items.drop_first())
    }
}

/// A cost list is well-formed when each item appears once.
pub open spec fn cost_wf(cost: Seq<(Item, u32)>) -> bool {
    forall|i: int, j: int|
        0 <= i < j < cost.len() ==> (#[trigger] cost[i]).0 != (#[trigger] cost[j]).0
}

/// An ordered list of item stacks with a selector. Two fixed pseudo-items,
/// the eyes and the hands, stand before the stacks and cannot move.
#[derive(Debug)]
pub struct Inventory {
    pub items: Vec<(Item, usize)>,
    pub selector: usize,
}

impl Inventory {
    /// The number of selectable entries: fixed slots plus stacks.
    pub open spec fn count_spec(&self) -> int {
        self.items@.len() + FIXED_ENTRIES
    }

    /// The selector always points at a selectable entry.
    pub open spec fn wf(&self) -> bool {
        self.selector < self.count_spec()
    }

    /// Adds one of `item`: an existing stack grows, or a new stack of one is
    /// appended.
    pub fn add(&mut self, item: Item)
        requires
            forall|i: int|
                0 <= i < old(self).items@.len() ==> (#[trigger] old(self).items@[i]).1
                    < usize::MAX,
            old(self).wf(),
        ensures
            final(self).wf(),
            final(self).selector == old(self).selector,
            final(self).items@ == if has_stack(old(self).items@, item) {
                old(self).items@.update(
                    stack_idx(old(self).items@, item),
                    (item, (old(self).items@[stack_idx(old(self).items@, item)].1 + 1) as usize),
                )
            } else {
                old(self).items@.push((item, 1usize))
            },
    {
        let n = self.items.len();
        let mut i: usize = 0;
        while i < n
            invariant
                0 <= i <= n,
                n == self.items@.len(),
                self.items@ == old(self).items@,
                self.selector == old(self).selector,
                old(self).wf(),
                forall|j: int|
                    0 <= j < old(self).items@.len() ==> (#[trigger] old(self).items@[j]).1
                        < usize::MAX,
                forall|j: int| 0 <= j < i ==> (#[trigger] self.items@[j]).0 != item,
            decreases n - i,
        {
            let (stack_item, count) = self.items[i];
            if stack_item == item {
                proof {
                    lemma_stack_idx(old(self).items@, item, i as int);
                    assert((#[trigger] old(self).items@[i as int]).0 == item);
                    assert(has_stack(old(self).items@, item));
                }
                self.items.set(i, (item, count + 1));
                return ;
            }
            i = i + 1;
        }
        proof {
            assert(!has_stack(old(self).items@, item));
        }
        self.items.push((item, 1));
    }

    /// Adds one of `item`, saturating: a full stack stays full, and no new
    /// stack is opened once the inventory is absurdly large.
    pub fn add_capped(&mut self, item: Item)
        requires
            old(self).wf(),
        ensures
            final(self).wf(),
            final(self).selector == old(self).selector,
            final(self).items@ == add_capped_spec(old(self).items@, item),
            final(self).items@.len() <= old(self).items@.len() + 1,
            old(self).items@.len() >= 0x0FFF_FFFF ==> final(self).items@.len() == old(
                self,
            ).items@.len(),
    {
        match self.find_stack(item) {
            Some(at) => {
                let (_, count) = self.items[at];
                if count < usize::MAX {
                    self.items.set(at, (item, count + 1));
                }
            },
            None => {
                if self.items.len() < 0x0FFF_FFFF {
                    self.items.push((item, 1));
                }
            },
        }
    }

    /// The UI view: entry names with counts, and the selector.
    pub fn view_message(&self) -> (r: (Vec<(String, usize)>, usize))
        ensures
            r.1 == self.selector,
            r.0@.len() == self.items@.len() + 2,
            r.0@[0].0@ == Item::Eyes.name_spec() && r.0@[0].1 == 1,
            r.0@[1].0@ == Item::Hands.name_spec() && r.0@[1].1 == 1,
            forall|k: int|
                0 <= k < self.items@.len() ==> (#[trigger] r.0@[k + 2]).0@
                    == self.items@[k].0.name_spec() && r.0@[k + 2].1 == self.items@[k].1,
    {
        let mut view: Vec<(String, usize)> = Vec::new();
        view.push((Item::Eyes.name().to_owned(), 1));
        view.push((Item::Hands.name().to_owned(), 1));
        let mut i: usize = 0;
        while i < self.items.len()
            invariant
                0 <= i <= self.items@.len(),
                view@.len() == i + 2,
                view@[0].0@ == Item::Eyes.name_spec() && view@[0].1 == 1,
                view@[1].0@ == Item::Hands.name_spec() && view@[1].1 == 1,
                forall|k: int|
                    0 <= k < i ==> (#[trigger] view@[k + 2]).0@ == self.items@[k].0.name_spec()
                        && view@[k + 2].1 == self.items@[k].1,
            decreases self.items@.len() - i,
        {
            let (item, count) = self.items[i];
            view.push((item.name().to_owned(), count));
            i = i + 1;
        }
        (view, self.selector)
    }

    /// The user stacks, as saved.
    pub fn save(&self) -> (r: InventorySave)
        ensures
            r@ == self.items@,
    {
        let mut saved: Vec<(Item, usize)> = Vec::new();
        let mut i: usize = 0;
        while i < self.items.len()
            invariant
                0 <= i <= self.items@.len(),
                saved@ == self.items@.subrange(0, i as int),
            decreases self.items@.len() - i,
        {
            saved.push(self.items[i]);
            i = i + 1;
        }
        proof {
            assert(saved@ =~= self.items@);
        }
        saved
    }

    /// An inventory from its save, with the selector on the eyes.
    pub fn load(saved: InventorySave) -> (r: Inventory)
        ensures
            r.items@ == saved@,
            r.selector == 0,
            r.wf(),
    {
        Inventory { items: saved, selector: 0 }
    }

    fn count(&self) -> (r: usize)
        requires
            self.items@.len() + FIXED_ENTRIES <= usize::MAX,
        ensures
            r == self.count_spec(),
    {
        self.items.len() + FIXED_ENTRIES
    }

    /// Moves the selector: cyclic for next and previous, clamped for an
    /// index.
    pub fn select(&mut self, selector: Selector)
        requires
            old(self).wf(),
            old(self).items@.len() < 0x1000_0000,
        ensures
            final(self).items@ == old(self).items@,
            final(self).wf(),
            final(self).selector == select_spec(
                old(self).selector as int,
                old(self).count_spec(),
                selector,
            ),
    {
        let count = self.count();
        self.selector = match selector {
            Selector::Next => (self.selector + 1) % count,
            Selector::Previous => (self.selector + count - 1) % count,
            Selector::Idx(idx) => if idx < count - 1 {
                idx
            } else {
                count - 1
            },
        };
    }

    /// Moves the selected stack among the user stacks and follows it with
    /// the selector; the fixed slots never move.
    pub fn move_selected(&mut self, selector: Selector)
        requires
            old(self).wf(),
            old(self).items@.len() < 0x1000_0000,
        ensures
            final(self).wf(),
            ({
                let t = move_target(old(self).selector as int, selector);
                if old(self).selector < FIXED_ENTRIES || t < FIXED_ENTRIES || t >= old(self).count_spec() {
                    *final(self) == *old(self)
                } else {
                    &&& final(self).items@ == old(self).items@.remove(
                        old(self).selector - FIXED_ENTRIES,
                    ).insert(
                        t - FIXED_ENTRIES,
                        old(self).items@[old(self).selector - FIXED_ENTRIES],
                    )
                    &&& final(self).selector == select_spec(
                        old(self).selector as int,
                        old(self).count_spec(),
                        selector,
                    )
                }
            }),
    {
        if self.selector < FIXED_ENTRIES {
            return ;
        }
        let target: usize = match selector {
            Selector::Next => self.selector + 1,
            Selector::Previous => self.selector - 1,
            Selector::Idx(idx) => idx,
        };
        let count = self.count();
        if target < FIXED_ENTRIES || target >= count {
            return ;
        }
        let item = self.items.remove(self.selector - FIXED_ENTRIES);
        self.items.insert(target - FIXED_ENTRIES, item);
        self.select(selector);
    }

    /// The entry under the selector: an affordance or a stack's item.
    pub fn selected(&self) -> (r: Item)
        requires
            self.wf(),
        ensures
            r == selected_spec(*self),
    {
        if self.selector == 0 {
            Item::Eyes
        } else if self.selector == 1 {
            Item::Hands
        } else {
            self.items[self.selector - FIXED_ENTRIES].0
        }
    }

    /// Pays `cost` atomically: when every line is stocked deep enough at its
    /// item's first stack, each line is settled once, at that stack, emptied
    /// stacks are purged and the selector is clamped; otherwise nothing
    /// changes at all.
    pub fn pay(&mut self, cost: &Vec<(Item, u32)>) -> (r: bool)
        requires
            old(self).wf(),
            cost_wf(cost@),
            old(self).items@.len() + FIXED_ENTRIES <= usize::MAX,
        ensures
            r == payable(old(self).items@, cost@),
            r ==> final(self).items@ == pay_result(old(self).items@, cost@) && final(self).selector == clamp_selector(
                old(self).selector as int,
                final(self).items@.len() as int,
            ) && final(self).wf() && final(self).items@.len() <= old(self).items@.len(),
            !r ==> *final(self) == *old(self),
    {
        if !self.is_payable(cost) {
            return false;
        }
        let mut updated: Vec<(Item, usize)> = Vec::new();
        let ghost mut rc: Seq<(Item, u32)> = cost@;
        let n = self.items.len();
        let mut i: usize = 0;
        proof {
            assert(self.items@.subrange(0, n as int) =~= self.items@);
            assert(updated@ + pay_result(self.items@.subrange(0, n as int), rc) =~= pay_result(
                self.items@,
                cost@,
            ));
            assert(self.items@.subrange(0, 0).len() == 0);
        }
        while i < n
            invariant
                0 <= i <= n,
                n == self.items@.len(),
                self.items@ == old(self).items@,
                self.selector == old(self).selector,
                old(self).wf(),
                old(self).items@.len() + FIXED_ENTRIES <= usize::MAX,
                cost_wf(cost@),
                cost_wf(rc),
                payable(old(self).items@, cost@),
                updated@.len() <= i,
                updated@ + pay_result(self.items@.subrange(i as int, n as int), rc) == pay_result(
                    self.items@,
                    cost@,
                ),
                forall|it: Item|
                    #[trigger] cost_amount(rc, it) == if has_stack(
                        self.items@.subrange(0, i as int),
                        it,
                    ) {
                        0int
                    } else {
                        cost_amount(cost@, it)
                    },
            decreases n - i,
        {
            let (item, have) = self.items[i];
            let owed: u32 = if self.seen_before(i, item) {
                0
            } else {
                amount_of(cost, item)
            };
            let ghost suf = self.items@.subrange(i as int, n as int);
            proof {
                assert(suf[0] == self.items@[i as int]);
                assert(suf.drop_first() =~= self.items@.subrange(i as int + 1, n as int));
                assert(owed as int == cost_amount(rc, item));
                lemma_cost_amount_nonneg(rc, item);
            }
            if (owed as usize) < have {
                updated.push((item, have - owed as usize));
            }
            proof {
                let rc0 = rc;
                rc = cost_without(rc0, item);
                lemma_cost_without_props(rc0, item);
                assert(pay_result(suf, rc0) == (if have - cost_amount(rc0, item) > 0 {
                    seq![(item, (have - cost_amount(rc0, item)) as usize)]
                } else {
                    Seq::<(Item, usize)>::empty()
                }) + pay_result(suf.drop_first(), rc));
                assert(updated@ + pay_result(
                    self.items@.subrange(i as int + 1, n as int),
                    rc,
                ) =~= pay_result(self.items@, cost@));
                assert(self.items@.subrange(0, i as int + 1) =~= self.items@.subrange(
                    0,
                    i as int,
                ).push(self.items@[i as int]));
                assert forall|it: Item|
                    #[trigger] cost_amount(rc, it) == if has_stack(
                        self.items@.subrange(0, i as int + 1),
                        it,
                    ) {
                        0int
                    } else {
                        cost_amount(cost@, it)
                    } by {
                    lemma_cost_without_amount(rc0, item, it);
                    lemma_has_stack_push(
                        self.items@.subrange(0, i as int),
                        self.items@[i as int],
                        it,
                    );
                }
            }
            i = i + 1;
        }
        proof {
            assert(self.items@.subrange(n as int, n as int).len() == 0);
            assert(pay_result(self.items@.subrange(n as int, n as int), rc) =~= Seq::<(
                Item,
                usize,
            )>::empty());
            assert(updated@ =~= pay_result(self.items@, cost@));
        }
        self.items = updated;
        let new_count = self.count();
        if self.selector >= new_count {
            self.selector = new_count - 1;
        }
        true
    }

    /// Whether an earlier stack already holds `item`.
    fn seen_before(&self, i: usize, item: Item) -> (r: bool)
        requires
            i <= self.items@.len(),
        ensures
            r == has_stack(self.items@.subrange(0, i as int), item),
    {
        let mut j: usize = 0;
        proof {
            assert(forall|k: int|
                0 <= k < i ==> (#[trigger] self.items@.subrange(0, i as int)[k]) == self.items@[k]);
        }
        while j < i
            invariant
                0 <= j <= i <= self.items@.len(),
                forall|k: int| 0 <= k < j ==> (#[trigger] self.items@[k]).0 != item,
            decreases i - j,
        {
            if self.items[j].0 == item {
                proof {
                    assert((#[trigger] self.items@.subrange(0, i as int)[j as int]).0 == item);
                }
                return true;
            }
            j = j + 1;
        }
        proof {
            assert(forall|k: int|
                0 <= k < i ==> (#[trigger] self.items@.subrange(0, i as int)[k]).0 != item);
        }
        false
    }

    /// Whether every cost line is stocked deep enough.
    fn is_payable(&self, cost: &Vec<(Item, u32)>) -> (r: bool)
        ensures
            r == payable(self.items@, cost@),
    {
        let mut i: usize = 0;
        while i < cost.len()
            invariant
                0 <= i <= cost@.len(),
                forall|j: int|
                    0 <= j < i ==> has_stack(self.items@, (#[trigger] cost@[j]).0) && cost@[j].1
                        <= self.items@[stack_idx(self.items@, cost@[j].0)].1,
            decreases cost@.len() - i,
        {
            let (item, amount) = cost[i];
            match self.find_stack(item) {
                Some(at) => {
                    let (_, have) = self.items[at];
                    if (have as u64) < amount as u64 {
                        return false;
                    }
                },
                None => {
                    return false;
                },
            }
            i = i + 1;
        }
        true
    }

    /// The position of the first stack of `item`.
    fn find_stack(&self, item: Item) -> (r: Option<usize>)
        ensures
            match r {
                Some(at) => has_stack(self.items@, item) && at == stack_idx(self.items@, item)
                    && at < self.items@.len() && self.items@[at as int].0 == item,
                None => !has_stack(self.items@, item),
            },
    {
        let mut i: usize = 0;
        while i < self.items.len()
            invariant
                0 <= i <= self.items@.len(),
                forall|j: int| 0 <= j < i ==> (#[trigger] self.items@[j]).0 != item,
            decreases self.items@.len() - i,
        {
            if self.items[i].0 == item {
                proof {
                    lemma_stack_idx(self.items@, item, i as int);
                    assert((#[trigger] self.items@[i as int]).0 == item);
                }
                return Some(i);
            }
            i = i + 1;
        }
        None
    }
}

/// The entry a stack move is aimed at.
pub open spec fn move_target(selector_pos: int, request: Selector) -> int {
    match request {
        Selector::Next => selector_pos + 1,
        Selector::Previous => selector_pos - 1,
        Selector::Idx(idx) => idx as int,
    }
}

/// The selector after a select request.
pub open spec fn select_spec(selector: int, count: int, request: Selector) -> int {
    match request {
        Selector::Next => (selector + 1) % count,
        Selector::Previous => (selector + count - 1) % count,
        Selector::Idx(idx) => if idx < count - 1 {
            idx as int
        } else {
            count - 1
        },
    }
}

/// The selector clamped to the new entry count.
pub open spec fn clamp_selector(selector: int, stacks: int) -> int {
    if selector >= stacks + FIXED_ENTRIES {
        stacks + FIXED_ENTRIES - 1
    } else {
        selector
    }
}

/// The entry a selector picks out of a stack list.
pub open spec fn sel_item(items: Seq<(Item, usize)>, selector: int) -> Item {
    if selector == 0 {
        Item::Eyes
    } else if selector == 1 {
        Item::Hands
    } else {
        items[selector - FIXED_ENTRIES].0
    }
}

/// The entry under the selector.
pub open spec fn selected_spec(inv: Inventory) -> Item {
    sel_item(inv.items@, inv.selector as int)
}

/// When entry `i` holds `item` and no earlier entry does, `i` is the first.
pub proof fn lemma_stack_idx(s: Seq<(Item, usize)>, item: Item, i: int)
    requires
        0 <= i < s.len(),
        s[i].0 == item,
        forall|j: int| 0 <= j < i ==> (#[trigger] s[j]).0 != item,
    ensures
        stack_idx(s, item) == i,
    decreases s.len(),
{
    if s[0].0 == item {
        assert(i == 0);
    } else {
        assert(s.drop_first()[i - 1] == s[i]);
        assert(forall|j: int| 0 <= j < i - 1 ==> (#[trigger] s.drop_first()[j]) == s[j + 1]);
        lemma_stack_idx(s.drop_first(), item, i - 1);
    }
}

/// The first index of a held stack is in bounds and carries the item.
proof fn lemma_has_stack_valid(s: Seq<(Item, usize)>, item: Item)
    requires
        has_stack(s, item),
    ensures
        0 <= stack_idx(s, item) < s.len(),
        s[stack_idx(s, item)].0 == item,
    decreases s.len(),
{
    if s.len() > 0 && s[0].0 != item {
        assert(forall|j: int|
            0 <= j < s.drop_first().len() ==> (#[trigger] s.drop_first()[j]) == s[j + 1]);
        assert(has_stack(s.drop_first(), item)) by {
            let i = choose|i: int| 0 <= i < s.len() && (#[trigger] s[i]).0 == item;
            assert(s.drop_first()[i - 1] == s[i]);
            assert((#[trigger] s.drop_first()[i - 1]).0 == item);
        }
        lemma_has_stack_valid(s.drop_first(), item);
    }
}

/// A pushed stack adds exactly its own item to the held set.
proof fn lemma_has_stack_push(s: Seq<(Item, usize)>, e: (Item, usize), item: Item)
    ensures
        has_stack(s.push(e), item) == (has_stack(s, item) || e.0 == item),
{
    if has_stack(s, item) {
        let j = choose|j: int| 0 <= j < s.len() && (#[trigger] s[j]).0 == item;
        assert((#[trigger] s.push(e)[j]).0 == item);
    }
    if e.0 == item {
        assert((#[trigger] s.push(e)[s.len() as int]).0 == item);
    }
    if has_stack(s.push(e), item) && e.0 != item {
        let j = choose|j: int| 0 <= j < s.push(e).len() && (#[trigger] s.push(e)[j]).0 == item;
        if j < s.len() {
            assert((#[trigger] s[j]).0 == item);
        }
    }
}

/// Settling one item's line removes its amount and keeps every other's.
proof fn lemma_cost_without_amount(cost: Seq<(Item, u32)>, x: Item, item: Item)
    ensures
        cost_amount(cost_without(cost, x), item) == if item == x {
            0int
        } else {
            cost_amount(cost, item)
        },
    decreases cost.len(),
{
    if cost.len() > 0 {
        lemma_cost_without_amount(cost.drop_first(), x, item);
        if cost[0].0 == x {
        } else {
            let tailw = cost_without(cost.drop_first(), x);
            assert(cost_without(cost, x) == seq![cost[0]] + tailw);
            assert((seq![cost[0]] + tailw)[0] == cost[0]);
            assert((seq![cost[0]] + tailw).drop_first() =~= tailw);
        }
    }
}

/// Settling a line keeps the remaining lines unique, each a line of the
/// original cost for another item.
proof fn lemma_cost_without_props(cost: Seq<(Item, u32)>, x: Item)
    requires
        cost_wf(cost),
    ensures
        cost_wf(cost_without(cost, x)),
        forall|i: int|
            0 <= i < cost_without(cost, x).len() ==> (#[trigger] cost_without(cost, x)[i]).0 != x
                && exists|j: int| 0 <= j < cost.len() && cost[j] == cost_without(cost, x)[i],
    decreases cost.len(),
{
    if cost.len() > 0 {
        let rest = cost.drop_first();
        assert(forall|j: int| 0 <= j < rest.len() ==> (#[trigger] rest[j]) == cost[j + 1]);
        assert(cost_wf(rest));
        lemma_cost_without_props(rest, x);
        let w = cost_without(cost, x);
        let rw = cost_without(rest, x);
        if cost[0].0 == x {
            assert(w == rw);
            assert forall|i: int| 0 <= i < w.len() implies (#[trigger] w[i]).0 != x && exists|
                j: int,
            | 0 <= j < cost.len() && cost[j] == w[i] by {
                assert((#[trigger] rw[i]).0 != x);
                let j0 = choose|j: int| 0 <= j < rest.len() && rest[j] == rw[i];
                assert(cost[j0 + 1] == w[i]);
            }
        } else {
            assert(w == seq![cost[0]] + rw);
            assert(w[0] == cost[0]);
            assert(forall|i: int| 1 <= i < w.len() ==> (#[trigger] w[i]) == rw[i - 1]);
            assert forall|i: int| 0 <= i < w.len() implies (#[trigger] w[i]).0 != x && exists|
                j: int,
            | 0 <= j < cost.len() && cost[j] == w[i] by {
                if i == 0 {
                    assert(cost[0] == w[0]);
                } else {
                    assert((#[trigger] rw[i - 1]).0 != x);
                    let j0 = choose|j: int| 0 <= j < rest.len() && rest[j] == rw[i - 1];
                    assert(cost[j0 + 1] == w[i]);
                }
            }
            assert forall|a: int, b: int| 0 <= a < b < w.len() implies (#[trigger] w[a]).0 != (
            #[trigger] w[b]).0 by {
                if a == 0 {
                    let j0 = choose|j: int| 0 <= j < rest.len() && rest[j] == rw[b - 1];
                    assert(cost[0].0 != cost[j0 + 1].0);
                } else {
                    assert(rw[a - 1].0 != rw[b - 1].0);
                }
            }
        }
    }
}

/// A payable cost stays payable on the remaining stacks once the first
/// stack's line is settled.
proof fn lemma_payable_tail(s: Seq<(Item, usize)>, cost: Seq<(Item, u32)>)
    requires
        payable(s, cost),
        cost_wf(cost),
        s.len() > 0,
    ensures
        payable(s.drop_first(), cost_without(cost, s[0].0)),
        cost_wf(cost_without(cost, s[0].0)),
{
    let x = s[0].0;
    let rest = s.drop_first();
    let rc = cost_without(cost, x);
    lemma_cost_without_props(cost, x);
    assert(forall|k: int| 0 <= k < rest.len() ==> (#[trigger] rest[k]) == s[k + 1]);
    assert forall|i: int| 0 <= i < rc.len() implies has_stack(rest, (#[trigger] rc[i]).0)
        && rc[i].1 <= rest[stack_idx(rest, rc[i].0)].1 by {
        let it = rc[i].0;
        assert(it != x);
        let j = choose|j: int| 0 <= j < cost.len() && cost[j] == rc[i];
        assert(has_stack(s, (#[trigger] cost[j]).0) && cost[j].1 <= s[stack_idx(s, cost[j].0)].1);
        lemma_has_stack_valid(s, it);
        let w = stack_idx(s, it);
        assert(w != 0);
        assert(rest[w - 1] == s[w]);
        assert(has_stack(rest, it)) by {
            assert((#[trigger] rest[w - 1]).0 == it);
        }
        assert(stack_idx(s, it) == 1 + stack_idx(rest, it));
        lemma_has_stack_valid(rest, it);
        assert(rest[stack_idx(rest, it)] == s[stack_idx(s, it)]);
    }
}

/// Paying a payable, well-formed cost changes each item's total count by
/// exactly what the cost asks of it, and nothing else.
pub proof fn lemma_pay_conserves_counts(s: Seq<(Item, usize)>, cost: Seq<(Item, u32)>, item: Item)
    requires
        cost_wf(cost),
        payable(s, cost),
    ensures
        stack_count(pay_result(s, cost), item) == stack_count(s, item) - cost_amount(cost, item),
    decreases s.len(),
{
    if s.len() == 0 {
        if cost.len() > 0 {
            assert(has_stack(s, (#[trigger] cost[0]).0));
            assert(false);
        }
        lemma_cost_amount_absent(cost, item);
    } else {
        let x = s[0].0;
        let rest = s.drop_first();
        let rc = cost_without(cost, x);
        lemma_payable_tail(s, cost);
        lemma_pay_conserves_counts(rest, rc, item);
        lemma_cost_without_amount(cost, x, item);
        lemma_cost_amount_nonneg(cost, x);
        let owed = cost_amount(cost, x);
        if exists|i: int| 0 <= i < cost.len() && (#[trigger] cost[i]).0 == x {
            let i = choose|i: int| 0 <= i < cost.len() && (#[trigger] cost[i]).0 == x;
            lemma_cost_amount_unique(cost, x, i);
            assert(stack_idx(s, x) == 0);
            assert(cost[i].1 <= s[stack_idx(s, cost[i].0)].1);
            assert(owed <= s[0].1);
        } else {
            lemma_cost_amount_absent(cost, x);
        }
        let left = s[0].1 - owed;
        let head: Seq<(Item, usize)> = if left > 0 {
            seq![(x, left as usize)]
        } else {
            Seq::empty()
        };
        assert(pay_result(s, cost) == head + pay_result(rest, rc));
        lemma_stack_count_head(head, pay_result(rest, rc), item);
        if left > 0 {
            assert(head.len() == 1);
            assert(head[0] == (x, left as usize));
            assert(head[0].1 as int == left);
            assert(head.drop_first() =~= Seq::<(Item, usize)>::empty());
            assert(stack_count(head.drop_first(), item) == 0);
            assert(stack_count(head, item) == (if head[0].0 == item {
                head[0].1 as int
            } else {
                0int
            }) + stack_count(head.drop_first(), item));
            assert(stack_count(head, item) == if x == item {
                left
            } else {
                0int
            });
        } else {
            assert(stack_count(head, item) == 0);
        }
        if x == item {
            lemma_cost_without_amount(cost, x, x);
        }
    }
}

/// Counting over a concatenation splits into the parts.
proof fn lemma_stack_count_head(a: Seq<(Item, usize)>, b: Seq<(Item, usize)>, item: Item)
    ensures
        stack_count(a + b, item) == stack_count(a, item) + stack_count(b, item),
    decreases a.len(),
{
    if a.len() == 0 {
        assert(a + b =~= b);
    } else {
        assert((a + b)[0] == a[0]);
        assert((a + b).drop_first() =~= a.drop_first() + b);
        lemma_stack_count_head(a.drop_first(), b, item);
    }
}

/// The exec lookup of a cost amount.
fn amount_of(cost: &Vec<(Item, u32)>, item: Item) -> (r: u32)
    requires
        cost_wf(cost@),
    ensures
        r == cost_amount(cost@, item),
{
    let mut i: usize = 0;
    while i < cost.len()
        invariant
            0 <= i <= cost@.len(),
            cost_wf(cost@),
            forall|j: int| 0 <= j < i ==> (#[trigger] cost@[j]).0 != item,
        decreases cost@.len() - i,
    {
        let (cost_item, amount) = cost[i];
        if cost_item == item {
            proof {
                lemma_cost_amount_unique(cost@, item, i as int);
            }
            return amount;
        }
        i = i + 1;
    }
    proof {
        lemma_cost_amount_absent(cost@, item);
    }
    0
}

/// With unique cost lines, the amount of `item` is its single line's amount.
proof fn lemma_cost_amount_unique(cost: Seq<(Item, u32)>, item: Item, i: int)
    requires
        cost_wf(cost),
        0 <= i < cost.len(),
        cost[i].0 == item,
    ensures
        cost_amount(cost, item) == cost[i].1 as int,
    decreases cost.len(),
{
    if i == 0 {
        lemma_cost_amount_absent_tail(cost.drop_first(), item);
        assert(forall|j: int|
            0 <= j < cost.drop_first().len() ==> (#[trigger] cost.drop_first()[j]) == cost[j + 1]);
    } else {
        assert(cost.drop_first()[i - 1] == cost[i]);
        assert(forall|j: int|
            0 <= j < cost.drop_first().len() ==> (#[trigger] cost.drop_first()[j]) == cost[j + 1]);
        lemma_cost_amount_unique(cost.drop_first(), item, i - 1);
    }
}

/// A cost with no line for `item` asks nothing of it.
proof fn lemma_cost_amount_absent(cost: Seq<(Item, u32)>, item: Item)
    requires
        forall|j: int| 0 <= j < cost.len() ==> (#[trigger] cost[j]).0 != item,
    ensures
        cost_amount(cost, item) == 0,
    decreases cost.len(),
{
    if cost.len() > 0 {
        assert(forall|j: int|
            0 <= j < cost.drop_first().len() ==> (#[trigger] cost.drop_first()[j]) == cost[j + 1]);
        lemma_cost_amount_absent(cost.drop_first(), item);
    }
}

/// Same, phrased for a tail whose head held the line.
proof fn lemma_cost_amount_absent_tail(cost: Seq<(Item, u32)>, item: Item)
    requires
        forall|j: int| 0 <= j < cost.len() ==> (#[trigger] cost[j]).0 != item,
    ensures
        cost_amount(cost, item) == 0,
    decreases cost.len(),
{
    lemma_cost_amount_absent(cost, item);
}

proof fn lemma_cost_amount_nonneg(cost: Seq<(Item, u32)>, item: Item)
    ensures
        cost_amount(cost, item) >= 0,
    decreases cost.len(),
{
    if cost.len() > 0 {
        lemma_cost_amount_nonneg(cost.drop_first(), item);
    }
}

} // verus!
