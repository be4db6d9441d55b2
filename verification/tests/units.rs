use std::collections::HashMap;
use std::collections::HashSet;

use dezl::action::Action;
use dezl::basemap::{BPos, Biome, InfiniteMap};
use dezl::controls::Selector;
use dezl::inventory::Inventory;
use dezl::item::Item;
use dezl::pos::{Area, Pos};
use dezl::random::pick_weighted;
use dezl::randomtick::{tick_num, tick_position, tick_time, CHUNK_AREA, CHUNK_SIZE, STEP,
    STEP_INVERSE};
use dezl::tickstamp::Tickstamp;
use dezl::tile::{Ground, Tile};

#[test]
fn core_is_in_own_biome() {
    let map = InfiniteMap::new(678);
    for x in -15..15 {
        for y in -15..15 {
            let bpos = BPos(Pos::new(x, y));
            assert_eq!(bpos, map.closest_biome_pos(map.biome_core(bpos)));
            assert_eq!((bpos, Pos::new(0, 0)), map.biome_pos(map.biome_core(bpos)));
        }
    }
}

#[test]
fn start_is_start_biome() {
    let map = InfiniteMap::new(9876);
    assert_eq!(map.biome_at(map.biome_pos(map.start_pos()).0), Biome::Start);
}

#[test]
fn start_pos_has_stone_floor() {
    let map = InfiniteMap::new(9876);
    assert_eq!(map.tile(map.start_pos(), Tickstamp(1)), Tile::ground(Ground::StoneFloor));
}

#[test]
fn selects_eyes() {
    let inv = Inventory::load(vec![]);
    assert_eq!(inv.selected(), Item::Eyes);
}

#[test]
fn selects_take_hands() {
    let mut inv = Inventory::load(vec![]);
    inv.select(Selector::Next);
    assert_eq!(inv.selected(), Item::Hands);
}

#[test]
fn selects_stone() {
    let mut inv = Inventory::load(vec![(Item::Stone, 1)]);
    inv.select(Selector::Idx(2));
    assert_eq!(inv.selected(), Item::Stone);
}

#[test]
fn inventory_hands_has_take_action() {
    assert_eq!(Item::Hands.actions(), vec![Action::take()]);
}

#[test]
fn item_hands_has_take_action() {
    assert_eq!(Item::Hands.actions(), vec![Action::take()]);
}

#[test]
fn division_rounds_to_negative_infinity() {
    assert_eq!(Pos::new(-3, -3).div_floor(2), Pos::new(-2, -2));
}

#[test]
fn creates_centered_area() {
    let area = Area::centered(Pos::new(10, 20), Pos::new(4, 6));
    assert_eq!(area, Area::new(Pos::new(8, 17), Pos::new(4, 6)));
}

#[test]
fn iterates_over_zero_width_area() {
    let area = Area::new(Pos::new(10, 10), Pos::new(0, 10));
    assert_eq!(area.iter().into_iter().next(), None);
}

#[test]
fn iterates_over_zero_height_area() {
    let area = Area::new(Pos::new(10, 10), Pos::new(10, 0));
    assert_eq!(area.iter().into_iter().next(), None);
}

#[test]
fn iterates_over_area() {
    let area = Area::new(Pos::new(8, 10), Pos::new(4, 1));
    let mut set = HashSet::new();
    set.insert(Pos::new(8, 10));
    set.insert(Pos::new(9, 10));
    set.insert(Pos::new(10, 10));
    set.insert(Pos::new(11, 10));
    assert_eq!(area.iter().into_iter().collect::<HashSet<Pos>>(), set);
}

#[test]
fn iterates_over_centered_area() {
    let area = Area::centered(Pos::new(10, 10), Pos::new(4, 1));
    let mut set = HashSet::new();
    set.insert(Pos::new(8, 10));
    set.insert(Pos::new(9, 10));
    set.insert(Pos::new(10, 10));
    set.insert(Pos::new(11, 10));
    assert_eq!(area.iter().into_iter().collect::<HashSet<Pos>>(), set);
}

#[test]
fn pick_weighted_can_pick_last() {
    for i in 0..15 {
        let v = if i % 6 < 5 { 10 } else { 20 };
        assert_eq!(*pick_weighted(i, &[(10, 5), (20, 1)]), v);
    }
}

#[test]
fn step_inverse_is_inverse_of_step() {
    assert_eq!(STEP * STEP_INVERSE % CHUNK_AREA, 1);
}

#[test]
fn tick_time_reverses_tick_position() {
    for i in 0..5000.min(CHUNK_AREA) {
        assert_eq!(tick_time(tick_position(Tickstamp(i))), i);
    }
}

#[test]
fn same_positions_in_different_chunks_give_same_tick_time() {
    let pos = Pos::new(3, 4);
    let larger_pos = pos.plus(Pos::new(CHUNK_SIZE * 3, CHUNK_SIZE * 7));
    let neg_pos = pos.minus(Pos::new(CHUNK_SIZE * 6, CHUNK_SIZE * 2));
    let time = tick_time(pos);
    assert_eq!(time, tick_time(larger_pos), "larger pos gives different tick time");
    assert_eq!(time, tick_time(neg_pos), "negative pos gives different tick time");
}

#[test]
fn times_with_multiples_of_chunk_area_in_between_give_save_tick_pos() {
    let time = Tickstamp(5);
    let larger_time = Tickstamp(5 + CHUNK_AREA * 9);
    let neg_time = Tickstamp(5 - CHUNK_AREA * 11);
    let pos = tick_position(time);
    assert_eq!(pos, tick_position(larger_time));
    assert_eq!(pos, tick_position(neg_time));
}

#[test]
fn tick_num_updates_on_tick_time() {
    let time = Tickstamp(12300);
    let pos = tick_position(time);
    let tick = tick_num(pos, time);
    assert_eq!(tick, tick_num(pos, Tickstamp(time.0 - 1 + CHUNK_AREA)));
    assert_eq!(tick - 1, tick_num(pos, Tickstamp(time.0 - 1)));
    assert_eq!(tick - 1, tick_num(pos, Tickstamp(time.0 - CHUNK_AREA)));
    assert_eq!(tick + 1, tick_num(pos, Tickstamp(time.0 + CHUNK_AREA)));
    assert_eq!(tick - 2, tick_num(pos, Tickstamp(time.0 - 1 - CHUNK_AREA)));
}

#[test]
fn test_hashmap_macro() {
    let mut h = HashMap::new();
    h.insert("hello", 1);
    h.insert("world", 2);
    assert_eq!(h.remove("hello"), Some(1));
    assert_eq!(h.remove("world"), Some(2));
    assert!(h.is_empty());
    let h2: HashMap<i32, usize> = HashMap::new();
    assert!(h2.is_empty());
    assert_eq!(h2, HashMap::new());
}
