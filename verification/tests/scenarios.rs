use dezl::basemap::InfiniteMap;
use dezl::controls::{Control, Selector};
use dezl::creature::PlayerSave;
use dezl::inventory::Inventory;
use dezl::item::Item;
use dezl::player::PlayerId;
use dezl::pos::{Area, Direction, Pos};
use dezl::tickstamp::Tickstamp;
use dezl::tile::{Ground, Structure, Tile};
use dezl::timestamp::Timestamp;
use dezl::vec2::Vec2;
use dezl::world::World;
use dezl::worldmessages::SoundType;

fn id(name: &str) -> PlayerId {
    PlayerId(name.to_string())
}

fn now() -> Timestamp {
    Timestamp::from_epoch_millis(0)
}

fn control(world: &mut World, name: &str, c: Control) {
    world.control_player(&id(name), c, now()).unwrap();
}

/// The base map is a pure function of seed, position and time.
#[test]
fn base_map_is_deterministic() {
    let map = InfiniteMap::new(4242);
    for x in -20..20 {
        for y in -20..20 {
            let p = Pos::new(x * 7, y * 7);
            assert_eq!(map.tile(p, Tickstamp(17)), map.tile(p, Tickstamp(17)));
        }
    }
}

/// Paying a payable cost removes exactly the cost; an unpayable cost leaves
/// the inventory untouched.
#[test]
fn pay_is_atomic() {
    let mut inv = Inventory::load(vec![(Item::Stone, 3), (Item::Flower, 9), (Item::Reed, 2)]);
    let cost = vec![(Item::Stone, 1u32), (Item::Flower, 9u32)];
    assert!(inv.pay(&cost));
    assert_eq!(inv.save(), vec![(Item::Stone, 2), (Item::Reed, 2)]);

    let unpayable = vec![(Item::Stone, 5u32)];
    let before = inv.save();
    assert!(!inv.pay(&unpayable));
    assert_eq!(inv.save(), before);

    let missing = vec![(Item::Pebble, 1u32)];
    assert!(!inv.pay(&missing));
    assert_eq!(inv.save(), before);
}

/// A cost line is settled once, at its item's first stack; duplicate stacks
/// of the item keep their counts.
#[test]
fn pay_settles_first_stack_of_duplicates() {
    let mut inv = Inventory::load(vec![(Item::Stone, 3), (Item::Stone, 3)]);
    assert!(inv.pay(&vec![(Item::Stone, 2u32)]));
    assert_eq!(inv.save(), vec![(Item::Stone, 1), (Item::Stone, 3)]);

    let mut short = Inventory::load(vec![(Item::Stone, 1), (Item::Stone, 9)]);
    let before = short.save();
    assert!(!short.pay(&vec![(Item::Stone, 2u32)]));
    assert_eq!(short.save(), before);
}

/// Writing the base tile back removes the overlay entry.
#[test]
fn set_base_tile_clears_change() {
    let mut world = World::new("w".to_string(), 9876);
    let pos = Pos::new(7, 9);
    let base = world.ground.cell(pos);
    world.ground.set(pos, Tile::structure(Ground::Dirt, Structure::Reed));
    assert_eq!(world.ground.changes.len(), 1);
    world.ground.set(pos, base);
    assert!(world.ground.changes.is_empty());
}

/// Loading an area twice at the same time yields the same tiles.
#[test]
fn load_area_is_idempotent() {
    let mut world = World::new("w".to_string(), 9876);
    world.ground.set(Pos::new(5, 5), Tile::structure(Ground::Dirt, Structure::Fire));
    let area = Area::new(Pos::new(-4, -4), Pos::new(16, 16));
    let first = world.ground.load_area(area);
    let second = world.ground.load_area(area);
    assert_eq!(first, second);
}

/// A fresh world greets the first player with its spawn position, a full
/// viewport section and the bare affordances.
#[test]
fn spawn_scenario() {
    let mut world = World::new("w".to_string(), 9876);
    let save = world.default_player();
    assert!(world.can_add_player());
    world.add_player(&id("A"), save).unwrap();
    let views = world.view();
    assert_eq!(views.len(), 1);
    assert_eq!(views[0].0, id("A"));
    let wm = &views[0].1;
    let spawn = Pos::new(0, 2);
    assert_eq!(wm.pos, Some(Vec2::from_pos(&spawn)));
    let viewarea = wm.viewarea.as_ref().unwrap();
    assert_eq!(viewarea.area, Area::centered(spawn, Pos::new(128, 128)));
    let section = wm.section.as_ref().unwrap();
    assert_eq!(section.area, Area::centered(spawn, Pos::new(128, 128)));
    assert_eq!(section.field.len(), 128 * 128);
    let inventory = wm.inventory.as_ref().unwrap();
    assert_eq!(inventory.1, 0);
    assert_eq!(
        inventory.0,
        vec![("<eyes>".to_string(), 1usize), ("<hands>".to_string(), 1usize)]
    );
}

/// Cutting a reed with a sharp stone: on a successful roll the reed falls,
/// the tile opens, and the cut is reported as a changed cell.
#[test]
fn cut_reed_scenario() {
    let mut world = World::new("w".to_string(), 9876);
    let reed_pos = Pos::new(1, 2);
    world.ground.set(reed_pos, Tile::structure(Ground::Dirt, Structure::Reed));
    let mut save = world.default_player();
    save.inventory = vec![(Item::SharpStone, 1)];
    world.add_player(&id("A"), save).unwrap();
    control(&mut world, "A", Control::Select(Selector::Idx(2)));
    world.update();
    world.update();
    world.update();
    // The loot roll is deterministic in the tick; at this tick it succeeds.
    control(&mut world, "A", Control::Interact(Some(Direction::East)));
    world.update();
    let saved = world.save_player(&id("A")).unwrap();
    assert!(saved.inventory.contains(&(Item::Reed, 1)));
    assert_eq!(world.ground.cell(reed_pos), Tile::ground(Ground::Dirt));
    let views = world.view();
    let wm = &views[0].1;
    let change = wm.change.as_ref().unwrap();
    assert!(change.iter().any(|(p, _)| *p == reed_pos));
}

/// Building without a claim is refused with the build-error sound.
#[test]
fn build_rejected_without_claim() {
    let mut world = World::new("w".to_string(), 9876);
    let mut save = world.default_player();
    save.inventory = vec![(Item::Tinder, 1), (Item::Pebble, 10)];
    world.add_player(&id("A"), save).unwrap();
    control(&mut world, "A", Control::Select(Selector::Idx(2)));
    world.update();
    control(&mut world, "A", Control::Interact(Some(Direction::North)));
    world.update();
    let views = world.view();
    let sounds = views[0].1.sounds.as_ref().unwrap();
    assert!(sounds.iter().any(|(kind, text)| *kind == SoundType::BuildError && text
        == "Need land claim to build"));
    // Nothing was built and nothing was paid.
    let saved = world.save_player(&id("A")).unwrap();
    assert!(saved.inventory.contains(&(Item::Tinder, 1)));
}

/// The first claim lands; a second claim thirty tiles away is refused.
#[test]
fn claim_distance_scenario() {
    let mut world = World::new("w".to_string(), 9876);
    let p1 = Pos::new(100, 2);
    let p2 = Pos::new(130, 2);
    world.ground.set(p1, Tile::ground(Ground::Dirt));
    world.ground.set(p2, Tile::ground(Ground::Dirt));
    let mut save1 = world.default_player();
    save1.pos = Vec2::from_pos(&p1);
    save1.inventory = vec![(Item::MarkerStone, 1)];
    world.add_player(&id("A"), save1).unwrap();
    let mut save2 = world.default_player();
    save2.pos = Vec2::from_pos(&p2);
    save2.inventory = vec![(Item::MarkerStone, 1)];
    world.add_player(&id("B"), save2).unwrap();
    control(&mut world, "A", Control::Select(Selector::Idx(2)));
    control(&mut world, "B", Control::Select(Selector::Idx(2)));
    world.update();
    control(&mut world, "A", Control::Interact(None));
    world.update();
    assert_eq!(world.claims.len(), 1);
    assert_eq!(world.claims[0].1, p1);
    control(&mut world, "B", Control::Interact(None));
    world.update();
    assert_eq!(world.claims.len(), 1);
    let views = world.view();
    let b_msg = views.iter().find(|(pid, _)| *pid == id("B")).unwrap();
    let sounds = b_msg.1.sounds.as_ref().unwrap();
    assert!(sounds.iter().any(|(kind, text)| *kind == SoundType::BuildError && text
        == "Too close to existing claim"));
}

/// A planted green seed grows one watered stage per chunk cycle.
#[test]
fn crop_growth_scenario() {
    let mut world = World::new("w".to_string(), 9876);
    let home = Pos::new(100, 2);
    let plot = Pos::new(101, 2);
    world.ground.set(home, Tile::ground(Ground::Dirt));
    world.ground.set(plot, Tile::ground(Ground::Dirt));
    let mut save = world.default_player();
    save.pos = Vec2::from_pos(&home);
    save.inventory = vec![
        (Item::MarkerStone, 1),
        (Item::GreenSeed, 1),
        (Item::FilledPitcher, 8),
    ];
    world.add_player(&id("A"), save).unwrap();
    // Claim the plot first: building needs an owned claim nearby.
    control(&mut world, "A", Control::Select(Selector::Idx(2)));
    world.update();
    control(&mut world, "A", Control::Interact(None));
    world.update();
    assert_eq!(world.claims.len(), 1);
    control(&mut world, "A", Control::Select(Selector::Idx(2)));
    world.update();
    control(&mut world, "A", Control::Interact(Some(Direction::East)));
    world.update();
    let planted = world.ground.cell(plot).structure;
    assert!(matches!(planted, Structure::Crop(c)
        if c.typ == dezl::crop::CropType::GreenSeed));
    // Watering enables the next stage; a full chunk cycle later it is due.
    control(&mut world, "A", Control::Select(Selector::Idx(2)));
    world.update();
    control(&mut world, "A", Control::Interact(Some(Direction::East)));
    world.update();
    for _ in 0..4097 {
        world.update();
    }
    world.ground.load_area(Area::new(Pos::new(96, 0), Pos::new(16, 8)));
    let grown = world.ground.cell(plot).structure;
    assert!(matches!(grown, Structure::Crop(c)
        if c.typ == dezl::crop::CropType::GreenSeedling && c.flags == 0));
}

/// A saved world comes back with its time, changes, claims and seed; a saved
/// player comes back with position and inventory.
#[test]
fn save_round_trip_scenario() {
    let mut world = World::new("w".to_string(), 9876);
    let mut save_a = world.default_player();
    save_a.inventory = vec![(Item::MarkerStone, 1)];
    save_a.pos = Vec2::from_pos(&Pos::new(100, 2));
    world.add_player(&id("A"), save_a).unwrap();
    let mut save_b = world.default_player();
    save_b.inventory = vec![(Item::Stone, 2)];
    world.add_player(&id("B"), save_b).unwrap();
    world.ground.set(Pos::new(100, 2), Tile::ground(Ground::Dirt));
    control(&mut world, "A", Control::Select(Selector::Idx(2)));
    world.update();
    control(&mut world, "A", Control::Interact(None));
    world.update();
    for _ in 0..148 {
        world.update();
    }
    let snapshot = world.save();
    let restored = World::load(world.save());
    assert_eq!(restored.time, snapshot.time);
    assert_eq!(restored.seed, snapshot.seed);
    assert_eq!(restored.ground.changes, snapshot.ground);
    assert_eq!(restored.claims.len(), snapshot.claims.len());
    for (left, right) in restored.claims.iter().zip(snapshot.claims.iter()) {
        assert_eq!(left.0, right.0);
        assert_eq!(left.1, right.1);
    }
    // The per-player save survives leaving and re-joining.
    let player_save = world.save_player(&id("A")).unwrap();
    let mut other = World::load(snapshot);
    other.add_player(&id("A"), player_save).unwrap();
    let reloaded = other.save_player(&id("A")).unwrap();
    let original = world.save_player(&id("A")).unwrap();
    assert_eq!(reloaded.pos, original.pos);
    assert_eq!(reloaded.inventory, original.inventory);
}

/// Crossing the viewport margin re-anchors it and sends exactly one section
/// covering only the newly exposed strip.
#[test]
fn view_differ_emits_minimal_strip() {
    let mut world = World::new("w".to_string(), 9876);
    let save = world.default_player();
    world.add_player(&id("A"), save).unwrap();
    let first = world.view();
    let first_area = first[0].1.viewarea.as_ref().unwrap().area;
    assert!(first[0].1.section.is_some());
    // Walk east until the margin is crossed; each view holds a section
    // exactly when the viewport was re-anchored.
    let mut sections = 0;
    for _ in 0..80 {
        control(&mut world, "A", Control::Move(Direction::East));
        world.update();
        let views = world.view();
        let wm = &views[0].1;
        assert_eq!(wm.section.is_some(), wm.viewarea.is_some());
        if let Some(section) = &wm.section {
            sections += 1;
            let new_area = wm.viewarea.as_ref().unwrap().area;
            // The strip is the part of the new viewport east of the old one.
            assert_eq!(section.area.min.x, first_area.min.x + first_area.size.x);
            assert_eq!(
                section.area.size.x,
                new_area.min.x + new_area.size.x - first_area.min.x - first_area.size.x
            );
            assert_eq!(section.area.size.y, 128);
        }
    }
    assert_eq!(sections, 1);
}

/// A masked final text frame is unmasked and consumed whole; malformed or
/// incomplete fronts are refused.
#[test]
fn ws_frame_decode() {
    // "hi" under mask [1, 2, 3, 4].
    let frame = vec![0x81u8, 0x82, 1, 2, 3, 4, 0x68 ^ 1, 0x69 ^ 2];
    assert_eq!(
        dezl::wire::ws_read_frame(&frame),
        Some((8usize, 1u8, vec![0x68u8, 0x69]))
    );

    // A 16-bit length: 126 zero bytes under a zero mask.
    let mut long = vec![0x81u8, 0xFE, 0x00, 0x7E, 0, 0, 0, 0];
    long.extend(std::iter::repeat(0u8).take(126));
    assert_eq!(
        dezl::wire::ws_read_frame(&long),
        Some((134usize, 1u8, vec![0u8; 126]))
    );

    // A continuation (fin unset), an extension bit, an unmasked frame, and a
    // frame whose payload has not all arrived are each refused.
    assert_eq!(dezl::wire::ws_read_frame(&vec![0x01u8, 0x82, 1, 2, 3, 4, 0, 0]), None);
    assert_eq!(dezl::wire::ws_read_frame(&vec![0x91u8, 0x82, 1, 2, 3, 4, 0, 0]), None);
    assert_eq!(dezl::wire::ws_read_frame(&vec![0x81u8, 0x02, 0, 0]), None);
    assert_eq!(dezl::wire::ws_read_frame(&vec![0x81u8, 0x82, 1, 2]), None);
}

/// The random-tick schedule repeats after a whole chunk cycle and stays
/// inside the chunk.
#[test]
fn tick_position_is_periodic() {
    for t in [0i64, 1, 17, 4095, 99_999] {
        let now = dezl::randomtick::tick_position(Tickstamp(t));
        let next_cycle = dezl::randomtick::tick_position(Tickstamp(t + 4096));
        let later = dezl::randomtick::tick_position(Tickstamp(t + 7 * 4096));
        assert_eq!(now, next_cycle);
        assert_eq!(now, later);
        assert!(now.x >= 0 && now.x < 64 && now.y >= 0 && now.y < 64);
    }
}
