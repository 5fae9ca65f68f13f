use tombs::colors::white;
use tombs::config::Config;
use tombs::entity::{DeathCallback, Fighter, Item, Object};
use tombs::mapgen::{
    create_h_tunnel, create_room, create_v_tunnel, dig_tunnels, generate, make_map,
    make_map_debug, overlaps_any, place_item, place_monster, place_objects, place_torch, try_room,
};
use tombs::spawn::{
    item_chances, make_item, make_monster, make_stairs, make_torch, max_items, max_monsters,
    monster_chances, MonsterKind,
};
use tombs::tile::{LevelMap, Rect, Tile};

fn player() -> Object {
    let mut player = Object::new(0, 0, '@', "player", white(), true);
    player.alive = true;
    player.fighter = Some(Fighter {
        base_max_hp: 100,
        hp: 100,
        base_defense: 1,
        base_power: 2,
        xp: 0,
        on_death: DeathCallback::Player,
    });
    player
}

fn reachable(map: &LevelMap, from: (i32, i32)) -> Vec<Vec<bool>> {
    let width = map.tiles.len();
    let height = map.tiles[0].len();
    let mut seen = vec![vec![false; height]; width];
    let mut todo = vec![(from.0 as usize, from.1 as usize)];
    seen[from.0 as usize][from.1 as usize] = true;
    while let Some((x, y)) = todo.pop() {
        let mut next = vec![];
        if x > 0 {
            next.push((x - 1, y));
        }
        if y > 0 {
            next.push((x, y - 1));
        }
        if x + 1 < width {
            next.push((x + 1, y));
        }
        if y + 1 < height {
            next.push((x, y + 1));
        }
        for (nx, ny) in next {
            if !seen[nx][ny] && !map.tiles[nx][ny].blocked {
                seen[nx][ny] = true;
                todo.push((nx, ny));
            }
        }
    }
    seen
}

#[test]
fn rectangles() {
    let room = Rect::new(3, 4, 6, 8);
    assert_eq!(room, Rect { x1: 3, y1: 4, x2: 9, y2: 12 });
    assert_eq!(room.center(), (6, 8));
    assert_eq!(Rect::new(0, 0, 7, 3).center(), (3, 1));
    assert_eq!(Rect::new(-7, -3, 0, 0).center(), (-7, -3));
    assert_eq!(Rect::new(-8, -4, 3, 1).center(), (-6, -3));
    let touching = Rect::new(9, 4, 5, 5);
    let apart = Rect::new(10, 4, 5, 5);
    let below = Rect::new(3, 13, 2, 2);
    assert!(room.intersects_with(&touching));
    assert!(touching.intersects_with(&room));
    assert!(!room.intersects_with(&apart));
    assert!(!room.intersects_with(&below));
    assert!(room.intersects_with(&room));
    assert!(room.intersects_with(&Rect::new(5, 6, 1, 1)));
}

#[test]
fn a_room_keeps_its_walls() {
    let mut map = LevelMap::filled(10, 8, Tile::wall());
    create_room(Rect::new(2, 1, 4, 3), &mut map);
    for x in 0..10 {
        for y in 0..8 {
            let floor = (3..6).contains(&x) && (2..4).contains(&y);
            assert_eq!(map.tiles[x][y], if floor { Tile::empty() } else { Tile::wall() });
        }
    }
    let before = map.clone();
    create_room(Rect::new(7, 7, 1, 1), &mut map);
    create_room(Rect::new(7, 1, 0, 5), &mut map);
    assert_eq!(map.tiles, before.tiles);
}

#[test]
fn tunnels_run_both_ways() {
    let mut map = LevelMap::filled(10, 8, Tile::wall());
    create_h_tunnel(7, 3, 2, &mut map);
    create_v_tunnel(1, 5, 4, &mut map);
    for x in 0..10 {
        for y in 0..8 {
            let open = (y == 2 && (3..=7).contains(&x)) || (x == 4 && (1..=5).contains(&y));
            assert_eq!(map.tiles[x][y].blocked, !open, "at {} {}", x, y);
        }
    }
    let mut other = LevelMap::filled(10, 8, Tile::wall());
    create_h_tunnel(3, 7, 2, &mut other);
    create_v_tunnel(5, 1, 4, &mut other);
    assert_eq!(other.tiles, map.tiles);
    create_h_tunnel(9, 9, 7, &mut other);
    assert!(!other.tiles[9][7].blocked);
}

#[test]
fn generated_rooms_never_touch() {
    let config = Config::standard();
    for round in 0..40 {
        let mut objects = vec![player()];
        let level = generate(&mut objects, 1 + round % 9, &config);
        assert!(!level.rooms.is_empty());
        assert!(level.rooms.len() <= 30);
        for (i, a) in level.rooms.iter().enumerate() {
            assert!(0 <= a.x1 && a.x2 < 80 && 0 <= a.y1 && a.y2 < 43);
            assert!((6..=10).contains(&(a.x2 - a.x1)));
            assert!((6..=10).contains(&(a.y2 - a.y1)));
            for b in &level.rooms[i + 1..] {
                assert!(!a.intersects_with(b));
                assert!(a.x2 < b.x1 || b.x2 < a.x1 || a.y2 < b.y1 || b.y2 < a.y1);
            }
            for x in a.x1 + 1..a.x2 {
                for y in a.y1 + 1..a.y2 {
                    assert_eq!(level.map.tiles[x as usize][y as usize], Tile::empty());
                }
            }
        }
    }
}

#[test]
fn the_stairs_can_be_reached() {
    let config = Config::standard();
    for round in 0..40 {
        let mut objects = vec![player(), make_monster(MonsterKind::Orc, 3, 3)];
        let level = generate(&mut objects, 1 + round % 9, &config);
        let map = &level.map;
        assert_eq!(map.tiles.len(), 80);
        assert!(map.tiles.iter().all(|column| column.len() == 43));
        let start = objects[0].pos();
        assert_eq!(start, level.rooms[0].center());
        let stairs = objects.last().unwrap();
        assert_eq!(stairs.name, "stairs");
        assert_eq!(stairs.pos(), level.rooms.last().unwrap().center());
        assert!(stairs.always_visible);
        let seen = reachable(map, start);
        assert!(seen[stairs.x as usize][stairs.y as usize]);
        for room in &level.rooms {
            let (x, y) = room.center();
            assert!(seen[x as usize][y as usize]);
        }
        for x in 0..80usize {
            for y in 0..43usize {
                let tile = map.tiles[x][y];
                assert!(tile == Tile::wall() || tile == Tile::empty());
                if x == 0 || y == 0 || x == 79 || y == 42 {
                    assert!(tile.blocked);
                }
            }
        }
        for object in &objects {
            assert!(!map.tiles[object.x as usize][object.y as usize].blocked);
        }
    }
}

#[test]
fn only_the_player_is_kept() {
    let config = Config::standard();
    let mut hero = player();
    hero.level = 4;
    hero.x = 70;
    hero.y = 40;
    let mut objects = vec![hero, make_monster(MonsterKind::Troll, 3, 3), make_stairs(5, 5)];
    let map = make_map(&mut objects, 3, &config);
    assert_eq!(objects[0].name, "player");
    assert_eq!(objects[0].level, 4);
    assert_eq!(objects[0].fighter.unwrap().hp, 100);
    assert!(!map.tiles[objects[0].x as usize][objects[0].y as usize].blocked);
    assert_eq!(objects.iter().filter(|o| o.name == "stairs").count(), 1);
    assert_eq!(objects.iter().filter(|o| o.name == "player").count(), 1);
    for object in &objects[1..objects.len() - 1] {
        let known = ["orc", "troll", "healing potion", "scroll of confuse", "torch"];
        assert!(known.contains(&object.name.as_str()), "{}", object.name);
    }
}

#[test]
fn what_lives_at_which_depth() {
    assert_eq!(max_monsters(0), 0);
    assert_eq!(max_monsters(1), 2);
    assert_eq!(max_monsters(3), 2);
    assert_eq!(max_monsters(4), 3);
    assert_eq!(max_monsters(5), 3);
    assert_eq!(max_monsters(6), 5);
    assert_eq!(max_items(0), 0);
    assert_eq!(max_items(1), 1);
    assert_eq!(max_items(4), 2);
    assert_eq!(monster_chances(1), vec![80, 0]);
    assert_eq!(monster_chances(3), vec![80, 15]);
    assert_eq!(monster_chances(5), vec![80, 30]);
    assert_eq!(monster_chances(7), vec![80, 60]);
    assert_eq!(item_chances(1), vec![35, 0, 0, 0, 0, 0]);
    assert_eq!(item_chances(2), vec![35, 0, 0, 10, 0, 0]);
    assert_eq!(item_chances(4), vec![35, 25, 0, 10, 5, 0]);
    assert_eq!(item_chances(6), vec![35, 25, 25, 10, 5, 0]);
    assert_eq!(item_chances(8), vec![35, 25, 25, 10, 5, 15]);
}

#[test]
fn a_room_gets_what_its_depth_allows() {
    let mut map = LevelMap::filled(20, 20, Tile::wall());
    let room = Rect::new(2, 2, 10, 10);
    create_room(room, &mut map);
    let mut trolls = 0;
    let mut scrolls = 0;
    for round in 0..300 {
        let level = if round % 2 == 0 { 1 } else { 7 };
        let mut objects = vec![player()];
        place_objects(room, &map, &mut objects, level);
        assert_eq!(objects[0].name, "player");
        let placed = &objects[1..];
        let monsters = placed.iter().filter(|o| o.fighter.is_some()).count();
        let items = placed.iter().filter(|o| o.item.is_some()).count();
        let torches = placed.iter().filter(|o| o.emitter.is_some()).count();
        assert_eq!(monsters + items + torches, placed.len());
        assert!(monsters <= if level == 1 { 2 } else { 5 });
        assert!(items <= if level == 1 { 1 } else { 2 });
        assert!(torches <= 1);
        let mut standing = vec![];
        for object in placed {
            assert!((3..12).contains(&object.x) && (3..12).contains(&object.y));
            if object.blocks {
                assert!(!standing.contains(&object.pos()));
                standing.push(object.pos());
            }
            if level == 1 {
                assert!(object.name != "troll");
                if object.item.is_some() {
                    assert_eq!(object.item, Some(Item::Heal));
                }
            }
            if object.name == "troll" {
                trolls += 1;
            }
            if object.name.starts_with("scroll") {
                scrolls += 1;
            }
        }
        let order: Vec<u8> = placed
            .iter()
            .map(|o| if o.fighter.is_some() { 0 } else if o.item.is_some() { 1 } else { 2 })
            .collect();
        assert!(order.windows(2).all(|pair| pair[0] <= pair[1]));
    }
    assert!(trolls > 0);
    assert!(scrolls > 0);
}

#[test]
fn what_the_generator_makes() {
    let orc = make_monster(MonsterKind::Orc, 4, 5);
    assert_eq!((orc.x, orc.y, orc.glyph, orc.name.as_str()), (4, 5, 'o', "orc"));
    assert!(orc.blocks && orc.alive && orc.ai.is_some());
    let f = orc.fighter.unwrap();
    assert_eq!((f.base_max_hp, f.hp, f.base_defense, f.base_power, f.xp), (20, 20, 0, 4, 35));
    assert_eq!(f.on_death, DeathCallback::Monster);
    let troll = make_monster(MonsterKind::Troll, 1, 2);
    let f = troll.fighter.unwrap();
    assert_eq!((f.base_max_hp, f.hp, f.base_defense, f.base_power, f.xp), (30, 30, 2, 8, 100));
    assert_eq!((troll.glyph, troll.name.as_str()), ('T', "troll"));
    let sword = make_item(Item::Sword, 1, 1);
    assert_eq!(sword.equipment.unwrap().power_bonus, 3);
    assert!(!sword.equipment.unwrap().equipped);
    assert!(sword.always_visible && !sword.blocks);
    let shield = make_item(Item::Shield, 1, 1);
    assert_eq!(shield.equipment.unwrap().defense_bonus, 1);
    let potion = make_item(Item::Heal, 2, 3);
    assert_eq!((potion.glyph, potion.name.as_str()), ('!', "healing potion"));
    assert_eq!(potion.item, Some(Item::Heal));
    assert!(potion.equipment.is_none());
    assert_eq!(make_item(Item::Lightning, 0, 0).name, "scroll of lightning bolt");
    assert_eq!(make_item(Item::Fireball, 0, 0).name, "scroll of fireball");
    assert_eq!(make_item(Item::Confuse, 0, 0).name, "scroll of confuse");
    let torch = make_torch(3, 3);
    assert_eq!(torch.emitter.unwrap().radius, 2);
    assert!(torch.always_visible);
    let stairs = make_stairs(7, 8);
    assert_eq!((stairs.glyph, stairs.pos()), ('<', (7, 8)));
}

#[test]
fn the_debug_level_has_no_walls() {
    let config = Config::standard();
    let mut objects = vec![player(), make_monster(MonsterKind::Orc, 1, 1)];
    let map = make_map_debug(&mut objects, 1, &config);
    assert_eq!(objects.len(), 1);
    assert_eq!(objects[0].pos(), (50, 50));
    assert_eq!(map.tiles.len(), 80);
    assert!(map.tiles.iter().all(|column| column.len() == 43));
    assert!(map.tiles.iter().flatten().all(|tile| *tile == Tile::empty()));
}

#[test]
fn small_dungeons_work_too() {
    let mut config = Config::standard();
    config.map_width = 5;
    config.map_height = 4;
    config.room_min_size = 2;
    config.room_max_size = 3;
    config.max_rooms = 1;
    assert!(config.check());
    for _ in 0..50 {
        let mut objects = vec![player()];
        let level = generate(&mut objects, 1, &config);
        assert_eq!(level.rooms.len(), 1);
        let room = level.rooms[0];
        assert!(room.x2 <= 4 && room.y2 <= 3);
        assert_eq!(objects[0].pos(), room.center());
        assert_eq!(objects.last().unwrap().pos(), room.center());
    }
    config.room_max_size = 5;
    assert!(!config.check());
}

#[test]
fn tunnels_turn_either_way() {
    let config = Config::standard();
    let mut across_first = 0;
    let mut down_first = 0;
    let mut sizes = std::collections::BTreeSet::new();
    for _ in 0..60 {
        let mut objects = vec![player()];
        let level = generate(&mut objects, 1, &config);
        for pair in level.rooms.windows(2) {
            let (from_x, from_y) = pair[0].center();
            let (to_x, to_y) = pair[1].center();
            let one = !level.map.tiles[to_x as usize][from_y as usize].blocked;
            let other = !level.map.tiles[from_x as usize][to_y as usize].blocked;
            assert!(one || other);
            if one && !other {
                across_first += 1;
            }
            if other && !one {
                down_first += 1;
            }
        }
        for room in &level.rooms {
            sizes.insert(room.x2 - room.x1);
        }
    }
    assert!(across_first > 0);
    assert!(down_first > 0);
    assert_eq!(sizes.into_iter().collect::<Vec<_>>(), vec![6, 7, 8, 9, 10]);
}

#[test]
fn nothing_is_open_but_rooms_and_tunnels() {
    let config = Config::standard();
    for _ in 0..20 {
        let mut objects = vec![player()];
        let level = generate(&mut objects, 2, &config);
        let centers: Vec<(i32, i32)> = level.rooms.iter().map(|room| room.center()).collect();
        let between = |a: i32, b: i32, v: i32| (a <= v && v <= b) || (b <= v && v <= a);
        for x in 0..80 {
            for y in 0..43 {
                if level.map.tiles[x as usize][y as usize].blocked {
                    continue;
                }
                let in_room = level
                    .rooms
                    .iter()
                    .any(|r| r.x1 < x && x < r.x2 && r.y1 < y && y < r.y2);
                let on_tunnel = centers.windows(2).any(|pair| {
                    let (from, to) = (pair[0], pair[1]);
                    (y == from.1 && between(from.0, to.0, x))
                        || (x == to.0 && between(from.1, to.1, y))
                        || (x == from.0 && between(from.1, to.1, y))
                        || (y == to.1 && between(from.0, to.0, x))
                });
                assert!(in_room || on_tunnel, "{} {}", x, y);
            }
        }
    }
}

#[test]
fn placing_where_there_is_room() {
    let mut map = LevelMap::filled(8, 8, Tile::empty());
    map.set(2, 2, Tile::wall());
    let mut objects = vec![player()];
    objects[0].x = 1;
    objects[0].y = 1;
    place_monster(MonsterKind::Troll, 3, 4, &map, &mut objects);
    assert_eq!(objects.len(), 2);
    assert_eq!((objects[1].name.as_str(), objects[1].pos()), ("troll", (3, 4)));
    assert!(objects[1].alive && objects[1].blocks);
    assert_eq!(objects[1].fighter.unwrap().hp, 30);
    // on rock, on the player and on the troll nothing is placed
    place_monster(MonsterKind::Orc, 2, 2, &map, &mut objects);
    place_monster(MonsterKind::Orc, 1, 1, &map, &mut objects);
    place_monster(MonsterKind::Orc, 3, 4, &map, &mut objects);
    place_item(Item::Sword, 3, 4, &map, &mut objects);
    place_item(Item::Heal, 2, 2, &map, &mut objects);
    place_torch(1, 1, &map, &mut objects);
    place_torch(2, 2, &map, &mut objects);
    assert_eq!(objects.len(), 2);
    place_item(Item::Confuse, 5, 5, &map, &mut objects);
    assert_eq!(objects.len(), 3);
    assert_eq!((objects[2].name.as_str(), objects[2].pos()), ("scroll of confuse", (5, 5)));
    assert_eq!(objects[2].item, Some(Item::Confuse));
    // what does not block leaves room for more
    place_torch(5, 5, &map, &mut objects);
    place_item(Item::Shield, 5, 5, &map, &mut objects);
    place_monster(MonsterKind::Orc, 5, 5, &map, &mut objects);
    assert_eq!(objects.len(), 6);
    assert_eq!((objects[3].name.as_str(), objects[3].pos()), ("torch", (5, 5)));
    assert_eq!(objects[3].emitter.unwrap().radius, 2);
    assert_eq!(objects[4].equipment.unwrap().defense_bonus, 1);
    assert_eq!((objects[5].name.as_str(), objects[5].pos()), ("orc", (5, 5)));
    // and the orc leaves none
    place_torch(5, 5, &map, &mut objects);
    assert_eq!(objects.len(), 6);
    assert_eq!(objects[0].name, "player");
    assert_eq!(objects[1].name, "troll");
}

#[test]
fn tunnels_of_either_shape() {
    let mut across = LevelMap::filled(10, 8, Tile::wall());
    dig_tunnels((2, 1), (6, 5), true, &mut across);
    let mut down = LevelMap::filled(10, 8, Tile::wall());
    dig_tunnels((2, 1), (6, 5), false, &mut down);
    for x in 0..10 {
        for y in 0..8 {
            let on_across = (y == 1 && (2..=6).contains(&x)) || (x == 6 && (1..=5).contains(&y));
            let on_down = (x == 2 && (1..=5).contains(&y)) || (y == 5 && (2..=6).contains(&x));
            let tile = |open| if open { Tile::empty() } else { Tile::wall() };
            assert_eq!(across.tiles[x as usize][y as usize], tile(on_across));
            assert_eq!(down.tiles[x as usize][y as usize], tile(on_down));
        }
    }
    let mut back = LevelMap::filled(10, 8, Tile::wall());
    dig_tunnels((6, 5), (2, 1), false, &mut back);
    assert_eq!(back.tiles, across.tiles);
    let mut spot = LevelMap::filled(10, 8, Tile::wall());
    dig_tunnels((3, 3), (3, 3), true, &mut spot);
    assert_eq!(spot.tiles.iter().flatten().filter(|t| !t.blocked).count(), 1);
}

#[test]
fn overlapping_rooms_are_told() {
    let rooms = vec![Rect::new(1, 1, 4, 4), Rect::new(10, 1, 4, 4)];
    assert!(overlaps_any(&rooms, &Rect::new(5, 5, 3, 3)));
    assert!(overlaps_any(&rooms, &Rect::new(12, 3, 6, 6)));
    assert!(!overlaps_any(&rooms, &Rect::new(6, 1, 3, 4)));
    assert!(!overlaps_any(&rooms, &Rect::new(1, 6, 4, 4)));
    assert!(!overlaps_any(&vec![], &Rect::new(1, 1, 4, 4)));
}

#[test]
fn rooms_are_taken_or_refused() {
    let mut map = LevelMap::filled(30, 20, Tile::wall());
    let mut rooms = vec![];
    let mut objects = vec![player(), make_monster(MonsterKind::Orc, 9, 9)];
    let first = Rect::new(2, 2, 6, 6);
    assert!(try_room(first, true, 1, &mut map, &mut rooms, &mut objects));
    assert_eq!(rooms, vec![first]);
    assert_eq!(objects[0].pos(), (5, 5));
    assert_eq!(objects[0].name, "player");
    assert_eq!((objects[1].name.as_str(), objects[1].pos()), ("orc", (9, 9)));
    for x in 0..30 {
        for y in 0..20 {
            let floor = (3..8).contains(&x) && (3..8).contains(&y);
            assert_eq!(map.tiles[x][y].blocked, !floor);
        }
    }
    for object in &objects[2..] {
        assert!((3..8).contains(&object.x) && (3..8).contains(&object.y));
    }

    // a room that touches the first is refused and nothing changes
    let before = (map.tiles.clone(), objects.len());
    assert!(!try_room(Rect::new(8, 4, 6, 6), false, 1, &mut map, &mut rooms, &mut objects));
    assert_eq!(rooms, vec![first]);
    assert_eq!((map.tiles.clone(), objects.len()), before);

    // the second room is joined to the first down and then across
    let second = Rect::new(15, 9, 8, 6);
    let count = objects.len();
    assert!(try_room(second, false, 1, &mut map, &mut rooms, &mut objects));
    assert_eq!(rooms, vec![first, second]);
    assert_eq!(second.center(), (19, 12));
    assert_eq!(objects[0].pos(), (5, 5));
    for x in 0..30i32 {
        for y in 0..20i32 {
            let floor = ((3..8).contains(&x) && (3..8).contains(&y))
                || ((16..23).contains(&x) && (10..15).contains(&y));
            let tunnel = (x == 5 && (5..=12).contains(&y)) || (y == 12 && (5..=19).contains(&x));
            assert_eq!(map.tiles[x as usize][y as usize].blocked, !(floor || tunnel), "{} {}", x, y);
        }
    }
    for object in &objects[count..] {
        assert!((16..23).contains(&object.x) && (10..15).contains(&object.y));
    }

    // the third across and then down
    let third = Rect::new(2, 12, 5, 5);
    assert!(try_room(third, true, 1, &mut map, &mut rooms, &mut objects));
    assert_eq!(third.center(), (4, 14));
    for x in 4..=19usize {
        assert!(!map.tiles[x][12].blocked);
    }
    for y in 12..=14usize {
        assert!(!map.tiles[4][y].blocked);
    }
    assert!(map.tiles[19][16].blocked);
    assert_eq!(rooms.len(), 3);
}

#[test]
fn what_blocks_stands_apart() {
    let config = Config::standard();
    for round in 0..40 {
        let mut objects = vec![player()];
        generate(&mut objects, 1 + round % 9, &config);
        let mut taken = std::collections::BTreeSet::new();
        for object in &objects[1..] {
            if object.blocks {
                assert!(taken.insert(object.pos()), "two on {:?}", object.pos());
            }
        }
    }
}
