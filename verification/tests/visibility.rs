use tombs::colors::white;
use tombs::config::Config;
use tombs::entity::Object;
use tombs::fov::FovMap;
use tombs::session::{Game, Messages};
use tombs::spawn::{make_item, make_monster, make_torch, MonsterKind};
use tombs::entity::Item;
use tombs::tile::{LevelMap, Tile};
use tombs::visibility::{
    after_action, draw_order, emitters, is_drawable, needs_recompute, recompute_visibility, update_fov_radius,
    LightSource,
};

fn game() -> Game {
    Game {
        map: LevelMap::filled(6, 5, Tile::empty()),
        log: Messages::new(),
        inventory: vec![],
        dungeon_level: 1,
    }
}

fn fov_of(cells: &[(usize, usize)]) -> FovMap {
    let mut grid = vec![vec![false; 5]; 6];
    for (x, y) in cells {
        grid[*x][*y] = true;
    }
    FovMap::from_cells(grid)
}

#[test]
fn fields_of_view() {
    let fov = fov_of(&[(1, 2), (5, 4)]);
    assert!(fov.is_in_fov(1, 2));
    assert!(fov.is_in_fov(5, 4));
    assert!(!fov.is_in_fov(2, 1));
    assert!(!fov.is_in_fov(-1, 2));
    assert!(!fov.is_in_fov(1, -2));
    assert!(!fov.is_in_fov(6, 4));
    assert!(!fov.is_in_fov(5, 5));
    assert!(!FovMap::dark().is_in_fov(0, 0));
    let ragged = FovMap::from_cells(vec![vec![true], vec![]]);
    assert!(ragged.is_in_fov(0, 0));
    assert!(!ragged.is_in_fov(1, 0));
}

#[test]
fn explored_stays_and_light_goes() {
    let mut game = game();
    game.map.set(4, 4, Tile::wall());
    let player = fov_of(&[(1, 1), (1, 2)]);
    let torch = fov_of(&[(3, 3), (1, 2), (4, 4)]);
    let lamp = fov_of(&[(3, 4)]);
    recompute_visibility(&mut game, &player, &vec![torch, lamp]);
    for x in 0..6usize {
        for y in 0..5usize {
            let tile = game.map.tiles[x][y];
            let lit = [(3, 3), (1, 2), (4, 4), (3, 4)].contains(&(x, y));
            let seen = [(1, 1), (1, 2)].contains(&(x, y));
            assert_eq!(tile.lit, lit);
            assert_eq!(tile.explored, lit || seen);
            assert_eq!(tile.blocked, (x, y) == (4, 4));
            assert_eq!(tile.block_sight, (x, y) == (4, 4));
        }
    }
    // the player walks off and every light goes out
    recompute_visibility(&mut game, &fov_of(&[(5, 0)]), &vec![]);
    for x in 0..6usize {
        for y in 0..5usize {
            let tile = game.map.tiles[x][y];
            assert!(!tile.lit);
            let explored = [(3, 3), (1, 2), (4, 4), (3, 4), (1, 1), (5, 0)].contains(&(x, y));
            assert_eq!(tile.explored, explored);
        }
    }
    recompute_visibility(&mut game, &FovMap::dark(), &vec![FovMap::dark()]);
    assert!(game.map.tiles[1][1].explored);
    assert!(game.map.tiles[3][3].explored);
    assert!(!game.map.tiles[0][0].explored);
}

#[test]
fn light_sources_are_listed_in_order() {
    let mut lantern = Object::new(4, 1, 'l', "lantern", white(), false);
    lantern.emitter = Some(tombs::entity::Emitter { radius: 6, color: white() });
    let objects = vec![
        Object::new(0, 0, '@', "player", white(), true),
        make_torch(2, 3),
        make_monster(MonsterKind::Orc, 1, 1),
        lantern,
    ];
    assert_eq!(
        emitters(&objects),
        vec![LightSource { x: 2, y: 3, radius: 2 }, LightSource { x: 4, y: 1, radius: 6 }]
    );
    assert!(emitters(&objects[..1]).is_empty());
}

#[test]
fn what_may_be_drawn() {
    let mut game = game();
    let fov = fov_of(&[(1, 1)]);
    let orc = make_monster(MonsterKind::Orc, 2, 2);
    let potion = make_item(Item::Heal, 2, 2);
    assert!(!is_drawable(&orc, &game.map, &fov));
    assert!(!is_drawable(&potion, &game.map, &fov));
    game.map.set(2, 2, Tile { explored: true, ..Tile::empty() });
    assert!(!is_drawable(&orc, &game.map, &fov));
    assert!(is_drawable(&potion, &game.map, &fov));
    game.map.set(2, 2, Tile { lit: true, ..Tile::empty() });
    assert!(is_drawable(&orc, &game.map, &fov));
    assert!(is_drawable(&make_monster(MonsterKind::Orc, 1, 1), &game.map, &fov));
}

#[test]
fn blockers_are_drawn_last() {
    let game = game();
    let fov = fov_of(&[(1, 1), (2, 2), (3, 3)]);
    let objects = vec![
        make_monster(MonsterKind::Orc, 1, 1),
        make_item(Item::Heal, 1, 1),
        make_monster(MonsterKind::Troll, 4, 4),
        make_monster(MonsterKind::Troll, 2, 2),
        make_torch(3, 3),
        make_item(Item::Sword, 0, 0),
    ];
    assert_eq!(draw_order(&objects, &game.map, &fov), vec![1, 4, 0, 3]);
    assert!(draw_order(&objects, &game.map, &FovMap::dark()).is_empty());
}

#[test]
fn eyes_adapt() {
    let config = Config::standard();
    let mut game = game();
    let mut objects = vec![Object::new(2, 2, '@', "player", white(), true)];
    objects[0].fov_radius = 5;
    update_fov_radius(&mut objects, &game, &config);
    assert_eq!(objects[0].fov_radius, 6);
    for _ in 0..10 {
        update_fov_radius(&mut objects, &game, &config);
    }
    assert_eq!(objects[0].fov_radius, 10);
    objects[0].fov_radius = 40;
    update_fov_radius(&mut objects, &game, &config);
    assert_eq!(objects[0].fov_radius, 10);
    game.map.set(2, 2, Tile { lit: true, ..Tile::empty() });
    update_fov_radius(&mut objects, &game, &config);
    assert_eq!(objects[0].fov_radius, 3);
    objects[0].fov_radius = i32::MAX;
    game.map.set(2, 2, Tile::empty());
    update_fov_radius(&mut objects, &game, &config);
    assert_eq!(objects[0].fov_radius, 10);
}

#[test]
fn when_to_look_again() {
    let objects = vec![Object::new(2, 3, '@', "player", white(), true)];
    assert!(needs_recompute(None, &objects));
    assert!(needs_recompute(Some((2, 2)), &objects));
    assert!(needs_recompute(Some((3, 3)), &objects));
    assert!(!needs_recompute(Some((2, 3)), &objects));
}

#[test]
fn a_new_level_is_looked_at_anew() {
    let mut game = game();
    game.dungeon_level = 3;
    assert_eq!(after_action(Some((2, 3)), 3, &game), Some((2, 3)));
    assert_eq!(after_action(Some((2, 3)), 2, &game), None);
    assert_eq!(after_action(None, 3, &game), None);
}
