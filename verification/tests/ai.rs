use tombs::ai::{ai_basic, ai_confused, ai_take_turn, confused_step};
use tombs::colors::{red, white};
use tombs::entity::{Ai, DeathCallback, Fighter, Object};
use tombs::fov::FovMap;
use tombs::session::{Game, Messages};
use tombs::spawn::{make_monster, MonsterKind};
use tombs::tile::{LevelMap, Tile};

fn player_at(x: i32, y: i32) -> Object {
    let mut player = Object::new(x, y, '@', "player", white(), true);
    player.alive = true;
    player.fighter = Some(Fighter {
        base_max_hp: 100,
        hp: 100,
        base_defense: 1,
        base_power: 2,
        xp: 0,
        on_death: DeathCallback::Player,
    });
    player
}

fn walled_game(width: i32, height: i32) -> Game {
    let mut map = LevelMap::filled(width, height, Tile::wall());
    for x in 1..width - 1 {
        for y in 1..height - 1 {
            map.set(x, y, Tile::empty());
        }
    }
    Game { map, log: Messages::new(), inventory: vec![], dungeon_level: 1 }
}

fn all_seen(width: usize, height: usize) -> FovMap {
    FovMap::from_cells(vec![vec![true; height]; width])
}

fn is_basic(ai: &Option<Ai>) -> bool {
    matches!(ai, Some(Ai::Basic))
}

fn turns_left(ai: &Option<Ai>) -> Option<i32> {
    match ai {
        Some(Ai::Confused { previous_ai, num_turns }) => {
            assert!(matches!(**previous_ai, Ai::Basic));
            Some(*num_turns)
        }
        _ => None,
    }
}

#[test]
fn a_monster_in_sight_comes_closer() {
    let mut game = walled_game(12, 12);
    let mut objects = vec![player_at(2, 2), make_monster(MonsterKind::Orc, 6, 5)];
    let fov = all_seen(12, 12);
    ai_take_turn(1, &mut game, &mut objects, &fov);
    assert_eq!(objects[1].pos(), (5, 4));
    assert!(is_basic(&objects[1].ai));
    ai_take_turn(1, &mut game, &mut objects, &fov);
    assert_eq!(objects[1].pos(), (4, 3));
    // two across and one up: only the step across rounds to a full step
    ai_take_turn(1, &mut game, &mut objects, &fov);
    assert_eq!(objects[1].pos(), (3, 3));
    assert_eq!(objects[0].fighter.unwrap().hp, 100);
    assert_eq!(game.log.len(), 0);
    // one step away now: the orc's power 4 meets defense 1
    ai_take_turn(1, &mut game, &mut objects, &fov);
    assert_eq!(objects[1].pos(), (3, 3));
    assert_eq!(objects[0].fighter.unwrap().hp, 97);
    assert_eq!(game.log.entries[0].text, "orc attacks player for 3 hit points.");
}

#[test]
fn a_monster_out_of_sight_stays() {
    let mut game = walled_game(12, 12);
    let mut objects = vec![player_at(2, 2), make_monster(MonsterKind::Orc, 3, 2)];
    let ai = ai_basic(1, &mut game, &mut objects, &FovMap::dark());
    assert!(matches!(ai, Ai::Basic));
    assert_eq!(objects[1].pos(), (3, 2));
    assert_eq!(objects[0].fighter.unwrap().hp, 100);
    assert_eq!(game.log.len(), 0);
}

#[test]
fn diagonal_neighbours_attack() {
    let mut game = walled_game(12, 12);
    let mut objects = vec![player_at(2, 2), make_monster(MonsterKind::Troll, 3, 3)];
    ai_take_turn(1, &mut game, &mut objects, &all_seen(12, 12));
    assert_eq!(objects[1].pos(), (3, 3));
    assert_eq!(objects[0].fighter.unwrap().hp, 93);
}

#[test]
fn the_dead_are_left_in_peace() {
    let mut game = walled_game(12, 12);
    let mut player = player_at(2, 2);
    player.fighter = Some(Fighter { hp: 0, ..player.fighter.unwrap() });
    let mut objects = vec![player, make_monster(MonsterKind::Troll, 3, 2)];
    ai_take_turn(1, &mut game, &mut objects, &all_seen(12, 12));
    assert_eq!(objects[0].fighter.unwrap().hp, 0);
    assert_eq!(game.log.len(), 0);
}

#[test]
fn a_monster_kills_and_takes_the_experience() {
    let mut game = walled_game(12, 12);
    let mut player = player_at(2, 2);
    player.fighter = Some(Fighter { hp: 3, xp: 40, ..player.fighter.unwrap() });
    let mut objects = vec![player, make_monster(MonsterKind::Orc, 3, 2)];
    ai_take_turn(1, &mut game, &mut objects, &all_seen(12, 12));
    assert_eq!(objects[0].fighter.unwrap().hp, 0);
    assert!(!objects[0].alive);
    assert_eq!(objects[0].glyph, '%');
    assert_eq!(objects[1].fighter.unwrap().xp, 75);
    assert_eq!(game.log.entries[1].text, "You died!");
    assert_eq!(game.log.entries[1].color, red());
}

#[test]
fn confusion_wears_off_exactly() {
    let mut game = walled_game(12, 12);
    let mut orc = make_monster(MonsterKind::Orc, 6, 6);
    orc.ai = Some(Ai::Confused { previous_ai: Box::new(Ai::Basic), num_turns: 2 });
    let mut objects = vec![player_at(2, 2), orc];
    let fov = FovMap::dark();
    let mut seen = vec![];
    for _ in 0..3 {
        let before = objects[1].pos();
        ai_take_turn(1, &mut game, &mut objects, &fov);
        let after = objects[1].pos();
        assert!((after.0 - before.0).abs() <= 1 && (after.1 - before.1).abs() <= 1);
        seen.push(turns_left(&objects[1].ai));
    }
    assert_eq!(seen, vec![Some(1), Some(0), Some(-1)]);
    assert_eq!(game.log.len(), 3);
    assert_eq!(game.log.entries[0].text, "The orc stumbles around in confusion.");
    let before = objects[1].pos();
    ai_take_turn(1, &mut game, &mut objects, &fov);
    assert!(is_basic(&objects[1].ai));
    assert_eq!(objects[1].pos(), before);
    assert_eq!(game.log.entries[3].text, "The orc is no longer confused!");
    assert_eq!(game.log.entries[3].color, red());
    ai_take_turn(1, &mut game, &mut objects, &fov);
    assert!(is_basic(&objects[1].ai));
    assert_eq!(game.log.len(), 4);
}

#[test]
fn nested_confusion_is_shed_at_once() {
    let mut game = walled_game(12, 12);
    let nested = Ai::Confused {
        previous_ai: Box::new(Ai::Confused { previous_ai: Box::new(Ai::Basic), num_turns: 7 }),
        num_turns: -1,
    };
    let mut orc = make_monster(MonsterKind::Orc, 6, 6);
    orc.ai = Some(nested);
    let mut objects = vec![player_at(2, 2), orc];
    ai_take_turn(1, &mut game, &mut objects, &FovMap::dark());
    assert!(is_basic(&objects[1].ai));
}

#[test]
fn a_confused_step_goes_where_it_is_told() {
    let mut game = walled_game(12, 12);
    let mut objects = vec![player_at(2, 2), make_monster(MonsterKind::Orc, 6, 6)];
    let ai = confused_step(1, &mut game, &mut objects, Box::new(Ai::Basic), 5, -1, 1);
    assert_eq!(objects[1].pos(), (5, 7));
    assert_eq!(turns_left(&Some(ai)), Some(4));
    let ai = confused_step(1, &mut game, &mut objects, Box::new(Ai::Basic), 0, 0, 0);
    assert_eq!(objects[1].pos(), (5, 7));
    assert_eq!(turns_left(&Some(ai)), Some(-1));
    objects[1].x = 1;
    let ai = confused_step(1, &mut game, &mut objects, Box::new(Ai::Basic), 3, -1, 0);
    assert_eq!(objects[1].pos(), (1, 7));
    assert_eq!(turns_left(&Some(ai)), Some(2));
    let ai = confused_step(1, &mut game, &mut objects, Box::new(Ai::Basic), -1, 1, 1);
    assert_eq!(objects[1].pos(), (1, 7));
    assert!(matches!(ai, Ai::Basic));
}

#[test]
fn stumbling_goes_every_way() {
    let mut ends = std::collections::BTreeSet::new();
    for _ in 0..400 {
        let mut game = walled_game(12, 12);
        let mut objects = vec![player_at(2, 2), make_monster(MonsterKind::Orc, 6, 6)];
        ai_confused(1, &mut game, &mut objects, Box::new(Ai::Basic), 4);
        ends.insert(objects[1].pos());
    }
    let all: Vec<(i32, i32)> = (5..=7).flat_map(|x| (5..=7).map(move |y| (x, y))).collect();
    assert_eq!(ends.into_iter().collect::<Vec<_>>(), all);
}

#[test]
fn stumbling_stays_within_a_step() {
    let mut moved = false;
    for _ in 0..200 {
        let mut game = walled_game(12, 12);
        let mut objects = vec![player_at(2, 2), make_monster(MonsterKind::Orc, 6, 6)];
        let ai = ai_confused(1, &mut game, &mut objects, Box::new(Ai::Basic), 4);
        assert_eq!(turns_left(&Some(ai)), Some(3));
        let (x, y) = objects[1].pos();
        assert!((5..=7).contains(&x) && (5..=7).contains(&y));
        moved = moved || (x, y) != (6, 6);
        assert_eq!(game.log.len(), 1);
    }
    assert!(moved);
}

#[test]
fn copies_of_behaviours() {
    let confused = Ai::Confused { previous_ai: Box::new(Ai::Basic), num_turns: 3 };
    assert!(confused.is_confused());
    assert!(!Ai::Basic.is_confused());
    let copy = confused.duplicate();
    assert_eq!(turns_left(&Some(copy)), Some(3));
    assert_eq!(turns_left(&Some(confused.clone())), Some(3));
    assert!(matches!(confused.into_root(), Ai::Basic));
}
