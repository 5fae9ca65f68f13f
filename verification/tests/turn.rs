use tombs::colors::{red, white};
use tombs::config::Config;
use tombs::entity::{Ai, DeathCallback, Fighter, Item, Object, PlayerAction, Slot};
use tombs::fov::FovMap;
use tombs::intent::{
    apply_player_intent, character_sheet, intent_is_valid, new_game, next_level, PlayerIntent,
};
use tombs::items::Target;
use tombs::session::{Game, Messages};
use tombs::spawn::{make_item, make_monster, make_stairs, MonsterKind};
use tombs::tile::{LevelMap, Tile};
use tombs::turn::{check_arranged, check_limits, monsters_turn, run_ai_turns};

fn player_at(x: i32, y: i32) -> Object {
    let mut player = Object::new(x, y, '@', "player", white(), true);
    player.alive = true;
    player.fighter = Some(Fighter {
        base_max_hp: 100,
        hp: 100,
        base_defense: 1,
        base_power: 2,
        xp: 0,
        on_death: DeathCallback::Player,
    });
    player
}

fn walled_game(width: i32, height: i32) -> Game {
    let mut map = LevelMap::filled(width, height, Tile::wall());
    for x in 1..width - 1 {
        for y in 1..height - 1 {
            map.set(x, y, Tile::empty());
        }
    }
    Game { map, log: Messages::new(), inventory: vec![], dungeon_level: 1 }
}

fn all_seen() -> FovMap {
    FovMap::from_cells(vec![vec![true; 12]; 12])
}

#[test]
fn a_new_game() {
    let config = Config::standard();
    for _ in 0..10 {
        let (objects, game) = new_game(&config);
        assert!(check_arranged(&game, &objects));
        assert!(check_limits(&game, &objects));
        let player = &objects[0];
        assert_eq!(player.name, "player");
        assert_eq!((player.glyph, player.color, player.blocks, player.alive), ('@', white(), true, true));
        assert_eq!(player.fov_radius, 5);
        assert_eq!(player.level, 1);
        let f = player.fighter.unwrap();
        assert_eq!((f.base_max_hp, f.hp, f.base_defense, f.base_power, f.xp), (100, 100, 1, 2, 0));
        assert_eq!(f.on_death, DeathCallback::Player);
        assert_eq!(player.power(&game), 4);
        assert_eq!(game.dungeon_level, 1);
        assert_eq!(game.inventory.len(), 1);
        let dagger = &game.inventory[0];
        assert_eq!(dagger.name, "dagger");
        assert_eq!(dagger.item, Some(Item::Sword));
        let e = dagger.equipment.unwrap();
        assert_eq!((e.slot, e.equipped, e.power_bonus), (Slot::LeftHand, true, 2));
        assert_eq!(game.log.len(), 1);
        assert_eq!(
            game.log.entries[0].text,
            "Welcome stranger! Prepare to perish in the Tombs of the Ancient Kings."
        );
        assert_eq!(game.log.entries[0].color, red());
        assert_eq!(objects.last().unwrap().name, "stairs");
        assert_eq!(game.map.tiles.len(), 80);
    }
}

#[test]
fn intents_that_take_the_turn() {
    let config = Config::standard();
    let mut game = walled_game(12, 12);
    let mut objects = vec![player_at(2, 2), make_monster(MonsterKind::Orc, 3, 3)];
    let fov = all_seen();
    let action = apply_player_intent(PlayerIntent::Move(1, 0), &mut game, &mut objects, &fov, &config);
    assert_eq!(action, PlayerAction::TookTurn);
    assert_eq!(objects[0].pos(), (3, 2));
    let action = apply_player_intent(PlayerIntent::Move(0, 1), &mut game, &mut objects, &fov, &config);
    assert_eq!(action, PlayerAction::TookTurn);
    assert_eq!(objects[0].pos(), (3, 2));
    assert_eq!(objects[1].fighter.unwrap().hp, 18);
    let action = apply_player_intent(PlayerIntent::Move(0, -1), &mut game, &mut objects, &fov, &config);
    assert_eq!(action, PlayerAction::TookTurn);
    assert_eq!(objects[0].pos(), (3, 1));
    // into the wall: the turn is spent all the same
    let action = apply_player_intent(PlayerIntent::Move(0, -1), &mut game, &mut objects, &fov, &config);
    assert_eq!(action, PlayerAction::TookTurn);
    assert_eq!(objects[0].pos(), (3, 1));
    let action = apply_player_intent(PlayerIntent::Wait, &mut game, &mut objects, &fov, &config);
    assert_eq!(action, PlayerAction::TookTurn);
    assert!(check_arranged(&game, &objects));
}

#[test]
fn intents_that_do_not() {
    let config = Config::standard();
    let mut game = walled_game(12, 12);
    let mut objects = vec![
        player_at(2, 2),
        make_monster(MonsterKind::Orc, 5, 5),
        make_item(Item::Heal, 2, 2),
        make_item(Item::Sword, 2, 2),
    ];
    let fov = all_seen();
    let mut apply = |intent, game: &mut Game, objects: &mut Vec<Object>| {
        apply_player_intent(intent, game, objects, &fov, &config)
    };
    assert_eq!(apply(PlayerIntent::PickUp, &mut game, &mut objects), PlayerAction::DidntTakeTurn);
    assert_eq!(game.inventory.len(), 1);
    assert_eq!(game.inventory[0].name, "healing potion");
    assert_eq!(objects.len(), 3);
    assert_eq!(apply(PlayerIntent::PickUp, &mut game, &mut objects), PlayerAction::DidntTakeTurn);
    assert_eq!(game.inventory[1].name, "sword");
    assert_eq!(apply(PlayerIntent::PickUp, &mut game, &mut objects), PlayerAction::DidntTakeTurn);
    assert_eq!(game.inventory.len(), 2);
    assert_eq!(objects.len(), 2);
    let log = game.log.len();
    assert_eq!(apply(PlayerIntent::Nothing, &mut game, &mut objects), PlayerAction::DidntTakeTurn);
    assert_eq!(
        apply(PlayerIntent::ShowCharacterSheet, &mut game, &mut objects),
        PlayerAction::DidntTakeTurn
    );
    assert_eq!(apply(PlayerIntent::Descend, &mut game, &mut objects), PlayerAction::DidntTakeTurn);
    assert_eq!(game.dungeon_level, 1);
    assert_eq!(game.log.len(), log);
    assert_eq!(
        apply(PlayerIntent::UseItem(1, Target::Nothing), &mut game, &mut objects),
        PlayerAction::DidntTakeTurn
    );
    assert!(!game.inventory[1].equipment.unwrap().equipped);
    assert_eq!(apply(PlayerIntent::DropItem(0), &mut game, &mut objects), PlayerAction::DidntTakeTurn);
    assert_eq!(game.inventory.len(), 1);
    assert_eq!(objects.last().unwrap().name, "healing potion");
    assert_eq!(objects.last().unwrap().pos(), (2, 2));
    assert_eq!(apply(PlayerIntent::Exit, &mut game, &mut objects), PlayerAction::Exit);
    assert!(check_arranged(&game, &objects));
}

#[test]
fn the_dead_do_nothing() {
    let config = Config::standard();
    let mut game = walled_game(12, 12);
    let mut player = player_at(2, 2);
    player.alive = false;
    let mut objects = vec![player, make_item(Item::Heal, 2, 2)];
    let fov = all_seen();
    for intent in [PlayerIntent::Move(1, 0), PlayerIntent::Wait, PlayerIntent::PickUp] {
        let action = apply_player_intent(intent, &mut game, &mut objects, &fov, &config);
        assert_eq!(action, PlayerAction::DidntTakeTurn);
    }
    assert_eq!(objects[0].pos(), (2, 2));
    assert_eq!(objects.len(), 2);
    let action = apply_player_intent(PlayerIntent::Exit, &mut game, &mut objects, &fov, &config);
    assert_eq!(action, PlayerAction::Exit);
}

#[test]
fn down_the_stairs() {
    let config = Config::standard();
    let mut game = walled_game(12, 12);
    let mut player = player_at(2, 2);
    player.fighter = Some(Fighter { hp: 30, ..player.fighter.unwrap() });
    let mut objects = vec![player, make_monster(MonsterKind::Orc, 5, 5), make_stairs(2, 2)];
    let fov = all_seen();
    let action = apply_player_intent(PlayerIntent::Descend, &mut game, &mut objects, &fov, &config);
    assert_eq!(action, PlayerAction::DidntTakeTurn);
    assert_eq!(game.dungeon_level, 2);
    assert_eq!(objects[0].fighter.unwrap().hp, 80);
    assert_eq!(game.map.tiles.len(), 80);
    assert_eq!(game.log.entries[0].text, "You take a moment to rest and recover your strength.");
    assert_eq!(
        game.log.entries[1].text,
        "After a rare moment of peace, you descend deeper into the heart of the dungeon..."
    );
    assert_eq!(objects.iter().filter(|o| o.name == "stairs").count(), 1);
    assert!(check_arranged(&game, &objects));
    objects[0].fighter = Some(Fighter { hp: 90, ..objects[0].fighter.unwrap() });
    next_level(&mut objects, &mut game, &config);
    assert_eq!(game.dungeon_level, 3);
    assert_eq!(objects[0].fighter.unwrap().hp, 100);
}

#[test]
fn monsters_act_in_order_and_only_after_a_turn() {
    let mut game = walled_game(12, 12);
    let mut sleeper = make_monster(MonsterKind::Orc, 8, 8);
    sleeper.ai = Some(Ai::Confused { previous_ai: Box::new(Ai::Basic), num_turns: -1 });
    let mut objects = vec![
        player_at(2, 2),
        make_monster(MonsterKind::Orc, 3, 2),
        make_item(Item::Heal, 4, 4),
        make_monster(MonsterKind::Troll, 2, 3),
        sleeper,
    ];
    let fov = all_seen();
    assert!(!monsters_turn(PlayerAction::DidntTakeTurn, &mut game, &mut objects, &fov));
    assert!(!monsters_turn(PlayerAction::Exit, &mut game, &mut objects, &fov));
    assert_eq!(objects[0].fighter.unwrap().hp, 100);
    assert_eq!(game.log.len(), 0);
    assert!(monsters_turn(PlayerAction::TookTurn, &mut game, &mut objects, &fov));
    assert_eq!(objects[0].fighter.unwrap().hp, 100 - 3 - 7);
    let lines: Vec<&str> = game.log.entries.iter().map(|m| m.text.as_str()).collect();
    assert_eq!(
        lines,
        vec![
            "orc attacks player for 3 hit points.",
            "troll attacks player for 7 hit points.",
            "The orc is no longer confused!",
        ]
    );
    assert!(matches!(objects[4].ai, Some(Ai::Basic)));
    assert_eq!(objects[2].pos(), (4, 4));
    objects[0].alive = false;
    assert!(!monsters_turn(PlayerAction::TookTurn, &mut game, &mut objects, &fov));
    assert!(check_arranged(&game, &objects));
}

#[test]
fn after_the_kill_the_others_stand_down() {
    let mut game = walled_game(12, 12);
    let mut player = player_at(2, 2);
    player.fighter = Some(Fighter { hp: 2, xp: 10, ..player.fighter.unwrap() });
    let mut objects = vec![
        player,
        make_monster(MonsterKind::Orc, 3, 2),
        make_monster(MonsterKind::Troll, 2, 3),
    ];
    run_ai_turns(&mut game, &mut objects, &all_seen());
    assert!(!objects[0].alive);
    assert_eq!(objects[0].fighter.unwrap().hp, -1);
    assert_eq!(objects[1].fighter.unwrap().xp, 45);
    assert_eq!(objects[2].fighter.unwrap().xp, 100);
    assert_eq!(game.log.len(), 2);
}

#[test]
fn checks_of_order_and_limits() {
    let mut game = walled_game(12, 12);
    let mut objects = vec![player_at(2, 2), make_monster(MonsterKind::Orc, 3, 2)];
    assert!(check_arranged(&game, &objects));
    assert!(check_limits(&game, &objects));
    objects[1].x = 0;
    assert!(!check_arranged(&game, &objects));
    objects[1].x = 11;
    assert!(!check_arranged(&game, &objects));
    objects[1].x = 10;
    assert!(check_arranged(&game, &objects));
    objects[1].fighter = None;
    assert!(!check_arranged(&game, &objects));
    objects[1].ai = None;
    assert!(check_arranged(&game, &objects));
    objects[0].ai = Some(Ai::Basic);
    assert!(!check_arranged(&game, &objects));
    objects[0].ai = None;
    game.map.set(0, 5, Tile::empty());
    assert!(!check_arranged(&game, &objects));
    game.map.set(0, 5, Tile::wall());
    assert!(check_arranged(&game, &[]) == false);
    objects[0].fighter = Some(Fighter { xp: 1_000_000_001, ..objects[0].fighter.unwrap() });
    assert!(!check_limits(&game, &objects));
    objects[0].fighter = Some(Fighter { xp: 1_000_000_000, hp: -1_000_000_000, ..objects[0].fighter.unwrap() });
    assert!(check_limits(&game, &objects));
    objects[0].level = -1;
    assert!(!check_limits(&game, &objects));
    objects[0].level = 1;
    for _ in 0..27 {
        game.inventory.push(make_item(Item::Heal, 0, 0));
    }
    assert!(!check_limits(&game, &objects));
}

#[test]
fn the_character_sheet() {
    let config = Config::standard();
    let mut game = walled_game(12, 12);
    let mut sword = make_item(Item::Sword, 0, 0);
    sword.equipment = Some(tombs::entity::Equipment { equipped: true, ..sword.equipment.unwrap() });
    game.inventory.push(sword);
    let mut player = player_at(2, 2);
    player.level = 3;
    player.fighter = Some(Fighter { xp: 120, ..player.fighter.unwrap() });
    let sheet = character_sheet(&[player], &game, &config);
    assert_eq!(
        sheet,
        "Character information\n\nLevel: 3\nExperience: 120\nExperience to level up: 650\n\nMaximum HP: 100\nAttack: 5\nDefense: 1"
    );
}

#[test]
fn intents_that_cannot_be() {
    let mut game = walled_game(12, 12);
    game.inventory.push(make_item(Item::Heal, 0, 0));
    let objects = vec![
        player_at(2, 2),
        make_monster(MonsterKind::Orc, 3, 2),
        make_item(Item::Heal, 4, 4),
    ];
    let valid = |intent| intent_is_valid(intent, &game, &objects);
    assert!(valid(PlayerIntent::Move(1, -1)));
    assert!(!valid(PlayerIntent::Move(0, 0)));
    assert!(!valid(PlayerIntent::Move(2, 0)));
    assert!(!valid(PlayerIntent::Move(0, -2)));
    assert!(valid(PlayerIntent::UseItem(0, Target::Nothing)));
    assert!(valid(PlayerIntent::UseItem(0, Target::Tile(-5, 100))));
    assert!(valid(PlayerIntent::UseItem(0, Target::Monster(1))));
    assert!(!valid(PlayerIntent::UseItem(0, Target::Monster(0))));
    assert!(!valid(PlayerIntent::UseItem(0, Target::Monster(2))));
    assert!(!valid(PlayerIntent::UseItem(0, Target::Monster(3))));
    assert!(!valid(PlayerIntent::UseItem(1, Target::Nothing)));
    assert!(valid(PlayerIntent::DropItem(0)));
    assert!(!valid(PlayerIntent::DropItem(1)));
    assert!(valid(PlayerIntent::Wait) && valid(PlayerIntent::Exit) && valid(PlayerIntent::PickUp));
}

#[test]
fn configurations() {
    let mut config = Config::standard();
    assert!(config.check() && config.check_amounts());
    config.fireball_damage = 1_000_001;
    assert!(config.check() && !config.check_amounts());
    config.fireball_damage = 0;
    config.heal_amount = -1;
    assert!(!config.check_amounts());
    config.heal_amount = 1_000_000;
    assert!(config.check_amounts());
    config.level_up_factor = -1;
    assert!(!config.check());
    config.level_up_factor = 0;
    config.max_rooms = 0;
    assert!(!config.check());
    config.max_rooms = 1;
    config.room_min_size = 1;
    assert!(!config.check());
}
