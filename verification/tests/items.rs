use tombs::colors::{light_blue, light_cyan, light_green, light_violet, orange, red, white, yellow, green};
use tombs::config::Config;
use tombs::entity::{Ai, DeathCallback, Equipment, Fighter, Item, Object, Slot, UseResult};
use tombs::fov::FovMap;
use tombs::helper::{drop_item, pick_item_up};
use tombs::items::{begin_use, use_item, Target, Targeting};
use tombs::session::{Game, Messages};
use tombs::spawn::{make_item, make_monster, MonsterKind};
use tombs::spells::{cast_confuse, cast_fireball, cast_heal, cast_lightning};
use tombs::tile::{LevelMap, Tile};

fn player_at(x: i32, y: i32) -> Object {
    let mut player = Object::new(x, y, '@', "player", white(), true);
    player.alive = true;
    player.fighter = Some(Fighter {
        base_max_hp: 100,
        hp: 100,
        base_defense: 1,
        base_power: 2,
        xp: 0,
        on_death: DeathCallback::Player,
    });
    player
}

fn open_game() -> Game {
    Game {
        map: LevelMap::filled(20, 20, Tile::empty()),
        log: Messages::new(),
        inventory: vec![],
        dungeon_level: 1,
    }
}

fn all_seen() -> FovMap {
    FovMap::from_cells(vec![vec![true; 20]; 20])
}

fn last_line(game: &Game) -> (&str, tombs::colors::Color) {
    let entry = game.log.entries.last().unwrap();
    (entry.text.as_str(), entry.color)
}

#[test]
fn a_full_inventory_takes_no_more() {
    let mut game = open_game();
    for _ in 0..26 {
        game.inventory.push(make_item(Item::Heal, 0, 0));
    }
    let mut objects = vec![player_at(3, 3), make_item(Item::Sword, 3, 3)];
    pick_item_up(1, &mut objects, &mut game);
    assert_eq!(game.inventory.len(), 26);
    assert_eq!(objects.len(), 2);
    assert_eq!(objects[1].name, "sword");
    assert_eq!(objects[1].pos(), (3, 3));
    assert_eq!(game.log.len(), 1);
    assert_eq!(last_line(&game), ("Your inventory is full, cannot pick up sword.", red()));
}

#[test]
fn the_twenty_sixth_item_still_fits() {
    let mut game = open_game();
    for _ in 0..25 {
        game.inventory.push(make_item(Item::Heal, 0, 0));
    }
    let mut objects = vec![player_at(3, 3), make_item(Item::Confuse, 3, 3)];
    pick_item_up(1, &mut objects, &mut game);
    assert_eq!(game.inventory.len(), 26);
    assert_eq!(objects.len(), 1);
    assert_eq!(last_line(&game), ("You picked up a scroll of confuse!", green()));
}

#[test]
fn picking_up_puts_equipment_on_if_the_slot_is_free() {
    let mut game = open_game();
    let mut objects = vec![
        player_at(3, 3),
        make_item(Item::Sword, 3, 3),
        make_monster(MonsterKind::Orc, 5, 5),
        make_item(Item::Sword, 3, 3),
    ];
    pick_item_up(1, &mut objects, &mut game);
    // the last object has taken the place of the one picked up
    assert_eq!(objects.len(), 3);
    assert_eq!(objects[1].name, "sword");
    assert_eq!(objects[2].name, "orc");
    assert!(game.inventory[0].equipment.unwrap().equipped);
    assert_eq!(game.log.entries[0].text, "You picked up a sword!");
    assert_eq!(game.log.entries[1].text, "Equipped sword on right hand.");
    pick_item_up(1, &mut objects, &mut game);
    assert_eq!(objects.len(), 2);
    assert_eq!(objects[1].name, "orc");
    assert!(!game.inventory[1].equipment.unwrap().equipped);
    assert_eq!(game.log.len(), 3);
}

#[test]
fn dropping_takes_off_and_lays_down() {
    let mut game = open_game();
    let mut sword = make_item(Item::Sword, 0, 0);
    sword.equipment = Some(Equipment { equipped: true, ..sword.equipment.unwrap() });
    game.inventory.push(make_item(Item::Heal, 0, 0));
    game.inventory.push(sword);
    let mut objects = vec![player_at(4, 6)];
    drop_item(1, &mut game, &mut objects);
    assert_eq!(game.inventory.len(), 1);
    assert_eq!(game.inventory[0].name, "healing potion");
    assert_eq!(objects.len(), 2);
    assert_eq!(objects[1].pos(), (4, 6));
    assert!(!objects[1].equipment.unwrap().equipped);
    assert_eq!(game.log.entries[0].text, "Dequipped sword from right hand.");
    assert_eq!(last_line(&game), ("You dropped a sword.", yellow()));
    drop_item(0, &mut game, &mut objects);
    assert!(game.inventory.is_empty());
    assert_eq!(objects[2].name, "healing potion");
    assert_eq!(last_line(&game), ("You dropped a healing potion.", yellow()));
    assert_eq!(game.log.len(), 3);
}

#[test]
fn healing() {
    let config = Config::standard();
    let mut game = open_game();
    let mut objects = vec![player_at(3, 3)];
    assert_eq!(cast_heal(0, &mut objects, &mut game, &config), UseResult::Cancelled);
    assert_eq!(last_line(&game), ("You are already at full health.", red()));
    objects[0].fighter = Some(Fighter { hp: 35, ..objects[0].fighter.unwrap() });
    assert_eq!(cast_heal(0, &mut objects, &mut game, &config), UseResult::UsedUp);
    assert_eq!(objects[0].fighter.unwrap().hp, 75);
    assert_eq!(last_line(&game), ("Your wounds start to feel better!", light_violet()));
    assert_eq!(cast_heal(0, &mut objects, &mut game, &config), UseResult::UsedUp);
    assert_eq!(objects[0].fighter.unwrap().hp, 100);
    let mut nobody = vec![Object::new(0, 0, '@', "ghost", white(), false)];
    assert_eq!(cast_heal(0, &mut nobody, &mut game, &config), UseResult::Cancelled);
    assert_eq!(game.log.len(), 3);
}

#[test]
fn lightning_strikes_the_nearest() {
    let config = Config::standard();
    let mut game = open_game();
    let mut objects = vec![
        player_at(3, 3),
        make_monster(MonsterKind::Orc, 6, 3),
        make_monster(MonsterKind::Troll, 4, 4),
    ];
    let fov = all_seen();
    assert_eq!(cast_lightning(0, &mut objects, &mut game, &fov, &config), UseResult::UsedUp);
    assert!(objects[2].fighter.is_none());
    assert_eq!(objects[2].name, "remains of troll");
    assert_eq!(objects[1].fighter.unwrap().hp, 20);
    assert_eq!(objects[0].fighter.unwrap().xp, 100);
    assert_eq!(
        game.log.entries[0].text,
        "A lightning bolt strikes the troll with a loud BOOM! The damage is 40 hit points."
    );
    assert_eq!(game.log.entries[0].color, light_blue());
    assert_eq!(game.log.entries[1].text, "troll is dead! You gain 100 experience points.");
    assert_eq!(cast_lightning(0, &mut objects, &mut game, &fov, &config), UseResult::UsedUp);
    assert!(objects[1].fighter.is_none());
    assert_eq!(objects[0].fighter.unwrap().xp, 135);
    assert_eq!(cast_lightning(0, &mut objects, &mut game, &fov, &config), UseResult::Cancelled);
    assert_eq!(last_line(&game), ("No enemy is close enough to strike.", red()));
}

#[test]
fn lightning_needs_sight_and_reach() {
    let config = Config::standard();
    let mut game = open_game();
    let mut objects = vec![player_at(3, 3), make_monster(MonsterKind::Orc, 9, 3)];
    // six tiles away: one step beyond the range of five is not reached
    assert_eq!(
        cast_lightning(0, &mut objects, &mut game, &all_seen(), &config),
        UseResult::Cancelled
    );
    objects[1].x = 8;
    assert_eq!(
        cast_lightning(0, &mut objects, &mut game, &FovMap::dark(), &config),
        UseResult::Cancelled
    );
    assert_eq!(objects[1].fighter.unwrap().hp, 20);
    assert_eq!(
        cast_lightning(0, &mut objects, &mut game, &all_seen(), &config),
        UseResult::UsedUp
    );
    assert!(objects[1].fighter.is_none());
}

#[test]
fn confusing() {
    let config = Config::standard();
    let mut game = open_game();
    let mut objects = vec![player_at(3, 3), make_monster(MonsterKind::Orc, 6, 3)];
    assert_eq!(cast_confuse(0, &mut objects, &mut game, &config, None), UseResult::Cancelled);
    assert_eq!(last_line(&game), ("No enemy is close enough to strike.", red()));
    assert_eq!(cast_confuse(0, &mut objects, &mut game, &config, Some(1)), UseResult::UsedUp);
    assert_eq!(
        last_line(&game),
        ("The eyes of the orc look vacant, as it starts to stumble around!", light_green())
    );
    match &objects[1].ai {
        Some(Ai::Confused { previous_ai, num_turns }) => {
            assert_eq!(*num_turns, 10);
            assert!(matches!(**previous_ai, Ai::Basic));
        }
        _ => panic!("not confused"),
    }
    // a second scroll starts over and does not stack
    objects[1].ai = Some(Ai::Confused { previous_ai: Box::new(Ai::Basic), num_turns: 2 });
    assert_eq!(cast_confuse(0, &mut objects, &mut game, &config, Some(1)), UseResult::UsedUp);
    match &objects[1].ai {
        Some(Ai::Confused { previous_ai, num_turns }) => {
            assert_eq!(*num_turns, 10);
            assert!(matches!(**previous_ai, Ai::Basic));
        }
        _ => panic!("not confused"),
    }
}

#[test]
fn a_fireball_burns_all_within_its_radius() {
    let config = Config::standard();
    let mut game = open_game();
    let mut objects = vec![
        player_at(3, 3),
        make_monster(MonsterKind::Orc, 6, 3),
        make_monster(MonsterKind::Troll, 6, 6),
        make_monster(MonsterKind::Orc, 10, 6),
        make_item(Item::Heal, 6, 4),
    ];
    assert_eq!(
        cast_fireball(0, &mut objects, &mut game, &config, None),
        UseResult::Cancelled
    );
    assert_eq!(game.log.len(), 0);
    assert_eq!(
        cast_fireball(0, &mut objects, &mut game, &config, Some((6, 3))),
        UseResult::UsedUp
    );
    // the player, three tiles off, is burned as well
    assert_eq!(objects[0].fighter.unwrap().hp, 75);
    assert_eq!(objects[0].fighter.unwrap().xp, 35);
    assert!(objects[1].fighter.is_none());
    assert_eq!(objects[2].fighter.unwrap().hp, 5);
    assert_eq!(objects[3].fighter.unwrap().hp, 20);
    assert_eq!(objects[4].name, "healing potion");
    let lines: Vec<&str> = game.log.entries.iter().map(|m| m.text.as_str()).collect();
    assert_eq!(
        lines,
        vec![
            "The fireball explodes, burning everything within 3 tiles!",
            "The player gets burned for 25 hit points.",
            "The orc gets burned for 25 hit points.",
            "orc is dead! You gain 35 experience points.",
            "The troll gets burned for 25 hit points.",
        ]
    );
    assert!(game.log.entries.iter().all(|m| m.color == orange()));
}

#[test]
fn burning_oneself_earns_nothing() {
    let config = Config::standard();
    let mut game = open_game();
    let mut player = player_at(3, 3);
    player.fighter = Some(Fighter { hp: 20, xp: 50, ..player.fighter.unwrap() });
    let mut objects = vec![player, make_monster(MonsterKind::Troll, 4, 3)];
    assert_eq!(
        cast_fireball(0, &mut objects, &mut game, &config, Some((3, 3))),
        UseResult::UsedUp
    );
    assert!(!objects[0].alive);
    assert_eq!(objects[0].fighter.unwrap().hp, -5);
    assert_eq!(objects[0].fighter.unwrap().xp, 50);
    assert_eq!(objects[1].fighter.unwrap().hp, 5);
    assert_eq!(game.log.entries[2].text, "You died!");
}

#[test]
fn what_to_point_at() {
    let config = Config::standard();
    let mut game = open_game();
    for item in [Item::Heal, Item::Lightning, Item::Confuse, Item::Fireball, Item::Sword] {
        game.inventory.push(make_item(item, 0, 0));
    }
    game.inventory.push(Object::new(0, 0, '*', "rock", white(), false));
    assert_eq!(begin_use(0, &mut game, &config), Targeting::NotNeeded);
    assert_eq!(begin_use(1, &mut game, &config), Targeting::NotNeeded);
    assert_eq!(begin_use(4, &mut game, &config), Targeting::NotNeeded);
    assert_eq!(begin_use(5, &mut game, &config), Targeting::NotNeeded);
    assert_eq!(game.log.len(), 0);
    assert_eq!(begin_use(2, &mut game, &config), Targeting::Monster { max_range: 8 });
    assert_eq!(
        last_line(&game),
        ("Left-click an enemy to confuse it, or right click to cancel.", light_cyan())
    );
    assert_eq!(begin_use(3, &mut game, &config), Targeting::Tile);
    assert_eq!(
        last_line(&game),
        ("Left-click a target tile for the fireball, or right-click to cancel.", light_cyan())
    );
}

#[test]
fn using_items() {
    let config = Config::standard();
    let mut game = open_game();
    for item in [Item::Heal, Item::Confuse, Item::Sword, Item::Fireball] {
        game.inventory.push(make_item(item, 0, 0));
    }
    game.inventory.push(Object::new(0, 0, '*', "rock", white(), false));
    let mut objects = vec![player_at(3, 3), make_monster(MonsterKind::Orc, 6, 3)];
    let fov = all_seen();
    // at full health the potion is kept
    let result = use_item(0, &mut objects, &mut game, &fov, &config, Target::Nothing);
    assert_eq!(result, UseResult::Cancelled);
    assert_eq!(game.inventory.len(), 5);
    assert_eq!(game.log.entries[0].text, "You are already at full health.");
    assert_eq!(last_line(&game), ("Cancelled", white()));
    let result = use_item(4, &mut objects, &mut game, &fov, &config, Target::Nothing);
    assert_eq!(result, UseResult::Cancelled);
    assert_eq!(last_line(&game), ("The rock cannot be used.", white()));
    let result = use_item(2, &mut objects, &mut game, &fov, &config, Target::Nothing);
    assert_eq!(result, UseResult::UsedAndKept);
    assert!(game.inventory[2].equipment.unwrap().equipped);
    assert_eq!(game.inventory.len(), 5);
    // a tile is no target for confusion
    let result = use_item(1, &mut objects, &mut game, &fov, &config, Target::Tile(6, 3));
    assert_eq!(result, UseResult::Cancelled);
    let result = use_item(1, &mut objects, &mut game, &fov, &config, Target::Monster(1));
    assert_eq!(result, UseResult::UsedUp);
    assert!(matches!(objects[1].ai, Some(Ai::Confused { .. })));
    assert_eq!(game.inventory.len(), 4);
    assert_eq!(game.inventory[1].name, "sword");
    let result = use_item(2, &mut objects, &mut game, &fov, &config, Target::Tile(7, 3));
    assert_eq!(result, UseResult::UsedUp);
    assert!(objects[1].fighter.is_none());
    assert_eq!(objects[0].fighter.unwrap().hp, 100);
    assert_eq!(objects[0].fighter.unwrap().xp, 35);
    assert_eq!(game.inventory.len(), 3);
    objects[0].fighter = Some(Fighter { hp: 1, ..objects[0].fighter.unwrap() });
    let result = use_item(0, &mut objects, &mut game, &fov, &config, Target::Nothing);
    assert_eq!(result, UseResult::UsedUp);
    assert_eq!(objects[0].fighter.unwrap().hp, 41);
    assert_eq!(game.inventory.len(), 2);
    assert_eq!(game.inventory[0].name, "sword");
    assert_eq!(game.inventory[0].equipment.unwrap().slot, Slot::RightHand);
}
