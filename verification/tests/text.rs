use tombs::interact::{
    inventory_choice, inventory_options, level_up_choice, level_up_options, menu_choice,
    menu_lines, monster_at, names_at, target_tile_step, Pointer, TargetStep,
};
use tombs::colors::white;
use tombs::entity::{DeathCallback, Equipment, Fighter, Item, Object, Slot};
use tombs::fov::FovMap;
use tombs::helper::LevelUpChoice;
use tombs::session::{Game, Messages};
use tombs::text::decimal_string;
use tombs::tile::{LevelMap, Tile};

fn fighter() -> Fighter {
    Fighter {
        base_max_hp: 100,
        hp: 100,
        base_defense: 1,
        base_power: 2,
        xp: 0,
        on_death: DeathCallback::Player,
    }
}

fn thing(x: i32, y: i32, name: &str) -> Object {
    Object::new(x, y, '?', name, white(), false)
}

#[test]
fn decimal_notation() {
    assert_eq!(decimal_string(0), "0");
    assert_eq!(decimal_string(7), "7");
    assert_eq!(decimal_string(10), "10");
    assert_eq!(decimal_string(1905), "1905");
    assert_eq!(decimal_string(-42), "-42");
    assert_eq!(decimal_string(i64::MAX), "9223372036854775807");
    assert_eq!(decimal_string(i64::MIN), "-9223372036854775808");
}

#[test]
fn menu_letters_select_options() {
    assert_eq!(menu_choice('a', 3), Some(0));
    assert_eq!(menu_choice('C', 3), Some(2));
    assert_eq!(menu_choice('d', 3), None);
    assert_eq!(menu_choice('z', 26), Some(25));
    assert_eq!(menu_choice('Z', 25), None);
    assert_eq!(menu_choice('1', 3), None);
    assert_eq!(menu_choice(' ', 3), None);
    assert_eq!(menu_choice('\u{e9}', 26), None);
    assert_eq!(menu_choice('a', 0), None);
}

#[test]
fn menu_lines_carry_their_letters() {
    let options = vec!["Play a new game".to_string(), "Continue last game".to_string(), "Quit".to_string()];
    let lines = menu_lines(&options);
    assert_eq!(lines, vec!["(a) Play a new game", "(b) Continue last game", "(c) Quit"]);
    assert!(menu_lines(&vec![]).is_empty());
    let many: Vec<String> = (0..26).map(|i| i.to_string()).collect();
    assert_eq!(menu_lines(&many)[25], "(z) 25");
}

#[test]
fn the_inventory_menu_says_what_is_worn() {
    let mut game = Game {
        map: LevelMap::filled(3, 3, Tile::empty()),
        log: Messages::new(),
        inventory: vec![],
        dungeon_level: 1,
    };
    assert_eq!(inventory_options(&game), vec!["Inventory is empty."]);
    assert_eq!(inventory_choice(&game, Some(0)), None);
    let mut dagger = thing(0, 0, "dagger");
    dagger.item = Some(Item::Sword);
    dagger.equipment = Some(Equipment {
        slot: Slot::LeftHand,
        equipped: true,
        max_hp_bonus: 0,
        power_bonus: 2,
        defense_bonus: 0,
    });
    game.inventory.push(dagger);
    let mut helmet = thing(0, 0, "helmet");
    helmet.equipment = Some(Equipment {
        slot: Slot::Head,
        equipped: false,
        max_hp_bonus: 0,
        power_bonus: 0,
        defense_bonus: 1,
    });
    game.inventory.push(helmet);
    game.inventory.push(thing(0, 0, "healing potion"));
    assert_eq!(
        inventory_options(&game),
        vec!["dagger (on left hand)", "helmet", "healing potion"]
    );
    assert_eq!(inventory_choice(&game, Some(2)), Some(2));
    assert_eq!(inventory_choice(&game, None), None);
}

#[test]
fn names_under_the_pointer() {
    let objects = vec![
        thing(1, 1, "player"),
        thing(2, 2, "orc"),
        thing(1, 1, "sword"),
        thing(1, 1, "stairs"),
    ];
    let everything = FovMap::from_cells(vec![vec![true; 4]; 4]);
    assert_eq!(names_at(1, 1, &objects, &everything), "player, sword, stairs");
    assert_eq!(names_at(2, 2, &objects, &everything), "orc");
    assert_eq!(names_at(3, 3, &objects, &everything), "");
    assert_eq!(names_at(1, 1, &objects, &FovMap::dark()), "");
}

#[test]
fn choosing_a_tile() {
    let mut player = thing(5, 5, "player");
    player.fighter = Some(fighter());
    let objects = vec![player];
    let mut cells = vec![vec![true; 12]; 12];
    cells[9][9] = false;
    let fov = FovMap::from_cells(cells);
    let click = |x, y| Pointer { x, y, accept: true, refuse: false };
    assert_eq!(target_tile_step(click(6, 6), &fov, &objects, None), TargetStep::Chosen(6, 6));
    assert_eq!(target_tile_step(click(9, 9), &fov, &objects, None), TargetStep::Pending);
    assert_eq!(target_tile_step(click(20, 3), &fov, &objects, None), TargetStep::Pending);
    assert_eq!(target_tile_step(click(8, 9), &fov, &objects, Some(5)), TargetStep::Chosen(8, 9));
    assert_eq!(target_tile_step(click(9, 10), &fov, &objects, Some(5)), TargetStep::Pending);
    assert_eq!(target_tile_step(click(5, 5), &fov, &objects, Some(-1)), TargetStep::Pending);
    let refuse = Pointer { x: 6, y: 6, accept: false, refuse: true };
    assert_eq!(target_tile_step(refuse, &fov, &objects, None), TargetStep::Cancelled);
    let both = Pointer { x: 6, y: 6, accept: true, refuse: true };
    assert_eq!(target_tile_step(both, &fov, &objects, None), TargetStep::Chosen(6, 6));
    let neither = Pointer { x: 6, y: 6, accept: false, refuse: false };
    assert_eq!(target_tile_step(neither, &fov, &objects, None), TargetStep::Pending);
}

#[test]
fn the_enemy_on_a_tile() {
    let mut player = thing(1, 1, "player");
    player.fighter = Some(fighter());
    let mut orc = thing(1, 1, "orc");
    orc.fighter = Some(fighter());
    let mut troll = thing(1, 1, "troll");
    troll.fighter = Some(fighter());
    let objects = vec![player, thing(1, 1, "potion"), orc, troll];
    assert_eq!(monster_at(&objects, 1, 1), Some(2));
    assert_eq!(monster_at(&objects, 2, 1), None);
    assert_eq!(monster_at(&objects[..1], 1, 1), None);
}

#[test]
fn the_level_up_menu() {
    let f = Fighter { base_max_hp: 120, base_power: 4, base_defense: -1, ..fighter() };
    assert_eq!(
        level_up_options(&f),
        vec![
            "Constitution (+20 HP, from 120)",
            "Strength (+1 attack, from 4)",
            "Agility (+1 defense, from -1)"
        ]
    );
    assert_eq!(level_up_choice(Some(0)), Some(LevelUpChoice::Constitution));
    assert_eq!(level_up_choice(Some(1)), Some(LevelUpChoice::Strength));
    assert_eq!(level_up_choice(Some(2)), Some(LevelUpChoice::Agility));
    assert_eq!(level_up_choice(Some(3)), None);
    assert_eq!(level_up_choice(None), None);
}
