use crystal_server::items::{find as find_item, item_exists, items};
use crystal_server::magics::{can_cast, find, knows_magic, magics, player_magics};
use crystal_server::spawn_config::{monster_templates, spawn_config, spawn_points_for};
use crystal_server::types::MirClass;

#[test]
fn fireball_exists_and_has_range() {
    let fb = find(1).unwrap();
    assert_eq!(fb.name, "火球术");
    assert!(fb.range >= 1);
    assert!(fb.damage > 0);
    assert!(fb.base_cost > 0);
    assert!(find(99).is_none());
}

#[test]
fn knows_magic_by_class() {
    assert!(knows_magic(MirClass::Warrior, 1));
    assert!(!knows_magic(MirClass::Warrior, 2));
    assert!(knows_magic(MirClass::Wizard, 2));
    assert!(!knows_magic(MirClass::Wizard, 99));
}

#[test]
fn player_magics_by_class() {
    let w = player_magics(MirClass::Warrior);
    assert_eq!(w.len(), 1);
    assert_eq!(w[0].spell, 1);
    let m = player_magics(MirClass::Wizard);
    assert_eq!(m.len(), 2);
}

#[test]
fn can_cast_mp_check() {
    let fb = find(1).unwrap();
    assert!(!can_cast(&fb, 3));
    assert!(can_cast(&fb, fb.base_cost as i32));
    assert!(can_cast(&fb, 999));
}

#[test]
fn client_magic_fields_follow_template() {
    let m = player_magics(MirClass::Wizard);
    assert_eq!(m[1].name, "雷电术");
    assert_eq!(m[1].spell, 2);
    assert_eq!(m[1].base_cost, 8);
    assert_eq!(m[1].range, 25);
    assert_eq!(m[1].key, 2);
    assert_eq!(m[1].icon, 2);
    assert_eq!((m[1].level, m[1].level1, m[1].need1, m[1].level_cost), (1, 1, 1, 0));
    assert_eq!(magics().len(), 2);
}

#[test]
fn item_table_lookup() {
    assert_eq!(items().len(), 5);
    let potion = find_item(3).unwrap();
    assert_eq!(potion.name, "金创药");
    assert_eq!(potion.heal, 30);
    assert_eq!(potion.item_type, 2);
    assert!(item_exists(5));
    assert!(!item_exists(0));
    assert!(!item_exists(6));
    assert!(find_item(-1).is_none());
}

#[test]
fn config_has_expected_maps_and_points() {
    assert_eq!(spawn_points_for(0).len(), 20);
    assert_eq!(spawn_points_for(100).len(), 4);
    assert_eq!(spawn_points_for(101).len(), 4);
    assert!(spawn_points_for(999).is_empty());
}

#[test]
fn templates_make_valid_monsters() {
    assert_eq!(monster_templates().len(), 3);
    for t in monster_templates() {
        assert!(t.hp > 0 && t.attack >= 0 && t.exp > 0);
    }
}

#[test]
fn each_spawn_config_has_unique_map() {
    let config = spawn_config();
    let mut maps: Vec<u32> = config.iter().map(|m| m.map_index).collect();
    maps.sort();
    maps.dedup();
    assert_eq!(maps.len(), config.len());
}

#[test]
fn spawn_points_exact_values() {
    assert_eq!(spawn_points_for(100), vec![(8, 5), (9, 6), (11, 7), (12, 8)]);
    assert_eq!(spawn_points_for(0)[0], (400, 400));
    assert_eq!(spawn_points_for(0)[19], (402, 406));
    let t = monster_templates();
    assert_eq!(t[1].name, "骷髅");
    assert_eq!(t[1].harvest_item, 6);
    assert!(t[2].ranged);
}
