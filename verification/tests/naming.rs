use asset_codegen::manifest::{make_asset, Asset, AssetType};
use asset_codegen::naming::{make_slot, names_short_enough, resolve};

fn field_of(name: &str) -> String {
    let input = vec![make_asset("somewhere", name, AssetType::Texture)];
    let mut slots = resolve(&input);
    slots.remove(0).field
}

#[test]
fn make_asset_keeps_what_it_is_given() {
    let asset = make_asset("monster/zombie_1", "Troll", AssetType::Texture);
    assert_eq!(asset.t, AssetType::Texture);
    assert_eq!(asset.name, "Troll");
    assert_eq!(asset.path, "monster/zombie_1");
    let sound = make_asset("wakka", "MainMenuBgSound", AssetType::Sound);
    assert_eq!(sound.t, AssetType::Sound);
    assert_eq!(sound.name, "MainMenuBgSound");
    assert_eq!(sound.path, "wakka");
}

#[test]
fn field_names_are_in_camel_case() {
    assert_eq!(field_of("Troll"), "troll");
    assert_eq!(field_of("ZombieDie"), "zombieDie");
    assert_eq!(field_of("MainMenuBgSound"), "mainMenuBgSound");
    assert_eq!(field_of("Zombie10"), "zombie10");
    assert_eq!(field_of("InfoBox"), "infoBox");
    assert_eq!(field_of("Ui"), "ui");
    assert_eq!(field_of("TowerFreezer"), "towerFreezer");
}

#[test]
fn field_names_of_other_spellings() {
    assert_eq!(field_of("fooBar"), "fooBar");
    assert_eq!(field_of("FOO_BAR"), "fooBar");
    assert_eq!(field_of("Foo Bar"), "fooBar");
    assert_eq!(field_of("foo_bar"), "fooBar");
    assert_eq!(field_of("foo-bar"), "fooBar");
    assert_eq!(field_of("FooBar3"), "fooBar3");
    assert_eq!(field_of(""), "");
}

#[test]
fn resolve_keeps_order_kind_name_and_path() {
    let input = vec![
        make_asset("monster/zombie_1", "Troll", AssetType::Texture),
        make_asset("zombie_die", "ZombieDie", AssetType::Sound),
        make_asset("map/map1", "Map1", AssetType::Texture),
    ];
    let slots = resolve(&input);
    assert_eq!(slots.len(), 3);
    assert_eq!(slots[0].t, AssetType::Texture);
    assert_eq!(slots[0].name, "Troll");
    assert_eq!(slots[0].path, "monster/zombie_1");
    assert_eq!(slots[0].field, "troll");
    assert_eq!(slots[1].t, AssetType::Sound);
    assert_eq!(slots[1].name, "ZombieDie");
    assert_eq!(slots[1].path, "zombie_die");
    assert_eq!(slots[1].field, "zombieDie");
    assert_eq!(slots[2].t, AssetType::Texture);
    assert_eq!(slots[2].name, "Map1");
    assert_eq!(slots[2].path, "map/map1");
    assert_eq!(slots[2].field, "map1");
}

#[test]
fn resolve_of_the_empty_manifest_is_empty() {
    let input: Vec<Asset> = Vec::new();
    assert!(resolve(&input).is_empty());
}

#[test]
fn make_slot_takes_the_field_as_given() {
    let asset = make_asset("ui/ui", "Ui", AssetType::Texture);
    let slot = make_slot(&asset, "anything".to_string());
    assert_eq!(slot.t, AssetType::Texture);
    assert_eq!(slot.name, "Ui");
    assert_eq!(slot.path, "ui/ui");
    assert_eq!(slot.field, "anything");
}

#[test]
fn ordinary_names_are_short_enough() {
    let input = vec![
        make_asset("monster/zombie_1", "Troll", AssetType::Texture),
        make_asset("wakka", "MainMenuBgSound", AssetType::Sound),
        make_asset("x", "", AssetType::Sound),
    ];
    assert!(names_short_enough(&input));
    let none: Vec<Asset> = Vec::new();
    assert!(names_short_enough(&none));
}
