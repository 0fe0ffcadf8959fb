use asset_codegen::emit::{
    generate, getter, imports, initial_builder, insert_fn, key_type_declaration, load_all, render,
    texture_type_container, try_build, try_generate,
};
use asset_codegen::manifest::{make_asset, Asset, AssetType};
use asset_codegen::naming::resolve;

fn troll_and_zombie_die() -> Vec<Asset> {
    vec![
        make_asset("monster/zombie_1", "Troll", AssetType::Texture),
        make_asset("zombie_die", "ZombieDie", AssetType::Sound),
    ]
}

#[test]
fn module_of_one_texture_and_one_sound() {
    let expected = [
        "module Gen.AssetPack exposing (..)\nimport Audio\nimport Canvas.Texture exposing (Texture)",
        "type TextureKey = Troll\ntype SoundKey = ZombieDie",
        "type alias AssetPackContainer textureType soundType = \n{\ntroll : textureType,zombieDie : soundType}\ntype alias AssetPack = AssetPackContainer Texture Audio.Source\ntype alias AssetPackBuilder = AssetPackContainer (Maybe Texture) (Maybe Audio.Source)",
        "initialAssetPackBuilder : AssetPackBuilder\ninitialAssetPackBuilder = {\ntroll = Nothing,zombieDie = Nothing}",
        "tryBuildAssetPack : AssetPackBuilder -> Maybe AssetPack\ntryBuildAssetPack tpb =\n\n    case ([ tpb.troll\n    ],[tpb.zombieDie\n]) of\n    ([\nJust t0], [Just t1    ]) ->    Just <|\n    {troll=t0,zombieDie=t1\n    }\n    _ -> Nothing",
        "insertTexture : TextureKey -> Texture -> AssetPackBuilder -> AssetPackBuilder\ninsertTexture id t tpb =\n    case id of\n        Troll->{tpb|troll=Just t}\ninsertSound : SoundKey -> Audio.Source -> AssetPackBuilder -> AssetPackBuilder\ninsertSound id sound apb =\n    case id of\n        ZombieDie->{apb|zombieDie=Just sound}",
        "type LoadTexture = LoadTexture String TextureKey\n\nloadAllTextures : List LoadTexture\nloadAllTextures =\n    [(\"monster/zombie_1\",Troll)] |> List.map (\\( name, key ) -> LoadTexture (\"./assets/img/\" ++ name ++ \".png\") key)\ntype LoadAudio  = LoadAudio SoundKey String\n\nloadAllSounds : List LoadAudio\nloadAllSounds =[(ZombieDie,\"zombie_die\")\n]|> List.map (\\( key, filename ) -> LoadAudio key (\"./assets/sound/\" ++ filename ++ \".mp3\"))",
        "getTexture : AssetPack -> TextureKey -> Texture\ngetTexture tp id =\n    case id of\n        Troll -> tp.troll\ngetSound : SoundKey -> AssetPack -> Audio.Source\ngetSound key soundPack =\n    case key of\n        ZombieDie -> soundPack.zombieDie",
    ]
    .join("\n\n\n");
    assert_eq!(generate(&troll_and_zombie_die()), expected);
}

#[test]
fn module_declares_keys_fields_and_completion() {
    let module = generate(&troll_and_zombie_die());
    assert!(module.contains("type TextureKey = Troll\n"));
    assert!(module.contains("type SoundKey = ZombieDie\n"));
    assert!(module.contains("{\ntroll : textureType,zombieDie : soundType}"));
    assert!(module.contains("case ([ tpb.troll\n    ],[tpb.zombieDie\n]) of"));
    assert!(module.contains("([\nJust t0], [Just t1    ]) ->    Just <|\n    {troll=t0,zombieDie=t1\n    }"));
    assert!(module.contains("_ -> Nothing"));
}

#[test]
fn module_is_its_sections_in_order() {
    let input = vec![
        make_asset("monster/zombie_1", "Troll", AssetType::Texture),
        make_asset("map/map1", "Map1", AssetType::Texture),
        make_asset("wakka", "MainMenuBgSound", AssetType::Sound),
    ];
    let slots = resolve(&input);
    let expected = [
        imports(),
        key_type_declaration(&slots),
        texture_type_container(&slots),
        initial_builder(&slots),
        try_build(&slots),
        insert_fn(&slots),
        load_all(&slots),
        getter(&slots),
    ]
    .join("\n\n\n");
    assert_eq!(render(&slots), expected);
    assert_eq!(generate(&input), expected);
}

#[test]
fn two_runs_give_the_same_text() {
    let first = generate(&troll_and_zombie_die());
    let second = generate(&troll_and_zombie_die());
    assert_eq!(first.as_bytes(), second.as_bytes());
    let input = troll_and_zombie_die();
    assert_eq!(generate(&input), generate(&input));
}

#[test]
fn module_without_sounds_is_still_whole() {
    let input = vec![
        make_asset("monster/zombie_1", "Troll", AssetType::Texture),
        make_asset("ui/infobox", "InfoBox", AssetType::Texture),
    ];
    let module = generate(&input);
    assert!(module.contains("type TextureKey = Troll|InfoBox\ntype SoundKey = \n\n\n"));
    assert!(module.contains("insertSound id sound apb =\n    case id of\n        \n\n\n"));
    assert!(module.contains("loadAllSounds =[\n]|> List.map"));
    assert!(module.ends_with("getSound key soundPack =\n    case key of\n        "));
    assert!(module.contains("case ([ tpb.troll,tpb.infoBox\n    ],[\n]) of\n    ([\nJust t0,Just t1], [    ]) ->    Just <|\n    {troll=t0,infoBox=t1\n    }"));
}

#[test]
fn module_of_the_empty_manifest() {
    let input: Vec<Asset> = Vec::new();
    let module = generate(&input);
    assert!(module.starts_with("module Gen.AssetPack exposing (..)\n"));
    assert_eq!(module.matches("\n\n\n").count(), 7);
    assert!(module.contains("type TextureKey = \ntype SoundKey = "));
}

#[test]
fn try_generate_gives_the_module() {
    let input = troll_and_zombie_die();
    assert_eq!(try_generate(&input), Some(generate(&input)));
}

#[test]
fn module_of_the_game_manifest() {
    let input = vec![
        make_asset("monster/zombie_1", "Troll", AssetType::Texture),
        make_asset("monster/zombie_2", "Zombie2", AssetType::Texture),
        make_asset("monster/zombie_10", "Zombie10", AssetType::Texture),
        make_asset("map/map1", "Map1", AssetType::Texture),
        make_asset("tower/archer", "TowerFreezer", AssetType::Texture),
        make_asset("ui/infobox", "InfoBox", AssetType::Texture),
        make_asset("ui/ui", "Ui", AssetType::Texture),
        make_asset("text_shield", "TextShield", AssetType::Texture),
        make_asset("wakka", "MainMenuBgSound", AssetType::Sound),
        make_asset("level_failed", "LevelFailed", AssetType::Sound),
        make_asset("freezer_hit", "FreezerHit", AssetType::Sound),
    ];
    let module = generate(&input);
    assert!(module.contains(
        "type TextureKey = Troll|Zombie2|Zombie10|Map1|TowerFreezer|InfoBox|Ui|TextShield\ntype SoundKey = MainMenuBgSound|LevelFailed|FreezerHit"
    ));
    assert!(module.contains(
        "Just t0,Just t1,Just t2,Just t3,Just t4,Just t5,Just t6,Just t7], [Just t8,Just t9,Just t10    ]) ->"
    ));
    assert!(module.contains(
        "{troll=t0,zombie2=t1,zombie10=t2,map1=t3,towerFreezer=t4,infoBox=t5,ui=t6,textShield=t7,mainMenuBgSound=t8,levelFailed=t9,freezerHit=t10\n    }"
    ));
    assert!(module.contains("        TowerFreezer -> tp.towerFreezer\n"));
    assert!(module.contains("        LevelFailed->{apb|levelFailed=Just sound}\n"));
    assert!(module.contains("        ,(\"text_shield\",TextShield)] |> List.map"));
    assert!(module.contains("        ,(FreezerHit,\"freezer_hit\")\n]|> List.map"));
}
