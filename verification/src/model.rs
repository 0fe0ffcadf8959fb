//! What the generated module declares, as mathematical values over the slots,
//! and the text of each of its sections.

use vstd::prelude::*;
use crate::manifest::AssetType;
use crate::naming::SlotView;
use crate::text::{decimal, join};

verus! {

/// The test "is of kind `t`" on slot views.
pub open spec fn has_kind(t: AssetType) -> spec_fn(SlotView) -> bool {
    |s: SlotView| s.t == t
}

/// The slots of kind `t`, in order.
pub open spec fn of_kind(slots: Seq<SlotView>, t: AssetType) -> Seq<SlotView> {
    slots.filter(has_kind(t))
}

/// Every slot is a texture or a sound.
pub proof fn lemma_kinds_partition(slots: Seq<SlotView>)
    ensures
        of_kind(slots, AssetType::Texture).len() + of_kind(slots, AssetType::Sound).len()
            == slots.len(),
    decreases slots.len(),
{
    reveal(Seq::filter);
    if slots.len() > 0 {
        lemma_kinds_partition(slots.drop_last());
    }
}

/// The header of the module: its name and what it imports.
pub open spec fn imports_text() -> Seq<char> {
    "module Gen.AssetPack exposing (..)\nimport Audio\nimport Canvas.Texture exposing (Texture)"@
}

/// The variants of the key type of kind `t`: the names of the assets of that
/// kind, in order.
pub open spec fn key_variants(slots: Seq<SlotView>, t: AssetType) -> Seq<Seq<char>> {
    of_kind(slots, t).map_values(|s: SlotView| s.name)
}

/// The declarations of the two key types.
pub open spec fn key_types_text(slots: Seq<SlotView>) -> Seq<char> {
    "type TextureKey = "@ + join(key_variants(slots, AssetType::Texture), "|"@)
        + "\ntype SoundKey = "@ + join(key_variants(slots, AssetType::Sound), "|"@)
}

/// The type that a field of kind `t` is given when the container is
/// instantiated with `texture` for textures and `sound` for sounds.
pub open spec fn type_of(t: AssetType, texture: Seq<char>, sound: Seq<char>) -> Seq<char> {
    match t {
        AssetType::Texture => texture,
        AssetType::Sound => sound,
    }
}

/// The fields of the container instantiated with the two given types: one
/// field per slot, in order, each with its name and its type.
pub open spec fn record_type(slots: Seq<SlotView>, texture: Seq<char>, sound: Seq<char>) -> Seq<
    (Seq<char>, Seq<char>),
> {
    slots.map_values(|s: SlotView| (s.field, type_of(s.t, texture, sound)))
}

/// The fields of the finished pack.
pub open spec fn complete_pack(slots: Seq<SlotView>) -> Seq<(Seq<char>, Seq<char>)> {
    record_type(slots, "Texture"@, "Audio.Source"@)
}

/// The fields of the builder pack.
pub open spec fn builder_pack(slots: Seq<SlotView>) -> Seq<(Seq<char>, Seq<char>)> {
    record_type(slots, "(Maybe Texture)"@, "(Maybe Audio.Source)"@)
}

/// The names of the fields of a record type, in order.
pub open spec fn field_names(fields: Seq<(Seq<char>, Seq<char>)>) -> Seq<Seq<char>> {
    fields.map_values(|f: (Seq<char>, Seq<char>)| f.0)
}

/// The field declarations of the generic container.
pub open spec fn field_declarations(slots: Seq<SlotView>) -> Seq<Seq<char>> {
    record_type(slots, "textureType"@, "soundType"@).map_values(
        |f: (Seq<char>, Seq<char>)| f.0 + " : "@ + f.1,
    )
}

/// The declaration of `name` as the container instantiated with two types.
pub open spec fn alias_text(name: Seq<char>, texture: Seq<char>, sound: Seq<char>) -> Seq<char> {
    "\ntype alias "@ + name + " = AssetPackContainer "@ + texture + " "@ + sound
}

/// The container type and its two instantiations.
pub open spec fn container_text(slots: Seq<SlotView>) -> Seq<char> {
    "type alias AssetPackContainer textureType soundType = \n{\n"@ + join(
        field_declarations(slots),
        ","@,
    ) + "}"@ + alias_text("AssetPack"@, "Texture"@, "Audio.Source"@) + alias_text(
        "AssetPackBuilder"@,
        "(Maybe Texture)"@,
        "(Maybe Audio.Source)"@,
    )
}

/// The fields of the initial builder, each set to absent.
pub open spec fn initial_fields(slots: Seq<SlotView>) -> Seq<Seq<char>> {
    slots.map_values(|s: SlotView| s.field + " = Nothing"@)
}

/// The builder in which every field is absent.
pub open spec fn initial_builder_text(slots: Seq<SlotView>) -> Seq<char> {
    "initialAssetPackBuilder : AssetPackBuilder\ninitialAssetPackBuilder = {\n"@ + join(
        initial_fields(slots),
        ","@,
    ) + "}"@
}

/// The slots in the order in which the completion check inspects them:
/// the textures, then the sounds.
pub open spec fn inspected(slots: Seq<SlotView>) -> Seq<SlotView> {
    of_kind(slots, AssetType::Texture) + of_kind(slots, AssetType::Sound)
}

/// How many slots of the kind of slot `i` stand before it.
pub open spec fn rank(slots: Seq<SlotView>, i: int) -> nat {
    of_kind(slots.take(i), slots[i].t).len()
}

/// The number of the variable that the completion check binds to the value
/// of slot `i`: its place among the inspected slots.
pub open spec fn variable_of(slots: Seq<SlotView>, i: int) -> nat {
    match slots[i].t {
        AssetType::Texture => rank(slots, i),
        AssetType::Sound => of_kind(slots, AssetType::Texture).len() + rank(slots, i),
    }
}

/// The builder fields of kind `t` that the completion check inspects.
pub open spec fn inspected_fields(slots: Seq<SlotView>, t: AssetType) -> Seq<Seq<char>> {
    of_kind(slots, t).map_values(|s: SlotView| "tpb."@ + s.field)
}

/// The patterns that bind the variables numbered from `from` up to `to`.
pub open spec fn pattern_variables(from: nat, to: nat) -> Seq<Seq<char>> {
    Seq::new((to - from) as nat, |k: int| "Just t"@ + decimal((from + k) as nat))
}

/// The fields of the finished record, each bound to the variable of its slot.
pub open spec fn record_bindings(slots: Seq<SlotView>) -> Seq<Seq<char>> {
    Seq::new(slots.len(), |i: int| slots[i].field + "=t"@ + decimal(variable_of(slots, i)))
}

/// The completion check.
pub open spec fn try_build_text(slots: Seq<SlotView>) -> Seq<char> {
    let textures = of_kind(slots, AssetType::Texture).len();
    let sounds = of_kind(slots, AssetType::Sound).len();
    "tryBuildAssetPack : AssetPackBuilder -> Maybe AssetPack\ntryBuildAssetPack tpb =\n\n    case ([ "@
        + join(inspected_fields(slots, AssetType::Texture), ","@) + "\n    ],["@ + join(
        inspected_fields(slots, AssetType::Sound),
        ","@,
    ) + "\n]) of\n    ([\n"@ + join(pattern_variables(0, textures), ","@) + "], ["@ + join(
        pattern_variables(textures, textures + sounds),
        ","@,
    ) + "    ]) ->    Just <|\n    {"@ + join(record_bindings(slots), ","@)
        + "\n    }\n    _ -> Nothing"@
}

/// What stands between key and field in an insertion branch of kind `t`.
pub open spec fn insert_opening(t: AssetType) -> Seq<char> {
    match t {
        AssetType::Texture => "->{tpb|"@,
        AssetType::Sound => "->{apb|"@,
    }
}

/// What ends an insertion branch of kind `t`.
pub open spec fn insert_closing(t: AssetType) -> Seq<char> {
    match t {
        AssetType::Texture => "=Just t}"@,
        AssetType::Sound => "=Just sound}"@,
    }
}

/// The branches of the insertion function of kind `t`: one per slot of that
/// kind, from its key to the builder with its field set.
pub open spec fn insert_branches(slots: Seq<SlotView>, t: AssetType) -> Seq<Seq<char>> {
    of_kind(slots, t).map_values(
        |s: SlotView| s.name + insert_opening(t) + s.field + insert_closing(t),
    )
}

/// The two insertion functions.
pub open spec fn insert_text(slots: Seq<SlotView>) -> Seq<char> {
    "insertTexture : TextureKey -> Texture -> AssetPackBuilder -> AssetPackBuilder\ninsertTexture id t tpb =\n    case id of\n        "@
        + join(insert_branches(slots, AssetType::Texture), "\n        "@) + "\n"@
        + "insertSound : SoundKey -> Audio.Source -> AssetPackBuilder -> AssetPackBuilder\ninsertSound id sound apb =\n    case id of\n        "@
        + join(insert_branches(slots, AssetType::Sound), "\n        "@)
}

/// The entries of the load list of kind `t`: one per slot of that kind, the
/// stored path before the key for textures, the key before the stored path
/// for sounds.
pub open spec fn load_entries(slots: Seq<SlotView>, t: AssetType) -> Seq<Seq<char>> {
    of_kind(slots, t).map_values(
        |s: SlotView|
            match t {
                AssetType::Texture => "(\""@ + s.path + "\","@ + s.name + ")"@,
                AssetType::Sound => "("@ + s.name + ",\""@ + s.path + "\")"@,
            },
    )
}

/// The directory from which assets of kind `t` are loaded.
pub open spec fn load_directory(t: AssetType) -> Seq<char> {
    match t {
        AssetType::Texture => "./assets/img/"@,
        AssetType::Sound => "./assets/sound/"@,
    }
}

/// The file extension of assets of kind `t`.
pub open spec fn load_extension(t: AssetType) -> Seq<char> {
    match t {
        AssetType::Texture => ".png"@,
        AssetType::Sound => ".mp3"@,
    }
}

/// The path from which an asset of kind `t` stored at `path` is loaded.
pub open spec fn load_path(t: AssetType, path: Seq<char>) -> Seq<char> {
    load_directory(t) + path + load_extension(t)
}

/// The two load lists. Each maps its entries to what is loaded: the stored
/// path between the directory and the extension of the kind, with the key.
pub open spec fn load_all_text(slots: Seq<SlotView>) -> Seq<char> {
    "type LoadTexture = LoadTexture String TextureKey\n\nloadAllTextures : List LoadTexture\nloadAllTextures =\n    ["@
        + join(load_entries(slots, AssetType::Texture), "\n        ,"@)
        + "] |> List.map (\\( name, key ) -> LoadTexture (\""@ + load_directory(
        AssetType::Texture,
    ) + "\" ++ name ++ \""@ + load_extension(AssetType::Texture) + "\") key)"@ + "\n"@
        + "type LoadAudio  = LoadAudio SoundKey String\n\nloadAllSounds : List LoadAudio\nloadAllSounds =["@
        + join(load_entries(slots, AssetType::Sound), "\n        ,"@) + "\n"@
        + "]|> List.map (\\( key, filename ) -> LoadAudio key (\""@ + load_directory(
        AssetType::Sound,
    ) + "\" ++ filename ++ \""@ + load_extension(AssetType::Sound) + "\"))"@
}

/// What stands between key and field in a getter branch of kind `t`.
pub open spec fn getter_arrow(t: AssetType) -> Seq<char> {
    match t {
        AssetType::Texture => " -> tp."@,
        AssetType::Sound => " -> soundPack."@,
    }
}

/// The branches of the getter of kind `t`: one per slot of that kind, from
/// its key to its field of the pack.
pub open spec fn getter_branches(slots: Seq<SlotView>, t: AssetType) -> Seq<Seq<char>> {
    of_kind(slots, t).map_values(|s: SlotView| s.name + getter_arrow(t) + s.field)
}

/// The two getters.
pub open spec fn getter_text(slots: Seq<SlotView>) -> Seq<char> {
    "getTexture : AssetPack -> TextureKey -> Texture\ngetTexture tp id =\n    case id of\n        "@
        + join(getter_branches(slots, AssetType::Texture), "\n        "@) + "\n"@
        + "getSound : SoundKey -> AssetPack -> Audio.Source\ngetSound key soundPack =\n    case key of\n        "@
        + join(getter_branches(slots, AssetType::Sound), "\n        "@)
}

/// The sections of the module, in the order in which they are written.
pub open spec fn sections(slots: Seq<SlotView>) -> Seq<Seq<char>> {
    seq![
        imports_text(),
        key_types_text(slots),
        container_text(slots),
        initial_builder_text(slots),
        try_build_text(slots),
        insert_text(slots),
        load_all_text(slots),
        getter_text(slots),
    ]
}

/// The whole module: its sections with two blank lines between them.
pub open spec fn module_text(slots: Seq<SlotView>) -> Seq<char> {
    join(sections(slots), "\n\n\n"@)
}

} // verus!
