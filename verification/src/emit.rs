//! The sections of the generated module, each as text.

use vstd::prelude::*;
use crate::manifest::{AssetType, Input, manifest_view};
use crate::model::{
    alias_text, container_text, field_declarations, getter_arrow, getter_branches, getter_text,
    has_kind, imports_text, initial_builder_text, initial_fields, insert_branches, insert_closing,
    insert_opening, insert_text, inspected_fields, key_types_text, key_variants,
    lemma_kinds_partition, load_all_text, load_directory, load_entries, load_extension,
    module_text, of_kind, pattern_variables, record_bindings, sections, try_build_text, type_of,
    variable_of,
};
use crate::naming::{
    Slot, SlotView, names_fit, names_short_enough, resolve, slots_of, slots_view,
};
use crate::text::{decimal, decimal_string, join, join_strings, views};

verus! {

/// The test "is of kind `t`" on slots.
pub open spec fn is_kind(t: AssetType) -> spec_fn(Slot) -> bool {
    |s: Slot| s.t == t
}

/// Whether `pieces` is what `map` can give for the slots of kind `filter`,
/// one piece per slot, in order.
pub open spec fn pieces_of<F: Fn(&Slot) -> String>(
    input: Seq<Slot>,
    filter: AssetType,
    map: F,
    pieces: Seq<String>,
) -> bool {
    let kept = input.filter(is_kind(filter));
    &&& pieces.len() == kept.len()
    &&& forall|k: int| 0 <= k < kept.len() ==> call_ensures(map, (&kept[k],), #[trigger] pieces[k])
}

/// Maps every slot of kind `filter` to a piece of text and joins the pieces
/// with `join` between them.
pub fn filter_map_join<F: Fn(&Slot) -> String>(
    input: &Vec<Slot>,
    filter: AssetType,
    map: F,
    join: &str,
) -> (out: String)
    requires
        forall|i: int| 0 <= i < input.len() && input[i].t == filter ==> call_requires(map, (&input[i],)),
    ensures
        exists|pieces: Seq<String>| #[trigger] pieces_of(input@, filter, map, pieces)
            && out@ == crate::text::join(views(pieces), join@),
{
    let mut pieces: Vec<String> = Vec::new();
    let mut i: usize = 0;
    while i < input.len()
        invariant
            i <= input.len(),
            forall|i: int| 0 <= i < input.len() && input[i].t == filter ==> call_requires(map, (&input[i],)),
            pieces_of(input@.take(i as int), filter, map, pieces@),
        decreases input.len() - i,
    {
        proof {
            assert(input@.take(i + 1) =~= input@.take(i as int).push(input@[i as int]));
            input@.take(i as int).lemma_filter_push(input@[i as int], is_kind(filter));
        }
        if input[i].t == filter {
            let piece = map(&input[i]);
            pieces.push(piece);
        }
        i += 1;
    }
    assert(input@.take(input.len() as int) =~= input@);
    join_strings(&pieces, join)
}

/// Filtering by kind commutes with taking views.
pub proof fn lemma_view_of_kind(input: Seq<Slot>, t: AssetType)
    ensures
        slots_view(input.filter(is_kind(t))) == of_kind(slots_view(input), t),
    decreases input.len(),
{
    reveal(Seq::filter);
    if input.len() == 0 {
        assert(slots_view(input.filter(is_kind(t))) =~= of_kind(slots_view(input), t));
    } else {
        lemma_view_of_kind(input.drop_last(), t);
        assert(slots_view(input).drop_last() =~= slots_view(input.drop_last()));
        assert(slots_view(input).last() == input.last()@);
        assert(slots_view(input.filter(is_kind(t))) =~= of_kind(slots_view(input), t));
    }
}

/// Where `map` gives the text `f` of a slot's view, the pieces it gives for
/// the slots of one kind are the texts of those slots.
pub proof fn lemma_pieces<F: Fn(&Slot) -> String>(
    input: Seq<Slot>,
    filter: AssetType,
    map: F,
    pieces: Seq<String>,
    f: spec_fn(SlotView) -> Seq<char>,
)
    requires
        pieces_of(input, filter, map, pieces),
        forall|a: &Slot, s: String| call_ensures(map, (a,), s) ==> s@ == f(a@),
    ensures
        views(pieces) == of_kind(slots_view(input), filter).map_values(f),
{
    lemma_view_of_kind(input, filter);
    let kept = input.filter(is_kind(filter));
    assert forall|k: int| 0 <= k < kept.len() implies views(pieces)[k] == f(slots_view(kept)[k]) by {
        assert(call_ensures(map, (&kept[k],), pieces[k]));
    }
    assert(views(pieces) =~= slots_view(kept).map_values(f));
}

/// `filter_map_join` for a `map` that gives the text `f` of a slot's view.
fn branches<F: Fn(&Slot) -> String>(
    input: &Vec<Slot>,
    t: AssetType,
    map: F,
    sep: &str,
    Ghost(f): Ghost<spec_fn(SlotView) -> Seq<char>>,
) -> (out: String)
    requires
        forall|a: &Slot| call_requires(map, (a,)),
        forall|a: &Slot, s: String| call_ensures(map, (a,), s) ==> s@ == f(a@),
    ensures
        out@ == join(of_kind(slots_view(input@), t).map_values(f), sep@),
{
    let out = filter_map_join(input, t, map, sep);
    proof {
        let pieces = choose|pieces: Seq<String>| #[trigger]
            pieces_of(input@, t, map, pieces) && out@ == join(views(pieces), sep@);
        lemma_pieces(input@, t, map, pieces, f);
    }
    out
}

/// Maps every slot to a piece of text and joins the pieces with `sep`
/// between them, for a `map` that gives the text `f` of a slot's view.
fn map_join<F: Fn(&Slot) -> String>(
    input: &Vec<Slot>,
    map: F,
    sep: &str,
    Ghost(f): Ghost<spec_fn(SlotView) -> Seq<char>>,
) -> (out: String)
    requires
        forall|a: &Slot| call_requires(map, (a,)),
        forall|a: &Slot, s: String| call_ensures(map, (a,), s) ==> s@ == f(a@),
    ensures
        out@ == join(slots_view(input@).map_values(f), sep@),
{
    let mut pieces: Vec<String> = Vec::new();
    let mut i: usize = 0;
    while i < input.len()
        invariant
            i <= input.len(),
            forall|a: &Slot| call_requires(map, (a,)),
            forall|a: &Slot, s: String| call_ensures(map, (a,), s) ==> s@ == f(a@),
            pieces@.len() == i,
            forall|k: int| 0 <= k < i ==> (#[trigger] pieces@[k])@ == f(input@[k]@),
        decreases input.len() - i,
    {
        let piece = map(&input[i]);
        pieces.push(piece);
        i += 1;
    }
    assert(views(pieces@) =~= slots_view(input@).map_values(f));
    join_strings(&pieces, sep)
}

/// The header of the module.
pub fn imports() -> (out: String)
    ensures
        out@ == imports_text(),
{
    "module Gen.AssetPack exposing (..)\nimport Audio\nimport Canvas.Texture exposing (Texture)".to_owned()
}

/// The names of the slots of one kind, with `|` between them.
fn key_list(input: &Vec<Slot>, t: AssetType) -> (out: String)
    ensures
        out@ == join(key_variants(slots_view(input@), t), "|"@),
{
    let name = |a: &Slot| -> (s: String)
        ensures
            s@ == a@.name,
        { a.name.clone() };
    let out = branches(input, t, name, "|", Ghost(|s: SlotView| s.name));
    assert(of_kind(slots_view(input@), t).map_values(|s: SlotView| s.name) =~= key_variants(
        slots_view(input@),
        t,
    ));
    out
}

/// The declarations of the two key types.
pub fn key_type_declaration(input: &Vec<Slot>) -> (out: String)
    ensures
        out@ == key_types_text(slots_view(input@)),
{
    let mut out = "type TextureKey = ".to_owned();
    out.append(key_list(input, AssetType::Texture).as_str());
    out.append("\ntype SoundKey = ");
    out.append(key_list(input, AssetType::Sound).as_str());
    out
}

/// The name of the type variable that stands for assets of kind `t`.
fn type_variable(t: AssetType) -> (name: &'static str)
    ensures
        name@ == type_of(t, "textureType"@, "soundType"@),
{
    match t {
        AssetType::Texture => "textureType",
        AssetType::Sound => "soundType",
    }
}

/// The declaration of `name` as the container instantiated with two types.
fn alias(name: &str, texture: &str, sound: &str) -> (out: String)
    ensures
        out@ == alias_text(name@, texture@, sound@),
{
    let mut out = "\ntype alias ".to_owned();
    out.append(name);
    out.append(" = AssetPackContainer ");
    out.append(texture);
    out.append(" ");
    out.append(sound);
    out
}

/// The container type, generic in the types of textures and sounds, and its
/// two instantiations: the finished pack and the builder.
pub fn texture_type_container(input: &Vec<Slot>) -> (out: String)
    ensures
        out@ == container_text(slots_view(input@)),
{
    let declaration = |a: &Slot| -> (s: String)
        ensures
            s@ == a@.field + " : "@ + type_of(a@.t, "textureType"@, "soundType"@),
        {
            let mut s = a.field.clone();
            s.append(" : ");
            s.append(type_variable(a.t));
            s
        };
    let fields = map_join(
        input,
        declaration,
        ",",
        Ghost(|s: SlotView| s.field + " : "@ + type_of(s.t, "textureType"@, "soundType"@)),
    );
    assert(slots_view(input@).map_values(
        |s: SlotView| s.field + " : "@ + type_of(s.t, "textureType"@, "soundType"@),
    ) =~= field_declarations(slots_view(input@)));
    let mut out = "type alias AssetPackContainer textureType soundType = \n{\n".to_owned();
    out.append(fields.as_str());
    out.append("}");
    out.append(alias("AssetPack", "Texture", "Audio.Source").as_str());
    out.append(alias("AssetPackBuilder", "(Maybe Texture)", "(Maybe Audio.Source)").as_str());
    out
}

/// The builder in which every field is absent.
pub fn initial_builder(input: &Vec<Slot>) -> (out: String)
    ensures
        out@ == initial_builder_text(slots_view(input@)),
{
    let absent = |a: &Slot| -> (s: String)
        ensures
            s@ == a@.field + " = Nothing"@,
        {
            let mut s = a.field.clone();
            s.append(" = Nothing");
            s
        };
    let fields = map_join(input, absent, ",", Ghost(|s: SlotView| s.field + " = Nothing"@));
    assert(slots_view(input@).map_values(|s: SlotView| s.field + " = Nothing"@)
        =~= initial_fields(slots_view(input@)));
    let mut out = "initialAssetPackBuilder : AssetPackBuilder\ninitialAssetPackBuilder = {\n".to_owned();
    out.append(fields.as_str());
    out.append("}");
    out
}

/// The branches of the insertion function of kind `t`, one per line.
fn insert_cases(input: &Vec<Slot>, t: AssetType) -> (out: String)
    ensures
        out@ == join(insert_branches(slots_view(input@), t), "\n        "@),
{
    let opening = match t {
        AssetType::Texture => "->{tpb|",
        AssetType::Sound => "->{apb|",
    };
    let closing = match t {
        AssetType::Texture => "=Just t}",
        AssetType::Sound => "=Just sound}",
    };
    let branch = |a: &Slot| -> (s: String)
        ensures
            s@ == a@.name + opening@ + a@.field + closing@,
        {
            let mut s = a.name.clone();
            s.append(opening);
            s.append(a.field.as_str());
            s.append(closing);
            s
        };
    let out = branches(
        input,
        t,
        branch,
        "\n        ",
        Ghost(|s: SlotView| s.name + insert_opening(t) + s.field + insert_closing(t)),
    );
    assert(of_kind(slots_view(input@), t).map_values(
        |s: SlotView| s.name + insert_opening(t) + s.field + insert_closing(t),
    ) =~= insert_branches(slots_view(input@), t));
    out
}

/// The two insertion functions: each sets the field of the given key to the
/// given value and leaves the other fields as they are.
pub fn insert_fn(input: &Vec<Slot>) -> (out: String)
    ensures
        out@ == insert_text(slots_view(input@)),
{
    let mut out =
        "insertTexture : TextureKey -> Texture -> AssetPackBuilder -> AssetPackBuilder\ninsertTexture id t tpb =\n    case id of\n        ".to_owned();
    out.append(insert_cases(input, AssetType::Texture).as_str());
    out.append("\n");
    out.append(
        "insertSound : SoundKey -> Audio.Source -> AssetPackBuilder -> AssetPackBuilder\ninsertSound id sound apb =\n    case id of\n        ",
    );
    out.append(insert_cases(input, AssetType::Sound).as_str());
    out
}

/// The entries of the load list of kind `t`, one per line.
fn load_list(input: &Vec<Slot>, t: AssetType) -> (out: String)
    ensures
        out@ == join(load_entries(slots_view(input@), t), "\n        ,"@),
{
    let entry = |a: &Slot| -> (s: String)
        ensures
            s@ == match t {
                AssetType::Texture => "(\""@ + a@.path + "\","@ + a@.name + ")"@,
                AssetType::Sound => "("@ + a@.name + ",\""@ + a@.path + "\")"@,
            },
        {
            match t {
                AssetType::Texture => {
                    let mut s = "(\"".to_owned();
                    s.append(a.path.as_str());
                    s.append("\",");
                    s.append(a.name.as_str());
                    s.append(")");
                    s
                },
                AssetType::Sound => {
                    let mut s = "(".to_owned();
                    s.append(a.name.as_str());
                    s.append(",\"");
                    s.append(a.path.as_str());
                    s.append("\")");
                    s
                },
            }
        };
    let out = branches(
        input,
        t,
        entry,
        "\n        ,",
        Ghost(
            |s: SlotView|
                match t {
                    AssetType::Texture => "(\""@ + s.path + "\","@ + s.name + ")"@,
                    AssetType::Sound => "("@ + s.name + ",\""@ + s.path + "\")"@,
                },
        ),
    );
    assert(of_kind(slots_view(input@), t).map_values(
        |s: SlotView|
            match t {
                AssetType::Texture => "(\""@ + s.path + "\","@ + s.name + ")"@,
                AssetType::Sound => "("@ + s.name + ",\""@ + s.path + "\")"@,
            },
    ) =~= load_entries(slots_view(input@), t));
    out
}

/// The directory from which assets of kind `t` are loaded.
fn directory(t: AssetType) -> (out: &'static str)
    ensures
        out@ == load_directory(t),
{
    match t {
        AssetType::Texture => "./assets/img/",
        AssetType::Sound => "./assets/sound/",
    }
}

/// The file extension of assets of kind `t`.
fn extension(t: AssetType) -> (out: &'static str)
    ensures
        out@ == load_extension(t),
{
    match t {
        AssetType::Texture => ".png",
        AssetType::Sound => ".mp3",
    }
}

/// The two load lists: what to load for every texture and every sound, and
/// under which key.
pub fn load_all(input: &Vec<Slot>) -> (out: String)
    ensures
        out@ == load_all_text(slots_view(input@)),
{
    let mut out =
        "type LoadTexture = LoadTexture String TextureKey\n\nloadAllTextures : List LoadTexture\nloadAllTextures =\n    [".to_owned();
    out.append(load_list(input, AssetType::Texture).as_str());
    out.append("] |> List.map (\\( name, key ) -> LoadTexture (\"");
    out.append(directory(AssetType::Texture));
    out.append("\" ++ name ++ \"");
    out.append(extension(AssetType::Texture));
    out.append("\") key)");
    out.append("\n");
    out.append(
        "type LoadAudio  = LoadAudio SoundKey String\n\nloadAllSounds : List LoadAudio\nloadAllSounds =[",
    );
    out.append(load_list(input, AssetType::Sound).as_str());
    out.append("\n");
    out.append("]|> List.map (\\( key, filename ) -> LoadAudio key (\"");
    out.append(directory(AssetType::Sound));
    out.append("\" ++ filename ++ \"");
    out.append(extension(AssetType::Sound));
    out.append("\"))");
    out
}

/// The branches of the getter of kind `t`, one per line.
fn getter_cases(input: &Vec<Slot>, t: AssetType) -> (out: String)
    ensures
        out@ == join(getter_branches(slots_view(input@), t), "\n        "@),
{
    let arrow = match t {
        AssetType::Texture => " -> tp.",
        AssetType::Sound => " -> soundPack.",
    };
    let branch = |a: &Slot| -> (s: String)
        ensures
            s@ == a@.name + arrow@ + a@.field,
        {
            let mut s = a.name.clone();
            s.append(arrow);
            s.append(a.field.as_str());
            s
        };
    let out = branches(
        input,
        t,
        branch,
        "\n        ",
        Ghost(|s: SlotView| s.name + getter_arrow(t) + s.field),
    );
    assert(of_kind(slots_view(input@), t).map_values(
        |s: SlotView| s.name + getter_arrow(t) + s.field,
    ) =~= getter_branches(slots_view(input@), t));
    out
}

/// The two getters: each gives the field of the finished pack that the given
/// key stands for.
pub fn getter(input: &Vec<Slot>) -> (out: String)
    ensures
        out@ == getter_text(slots_view(input@)),
{
    let mut out =
        "getTexture : AssetPack -> TextureKey -> Texture\ngetTexture tp id =\n    case id of\n        ".to_owned();
    out.append(getter_cases(input, AssetType::Texture).as_str());
    out.append("\n");
    out.append(
        "getSound : SoundKey -> AssetPack -> Audio.Source\ngetSound key soundPack =\n    case key of\n        ",
    );
    out.append(getter_cases(input, AssetType::Sound).as_str());
    out
}

/// The number of slots of kind `t`.
fn count_kind(input: &Vec<Slot>, t: AssetType) -> (n: usize)
    ensures
        n == of_kind(slots_view(input@), t).len(),
{
    let ghost all = slots_view(input@);
    let mut n: usize = 0;
    let mut i: usize = 0;
    while i < input.len()
        invariant
            i <= input.len(),
            all == slots_view(input@),
            n == of_kind(all.take(i as int), t).len(),
            n <= i,
        decreases input.len() - i,
    {
        proof {
            assert(all.take(i + 1) =~= all.take(i as int).push(input@[i as int]@));
            all.take(i as int).lemma_filter_push(input@[i as int]@, has_kind(t));
        }
        if input[i].t == t {
            n += 1;
        }
        i += 1;
    }
    assert(all.take(input.len() as int) =~= all);
    n
}

/// The builder fields of kind `t` that the completion check inspects.
fn inspected_list(input: &Vec<Slot>, t: AssetType) -> (out: String)
    ensures
        out@ == join(inspected_fields(slots_view(input@), t), ","@),
{
    let field = |a: &Slot| -> (s: String)
        ensures
            s@ == "tpb."@ + a@.field,
        {
            let mut s = "tpb.".to_owned();
            s.append(a.field.as_str());
            s
        };
    let out = branches(input, t, field, ",", Ghost(|s: SlotView| "tpb."@ + s.field));
    assert(of_kind(slots_view(input@), t).map_values(|s: SlotView| "tpb."@ + s.field)
        =~= inspected_fields(slots_view(input@), t));
    out
}

/// The patterns that bind the variables numbered from `from` up to `to`.
fn pattern_list(from: usize, to: usize) -> (out: String)
    requires
        from <= to,
    ensures
        out@ == join(pattern_variables(from as nat, to as nat), ","@),
{
    let mut pieces: Vec<String> = Vec::new();
    let mut n: usize = from;
    while n < to
        invariant
            from <= n <= to,
            pieces@.len() == n - from,
            forall|k: int| 0 <= k < n - from ==> (#[trigger] pieces@[k])@ == "Just t"@ + decimal(
                (from + k) as nat,
            ),
        decreases to - n,
    {
        let mut piece = "Just t".to_owned();
        piece.append(decimal_string(n).as_str());
        pieces.push(piece);
        n += 1;
    }
    assert(views(pieces@) =~= pattern_variables(from as nat, to as nat));
    join_strings(&pieces, ",")
}

/// The fields of the finished record, each bound to the variable of its slot.
fn record_list(input: &Vec<Slot>) -> (out: String)
    ensures
        out@ == join(record_bindings(slots_view(input@)), ","@),
{
    let ghost all = slots_view(input@);
    let textures = count_kind(input, AssetType::Texture);
    let mut pieces: Vec<String> = Vec::new();
    let mut seen_textures: usize = 0;
    let mut seen_sounds: usize = 0;
    let mut i: usize = 0;
    while i < input.len()
        invariant
            i <= input.len(),
            all == slots_view(input@),
            textures == of_kind(all, AssetType::Texture).len(),
            seen_textures == of_kind(all.take(i as int), AssetType::Texture).len(),
            seen_sounds == of_kind(all.take(i as int), AssetType::Sound).len(),
            pieces@.len() == i,
            forall|k: int| 0 <= k < i ==> (#[trigger] pieces@[k])@ == record_bindings(all)[k],
        decreases input.len() - i,
    {
        proof {
            assert(all.take(i + 1) =~= all.take(i as int).push(all[i as int]));
            all.take(i as int).lemma_filter_push(all[i as int], has_kind(AssetType::Texture));
            all.take(i as int).lemma_filter_push(all[i as int], has_kind(AssetType::Sound));
            all.lemma_filter_take_len(has_kind(AssetType::Sound), i as int);
            lemma_kinds_partition(all);
        }
        let slot = &input[i];
        let variable = match slot.t {
            AssetType::Texture => {
                seen_textures += 1;
                seen_textures - 1
            },
            AssetType::Sound => {
                seen_sounds += 1;
                textures + (seen_sounds - 1)
            },
        };
        assert(variable == variable_of(all, i as int));
        let mut piece = slot.field.clone();
        piece.append("=t");
        piece.append(decimal_string(variable).as_str());
        pieces.push(piece);
        i += 1;
    }
    assert(views(pieces@) =~= record_bindings(all));
    join_strings(&pieces, ",")
}

/// The completion check: it gives the finished pack when every field of the
/// builder is present, and nothing otherwise.
pub fn try_build(input: &Vec<Slot>) -> (out: String)
    ensures
        out@ == try_build_text(slots_view(input@)),
{
    let textures = count_kind(input, AssetType::Texture);
    let sounds = count_kind(input, AssetType::Sound);
    assert(textures + sounds == input.len()) by {
        lemma_kinds_partition(slots_view(input@));
    }
    let mut out =
        "tryBuildAssetPack : AssetPackBuilder -> Maybe AssetPack\ntryBuildAssetPack tpb =\n\n    case ([ ".to_owned();
    out.append(inspected_list(input, AssetType::Texture).as_str());
    out.append("\n    ],[");
    out.append(inspected_list(input, AssetType::Sound).as_str());
    out.append("\n]) of\n    ([\n");
    out.append(pattern_list(0, textures).as_str());
    out.append("], [");
    out.append(pattern_list(textures, textures + sounds).as_str());
    out.append("    ]) ->    Just <|\n    {");
    out.append(record_list(input).as_str());
    out.append("\n    }\n    _ -> Nothing");
    out
}

/// The whole module for slots whose fields are already named.
pub fn render(slots: &Vec<Slot>) -> (out: String)
    ensures
        out@ == module_text(slots_view(slots@)),
{
    let mut parts: Vec<String> = Vec::new();
    parts.push(imports());
    parts.push(key_type_declaration(slots));
    parts.push(texture_type_container(slots));
    parts.push(initial_builder(slots));
    parts.push(try_build(slots));
    parts.push(insert_fn(slots));
    parts.push(load_all(slots));
    parts.push(getter(slots));
    assert(views(parts@) =~= sections(slots_view(slots@)));
    join_strings(&parts, "\n\n\n")
}

/// The whole module for a manifest.
pub fn generate(input: &Input) -> (out: String)
    requires
        names_fit(manifest_view(input@)),
    ensures
        out@ == module_text(slots_of(manifest_view(input@))),
{
    let slots = resolve(input);
    render(&slots)
}

/// The whole module for a manifest, or nothing where a name is too long to
/// be converted on this machine.
pub fn try_generate(input: &Input) -> (out: Option<String>)
    ensures
        names_fit(manifest_view(input@)) ==> out is Some && out->0@ == module_text(
            slots_of(manifest_view(input@)),
        ),
        !names_fit(manifest_view(input@)) ==> out is None,
{
    if names_short_enough(input) {
        Some(generate(input))
    } else {
        None
    }
}

} // verus!
