//! Catalog entries: one per named record of a catalog page, with its id,
//! subtitle, summary, tags, links and detail fields.
use vstd::prelude::*;
use crate::chars::{
    ascii_lower, ascii_lower_chars, chars_of, extend_chars, extend_str, has_prefix, join_chars,
    joined, replace_chars, replaced, same_text, starts_with, string_of,
};
use crate::fields::{
    char_views, dot_sep, map_monsters, map_monsters_spec, maps, maps_spec, newline, number,
    number_spec, pair_joined, related, related_spec, skill_metric, skill_metric_spec, str_views,
    strings, strings_spec, text, text_spec,
};
use crate::index::{string_views, SourceIndex};
use crate::json::{bool_of, member, object_of, Json};
use crate::sources::page_records;

verus! {

// ---------------------------------------------------------------------------
// Types
// ---------------------------------------------------------------------------

/// One labelled detail of an entry.
pub struct CatalogField {
    pub label: String,
    pub value: String,
}

/// One catalog entry.
pub struct CatalogEntry {
    pub id: String,
    pub kind: String,
    pub name: String,
    pub subtitle: String,
    pub summary: String,
    pub tags: Vec<String>,
    pub source_url: String,
    pub image_url: Option<String>,
    pub aliases: String,
    pub fields: Vec<CatalogField>,
}

/// A field as character sequences.
pub struct FieldModel {
    pub label: Seq<char>,
    pub value: Seq<char>,
}

/// An entry as character sequences.
pub struct EntryModel {
    pub id: Seq<char>,
    pub kind: Seq<char>,
    pub name: Seq<char>,
    pub subtitle: Seq<char>,
    pub summary: Seq<char>,
    pub tags: Seq<Seq<char>>,
    pub source_url: Seq<char>,
    pub image_url: Option<Seq<char>>,
    pub aliases: Seq<char>,
    pub fields: Seq<FieldModel>,
}

impl View for CatalogField {
    type V = FieldModel;

    open spec fn view(&self) -> FieldModel {
        FieldModel { label: self.label@, value: self.value@ }
    }
}

/// The models of a list of fields.
pub open spec fn field_models(fs: Seq<CatalogField>) -> Seq<FieldModel> {
    fs.map_values(|f: CatalogField| f@)
}

/// The model of an optional string.
pub open spec fn opt_view(s: Option<String>) -> Option<Seq<char>> {
    match s {
        Some(t) => Some(t@),
        None => None,
    }
}

impl View for CatalogEntry {
    type V = EntryModel;

    open spec fn view(&self) -> EntryModel {
        EntryModel {
            id: self.id@,
            kind: self.kind@,
            name: self.name@,
            subtitle: self.subtitle@,
            summary: self.summary@,
            tags: string_views(self.tags@),
            source_url: self.source_url@,
            image_url: opt_view(self.image_url),
            aliases: self.aliases@,
            fields: field_models(self.fields@),
        }
    }
}

/// The models of a list of entries.
pub open spec fn entry_models(es: Seq<CatalogEntry>) -> Seq<EntryModel> {
    es.map_values(|e: CatalogEntry| e@)
}

// ---------------------------------------------------------------------------
// Unicode lowercase
// ---------------------------------------------------------------------------

/// What `str::to_lowercase` makes of a string: the full Unicode lowercase
/// mapping, a function of the characters alone.
pub uninterp spec fn lowercased(s: Seq<char>) -> Seq<char>;

/// Calls `str::to_lowercase`; the result is named `lowercased` of the
/// argument, and nothing more is claimed of it.
#[verifier::external_body]
fn to_lowercase(s: &str) -> (res: String)
    ensures
        res@ == lowercased(s@),
{
    s.to_lowercase()
}

// ---------------------------------------------------------------------------
// Specifications
// ---------------------------------------------------------------------------

/// `fs` with the field added when its value is not empty.
pub open spec fn with_field(fs: Seq<FieldModel>, label: Seq<char>, value: Seq<char>) -> Seq<
    FieldModel,
> {
    if value.len() > 0 {
        fs.push(FieldModel { label, value })
    } else {
        fs
    }
}

/// The sources of the first key, in order, that the index holds.
pub open spec fn first_sources(m: Map<Seq<char>, Seq<Seq<char>>>, keys: Seq<Seq<char>>) -> Option<
    Seq<Seq<char>>,
>
    decreases keys.len(),
{
    if keys.len() == 0 {
        None
    } else if m.contains_key(keys[0]) {
        Some(m[keys[0]])
    } else {
        first_sources(m, keys.skip(1))
    }
}

/// `fs` with a field of the given sources, one per line, when there are
/// any.
pub open spec fn with_sources(fs: Seq<FieldModel>, label: Seq<char>, found: Option<Seq<Seq<char>>>) -> Seq<
    FieldModel,
> {
    match found {
        Some(list) => fs.push(FieldModel { label, value: joined(list, newline()) }),
        None => fs,
    }
}

/// The keys under which monster data may know a record: slug, aliases and
/// name.
pub open spec fn record_keys(slug: Seq<char>, aliases: Seq<char>, name: Seq<char>) -> Seq<Seq<char>> {
    seq![slug, aliases, name]
}

/// The stat keys of an ordinary record.
pub open spec fn stat_keys() -> Seq<Seq<char>> {
    seq!["stats"@, "statsPrimary"@, "statsSecondary"@, "statsFullSet"@, "skillList"@]
}

/// The detail fields of a record, by kind, before the fallback field.
pub open spec fn kind_fields(
    obj: Seq<(String, Json)>,
    kind: Seq<char>,
    slug: Seq<char>,
    aliases: Seq<char>,
    name: Seq<char>,
    dropped_by: Map<Seq<char>, Seq<Seq<char>>>,
    locations: Map<Seq<char>, Seq<Seq<char>>>,
) -> Seq<FieldModel> {
    let keys = record_keys(slug, aliases, name);
    if kind == "Artifacts"@ {
        let f1 = with_field(seq![], "Drops"@, maps_spec(obj));
        let f2 = with_field(f1, "Per piece"@, strings_spec(obj, seq!["statsPerPiece"@]));
        let f3 = with_field(f2, "Full set"@, strings_spec(obj, seq!["statsFullSet"@]));
        with_field(f3, "Per refine"@, strings_spec(obj, seq!["statsPerRefine"@]))
    } else if kind == "Maps"@ {
        with_field(seq![], "Monsters"@, map_monsters_spec(obj))
    } else if kind == "Skills"@ {
        let passive = match member(obj, "isPassive"@) {
            Some(v) => bool_of(v) == Some(true),
            None => false,
        };
        let f1 = seq![
            FieldModel {
                label: "Type"@,
                value: if passive {
                    "Passive"@
                } else {
                    "Active"@
                },
            },
        ];
        let f2 = with_field(f1, "Max level"@, number_spec(obj, "MaxLv"@));
        let f3 = with_field(f2, "Cooldown"@, skill_metric_spec(obj, "cooldown"@, "seconds"@));
        with_field(f3, "Cost"@, skill_metric_spec(obj, "cost"@, "mana"@))
    } else {
        let f1 = with_field(seq![], "Stats"@, strings_spec(obj, stat_keys()));
        let f2 = with_field(f1, "Card slots"@, number_spec(obj, "Slots"@));
        let f3 = with_field(f2, "Obtained from"@, related_spec(obj));
        let f4 = with_field(f3, "Drops"@, strings_spec(obj, seq!["drops"@]));
        let f5 = if kind == "Cards"@ || kind == "Gems"@ {
            let drop_type = if kind == "Cards"@ {
                "card"@
            } else {
                "gem"@
            };
            let lookups = keys.map_values(|k: Seq<char>| drop_type + seq![':'] + ascii_lower(k));
            with_sources(f4, "Dropped by"@, first_sources(dropped_by, lookups))
        } else {
            f4
        };
        if kind == "Monsters"@ {
            let lookups = keys.map_values(|k: Seq<char>| ascii_lower(k));
            with_sources(f5, "Locations"@, first_sources(locations, lookups))
        } else {
            f5
        }
    }
}

/// The detail fields of a record: by kind, or the fallback field when none
/// applies.
pub open spec fn fields_spec(
    obj: Seq<(String, Json)>,
    kind: Seq<char>,
    slug: Seq<char>,
    aliases: Seq<char>,
    name: Seq<char>,
    dropped_by: Map<Seq<char>, Seq<Seq<char>>>,
    locations: Map<Seq<char>, Seq<Seq<char>>>,
) -> Seq<FieldModel> {
    let fs = kind_fields(obj, kind, slug, aliases, name, dropped_by, locations);
    if fs.len() == 0 {
        seq![FieldModel { label: "Catalog"@, value: "Live "@ + kind + " record"@ }]
    } else {
        fs
    }
}

/// A name lowercased with its spaces turned into dashes.
pub open spec fn dashed(s: Seq<char>) -> Seq<char> {
    replaced(lowercased(s), " "@, "-"@)
}

/// The id of an entry: `path:slug-or-name:aliases-or-name`.
pub open spec fn id_spec(path: Seq<char>, slug: Seq<char>, aliases: Seq<char>, name: Seq<char>) -> Seq<
    char,
> {
    let first = if slug.len() == 0 {
        dashed(name)
    } else {
        slug
    };
    let second = if aliases.len() == 0 {
        dashed(name)
    } else {
        dashed(aliases)
    };
    path + ":"@ + first + ":"@ + second
}

/// The address of the icons.
pub open spec fn icon_base() -> Seq<char> {
    "https://www.spiritvale.info/content/game/icons/"@
}

/// The image of an entry, from its icon.
pub open spec fn image_spec(obj: Seq<(String, Json)>, kind: Seq<char>) -> Option<Seq<char>> {
    let icon = text_spec(obj, seq!["icon"@]);
    if icon.len() == 0 {
        None
    } else if has_prefix(icon, "item-"@) {
        Some(icon_base() + icon + ".webp"@)
    } else if kind == "Skills"@ {
        Some(icon_base() + "skill-"@ + icon + ".webp"@)
    } else {
        Some(icon_base() + "item-"@ + icon + ".webp"@)
    }
}

/// The tags of an entry: kind, element, and for cards and gems a class.
pub open spec fn tags_spec(kind: Seq<char>, element: Seq<char>, is_boss: Seq<char>) -> Seq<Seq<char>> {
    let boss = is_boss == "1"@;
    let base = seq![kind, element];
    if kind == "Cards"@ {
        base.push(
            if boss {
                "Boss"@
            } else {
                "Normal"@
            },
        )
    } else if kind == "Gems"@ {
        base.push(
            if boss {
                "Boss"@
            } else {
                "Skill"@
            },
        )
    } else {
        base
    }
}

/// The keys by which a record's name is found.
pub open spec fn record_name_keys() -> Seq<Seq<char>> {
    seq!["DisplayName"@, "name"@, "Name"@, "GameId"@]
}

/// The keys by which a record's element or type is found.
pub open spec fn element_keys() -> Seq<Seq<char>> {
    seq!["Element"@, "typeName"@, "slot"@, "Type"@]
}

/// The entry of one record, when it is an object with a name.
pub open spec fn entry_spec(
    record: Json,
    kind: Seq<char>,
    path: Seq<char>,
    dropped_by: Map<Seq<char>, Seq<Seq<char>>>,
    locations: Map<Seq<char>, Seq<Seq<char>>>,
) -> Option<EntryModel> {
    match object_of(record) {
        Some(obj) => {
            let name = text_spec(obj, record_name_keys());
            let slug = text_spec(obj, seq!["Slug"@, "slug"@]);
            let aliases = text_spec(obj, seq!["GameId"@, "Id"@]);
            let level = number_spec(obj, "Level"@);
            let element = text_spec(obj, element_keys());
            let is_boss = number_spec(obj, "IsBoss"@);
            let level_part = if level.len() == 0 {
                seq![]
            } else {
                "Level "@ + level
            };
            let subtitle = pair_joined(level_part, element, dot_sep());
            let summary = text_spec(obj, seq!["Description"@, "description"@]);
            if name.len() == 0 {
                None
            } else {
                Some(
                    EntryModel {
                        id: id_spec(path, slug, aliases, name),
                        kind,
                        name,
                        subtitle: if subtitle.len() == 0 {
                            kind
                        } else {
                            subtitle
                        },
                        summary: if summary.len() == 0 {
                            "Live "@ + kind + " record from SpiritVale Info."@
                        } else {
                            summary
                        },
                        tags: tags_spec(kind, element, is_boss),
                        source_url: "https://www.spiritvale.info/"@ + path,
                        image_url: image_spec(obj, kind),
                        aliases,
                        fields: fields_spec(obj, kind, slug, aliases, name, dropped_by, locations),
                    },
                )
            }
        },
        None => None,
    }
}

/// The entries of the given records, in order, skipping records without one.
pub open spec fn entries_spec(
    records: Seq<Json>,
    kind: Seq<char>,
    path: Seq<char>,
    dropped_by: Map<Seq<char>, Seq<Seq<char>>>,
    locations: Map<Seq<char>, Seq<Seq<char>>>,
) -> Seq<EntryModel>
    decreases records.len(),
{
    if records.len() == 0 {
        seq![]
    } else {
        let rest = entries_spec(records.drop_last(), kind, path, dropped_by, locations);
        match entry_spec(records.last(), kind, path, dropped_by, locations) {
            Some(e) => rest.push(e),
            None => rest,
        }
    }
}

// ---------------------------------------------------------------------------
// Building entries
// ---------------------------------------------------------------------------

/// Adds a field when its value is not empty.
fn push_field(fields: &mut Vec<CatalogField>, label: &str, value: String)
    ensures
        field_models(final(fields)@) == with_field(field_models(old(fields)@), label@, value@),
{
    if value.as_str().unicode_len() > 0 {
        let ghost before = fields@;
        let f = CatalogField { label: String::from_str(label), value };
        fields.push(f);
        assert(field_models(fields@) =~= field_models(before).push(
            FieldModel { label: label@, value: value@ },
        ));
    }
}

/// The strings of a list joined one per line.
fn join_lines(list: &Vec<String>) -> (res: String)
    ensures
        res@ == joined(string_views(list@), newline()),
{
    let mut parts: Vec<Vec<char>> = Vec::new();
    let n = list.len();
    for i in 0..n
        invariant
            n == list@.len(),
            char_views(parts@) == string_views(list@.take(i as int)),
    {
        let ghost before = parts@;
        parts.push(chars_of(list[i].as_str()));
        assert(char_views(parts@) =~= char_views(before).push(list@[i as int]@));
        assert(string_views(list@.take(i + 1)) =~= string_views(list@.take(i as int)).push(
            list@[i as int]@,
        ));
    }
    assert(list@.take(n as int) =~= list@);
    let mut nl: Vec<char> = Vec::new();
    nl.push('\n');
    assert(nl@ =~= newline());
    string_of(&join_chars(&parts, &nl))
}

/// The sources of the first key, in order, that the index holds.
fn first_sources_in<'a>(index: &'a SourceIndex, keys: &Vec<Vec<char>>) -> (res: Option<
    &'a Vec<String>,
>)
    ensures
        match res {
            Some(v) => first_sources(index@, char_views(keys@)) == Some(string_views(v@)),
            None => first_sources(index@, char_views(keys@)) is None,
        },
{
    let ghost ks = char_views(keys@);
    let n = keys.len();
    assert(ks.skip(0) == ks);
    for i in 0..n
        invariant
            n == keys@.len(),
            ks == char_views(keys@),
            first_sources(index@, ks) == first_sources(index@, ks.skip(i as int)),
    {
        assert(ks.skip(i as int)[0] == keys@[i as int]@);
        assert(ks.skip(i as int).skip(1) =~= ks.skip(i + 1));
        let key = string_of(&keys[i]);
        match index.get(key.as_str()) {
            Some(v) => {
                return Some(v);
            },
            None => {},
        }
    }
    assert(ks.skip(n as int) =~= Seq::<Seq<char>>::empty());
    None
}

/// Adds a field of the given sources, one per line, when there are any.
fn push_sources(fields: &mut Vec<CatalogField>, label: &str, found: Option<&Vec<String>>)
    ensures
        field_models(final(fields)@) == with_sources(
            field_models(old(fields)@),
            label@,
            match found {
                Some(v) => Some(string_views(v@)),
                None => None,
            },
        ),
{
    match found {
        Some(list) => {
            let ghost before = fields@;
            let value = join_lines(list);
            fields.push(CatalogField { label: String::from_str(label), value });
            assert(field_models(fields@) =~= field_models(before).push(
                FieldModel { label: label@, value: value@ },
            ));
        },
        None => {},
    }
}

/// The lookup keys `prefix` + lowercased key for slug, aliases and name.
fn lookup_keys(prefix: &Vec<char>, slug: &Vec<char>, aliases: &Vec<char>, name: &Vec<char>) -> (res:
    Vec<Vec<char>>)
    ensures
        char_views(res@) == record_keys(slug@, aliases@, name@).map_values(
            |k: Seq<char>| prefix@ + ascii_lower(k),
        ),
{
    let mut a = prefix.clone();
    extend_chars(&mut a, &ascii_lower_chars(slug));
    let mut b = prefix.clone();
    extend_chars(&mut b, &ascii_lower_chars(aliases));
    let mut c = prefix.clone();
    extend_chars(&mut c, &ascii_lower_chars(name));
    let mut res: Vec<Vec<char>> = Vec::new();
    res.push(a);
    res.push(b);
    res.push(c);
    assert(char_views(res@) =~= record_keys(slug@, aliases@, name@).map_values(
        |k: Seq<char>| prefix@ + ascii_lower(k),
    ));
    res
}

/// The detail fields of a record, by kind, before the fallback field.
fn kind_fields_of(
    object: &Vec<(String, Json)>,
    kind: &str,
    slug: &Vec<char>,
    aliases: &Vec<char>,
    name: &Vec<char>,
    dropped_by: &SourceIndex,
    monster_locations: &SourceIndex,
) -> (res: Vec<CatalogField>)
    ensures
        field_models(res@) == kind_fields(
            object@,
            kind@,
            slug@,
            aliases@,
            name@,
            dropped_by@,
            monster_locations@,
        ),
{
    let mut fields: Vec<CatalogField> = Vec::new();
    assert(field_models(fields@) =~= Seq::<FieldModel>::empty());
    if same_text(kind, "Artifacts") {
        push_field(&mut fields, "Drops", maps(object));
        let k1: [&str; 1] = ["statsPerPiece"];
        assert(str_views(k1@) =~= seq!["statsPerPiece"@]);
        push_field(&mut fields, "Per piece", strings(object, &k1));
        let k2: [&str; 1] = ["statsFullSet"];
        assert(str_views(k2@) =~= seq!["statsFullSet"@]);
        push_field(&mut fields, "Full set", strings(object, &k2));
        let k3: [&str; 1] = ["statsPerRefine"];
        assert(str_views(k3@) =~= seq!["statsPerRefine"@]);
        push_field(&mut fields, "Per refine", strings(object, &k3));
    } else if same_text(kind, "Maps") {
        push_field(&mut fields, "Monsters", map_monsters(object));
    } else if same_text(kind, "Skills") {
        let passive = match crate::json::get_member(object, "isPassive") {
            Some(v) => match v.as_bool() {
                Some(b) => b,
                None => false,
            },
            None => false,
        };
        let skill_type = if passive {
            String::from_str("Passive")
        } else {
            String::from_str("Active")
        };
        proof {
            reveal_strlit("Passive");
            reveal_strlit("Active");
        }
        assert(skill_type@.len() > 0);
        push_field(&mut fields, "Type", skill_type);
        assert(field_models(fields@) =~= seq![FieldModel { label: "Type"@, value: skill_type@ }]);
        push_field(&mut fields, "Max level", number(object, "MaxLv"));
        push_field(&mut fields, "Cooldown", skill_metric(object, "cooldown", "seconds"));
        push_field(&mut fields, "Cost", skill_metric(object, "cost", "mana"));
    } else {
        let stat_names: [&str; 5] = [
            "stats",
            "statsPrimary",
            "statsSecondary",
            "statsFullSet",
            "skillList",
        ];
        assert(str_views(stat_names@) =~= stat_keys());
        push_field(&mut fields, "Stats", strings(object, &stat_names));
        push_field(&mut fields, "Card slots", number(object, "Slots"));
        push_field(&mut fields, "Obtained from", related(object));
        let drop_names: [&str; 1] = ["drops"];
        assert(str_views(drop_names@) =~= seq!["drops"@]);
        push_field(&mut fields, "Drops", strings(object, &drop_names));
        let cards = same_text(kind, "Cards");
        if cards || same_text(kind, "Gems") {
            let mut prefix = if cards {
                chars_of("card")
            } else {
                chars_of("gem")
            };
            prefix.push(':');
            let ghost drop_type = if kind@ == "Cards"@ {
                "card"@
            } else {
                "gem"@
            };
            assert(prefix@ =~= drop_type + seq![':']);
            let keys = lookup_keys(&prefix, slug, aliases, name);
            assert(char_views(keys@) =~= record_keys(slug@, aliases@, name@).map_values(
                |k: Seq<char>| drop_type + seq![':'] + ascii_lower(k),
            ));
            let found = first_sources_in(dropped_by, &keys);
            push_sources(&mut fields, "Dropped by", found);
        }
        if same_text(kind, "Monsters") {
            let prefix: Vec<char> = Vec::new();
            let keys = lookup_keys(&prefix, slug, aliases, name);
            assert(record_keys(slug@, aliases@, name@).map_values(
                |k: Seq<char>| prefix@ + ascii_lower(k),
            ) =~= record_keys(slug@, aliases@, name@).map_values(|k: Seq<char>| ascii_lower(k)));
            let found = first_sources_in(monster_locations, &keys);
            push_sources(&mut fields, "Locations", found);
        }
    }
    fields
}

/// The detail fields of a record: by kind, or the fallback field.
fn fields_of(
    object: &Vec<(String, Json)>,
    kind: &str,
    slug: &Vec<char>,
    aliases: &Vec<char>,
    name: &Vec<char>,
    dropped_by: &SourceIndex,
    monster_locations: &SourceIndex,
) -> (res: Vec<CatalogField>)
    ensures
        field_models(res@) == fields_spec(
            object@,
            kind@,
            slug@,
            aliases@,
            name@,
            dropped_by@,
            monster_locations@,
        ),
{
    let mut fields = kind_fields_of(object, kind, slug, aliases, name, dropped_by, monster_locations);
    if fields.len() == 0 {
        let mut value = chars_of("Live ");
        extend_str(&mut value, kind);
        extend_str(&mut value, " record");
        fields.push(CatalogField { label: String::from_str("Catalog"), value: string_of(&value) });
        assert(field_models(fields@) =~= seq![
            FieldModel { label: "Catalog"@, value: "Live "@ + kind@ + " record"@ },
        ]);
    }
    fields
}

/// A name lowercased with its spaces turned into dashes.
fn dashed_of(s: &Vec<char>) -> (res: Vec<char>)
    ensures
        res@ == dashed(s@),
{
    let lower = chars_of(to_lowercase(string_of(s).as_str()).as_str());
    let space = chars_of(" ");
    let dash = chars_of("-");
    proof {
        reveal_strlit(" ");
    }
    replace_chars(&lower, &space, &dash)
}

/// The id of an entry.
fn id_of(path: &str, slug: &Vec<char>, aliases: &Vec<char>, name: &Vec<char>) -> (res: String)
    ensures
        res@ == id_spec(path@, slug@, aliases@, name@),
{
    let first = if slug.len() == 0 {
        dashed_of(name)
    } else {
        slug.clone()
    };
    let second = if aliases.len() == 0 {
        dashed_of(name)
    } else {
        dashed_of(aliases)
    };
    let mut out = chars_of(path);
    extend_str(&mut out, ":");
    extend_chars(&mut out, &first);
    extend_str(&mut out, ":");
    extend_chars(&mut out, &second);
    string_of(&out)
}

/// The image of an entry, from its icon.
fn image_of(object: &Vec<(String, Json)>, kind: &str) -> (res: Option<String>)
    ensures
        opt_view(res) == image_spec(object@, kind@),
{
    let icon_keys: [&str; 1] = ["icon"];
    assert(str_views(icon_keys@) =~= seq!["icon"@]);
    let icon = chars_of(text(object, &icon_keys).as_str());
    if icon.len() == 0 {
        return None;
    }
    let mut out = chars_of("https://www.spiritvale.info/content/game/icons/");
    if starts_with(&icon, &chars_of("item-")) {
        extend_chars(&mut out, &icon);
    } else if same_text(kind, "Skills") {
        extend_str(&mut out, "skill-");
        extend_chars(&mut out, &icon);
    } else {
        extend_str(&mut out, "item-");
        extend_chars(&mut out, &icon);
    }
    extend_str(&mut out, ".webp");
    Some(string_of(&out))
}

/// The tags of an entry.
fn tags_of(kind: &str, element: &String, is_boss: &String) -> (res: Vec<String>)
    ensures
        string_views(res@) == tags_spec(kind@, element@, is_boss@),
{
    let boss = same_text(is_boss.as_str(), "1");
    let mut tags: Vec<String> = Vec::new();
    tags.push(String::from_str(kind));
    tags.push(element.clone());
    if same_text(kind, "Cards") {
        tags.push(
            if boss {
                String::from_str("Boss")
            } else {
                String::from_str("Normal")
            },
        );
    } else if same_text(kind, "Gems") {
        tags.push(
            if boss {
                String::from_str("Boss")
            } else {
                String::from_str("Skill")
            },
        );
    }
    assert(string_views(tags@) =~= tags_spec(kind@, element@, is_boss@));
    tags
}

/// The entry of one record, when it is an object with a name.
fn entry_of(
    record: &Json,
    kind: &str,
    path: &str,
    dropped_by: &SourceIndex,
    monster_locations: &SourceIndex,
) -> (res: Option<CatalogEntry>)
    ensures
        match res {
            Some(e) => entry_spec(*record, kind@, path@, dropped_by@, monster_locations@) == Some(e@),
            None => entry_spec(*record, kind@, path@, dropped_by@, monster_locations@) is None,
        },
{
    let object = match record.as_object() {
        Some(o) => o,
        None => {
            return None;
        },
    };
    let name_keys: [&str; 4] = ["DisplayName", "name", "Name", "GameId"];
    assert(str_views(name_keys@) =~= record_name_keys());
    let name = text(object, &name_keys);
    if name.as_str().unicode_len() == 0 {
        return None;
    }
    let slug_keys: [&str; 2] = ["Slug", "slug"];
    assert(str_views(slug_keys@) =~= seq!["Slug"@, "slug"@]);
    let slug = text(object, &slug_keys);
    let alias_keys: [&str; 2] = ["GameId", "Id"];
    assert(str_views(alias_keys@) =~= seq!["GameId"@, "Id"@]);
    let aliases = text(object, &alias_keys);
    let level = chars_of(number(object, "Level").as_str());
    let element_names: [&str; 4] = ["Element", "typeName", "slot", "Type"];
    assert(str_views(element_names@) =~= element_keys());
    let element = text(object, &element_names);
    let is_boss = number(object, "IsBoss");
    let level_part = if level.len() == 0 {
        Vec::new()
    } else {
        let mut p = chars_of("Level ");
        extend_chars(&mut p, &level);
        p
    };
    let mut sep: Vec<char> = Vec::new();
    sep.push(' ');
    sep.push('\u{b7}');
    sep.push(' ');
    assert(sep@ =~= dot_sep());
    let subtitle = if level_part.len() == 0 {
        chars_of(element.as_str())
    } else if element.as_str().unicode_len() == 0 {
        level_part
    } else {
        let mut out = level_part;
        extend_chars(&mut out, &sep);
        extend_str(&mut out, element.as_str());
        out
    };
    let summary_keys: [&str; 2] = ["Description", "description"];
    assert(str_views(summary_keys@) =~= seq!["Description"@, "description"@]);
    let summary = text(object, &summary_keys);
    let slug_chars = chars_of(slug.as_str());
    let alias_chars = chars_of(aliases.as_str());
    let name_chars = chars_of(name.as_str());
    let fields = fields_of(
        object,
        kind,
        &slug_chars,
        &alias_chars,
        &name_chars,
        dropped_by,
        monster_locations,
    );
    let id = id_of(path, &slug_chars, &alias_chars, &name_chars);
    let subtitle_text = if subtitle.len() == 0 {
        String::from_str(kind)
    } else {
        string_of(&subtitle)
    };
    let summary_text = if summary.as_str().unicode_len() == 0 {
        let mut out = chars_of("Live ");
        extend_str(&mut out, kind);
        extend_str(&mut out, " record from SpiritVale Info.");
        string_of(&out)
    } else {
        summary
    };
    let tags = tags_of(kind, &element, &is_boss);
    let mut url = chars_of("https://www.spiritvale.info/");
    extend_str(&mut url, path);
    let image_url = image_of(object, kind);
    let entry = CatalogEntry {
        id,
        kind: String::from_str(kind),
        name,
        subtitle: subtitle_text,
        summary: summary_text,
        tags,
        source_url: string_of(&url),
        image_url,
        aliases,
        fields,
    };
    Some(entry)
}

/// The catalog entries of a page's records under `props.<property>`, in
/// order, for records that are objects with a name.
pub fn parse_entries(
    page: &Json,
    property: &str,
    kind: &str,
    path: &str,
    dropped_by: &SourceIndex,
    monster_locations: &SourceIndex,
) -> (res: Result<Vec<CatalogEntry>, String>)
    ensures
        match page_records(*page, "/props/"@ + property@) {
            Some(records) => res matches Ok(entries) && entry_models(entries@) == entries_spec(
                records,
                kind@,
                path@,
                dropped_by@,
                monster_locations@,
            ),
            None => res matches Err(e) && e@ == "SpiritVale Info did not provide "@ + kind@
                + " records."@,
        },
{
    let mut pointer = chars_of("/props/");
    extend_str(&mut pointer, property);
    let pointer_text = string_of(&pointer);
    let records = match page.pointer(pointer_text.as_str()) {
        Some(v) => match v.as_array() {
            Some(a) => a,
            None => {
                let mut msg = chars_of("SpiritVale Info did not provide ");
                extend_str(&mut msg, kind);
                extend_str(&mut msg, " records.");
                return Err(string_of(&msg));
            },
        },
        None => {
            let mut msg = chars_of("SpiritVale Info did not provide ");
            extend_str(&mut msg, kind);
            extend_str(&mut msg, " records.");
            return Err(string_of(&msg));
        },
    };
    let mut entries: Vec<CatalogEntry> = Vec::new();
    let n = records.len();
    for i in 0..n
        invariant
            n == records@.len(),
            entry_models(entries@) == entries_spec(
                records@.take(i as int),
                kind@,
                path@,
                dropped_by@,
                monster_locations@,
            ),
    {
        assert(records@.take(i + 1).drop_last() =~= records@.take(i as int));
        match entry_of(&records[i], kind, path, dropped_by, monster_locations) {
            Some(e) => {
                let ghost before = entries@;
                entries.push(e);
                assert(entry_models(entries@) =~= entry_models(before).push(e@));
            },
            None => {},
        }
    }
    assert(records@.take(n as int) =~= records@);
    Ok(entries)
}

} // verus!
