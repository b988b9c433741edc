//! The drop index (which monsters drop each card and gem) and the location
//! index (on which maps each monster lives), built from the monsters and
//! maps pages.
use vstd::prelude::*;
use crate::chars::{ascii_lower, ascii_lower_chars, chars_of, extend_chars, extend_str, same_chars, string_of};
use crate::fields::{
    array_member, decimal_member, dot_sep, number, number_spec, str_views, text, text_spec,
};
use crate::index::{with_source, SourceIndex};
use crate::json::{array_of, object_of, pointer_target, text_of, Json};
use crate::markup::{clean_text, cleaned};

verus! {

/// The index of a lookup key: its cleaned text with ASCII letters lowercased.
pub open spec fn index_key(key: Seq<char>) -> Seq<char> {
    ascii_lower(cleaned(key))
}

/// `m` with `source` recorded under `drop_type:key`, unless the key is
/// empty once cleaned.
pub open spec fn drop_source_added(
    m: Map<Seq<char>, Seq<Seq<char>>>,
    drop_type: Seq<char>,
    key: Seq<char>,
    source: Seq<char>,
) -> Map<Seq<char>, Seq<Seq<char>>> {
    let k = index_key(key);
    if k.len() == 0 {
        m
    } else {
        with_source(m, drop_type + seq![':'] + k, source)
    }
}

/// `m` with `location` recorded under the monster key, unless the key is
/// empty once cleaned.
pub open spec fn monster_location_added(
    m: Map<Seq<char>, Seq<Seq<char>>>,
    key: Seq<char>,
    location: Seq<char>,
) -> Map<Seq<char>, Seq<Seq<char>>> {
    let k = index_key(key);
    if k.len() == 0 {
        m
    } else {
        with_source(m, k, location)
    }
}

/// Records that the monster `source` drops the `drop_type` item `key`.
pub fn add_drop_source(index: &mut SourceIndex, drop_type: &str, key: &str, source: &str)
    ensures
        final(index)@ == drop_source_added(old(index)@, drop_type@, key@, source@),
{
    let k = ascii_lower_chars(&chars_of(clean_text(key).as_str()));
    if k.len() == 0 {
        return;
    }
    let mut full = chars_of(drop_type);
    full.push(':');
    extend_chars(&mut full, &k);
    assert(full@ =~= drop_type@ + seq![':'] + k@);
    index.record(&full, source);
}

/// Records that the monster `key` lives at `location`.
pub fn add_monster_location(index: &mut SourceIndex, key: &str, location: &str)
    ensures
        final(index)@ == monster_location_added(old(index)@, key@, location@),
{
    let k = ascii_lower_chars(&chars_of(clean_text(key).as_str()));
    if k.len() == 0 {
        return;
    }
    index.record(&k, location);
}

// ---------------------------------------------------------------------------
// The drop index
// ---------------------------------------------------------------------------

/// The source text of a drop: the monster's name, its level when known, and
/// the drop chance when known.
pub open spec fn drop_source_text(d: Seq<(String, Json)>, name: Seq<char>, level: Seq<char>) -> Seq<
    char,
> {
    let chance = match decimal_member(d, "chance"@) {
        Some(c) => dot_sep() + c.text@ + "%"@,
        None => seq![],
    };
    if level.len() == 0 {
        name + chance
    } else {
        name + " (Lv "@ + level + ")"@ + chance
    }
}

/// `m` with one drop of a monster recorded: card and gem drops under their
/// slug, id and name.
pub open spec fn drop_added(
    m: Map<Seq<char>, Seq<Seq<char>>>,
    drop: Json,
    name: Seq<char>,
    level: Seq<char>,
) -> Map<Seq<char>, Seq<Seq<char>>> {
    match object_of(drop) {
        Some(d) => {
            let dt = ascii_lower(text_spec(d, seq!["type"@]));
            if dt != "card"@ && dt != "gem"@ {
                m
            } else {
                let source = drop_source_text(d, name, level);
                let m1 = drop_source_added(m, dt, text_spec(d, seq!["slug"@]), source);
                let m2 = drop_source_added(m1, dt, text_spec(d, seq!["id"@]), source);
                drop_source_added(m2, dt, text_spec(d, seq!["name"@]), source)
            }
        },
        None => m,
    }
}

/// `m` with the given drops of one monster recorded, in order.
pub open spec fn drops_added(
    m: Map<Seq<char>, Seq<Seq<char>>>,
    drops: Seq<Json>,
    name: Seq<char>,
    level: Seq<char>,
) -> Map<Seq<char>, Seq<Seq<char>>>
    decreases drops.len(),
{
    if drops.len() == 0 {
        m
    } else {
        drop_added(drops_added(m, drops.drop_last(), name, level), drops.last(), name, level)
    }
}

/// The keys by which a monster's name is found for the drop index.
pub open spec fn drop_monster_keys() -> Seq<Seq<char>> {
    seq!["DisplayName"@, "name"@, "Name"@]
}

/// `m` with the drops of one monster record added.
pub open spec fn monster_drops_added(m: Map<Seq<char>, Seq<Seq<char>>>, record: Json) -> Map<
    Seq<char>,
    Seq<Seq<char>>,
> {
    match object_of(record) {
        Some(mon) => {
            let name = text_spec(mon, drop_monster_keys());
            if name.len() == 0 {
                m
            } else {
                drops_added(m, array_member(mon, "drops"@), name, number_spec(mon, "Level"@))
            }
        },
        None => m,
    }
}

/// The drop index of the given monster records, in order.
pub open spec fn drop_index_of(records: Seq<Json>) -> Map<Seq<char>, Seq<Seq<char>>>
    decreases records.len(),
{
    if records.len() == 0 {
        Map::empty()
    } else {
        monster_drops_added(drop_index_of(records.drop_last()), records.last())
    }
}

/// The monster records of a page: `props.monsters` when it is an array.
pub open spec fn page_records(page: Json, pointer: Seq<char>) -> Option<Seq<Json>> {
    match pointer_target(page, pointer) {
        Some(v) => array_of(v),
        None => None,
    }
}

/// The records under a pointer of a page, when they form an array.
fn records_at<'a>(page: &'a Json, pointer: &str) -> (res: Option<&'a Vec<Json>>)
    ensures
        match res {
            Some(a) => page_records(*page, pointer@) == Some(a@),
            None => page_records(*page, pointer@) is None,
        },
{
    match page.pointer(pointer) {
        Some(v) => v.as_array(),
        None => None,
    }
}

/// The elements of member `key` when it is an array; an empty vector
/// otherwise.
fn array_member_of<'a>(object: &'a Vec<(String, Json)>, key: &str, empty: &'a Vec<Json>) -> (res:
    &'a Vec<Json>)
    requires
        empty@.len() == 0,
    ensures
        res@ == array_member(object@, key@),
{
    match crate::json::get_member(object, key) {
        Some(v) => match v.as_array() {
            Some(a) => a,
            None => {
                assert(empty@ =~= Seq::<Json>::empty());
                empty
            },
        },
        None => {
            assert(empty@ =~= Seq::<Json>::empty());
            empty
        },
    }
}

/// Records one drop of a monster.
fn add_drop(index: &mut SourceIndex, drop: &Json, name: &Vec<char>, level: &Vec<char>)
    ensures
        final(index)@ == drop_added(old(index)@, *drop, name@, level@),
{
    let d = match drop.as_object() {
        Some(d) => d,
        None => {
            return;
        },
    };
    let type_keys: [&str; 1] = ["type"];
    assert(str_views(type_keys@) =~= seq!["type"@]);
    let dt = ascii_lower_chars(&chars_of(text(d, &type_keys).as_str()));
    let card = chars_of("card");
    let gem = chars_of("gem");
    if !same_chars(&dt, &card) && !same_chars(&dt, &gem) {
        return;
    }
    let mut source = name.clone();
    if level.len() > 0 {
        extend_str(&mut source, " (Lv ");
        extend_chars(&mut source, level);
        extend_str(&mut source, ")");
    }
    match crate::json::get_member(d, "chance") {
        Some(c) => match c.as_decimal() {
            Some(x) => {
                source.push(' ');
                source.push('\u{b7}');
                source.push(' ');
                extend_str(&mut source, x.text.as_str());
                extend_str(&mut source, "%");
            },
            None => {},
        },
        None => {},
    }
    assert(source@ =~= drop_source_text(d@, name@, level@));
    let dt_text = string_of(&dt);
    let source_text = string_of(&source);
    let slug_keys: [&str; 1] = ["slug"];
    assert(str_views(slug_keys@) =~= seq!["slug"@]);
    let id_keys: [&str; 1] = ["id"];
    assert(str_views(id_keys@) =~= seq!["id"@]);
    let name_keys: [&str; 1] = ["name"];
    assert(str_views(name_keys@) =~= seq!["name"@]);
    let slug = text(d, &slug_keys);
    let id = text(d, &id_keys);
    let item_name = text(d, &name_keys);
    add_drop_source(index, dt_text.as_str(), slug.as_str(), source_text.as_str());
    add_drop_source(index, dt_text.as_str(), id.as_str(), source_text.as_str());
    add_drop_source(index, dt_text.as_str(), item_name.as_str(), source_text.as_str());
}

/// Records the drops of one monster record.
fn add_monster_drops(index: &mut SourceIndex, record: &Json)
    ensures
        final(index)@ == monster_drops_added(old(index)@, *record),
{
    let mon = match record.as_object() {
        Some(m) => m,
        None => {
            return;
        },
    };
    let keys: [&str; 3] = ["DisplayName", "name", "Name"];
    assert(str_views(keys@) =~= drop_monster_keys());
    let name = chars_of(text(mon, &keys).as_str());
    if name.len() == 0 {
        return;
    }
    let level = chars_of(number(mon, "Level").as_str());
    let empty: Vec<Json> = Vec::new();
    let drops = array_member_of(mon, "drops", &empty);
    let n = drops.len();
    let ghost start = index@;
    for i in 0..n
        invariant
            n == drops@.len(),
            index@ == drops_added(start, drops@.take(i as int), name@, level@),
    {
        assert(drops@.take(i + 1).drop_last() =~= drops@.take(i as int));
        add_drop(index, &drops[i], &name, &level);
    }
    assert(drops@.take(n as int) =~= drops@);
}

/// Which monsters drop each card and gem, from the monsters page: keys are
/// `card:<key>` or `gem:<key>` for the item's slug, id and name.
pub fn monster_drop_index(page: &Json) -> (res: Result<SourceIndex, String>)
    ensures
        match page_records(*page, "/props/monsters"@) {
            Some(records) => res matches Ok(index) && index@ == drop_index_of(records),
            None => res matches Err(e) && e@ == "SpiritVale Info did not provide monster records."@,
        },
{
    let records = match records_at(page, "/props/monsters") {
        Some(r) => r,
        None => {
            return Err(String::from_str("SpiritVale Info did not provide monster records."));
        },
    };
    let mut index = SourceIndex::new();
    let n = records.len();
    for i in 0..n
        invariant
            n == records@.len(),
            index@ == drop_index_of(records@.take(i as int)),
    {
        assert(records@.take(i + 1).drop_last() =~= records@.take(i as int));
        add_monster_drops(&mut index, &records[i]);
    }
    assert(records@.take(n as int) =~= records@);
    Ok(index)
}

// ---------------------------------------------------------------------------
// The location index
// ---------------------------------------------------------------------------

/// `m` with `location` recorded for each string of a monster pool.
pub open spec fn pool_added(m: Map<Seq<char>, Seq<Seq<char>>>, pool: Seq<Json>, location: Seq<char>) -> Map<
    Seq<char>,
    Seq<Seq<char>>,
>
    decreases pool.len(),
{
    if pool.len() == 0 {
        m
    } else {
        let rest = pool_added(m, pool.drop_last(), location);
        match text_of(pool.last()) {
            Some(name) => monster_location_added(rest, name, location),
            None => rest,
        }
    }
}

/// `m` with `location` recorded for one monster object of a map, under its
/// slug, game id and display name.
pub open spec fn map_monster_added(m: Map<Seq<char>, Seq<Seq<char>>>, monster: Json, location: Seq<
    char,
>) -> Map<Seq<char>, Seq<Seq<char>>> {
    match object_of(monster) {
        Some(o) => {
            let m1 = monster_location_added(m, text_spec(o, seq!["Slug"@]), location);
            let m2 = monster_location_added(m1, text_spec(o, seq!["GameId"@]), location);
            monster_location_added(m2, text_spec(o, seq!["DisplayName"@]), location)
        },
        None => m,
    }
}

/// `m` with `location` recorded for the given monster objects, in order.
pub open spec fn map_monsters_added(
    m: Map<Seq<char>, Seq<Seq<char>>>,
    monsters: Seq<Json>,
    location: Seq<char>,
) -> Map<Seq<char>, Seq<Seq<char>>>
    decreases monsters.len(),
{
    if monsters.len() == 0 {
        m
    } else {
        map_monster_added(map_monsters_added(m, monsters.drop_last(), location), monsters.last(), location)
    }
}

/// The keys by which a map's location name is found.
pub open spec fn location_keys() -> Seq<Seq<char>> {
    seq!["DisplayName"@, "GameId"@, "name"@, "Name"@]
}

/// `m` with the monsters of one map record added: first its monster pool,
/// then its monster objects.
pub open spec fn map_locations_added(m: Map<Seq<char>, Seq<Seq<char>>>, record: Json) -> Map<
    Seq<char>,
    Seq<Seq<char>>,
> {
    match object_of(record) {
        Some(map) => {
            let location = text_spec(map, location_keys());
            if location.len() == 0 {
                m
            } else {
                let m1 = pool_added(m, array_member(map, "MonsterPool"@), location);
                map_monsters_added(m1, array_member(map, "monsters"@), location)
            }
        },
        None => m,
    }
}

/// The location index of the given map records, in order.
pub open spec fn location_index_of(records: Seq<Json>) -> Map<Seq<char>, Seq<Seq<char>>>
    decreases records.len(),
{
    if records.len() == 0 {
        Map::empty()
    } else {
        map_locations_added(location_index_of(records.drop_last()), records.last())
    }
}

/// Records `location` for one monster object of a map.
fn add_map_monster(index: &mut SourceIndex, monster: &Json, location: &str)
    ensures
        final(index)@ == map_monster_added(old(index)@, *monster, location@),
{
    match monster.as_object() {
        Some(o) => {
            let slug_keys: [&str; 1] = ["Slug"];
            assert(str_views(slug_keys@) =~= seq!["Slug"@]);
            let id_keys: [&str; 1] = ["GameId"];
            assert(str_views(id_keys@) =~= seq!["GameId"@]);
            let name_keys: [&str; 1] = ["DisplayName"];
            assert(str_views(name_keys@) =~= seq!["DisplayName"@]);
            let slug = text(o, &slug_keys);
            let id = text(o, &id_keys);
            let name = text(o, &name_keys);
            add_monster_location(index, slug.as_str(), location);
            add_monster_location(index, id.as_str(), location);
            add_monster_location(index, name.as_str(), location);
        },
        None => {},
    }
}

/// Records the monsters of one map record.
fn add_map_locations(index: &mut SourceIndex, record: &Json)
    ensures
        final(index)@ == map_locations_added(old(index)@, *record),
{
    let map = match record.as_object() {
        Some(m) => m,
        None => {
            return;
        },
    };
    let keys: [&str; 4] = ["DisplayName", "GameId", "name", "Name"];
    assert(str_views(keys@) =~= location_keys());
    let location = text(map, &keys);
    if location.as_str().unicode_len() == 0 {
        return;
    }
    let empty: Vec<Json> = Vec::new();
    let pool = array_member_of(map, "MonsterPool", &empty);
    let n = pool.len();
    let ghost start = index@;
    for i in 0..n
        invariant
            n == pool@.len(),
            index@ == pool_added(start, pool@.take(i as int), location@),
    {
        assert(pool@.take(i + 1).drop_last() =~= pool@.take(i as int));
        match pool[i].as_text() {
            Some(name) => add_monster_location(index, name.as_str(), location.as_str()),
            None => {},
        }
    }
    assert(pool@.take(n as int) =~= pool@);
    let monsters = array_member_of(map, "monsters", &empty);
    let m = monsters.len();
    let ghost middle = index@;
    for i in 0..m
        invariant
            m == monsters@.len(),
            index@ == map_monsters_added(middle, monsters@.take(i as int), location@),
    {
        assert(monsters@.take(i + 1).drop_last() =~= monsters@.take(i as int));
        add_map_monster(index, &monsters[i], location.as_str());
    }
    assert(monsters@.take(m as int) =~= monsters@);
}

/// On which maps each monster lives, from the maps page: keys are the
/// monster's pool name, slug, game id and display name.
pub fn monster_location_index(page: &Json) -> (res: Result<SourceIndex, String>)
    ensures
        match page_records(*page, "/props/maps"@) {
            Some(records) => res matches Ok(index) && index@ == location_index_of(records),
            None => res matches Err(e) && e@ == "SpiritVale Info did not provide map records."@,
        },
{
    let records = match records_at(page, "/props/maps") {
        Some(r) => r,
        None => {
            return Err(String::from_str("SpiritVale Info did not provide map records."));
        },
    };
    let mut index = SourceIndex::new();
    let n = records.len();
    for i in 0..n
        invariant
            n == records@.len(),
            index@ == location_index_of(records@.take(i as int)),
    {
        assert(records@.take(i + 1).drop_last() =~= records@.take(i as int));
        add_map_locations(&mut index, &records[i]);
    }
    assert(records@.take(n as int) =~= records@);
    Ok(index)
}

} // verus!
