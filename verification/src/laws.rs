//! Properties of the library as a whole: what recording a source keeps,
//! the shape of every catalog entry, the distinct lines of list fields, the
//! trimmed text of cleanup, and what the cache serves after a failed sync.
use vstd::prelude::*;
use crate::catalog::{entry_spec, EntryModel};
use crate::chars::{has_prefix, is_white, trim_end, trim_start, trimmed};
use crate::fields::{collect_distinct, push_new};
use crate::index::{lists_distinct, no_repeats, sources_of, with_source};
use crate::json::Json;
use crate::markup::cleaned;
use crate::sources::{
    drop_added, drop_index_of, drop_source_added, drops_added, location_index_of,
    map_monster_added, map_monsters_added, monster_location_added, pool_added,
};
use crate::sync::{cached_spec, live_spec, CacheModel, ResponseModel};

verus! {

// ---------------------------------------------------------------------------
// Recording sources
// ---------------------------------------------------------------------------

/// `push_new` keeps a list free of repeats.
proof fn lemma_push_new_distinct(list: Seq<Seq<char>>, x: Seq<char>)
    requires
        no_repeats(list),
    ensures
        no_repeats(push_new(list, x)),
{
    if !list.contains(x) {
        let p = list.push(x);
        assert forall|i: int, j: int| 0 <= i < j < p.len() implies p[i] != p[j] by {
            if j == list.len() {
                assert(list[i] != x);
            }
        }
    }
}

/// Recording the same source twice under the same key is the same as
/// recording it once.
pub proof fn recording_is_idempotent(
    m: Map<Seq<char>, Seq<Seq<char>>>,
    key: Seq<char>,
    source: Seq<char>,
)
    ensures
        with_source(with_source(m, key, source), key, source) == with_source(m, key, source),
{
    let once = with_source(m, key, source);
    let list = push_new(sources_of(m, key), source);
    assert(list.contains(source)) by {
        if !sources_of(m, key).contains(source) {
            assert(list[list.len() - 1] == source);
        }
    }
    assert(sources_of(once, key) == list);
    assert(with_source(once, key, source) =~= once);
}

/// Recording a source keeps every source recorded before, in order, and
/// afterwards the key holds the new source.
pub proof fn recording_keeps_sources(
    m: Map<Seq<char>, Seq<Seq<char>>>,
    key: Seq<char>,
    source: Seq<char>,
    other: Seq<char>,
)
    ensures
        sources_of(with_source(m, key, source), key).contains(source),
        sources_of(m, other).len() <= sources_of(with_source(m, key, source), other).len(),
        sources_of(with_source(m, key, source), other).take(sources_of(m, other).len() as int)
            == sources_of(m, other),
{
    let list = push_new(sources_of(m, key), source);
    if !sources_of(m, key).contains(source) {
        assert(list[list.len() - 1] == source);
    }
    assert(sources_of(with_source(m, key, source), key) == list);
    if other == key {
        assert(list.take(sources_of(m, key).len() as int) =~= sources_of(m, key));
    } else {
        assert(sources_of(m, other).take(sources_of(m, other).len() as int) =~= sources_of(
            m,
            other,
        ));
    }
}

/// Recording a source never makes a list repeat a source.
pub proof fn recording_keeps_lists_distinct(
    m: Map<Seq<char>, Seq<Seq<char>>>,
    key: Seq<char>,
    source: Seq<char>,
)
    requires
        lists_distinct(m),
    ensures
        lists_distinct(with_source(m, key, source)),
{
    let n = with_source(m, key, source);
    assert(no_repeats(sources_of(m, key))) by {
        if m.contains_key(key) {
            assert(no_repeats(m[key]));
        }
    }
    lemma_push_new_distinct(sources_of(m, key), source);
    assert forall|k: Seq<char>| n.contains_key(k) implies no_repeats(#[trigger] n[k]) by {
        if k != key {
            assert(no_repeats(m[k]));
        }
    }
}

proof fn lemma_drop_added_distinct(
    m: Map<Seq<char>, Seq<Seq<char>>>,
    drop: Json,
    name: Seq<char>,
    level: Seq<char>,
)
    requires
        lists_distinct(m),
    ensures
        lists_distinct(drop_added(m, drop, name, level)),
{
    assert forall|mm: Map<Seq<char>, Seq<Seq<char>>>, dt: Seq<char>, k: Seq<char>, s: Seq<char>|
        lists_distinct(mm) implies #[trigger] lists_distinct(drop_source_added(mm, dt, k, s)) by {
        if crate::sources::index_key(k).len() > 0 {
            recording_keeps_lists_distinct(mm, dt + seq![':'] + crate::sources::index_key(k), s);
        }
    }
}

proof fn lemma_drops_added_distinct(
    m: Map<Seq<char>, Seq<Seq<char>>>,
    drops: Seq<Json>,
    name: Seq<char>,
    level: Seq<char>,
)
    requires
        lists_distinct(m),
    ensures
        lists_distinct(drops_added(m, drops, name, level)),
    decreases drops.len(),
{
    if drops.len() > 0 {
        lemma_drops_added_distinct(m, drops.drop_last(), name, level);
        lemma_drop_added_distinct(drops_added(m, drops.drop_last(), name, level), drops.last(), name, level);
    }
}

/// No list of the drop index repeats a monster.
pub proof fn drop_index_lists_distinct(records: Seq<Json>)
    ensures
        lists_distinct(drop_index_of(records)),
    decreases records.len(),
{
    if records.len() == 0 {
        assert(lists_distinct(Map::<Seq<char>, Seq<Seq<char>>>::empty()));
    } else {
        drop_index_lists_distinct(records.drop_last());
        let m = drop_index_of(records.drop_last());
        let r = records.last();
        match crate::json::object_of(r) {
            Some(mon) => {
                let name = crate::fields::text_spec(mon, crate::sources::drop_monster_keys());
                if name.len() > 0 {
                    lemma_drops_added_distinct(
                        m,
                        crate::fields::array_member(mon, "drops"@),
                        name,
                        crate::fields::number_spec(mon, "Level"@),
                    );
                }
            },
            None => {},
        }
    }
}

/// Whether a drop index key names its item type: `card:` or `gem:`.
pub open spec fn typed_key(k: Seq<char>) -> bool {
    has_prefix(k, "card"@ + seq![':']) || has_prefix(k, "gem"@ + seq![':'])
}

/// Whether every key of an index names its item type.
pub open spec fn keys_typed(m: Map<Seq<char>, Seq<Seq<char>>>) -> bool {
    forall|k: Seq<char>| m.contains_key(k) ==> typed_key(k)
}

proof fn lemma_drop_added_typed(
    m: Map<Seq<char>, Seq<Seq<char>>>,
    drop: Json,
    name: Seq<char>,
    level: Seq<char>,
)
    requires
        keys_typed(m),
    ensures
        keys_typed(drop_added(m, drop, name, level)),
{
    assert forall|mm: Map<Seq<char>, Seq<Seq<char>>>, dt: Seq<char>, k: Seq<char>, s: Seq<char>|
        keys_typed(mm) && (dt == "card"@ || dt == "gem"@) implies #[trigger] keys_typed(
        drop_source_added(mm, dt, k, s),
    ) by {
        let ik = crate::sources::index_key(k);
        if ik.len() > 0 {
            let full = dt + seq![':'] + ik;
            assert(full.take((dt + seq![':']).len() as int) =~= dt + seq![':']);
            assert forall|j: Seq<char>| drop_source_added(mm, dt, k, s).contains_key(j) implies typed_key(
                j,
            ) by {
                if j != full {
                    assert(mm.contains_key(j));
                }
            }
        }
    }
}

proof fn lemma_drops_added_typed(
    m: Map<Seq<char>, Seq<Seq<char>>>,
    drops: Seq<Json>,
    name: Seq<char>,
    level: Seq<char>,
)
    requires
        keys_typed(m),
    ensures
        keys_typed(drops_added(m, drops, name, level)),
    decreases drops.len(),
{
    if drops.len() > 0 {
        lemma_drops_added_typed(m, drops.drop_last(), name, level);
        lemma_drop_added_typed(drops_added(m, drops.drop_last(), name, level), drops.last(), name, level);
    }
}

/// Every key of the drop index is `card:` or `gem:` followed by the item's
/// key: only card and gem drops are recorded.
pub proof fn drop_index_keys_typed(records: Seq<Json>)
    ensures
        keys_typed(drop_index_of(records)),
    decreases records.len(),
{
    if records.len() == 0 {
        assert(keys_typed(Map::<Seq<char>, Seq<Seq<char>>>::empty()));
    } else {
        drop_index_keys_typed(records.drop_last());
        let m = drop_index_of(records.drop_last());
        match crate::json::object_of(records.last()) {
            Some(mon) => {
                let name = crate::fields::text_spec(mon, crate::sources::drop_monster_keys());
                if name.len() > 0 {
                    lemma_drops_added_typed(
                        m,
                        crate::fields::array_member(mon, "drops"@),
                        name,
                        crate::fields::number_spec(mon, "Level"@),
                    );
                }
            },
            None => {},
        }
    }
}

proof fn lemma_location_added_distinct(
    m: Map<Seq<char>, Seq<Seq<char>>>,
    key: Seq<char>,
    location: Seq<char>,
)
    requires
        lists_distinct(m),
    ensures
        lists_distinct(monster_location_added(m, key, location)),
{
    if crate::sources::index_key(key).len() > 0 {
        recording_keeps_lists_distinct(m, crate::sources::index_key(key), location);
    }
}

proof fn lemma_pool_added_distinct(
    m: Map<Seq<char>, Seq<Seq<char>>>,
    pool: Seq<Json>,
    location: Seq<char>,
)
    requires
        lists_distinct(m),
    ensures
        lists_distinct(pool_added(m, pool, location)),
    decreases pool.len(),
{
    if pool.len() > 0 {
        lemma_pool_added_distinct(m, pool.drop_last(), location);
        match crate::json::text_of(pool.last()) {
            Some(name) => lemma_location_added_distinct(
                pool_added(m, pool.drop_last(), location),
                name,
                location,
            ),
            None => {},
        }
    }
}

proof fn lemma_map_monsters_added_distinct(
    m: Map<Seq<char>, Seq<Seq<char>>>,
    monsters: Seq<Json>,
    location: Seq<char>,
)
    requires
        lists_distinct(m),
    ensures
        lists_distinct(map_monsters_added(m, monsters, location)),
    decreases monsters.len(),
{
    if monsters.len() > 0 {
        lemma_map_monsters_added_distinct(m, monsters.drop_last(), location);
        let prev = map_monsters_added(m, monsters.drop_last(), location);
        match crate::json::object_of(monsters.last()) {
            Some(o) => {
                let k1 = crate::fields::text_spec(o, seq!["Slug"@]);
                let k2 = crate::fields::text_spec(o, seq!["GameId"@]);
                let m1 = monster_location_added(prev, k1, location);
                lemma_location_added_distinct(prev, k1, location);
                let m2 = monster_location_added(m1, k2, location);
                lemma_location_added_distinct(m1, k2, location);
                lemma_location_added_distinct(
                    m2,
                    crate::fields::text_spec(o, seq!["DisplayName"@]),
                    location,
                );
            },
            None => {},
        }
    }
}

/// No list of the location index repeats a map.
pub proof fn location_index_lists_distinct(records: Seq<Json>)
    ensures
        lists_distinct(location_index_of(records)),
    decreases records.len(),
{
    if records.len() == 0 {
        assert(lists_distinct(Map::<Seq<char>, Seq<Seq<char>>>::empty()));
    } else {
        location_index_lists_distinct(records.drop_last());
        let m = location_index_of(records.drop_last());
        match crate::json::object_of(records.last()) {
            Some(map) => {
                let location = crate::fields::text_spec(map, crate::sources::location_keys());
                if location.len() > 0 {
                    let pool = crate::fields::array_member(map, "MonsterPool"@);
                    lemma_pool_added_distinct(m, pool, location);
                    lemma_map_monsters_added_distinct(
                        pool_added(m, pool, location),
                        crate::fields::array_member(map, "monsters"@),
                        location,
                    );
                }
            },
            None => {},
        }
    }
}

// ---------------------------------------------------------------------------
// List fields and entries
// ---------------------------------------------------------------------------

/// A location or monster list never shows the same line twice.
pub proof fn distinct_lines(values: Seq<Json>, f: spec_fn(Json) -> Option<Seq<char>>)
    ensures
        no_repeats(collect_distinct(values, f)),
    decreases values.len(),
{
    if values.len() > 0 {
        distinct_lines(values.drop_last(), f);
        match f(values.last()) {
            Some(line) => lemma_push_new_distinct(collect_distinct(values.drop_last(), f), line),
            None => {},
        }
    }
}

/// Every catalog entry has a name, at least one detail field, its kind as
/// first tag, an id that starts with its page path and a colon, and the
/// page's address as source.
pub proof fn entry_shape(
    record: Json,
    kind: Seq<char>,
    path: Seq<char>,
    dropped_by: Map<Seq<char>, Seq<Seq<char>>>,
    locations: Map<Seq<char>, Seq<Seq<char>>>,
)
    ensures
        entry_spec(record, kind, path, dropped_by, locations) matches Some(e) ==> {
            &&& e.name.len() > 0
            &&& e.fields.len() > 0
            &&& e.tags.len() >= 2
            &&& e.tags[0] == kind
            &&& e.kind == kind
            &&& has_prefix(e.id, path + ":"@)
            &&& e.source_url == "https://www.spiritvale.info/"@ + path
        },
{
    if let Some(e) = entry_spec(record, kind, path, dropped_by, locations) {
        let p = path + ":"@;
        assert(e.id.take(p.len() as int) =~= p);
    }
}

// ---------------------------------------------------------------------------
// Text cleanup
// ---------------------------------------------------------------------------

proof fn lemma_trim_start_front(s: Seq<char>)
    ensures
        trim_start(s).len() > 0 ==> !is_white(trim_start(s)[0]),
        exists|k: int| 0 <= k <= s.len() && trim_start(s) == s.skip(k),
    decreases s.len(),
{
    if s.len() > 0 && is_white(s[0]) {
        lemma_trim_start_front(s.skip(1));
        let k = choose|k: int| 0 <= k <= s.skip(1).len() && trim_start(s.skip(1)) == s.skip(1).skip(k);
        assert(s.skip(1).skip(k) =~= s.skip(k + 1));
    } else {
        assert(s.skip(0) =~= s);
    }
}

proof fn lemma_trim_end_keeps_front(s: Seq<char>)
    requires
        s.len() > 0 ==> !is_white(s[0]),
    ensures
        trim_end(s).len() > 0 ==> !is_white(trim_end(s)[0]) && !is_white(trim_end(s).last()),
    decreases s.len(),
{
    if s.len() > 0 && is_white(s.last()) {
        if s.len() > 1 {
            assert(s.drop_last()[0] == s[0]);
        }
        lemma_trim_end_keeps_front(s.drop_last());
    }
}

/// Cleaned text neither starts nor ends with white space.
pub proof fn cleaned_text_is_trimmed(s: Seq<char>)
    ensures
        cleaned(s).len() > 0 ==> !is_white(cleaned(s)[0]) && !is_white(cleaned(s).last()),
{
    let decoded = crate::chars::replaced(
        crate::chars::replaced(crate::markup::tags_removed(
            crate::chars::replaced(crate::chars::replaced(s, "&lt;"@, "<"@), "&gt;"@, ">"@),
        ), "&amp;"@, "&"@),
        "&#039;"@,
        "'"@,
    );
    lemma_trim_start_front(decoded);
    lemma_trim_end_keeps_front(trim_start(decoded));
    assert(cleaned(s) == trimmed(decoded));
}

// ---------------------------------------------------------------------------
// Live and cached answers
// ---------------------------------------------------------------------------

/// After a sync fails, the catalog that the last successful sync cached is
/// served again: the same entries and sync time, marked `cached`.
pub proof fn cache_serves_last_sync(entries: Seq<EntryModel>, synced_at: u64, network_error: Seq<char>)
    ensures
        cached_spec(Some(live_spec(entries, synced_at).0), network_error) == Ok::<
            ResponseModel,
            Seq<char>,
        >(
            ResponseModel {
                entries: live_spec(entries, synced_at).1.entries,
                source: "cached"@,
                synced_at: live_spec(entries, synced_at).1.synced_at,
            },
        ),
{
}

/// Without a cached catalog a failed sync answers with its own error.
pub proof fn no_cache_reports_sync_error(network_error: Seq<char>)
    ensures
        cached_spec(None::<CacheModel>, network_error) == Err::<ResponseModel, Seq<char>>(
            network_error,
        ),
{
}

// ---------------------------------------------------------------------------
// Lines of list fields
// ---------------------------------------------------------------------------

/// Every line that an element gives appears in the distinct list.
pub proof fn distinct_lines_cover(values: Seq<Json>, f: spec_fn(Json) -> Option<Seq<char>>, i: int)
    requires
        0 <= i < values.len(),
        f(values[i]) is Some,
    ensures
        collect_distinct(values, f).contains(f(values[i]).unwrap()),
    decreases values.len(),
{
    let rest = collect_distinct(values.drop_last(), f);
    if i == values.len() - 1 {
        let line = f(values[i]).unwrap();
        if !rest.contains(line) {
            assert(rest.push(line)[rest.len() as int] == line);
        }
    } else {
        distinct_lines_cover(values.drop_last(), f, i);
        let line = f(values[i]).unwrap();
        let k = choose|k: int| 0 <= k < rest.len() && rest[k] == line;
        match f(values.last()) {
            Some(l) => {
                if !rest.contains(l) {
                    assert(rest.push(l)[k] == line);
                }
            },
            None => {},
        }
    }
}

/// The line of a map monster with a name: `Lv <level>` when it has an
/// integer level, then ` · <element>` when it has an element, then ` · `
/// and the name; just the name when it has neither.
pub proof fn monster_line_shape(v: Json)
    ensures
        crate::json::object_of(v) matches Some(m) ==> ({
            let name = crate::fields::text_spec(m, crate::fields::monster_name_keys());
            let element = crate::fields::text_spec(m, seq!["Element"@]);
            let line = crate::fields::monster_line(v);
            &&& name.len() == 0 ==> line is None
            &&& name.len() > 0 ==> match crate::json::member(m, "Level"@) {
                Some(v) => match crate::json::integer_of(v) {
                    Some(l) => line == Some(
                        "Lv "@ + crate::chars::int_text(l as int) + (if element.len() == 0 {
                            seq![]
                        } else {
                            crate::fields::dot_sep() + element
                        }) + crate::fields::dot_sep() + name,
                    ),
                    None => line == Some(
                        if element.len() == 0 {
                            name
                        } else {
                            element + crate::fields::dot_sep() + name
                        },
                    ),
                },
                None => line == Some(
                    if element.len() == 0 {
                        name
                    } else {
                        element + crate::fields::dot_sep() + name
                    },
                ),
            }
        }),
{
    reveal_strlit("Lv ");
    if let Some(m) = crate::json::object_of(v) {
    let name = crate::fields::text_spec(m, crate::fields::monster_name_keys());
    let element = crate::fields::text_spec(m, seq!["Element"@]);
    let level = crate::fields::number_spec(m, "Level"@);
    if let Some(v) = crate::json::member(m, "Level"@) {
        if let Some(l) = crate::json::integer_of(v) {
            assert(crate::chars::int_text(l as int).len() > 0);
            if element.len() == 0 {
                assert(("Lv "@ + level) + seq![] =~= "Lv "@ + level);
            } else {
                assert(("Lv "@ + level) + crate::fields::dot_sep() + element =~= "Lv "@ + level + (
                crate::fields::dot_sep() + element));
            }
        }
    }
    }
}

/// The location line of a named map element: the name, then ` (Lv a - b)`
/// when both levels are positive, ` (Lv a+)` when only the minimum is.
pub proof fn location_line_shape(v: Json)
    ensures
        crate::json::object_of(v) matches Some(m) ==> ({
            let name = crate::fields::text_spec(m, crate::fields::name_keys());
            let lo = crate::fields::integer_or_zero(m, "minLevel"@);
            let hi = crate::fields::integer_or_zero(m, "maxLevel"@);
            let line = crate::fields::location_line(v);
            &&& name.len() == 0 ==> line is None
            &&& (name.len() > 0 && lo > 0 && hi > 0) ==> line == Some(
                name + " (Lv "@ + crate::chars::int_text(lo) + " - "@ + crate::chars::int_text(hi)
                    + ")"@,
            )
            &&& (name.len() > 0 && lo > 0 && hi <= 0) ==> line == Some(
                name + " (Lv "@ + crate::chars::int_text(lo) + "+)"@,
            )
            &&& (name.len() > 0 && lo <= 0) ==> line == Some(name)
        }),
{
}

// ---------------------------------------------------------------------------
// Who drops a card or gem
// ---------------------------------------------------------------------------

/// The sources an index holds under the first present key of three.
pub open spec fn first_present(
    d: Map<Seq<char>, Seq<Seq<char>>>,
    k1: Seq<char>,
    k2: Seq<char>,
    k3: Seq<char>,
) -> Option<Seq<Seq<char>>> {
    if d.contains_key(k1) {
        Some(d[k1])
    } else if d.contains_key(k2) {
        Some(d[k2])
    } else if d.contains_key(k3) {
        Some(d[k3])
    } else {
        None
    }
}

/// Adding a field with another label keeps a label absent.
proof fn lemma_with_field_label(
    fs: Seq<crate::catalog::FieldModel>,
    label: Seq<char>,
    value: Seq<char>,
    absent: Seq<char>,
)
    requires
        forall|i: int| 0 <= i < fs.len() ==> (#[trigger] fs[i]).label != absent,
        label != absent,
    ensures
        forall|i: int|
            0 <= i < crate::catalog::with_field(fs, label, value).len() ==> (
            #[trigger] crate::catalog::with_field(fs, label, value)[i]).label != absent,
{
}

/// A card or gem entry shows, as its last field `Dropped by`, the monsters
/// that the drop index holds under `card:` (for cards) or `gem:` (for gems)
/// followed by its lowercased slug, else its aliases, else its name; with
/// none of these keys in the index it has no such field.
pub proof fn dropped_by_field(
    record: Json,
    kind: Seq<char>,
    path: Seq<char>,
    dropped_by: Map<Seq<char>, Seq<Seq<char>>>,
    locations: Map<Seq<char>, Seq<Seq<char>>>,
)
    requires
        kind == "Cards"@ || kind == "Gems"@,
    ensures
        entry_spec(record, kind, path, dropped_by, locations) matches Some(e) ==> ({
            let obj = crate::json::object_of(record).unwrap();
            let ty = if kind == "Cards"@ {
                seq!['c', 'a', 'r', 'd', ':']
            } else {
                seq!['g', 'e', 'm', ':']
            };
            let k1 = ty + crate::chars::ascii_lower(crate::fields::text_spec(obj, seq!["Slug"@, "slug"@]));
            let k2 = ty + crate::chars::ascii_lower(crate::fields::text_spec(obj, seq!["GameId"@, "Id"@]));
            let k3 = ty + crate::chars::ascii_lower(
                crate::fields::text_spec(obj, crate::catalog::record_name_keys()),
            );
            match first_present(dropped_by, k1, k2, k3) {
                Some(list) => e.fields.len() > 0 && e.fields.last() == crate::catalog::FieldModel {
                    label: "Dropped by"@,
                    value: crate::chars::joined(list, crate::fields::newline()),
                },
                None => forall|i: int|
                    0 <= i < e.fields.len() ==> (#[trigger] e.fields[i]).label != "Dropped by"@,
            }
        }),
{
    reveal_strlit("Cards");
    reveal_strlit("Gems");
    reveal_strlit("Artifacts");
    reveal_strlit("Maps");
    reveal_strlit("Skills");
    reveal_strlit("Monsters");
    reveal_strlit("card");
    reveal_strlit("gem");
    reveal_strlit("Dropped by");
    reveal_strlit("Stats");
    reveal_strlit("Card slots");
    reveal_strlit("Obtained from");
    reveal_strlit("Drops");
    reveal_strlit("Catalog");
    if let Some(e) = entry_spec(record, kind, path, dropped_by, locations) {
        let obj = crate::json::object_of(record).unwrap();
        let slug = crate::fields::text_spec(obj, seq!["Slug"@, "slug"@]);
        let aliases = crate::fields::text_spec(obj, seq!["GameId"@, "Id"@]);
        let name = crate::fields::text_spec(obj, crate::catalog::record_name_keys());
        let drop_type = if kind == "Cards"@ {
            "card"@
        } else {
            "gem"@
        };
        let ty = drop_type + seq![':'];
        assert(ty =~= if kind == "Cards"@ {
            seq!['c', 'a', 'r', 'd', ':']
        } else {
            seq!['g', 'e', 'm', ':']
        });
        let keys = crate::catalog::record_keys(slug, aliases, name);
        let lookups = keys.map_values(|k: Seq<char>| drop_type + seq![':'] + crate::chars::ascii_lower(k));
        let k1 = ty + crate::chars::ascii_lower(slug);
        let k2 = ty + crate::chars::ascii_lower(aliases);
        let k3 = ty + crate::chars::ascii_lower(name);
        assert(lookups[0] =~= k1);
        assert(lookups[1] =~= k2);
        assert(lookups[2] =~= k3);
        assert(lookups.skip(1)[0] == lookups[1]);
        assert(lookups.skip(1).skip(1)[0] == lookups[2]);
        assert(lookups.skip(1).skip(1).skip(1).len() == 0);
        reveal_with_fuel(crate::catalog::first_sources, 4);
        assert(crate::catalog::first_sources(dropped_by, lookups) == first_present(dropped_by, k1, k2, k3));
        assert("Cards"@.len() == 5 && "Gems"@.len() == 4 && "Artifacts"@.len() == 9);
        assert("Maps"@.len() == 4 && "Skills"@.len() == 6 && "Monsters"@.len() == 8);
        assert("Gems"@[0] == 'G' && "Maps"@[0] == 'M');
        assert(kind != "Artifacts"@ && kind != "Maps"@ && kind != "Skills"@ && kind != "Monsters"@);
        let f4 = crate::catalog::with_field(
            crate::catalog::with_field(
                crate::catalog::with_field(
                    crate::catalog::with_field(seq![], "Stats"@, crate::fields::strings_spec(obj, crate::catalog::stat_keys())),
                    "Card slots"@,
                    crate::fields::number_spec(obj, "Slots"@),
                ),
                "Obtained from"@,
                crate::fields::related_spec(obj),
            ),
            "Drops"@,
            crate::fields::strings_spec(obj, seq!["drops"@]),
        );
        let dropped = "Dropped by"@;
        assert(dropped.len() == 10 && dropped[0] == 'D');
        assert("Stats"@.len() == 5 && "Drops"@.len() == 5 && "Obtained from"@.len() == 13);
        assert("Card slots"@.len() == 10 && "Card slots"@[0] == 'C');
        assert("Catalog"@.len() == 7);
        let f1 = crate::catalog::with_field(seq![], "Stats"@, crate::fields::strings_spec(obj, crate::catalog::stat_keys()));
        lemma_with_field_label(seq![], "Stats"@, crate::fields::strings_spec(obj, crate::catalog::stat_keys()), dropped);
        let f2 = crate::catalog::with_field(f1, "Card slots"@, crate::fields::number_spec(obj, "Slots"@));
        lemma_with_field_label(f1, "Card slots"@, crate::fields::number_spec(obj, "Slots"@), dropped);
        let f3 = crate::catalog::with_field(f2, "Obtained from"@, crate::fields::related_spec(obj));
        lemma_with_field_label(f2, "Obtained from"@, crate::fields::related_spec(obj), dropped);
        lemma_with_field_label(f3, "Drops"@, crate::fields::strings_spec(obj, seq!["drops"@]), dropped);
        assert(forall|i: int| 0 <= i < f4.len() ==> (#[trigger] f4[i]).label != "Dropped by"@);
        let fs = crate::catalog::kind_fields(obj, kind, slug, aliases, name, dropped_by, locations);
        assert(fs == crate::catalog::with_sources(f4, "Dropped by"@, first_present(dropped_by, k1, k2, k3)));
    }
}

// ---------------------------------------------------------------------------
// What the indexes record
// ---------------------------------------------------------------------------

/// Whether the index holds `x` under `k`.
pub open spec fn holds(m: Map<Seq<char>, Seq<Seq<char>>>, k: Seq<char>, x: Seq<char>) -> bool {
    m.contains_key(k) && m[k].contains(x)
}

/// Recording keeps what was held and holds the new source.
proof fn lemma_with_source_holds(
    m: Map<Seq<char>, Seq<Seq<char>>>,
    key: Seq<char>,
    src: Seq<char>,
    k: Seq<char>,
    x: Seq<char>,
)
    ensures
        holds(m, k, x) ==> holds(with_source(m, key, src), k, x),
        holds(with_source(m, key, src), key, src),
{
    recording_keeps_sources(m, key, src, k);
    recording_keeps_sources(m, key, src, key);
    let after = with_source(m, key, src);
    if holds(m, k, x) {
        let old_list = sources_of(m, k);
        let new_list = sources_of(after, k);
        let p = choose|p: int| 0 <= p < old_list.len() && old_list[p] == x;
        assert(new_list.take(old_list.len() as int)[p] == x);
        assert(new_list[p] == x);
    }
}

proof fn lemma_location_added_holds(
    m: Map<Seq<char>, Seq<Seq<char>>>,
    key: Seq<char>,
    location: Seq<char>,
    k: Seq<char>,
    x: Seq<char>,
)
    ensures
        holds(m, k, x) ==> holds(monster_location_added(m, key, location), k, x),
        crate::sources::index_key(key).len() > 0 ==> holds(
            monster_location_added(m, key, location),
            crate::sources::index_key(key),
            location,
        ),
{
    lemma_with_source_holds(m, crate::sources::index_key(key), location, k, x);
}

proof fn lemma_pool_added_keeps(
    m: Map<Seq<char>, Seq<Seq<char>>>,
    pool: Seq<Json>,
    location: Seq<char>,
    k: Seq<char>,
    x: Seq<char>,
)
    requires
        holds(m, k, x),
    ensures
        holds(pool_added(m, pool, location), k, x),
    decreases pool.len(),
{
    if pool.len() > 0 {
        lemma_pool_added_keeps(m, pool.drop_last(), location, k, x);
        if let Some(name) = crate::json::text_of(pool.last()) {
            lemma_location_added_holds(pool_added(m, pool.drop_last(), location), name, location, k, x);
        }
    }
}

proof fn lemma_pool_added_adds(
    m: Map<Seq<char>, Seq<Seq<char>>>,
    pool: Seq<Json>,
    location: Seq<char>,
    j: int,
)
    requires
        0 <= j < pool.len(),
        crate::json::text_of(pool[j]) is Some,
        crate::sources::index_key(crate::json::text_of(pool[j]).unwrap()).len() > 0,
    ensures
        holds(
            pool_added(m, pool, location),
            crate::sources::index_key(crate::json::text_of(pool[j]).unwrap()),
            location,
        ),
    decreases pool.len(),
{
    let name = crate::json::text_of(pool[j]).unwrap();
    let k = crate::sources::index_key(name);
    let prev = pool_added(m, pool.drop_last(), location);
    if j == pool.len() - 1 {
        lemma_location_added_holds(prev, name, location, k, location);
    } else {
        assert(pool.drop_last()[j] == pool[j]);
        lemma_pool_added_adds(m, pool.drop_last(), location, j);
        if let Some(n) = crate::json::text_of(pool.last()) {
            lemma_location_added_holds(prev, n, location, k, location);
        }
    }
}

proof fn lemma_map_monster_added_holds(
    m: Map<Seq<char>, Seq<Seq<char>>>,
    monster: Json,
    location: Seq<char>,
    k: Seq<char>,
    x: Seq<char>,
)
    ensures
        holds(m, k, x) ==> holds(map_monster_added(m, monster, location), k, x),
        crate::json::object_of(monster) matches Some(o) ==> ({
            let ks = seq![
                crate::fields::text_spec(o, seq!["Slug"@]),
                crate::fields::text_spec(o, seq!["GameId"@]),
                crate::fields::text_spec(o, seq!["DisplayName"@]),
            ];
            forall|t: int|
                0 <= t < 3 && crate::sources::index_key(#[trigger] ks[t]).len() > 0 ==> holds(
                    map_monster_added(m, monster, location),
                    crate::sources::index_key(ks[t]),
                    location,
                )
        }),
{
    if let Some(o) = crate::json::object_of(monster) {
        let a = crate::fields::text_spec(o, seq!["Slug"@]);
        let b = crate::fields::text_spec(o, seq!["GameId"@]);
        let c = crate::fields::text_spec(o, seq!["DisplayName"@]);
        let m1 = monster_location_added(m, a, location);
        let m2 = monster_location_added(m1, b, location);
        let ks = seq![a, b, c];
        assert forall|y: Seq<char>, z: Seq<char>| holds(m, y, z) implies holds(
            map_monster_added(m, monster, location),
            y,
            z,
        ) by {
            lemma_location_added_holds(m, a, location, y, z);
            lemma_location_added_holds(m1, b, location, y, z);
            lemma_location_added_holds(m2, c, location, y, z);
        }
        assert forall|t: int|
            0 <= t < 3 && crate::sources::index_key(#[trigger] ks[t]).len() > 0 implies holds(
            map_monster_added(m, monster, location),
            crate::sources::index_key(ks[t]),
            location,
        ) by {
            let kk = crate::sources::index_key(ks[t]);
            lemma_location_added_holds(m, a, location, kk, location);
            lemma_location_added_holds(m1, b, location, kk, location);
            lemma_location_added_holds(m2, c, location, kk, location);
        }
    }
}

proof fn lemma_map_monsters_added_keeps(
    m: Map<Seq<char>, Seq<Seq<char>>>,
    monsters: Seq<Json>,
    location: Seq<char>,
    k: Seq<char>,
    x: Seq<char>,
)
    requires
        holds(m, k, x),
    ensures
        holds(map_monsters_added(m, monsters, location), k, x),
    decreases monsters.len(),
{
    if monsters.len() > 0 {
        lemma_map_monsters_added_keeps(m, monsters.drop_last(), location, k, x);
        lemma_map_monster_added_holds(
            map_monsters_added(m, monsters.drop_last(), location),
            monsters.last(),
            location,
            k,
            x,
        );
    }
}

proof fn lemma_map_locations_added_keeps(
    m: Map<Seq<char>, Seq<Seq<char>>>,
    record: Json,
    k: Seq<char>,
    x: Seq<char>,
)
    requires
        holds(m, k, x),
    ensures
        holds(crate::sources::map_locations_added(m, record), k, x),
{
    if let Some(map) = crate::json::object_of(record) {
        let location = crate::fields::text_spec(map, crate::sources::location_keys());
        if location.len() > 0 {
            let pool = crate::fields::array_member(map, "MonsterPool"@);
            lemma_pool_added_keeps(m, pool, location, k, x);
            lemma_map_monsters_added_keeps(
                pool_added(m, pool, location),
                crate::fields::array_member(map, "monsters"@),
                location,
                k,
                x,
            );
        }
    }
}

proof fn lemma_location_index_keeps(records: Seq<Json>, n: int, k: Seq<char>, x: Seq<char>)
    requires
        0 <= n <= records.len(),
        holds(location_index_of(records.take(n)), k, x),
    ensures
        holds(location_index_of(records), k, x),
    decreases records.len() - n,
{
    if n < records.len() {
        let t = records.take(n + 1);
        assert(t.drop_last() =~= records.take(n));
        lemma_map_locations_added_keeps(location_index_of(records.take(n)), t.last(), k, x);
        lemma_location_index_keeps(records, n + 1, k, x);
    } else {
        assert(records.take(n) =~= records);
    }
}

/// Every monster of a named map's monster pool is located on that map:
/// the location index holds the map's name under the monster's cleaned,
/// ASCII-lowercased pool name, whatever other maps come before or after.
pub proof fn pool_monsters_located(records: Seq<Json>, i: int, j: int)
    requires
        0 <= i < records.len(),
    ensures
        crate::json::object_of(records[i]) matches Some(map) ==> ({
            let location = crate::fields::text_spec(map, crate::sources::location_keys());
            let pool = crate::fields::array_member(map, "MonsterPool"@);
            (location.len() > 0 && 0 <= j < pool.len() && crate::json::text_of(pool[j]) is Some
                && crate::chars::ascii_lower(cleaned(crate::json::text_of(pool[j]).unwrap())).len()
                > 0) ==> holds(
                location_index_of(records),
                crate::chars::ascii_lower(cleaned(crate::json::text_of(pool[j]).unwrap())),
                location,
            )
        }),
{
    if let Some(map) = crate::json::object_of(records[i]) {
        let location = crate::fields::text_spec(map, crate::sources::location_keys());
        let pool = crate::fields::array_member(map, "MonsterPool"@);
        if location.len() > 0 && 0 <= j < pool.len() && crate::json::text_of(pool[j]) is Some
            && crate::sources::index_key(crate::json::text_of(pool[j]).unwrap()).len() > 0 {
            let k = crate::sources::index_key(crate::json::text_of(pool[j]).unwrap());
            let t = records.take(i + 1);
            assert(t.drop_last() =~= records.take(i));
            assert(t.last() == records[i]);
            let prev = location_index_of(records.take(i));
            lemma_pool_added_adds(prev, pool, location, j);
            lemma_map_monsters_added_keeps(
                pool_added(prev, pool, location),
                crate::fields::array_member(map, "monsters"@),
                location,
                k,
                location,
            );
            lemma_location_index_keeps(records, i + 1, k, location);
        }
    }
}

proof fn lemma_map_monsters_added_adds(
    m: Map<Seq<char>, Seq<Seq<char>>>,
    monsters: Seq<Json>,
    location: Seq<char>,
    j: int,
    k: Seq<char>,
)
    requires
        0 <= j < monsters.len(),
        holds(map_monster_added(map_monsters_added(m, monsters.take(j), location), monsters[j], location), k, location),
    ensures
        holds(map_monsters_added(m, monsters, location), k, location),
    decreases monsters.len() - j,
{
    if j == monsters.len() - 1 {
        assert(monsters.take(j) =~= monsters.drop_last());
    } else {
        let d = monsters.drop_last();
        assert(d.take(j) =~= monsters.take(j));
        assert(d[j] == monsters[j]);
        lemma_map_monsters_added_adds(m, d, location, j, k);
        lemma_map_monster_added_holds(map_monsters_added(m, d, location), monsters.last(), location, k, location);
    }
}

/// Every monster object listed on a named map is located on that map,
/// under its cleaned, ASCII-lowercased slug, game id and display name.
pub proof fn map_monsters_located(records: Seq<Json>, i: int, j: int, t: int)
    requires
        0 <= i < records.len(),
        0 <= t < 3,
    ensures
        crate::json::object_of(records[i]) matches Some(map) ==> ({
            let location = crate::fields::text_spec(map, crate::sources::location_keys());
            let monsters = crate::fields::array_member(map, "monsters"@);
            (location.len() > 0 && 0 <= j < monsters.len()) ==> (crate::json::object_of(monsters[j]) matches Some(o) ==> ({
                let key = seq![
                    crate::fields::text_spec(o, seq!["Slug"@]),
                    crate::fields::text_spec(o, seq!["GameId"@]),
                    crate::fields::text_spec(o, seq!["DisplayName"@]),
                ][t];
                crate::chars::ascii_lower(cleaned(key)).len() > 0 ==> holds(
                    location_index_of(records),
                    crate::chars::ascii_lower(cleaned(key)),
                    location,
                )
            }))
        }),
{
    if let Some(map) = crate::json::object_of(records[i]) {
        let location = crate::fields::text_spec(map, crate::sources::location_keys());
        let monsters = crate::fields::array_member(map, "monsters"@);
        if location.len() > 0 && 0 <= j < monsters.len() {
            if let Some(o) = crate::json::object_of(monsters[j]) {
                let ks = seq![
                    crate::fields::text_spec(o, seq!["Slug"@]),
                    crate::fields::text_spec(o, seq!["GameId"@]),
                    crate::fields::text_spec(o, seq!["DisplayName"@]),
                ];
                let k = crate::sources::index_key(ks[t]);
                if k.len() > 0 {
                    let prev = location_index_of(records.take(i));
                    let pool = crate::fields::array_member(map, "MonsterPool"@);
                    let p = pool_added(prev, pool, location);
                    lemma_map_monster_added_holds(
                        map_monsters_added(p, monsters.take(j), location),
                        monsters[j],
                        location,
                        k,
                        location,
                    );
                    lemma_map_monsters_added_adds(p, monsters, location, j, k);
                    let r = records.take(i + 1);
                    assert(r.drop_last() =~= records.take(i));
                    assert(r.last() == records[i]);
                    lemma_location_index_keeps(records, i + 1, k, location);
                }
            }
        }
    }
}

proof fn lemma_drop_source_added_holds(
    m: Map<Seq<char>, Seq<Seq<char>>>,
    dt: Seq<char>,
    key: Seq<char>,
    src: Seq<char>,
    k: Seq<char>,
    x: Seq<char>,
)
    ensures
        holds(m, k, x) ==> holds(drop_source_added(m, dt, key, src), k, x),
        crate::sources::index_key(key).len() > 0 ==> holds(
            drop_source_added(m, dt, key, src),
            dt + seq![':'] + crate::sources::index_key(key),
            src,
        ),
{
    lemma_with_source_holds(m, dt + seq![':'] + crate::sources::index_key(key), src, k, x);
}

/// The three item keys of a drop: slug, id and name.
pub open spec fn drop_item_keys(d: Seq<(String, Json)>) -> Seq<Seq<char>> {
    seq![
        crate::fields::text_spec(d, seq!["slug"@]),
        crate::fields::text_spec(d, seq!["id"@]),
        crate::fields::text_spec(d, seq!["name"@]),
    ]
}

proof fn lemma_drop_added_holds(
    m: Map<Seq<char>, Seq<Seq<char>>>,
    drop: Json,
    name: Seq<char>,
    level: Seq<char>,
    k: Seq<char>,
    x: Seq<char>,
)
    ensures
        holds(m, k, x) ==> holds(drop_added(m, drop, name, level), k, x),
        crate::json::object_of(drop) matches Some(d) ==> ({
            let dt = crate::chars::ascii_lower(crate::fields::text_spec(d, seq!["type"@]));
            (dt == "card"@ || dt == "gem"@) ==> forall|t: int|
                0 <= t < 3 && crate::sources::index_key(#[trigger] drop_item_keys(d)[t]).len() > 0
                    ==> holds(
                    drop_added(m, drop, name, level),
                    dt + seq![':'] + crate::sources::index_key(drop_item_keys(d)[t]),
                    crate::sources::drop_source_text(d, name, level),
                )
        }),
{
    if let Some(d) = crate::json::object_of(drop) {
        let dt = crate::chars::ascii_lower(crate::fields::text_spec(d, seq!["type"@]));
        if dt == "card"@ || dt == "gem"@ {
            let src = crate::sources::drop_source_text(d, name, level);
            let ks = drop_item_keys(d);
            let m1 = drop_source_added(m, dt, ks[0], src);
            let m2 = drop_source_added(m1, dt, ks[1], src);
            assert forall|y: Seq<char>, z: Seq<char>| holds(m, y, z) implies holds(
                drop_added(m, drop, name, level),
                y,
                z,
            ) by {
                lemma_drop_source_added_holds(m, dt, ks[0], src, y, z);
                lemma_drop_source_added_holds(m1, dt, ks[1], src, y, z);
                lemma_drop_source_added_holds(m2, dt, ks[2], src, y, z);
            }
            assert forall|t: int|
                0 <= t < 3 && crate::sources::index_key(#[trigger] drop_item_keys(d)[t]).len() > 0
                    implies holds(
                drop_added(m, drop, name, level),
                dt + seq![':'] + crate::sources::index_key(drop_item_keys(d)[t]),
                src,
            ) by {
                let kk = dt + seq![':'] + crate::sources::index_key(ks[t]);
                lemma_drop_source_added_holds(m, dt, ks[0], src, kk, src);
                lemma_drop_source_added_holds(m1, dt, ks[1], src, kk, src);
                lemma_drop_source_added_holds(m2, dt, ks[2], src, kk, src);
            }
        }
    }
}

proof fn lemma_drops_added_keeps(
    m: Map<Seq<char>, Seq<Seq<char>>>,
    drops: Seq<Json>,
    name: Seq<char>,
    level: Seq<char>,
    k: Seq<char>,
    x: Seq<char>,
)
    requires
        holds(m, k, x),
    ensures
        holds(drops_added(m, drops, name, level), k, x),
    decreases drops.len(),
{
    if drops.len() > 0 {
        lemma_drops_added_keeps(m, drops.drop_last(), name, level, k, x);
        lemma_drop_added_holds(drops_added(m, drops.drop_last(), name, level), drops.last(), name, level, k, x);
    }
}

proof fn lemma_drops_added_adds(
    m: Map<Seq<char>, Seq<Seq<char>>>,
    drops: Seq<Json>,
    name: Seq<char>,
    level: Seq<char>,
    j: int,
    k: Seq<char>,
    x: Seq<char>,
)
    requires
        0 <= j < drops.len(),
        holds(drop_added(drops_added(m, drops.take(j), name, level), drops[j], name, level), k, x),
    ensures
        holds(drops_added(m, drops, name, level), k, x),
    decreases drops.len() - j,
{
    if j == drops.len() - 1 {
        assert(drops.take(j) =~= drops.drop_last());
    } else {
        let d = drops.drop_last();
        assert(d.take(j) =~= drops.take(j));
        assert(d[j] == drops[j]);
        lemma_drops_added_adds(m, d, name, level, j, k, x);
        lemma_drop_added_holds(drops_added(m, d, name, level), drops.last(), name, level, k, x);
    }
}

proof fn lemma_drop_index_keeps(records: Seq<Json>, n: int, k: Seq<char>, x: Seq<char>)
    requires
        0 <= n <= records.len(),
        holds(drop_index_of(records.take(n)), k, x),
    ensures
        holds(drop_index_of(records), k, x),
    decreases records.len() - n,
{
    if n < records.len() {
        let t = records.take(n + 1);
        assert(t.drop_last() =~= records.take(n));
        let m = drop_index_of(records.take(n));
        if let Some(mon) = crate::json::object_of(t.last()) {
            let name = crate::fields::text_spec(mon, crate::sources::drop_monster_keys());
            if name.len() > 0 {
                lemma_drops_added_keeps(
                    m,
                    crate::fields::array_member(mon, "drops"@),
                    name,
                    crate::fields::number_spec(mon, "Level"@),
                    k,
                    x,
                );
            }
        }
        lemma_drop_index_keeps(records, n + 1, k, x);
    } else {
        assert(records.take(n) =~= records);
    }
}

/// Every card or gem drop of a named monster is recorded, wherever it
/// stands among the monster's drops: the drop index holds the monster's
/// source text (name, ` (Lv <level>)` when it has a level, ` · <chance>%`
/// when the drop has a chance) under `card:` or `gem:` followed by each
/// non-empty cleaned, ASCII-lowercased key among the drop's slug, id and
/// name. Drops of other types do not keep later ones out.
pub proof fn monster_drops_recorded(records: Seq<Json>, i: int, j: int, t: int)
    requires
        0 <= i < records.len(),
        0 <= t < 3,
    ensures
        crate::json::object_of(records[i]) matches Some(mon) ==> ({
            let name = crate::fields::text_spec(mon, seq!["DisplayName"@, "name"@, "Name"@]);
            let level = crate::fields::number_spec(mon, "Level"@);
            let drops = crate::fields::array_member(mon, "drops"@);
            (name.len() > 0 && 0 <= j < drops.len()) ==> (crate::json::object_of(drops[j]) matches Some(d) ==> ({
                let dt = crate::chars::ascii_lower(crate::fields::text_spec(d, seq!["type"@]));
                let key = crate::chars::ascii_lower(cleaned(drop_item_keys(d)[t]));
                let chance = match crate::fields::decimal_member(d, "chance"@) {
                    Some(c) => crate::fields::dot_sep() + c.text@ + "%"@,
                    None => seq![],
                };
                let source = if level.len() == 0 {
                    name + chance
                } else {
                    name + " (Lv "@ + level + ")"@ + chance
                };
                ((dt == "card"@ || dt == "gem"@) && key.len() > 0) ==> holds(
                    drop_index_of(records),
                    dt + seq![':'] + key,
                    source,
                )
            }))
        }),
{
    if let Some(mon) = crate::json::object_of(records[i]) {
        let name = crate::fields::text_spec(mon, crate::sources::drop_monster_keys());
        let level = crate::fields::number_spec(mon, "Level"@);
        let drops = crate::fields::array_member(mon, "drops"@);
        if name.len() > 0 && 0 <= j < drops.len() {
            if let Some(d) = crate::json::object_of(drops[j]) {
                let dt = crate::chars::ascii_lower(crate::fields::text_spec(d, seq!["type"@]));
                let key = crate::sources::index_key(drop_item_keys(d)[t]);
                if (dt == "card"@ || dt == "gem"@) && key.len() > 0 {
                    let k = dt + seq![':'] + key;
                    let src = crate::sources::drop_source_text(d, name, level);
                    let prev = drop_index_of(records.take(i));
                    lemma_drop_added_holds(
                        drops_added(prev, drops.take(j), name, level),
                        drops[j],
                        name,
                        level,
                        k,
                        src,
                    );
                    lemma_drops_added_adds(prev, drops, name, level, j, k, src);
                    let r = records.take(i + 1);
                    assert(r.drop_last() =~= records.take(i));
                    assert(r.last() == records[i]);
                    lemma_drop_index_keeps(records, i + 1, k, src);
                }
            }
        }
    }
}

} // verus!
