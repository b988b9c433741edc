use spiritvale_overlay::catalog::{parse_entries, CatalogEntry};
use spiritvale_overlay::fields::{map_monsters, maps, number, related, skill_metric, strings, text};
use spiritvale_overlay::index::SourceIndex;
use spiritvale_overlay::json::{Decimal, Json, JsonNumber};
use spiritvale_overlay::markup::{clean_text, page_data};
use spiritvale_overlay::sources::{
    add_drop_source, add_monster_location, monster_drop_index, monster_location_index,
};
use spiritvale_overlay::sync::{
    assemble_catalog, cached_response, catalog_sources, epoch_seconds, live_catalog, now_epoch,
    CachedCatalog, PageInput,
};
use spiritvale_overlay::window::{
    is_window_size_preset, palette_action, preset_preferences, remembered_preferences,
    PaletteAction,
};

fn whole(v: f64) -> String {
    if v.fract() == 0.0 {
        format!("{}", v as i64)
    } else {
        v.to_string()
    }
}

fn decimal(f: f64) -> Decimal {
    Decimal {
        text: f.to_string(),
        whole_text: whole(f),
        negated_whole_text: whole(-f),
        above_zero: f > 0.0,
        below_minus_one: f < -1.0,
    }
}

fn to_json(v: &serde_json::Value) -> Json {
    match v {
        serde_json::Value::Null => Json::Null,
        serde_json::Value::Bool(b) => Json::Bool(*b),
        serde_json::Value::Number(n) => Json::Number(JsonNumber {
            integer: n.as_i64(),
            decimal: n.as_f64().map(decimal),
        }),
        serde_json::Value::String(s) => Json::Text(s.clone()),
        serde_json::Value::Array(a) => Json::Array(a.iter().map(to_json).collect()),
        serde_json::Value::Object(m) => {
            Json::Object(m.iter().map(|(k, v)| (k.clone(), to_json(v))).collect())
        }
    }
}

fn doc(text: &str) -> Json {
    to_json(&serde_json::from_str::<serde_json::Value>(text).unwrap())
}

fn members(text: &str) -> Vec<(String, Json)> {
    match doc(text) {
        Json::Object(m) => m,
        _ => panic!("not an object"),
    }
}

fn field_pairs(e: &CatalogEntry) -> Vec<(String, String)> {
    e.fields.iter().map(|f| (f.label.clone(), f.value.clone())).collect()
}

fn pairs(list: &[(&str, &str)]) -> Vec<(String, String)> {
    list.iter().map(|(a, b)| (a.to_string(), b.to_string())).collect()
}

const MONSTERS_PAGE: &str = r#"{"props":{"monsters":[
  {"DisplayName":"Slime","Slug":"slime","Level":3,"drops":[
     {"type":"Card","slug":"fire-card","id":"Card_Fire","name":"Fire Card","chance":0.5},
     {"type":"material","name":"Goo"}]},
  {"name":"Boss Bat","drops":[{"type":"CARD","name":"Plain Card"},{"type":"gem","slug":"ruby"}]},
  {"Level":5}
]}}"#;

const MAPS_PAGE: &str = r#"{"props":{"maps":[
  {"DisplayName":"Green Field","MonsterPool":["Slime","  ",3],
   "monsters":[{"Slug":"slime","GameId":"Mon_Slime","DisplayName":"Slime","Level":3,"Element":"Water"},"x"]},
  {"GameId":"Cave","monsters":[{"DisplayName":"Boss Bat"}]},
  {"DisplayName":""}
]}}"#;

const CARDS_PAGE: &str = r#"{"props":{"cards":[
  {"DisplayName":"Fire <i>Card</i>","Slug":"fire-card","GameId":"Card_Fire","Level":12,
   "Element":"Fire","IsBoss":1,"Description":"Burns &amp; stuff","icon":"fire",
   "stats":["ATK +5",""," <b>MATK</b> +3"],"Slots":0,"drops":["x"]},
  {"name":""},
  5,
  {"name":"Plain Card"}
]}}"#;

fn strings_of(v: Option<&Vec<String>>) -> Option<Vec<String>> {
    v.cloned()
}

// ---------------------------------------------------------------------------
// Text
// ---------------------------------------------------------------------------

#[test]
fn clean_text_decodes_strips_and_trims() {
    let s = clean_text("  &lt;b&gt;Hello&lt;/b&gt; &amp; bye&#039;s \n");
    assert_eq!(s, "Hello & bye's");
}

#[test]
fn clean_text_keeps_unclosed_angle() {
    assert_eq!(clean_text("a < b"), "a < b");
    assert_eq!(clean_text("x<y>z<w"), "xz<w");
    assert_eq!(clean_text("<a <b> c>d"), "c>d");
}

#[test]
fn clean_text_trims_unicode_space() {
    assert_eq!(clean_text("\u{a0}abc\u{3000}"), "abc");
    assert_eq!(clean_text("   "), "");
}

#[test]
fn clean_text_decodes_entities_once() {
    assert_eq!(clean_text("&amp;lt;"), "&lt;");
}

#[test]
fn page_data_takes_first_attribute() {
    let page = r#"<div data-page=""></div><div data-page="{&quot;a&quot;:&quot;x &amp;amp; y&quot;}">"#;
    assert_eq!(page_data(page), Some("{\"a\":\"x &amp; y\"}".to_string()));
    assert_eq!(page_data("<div>nothing</div>"), None);
    assert_eq!(page_data("data-page=\"unterminated"), None);
}

// ---------------------------------------------------------------------------
// Field readers
// ---------------------------------------------------------------------------

#[test]
fn text_takes_first_string_key() {
    let m = members(r#"{"name":5,"DisplayName":" <b>Slime</b> ","Name":"Other"}"#);
    assert_eq!(text(&m, &["name", "DisplayName", "Name"]), "Slime");
    assert_eq!(text(&m, &["missing"]), "");
}

#[test]
fn number_renders_integers_only() {
    let m = members(r#"{"a":12,"b":-9223372036854775808,"c":1.5,"d":"7","e":18446744073709551615}"#);
    assert_eq!(number(&m, "a"), "12");
    assert_eq!(number(&m, "b"), "-9223372036854775808");
    assert_eq!(number(&m, "c"), "");
    assert_eq!(number(&m, "d"), "");
    assert_eq!(number(&m, "e"), "");
    assert_eq!(number(&m, "zz"), "");
}

#[test]
fn strings_joins_nonempty_lines() {
    let m = members(r#"{"s1":["A","","<b>B</b>",3],"s2":[],"s3":"no","s4":["C"]}"#);
    assert_eq!(strings(&m, &["s1", "s2", "s3", "s4"]), "A\nB\nC");
    assert_eq!(strings(&m, &["s2"]), "");
}

#[test]
fn maps_lists_distinct_locations() {
    let m = members(
        r#"{"maps":[{"name":"Field","minLevel":3,"maxLevel":7},{"name":"Field","minLevel":3,"maxLevel":7},
        {"Name":"Cave","minLevel":2},{"name":"Town","maxLevel":4},{"name":""},"x"]}"#,
    );
    assert_eq!(maps(&m), "Field (Lv 3 - 7)\nCave (Lv 2+)\nTown");
    assert_eq!(maps(&members(r#"{"maps":"none"}"#)), "");
}

#[test]
fn related_lists_sources_with_chance() {
    let m = members(
        r#"{"drops":[{"monster":{"name":"Slime"},"chance":12.5},{"name":"Bat"},{"monster":"x","Name":"Rat","chance":3},{"name":""},7]}"#,
    );
    assert_eq!(related(&m), "Slime 12.5%\nBat\nRat 3%");
    assert_eq!(related(&members(r#"{}"#)), "");
}

#[test]
fn map_monsters_lists_details() {
    let m = members(
        r#"{"monsters":[{"DisplayName":"Slime","Level":3,"Element":"Water"},{"name":"Bat"},
        {"GameId":"G1","Element":"Dark"},{"DisplayName":"Slime","Level":3,"Element":"Water"},{"Level":4}]}"#,
    );
    assert_eq!(map_monsters(&m), "Lv 3 \u{b7} Water \u{b7} Slime\nBat\nDark \u{b7} G1");
}

#[test]
fn skill_metric_reads_base_and_growth() {
    let m = members(
        r#"{"values":{"cooldown":{"base":2.5,"level":-0.5},"cost":{"base":10,"level":2},
        "range":{"base":5,"level":-3},"cast":{"base":1},"bad":{"level":1}}}"#,
    );
    assert_eq!(skill_metric(&m, "cooldown", "seconds"), "2.5 seconds");
    assert_eq!(skill_metric(&m, "cost", "mana"), "10 + 2 mana per level");
    assert_eq!(skill_metric(&m, "range", "cells"), "5 - 3 cells per level");
    assert_eq!(skill_metric(&m, "cast", "seconds"), "1 seconds");
    assert_eq!(skill_metric(&m, "bad", "seconds"), "");
    assert_eq!(skill_metric(&m, "none", "seconds"), "");
}

// ---------------------------------------------------------------------------
// Indexes
// ---------------------------------------------------------------------------

#[test]
fn add_drop_source_keys_by_type_and_clean_key() {
    let mut index = SourceIndex::new();
    add_drop_source(&mut index, "card", " <b>Fire Card</b> ", "Slime");
    add_drop_source(&mut index, "card", "FIRE CARD", "Slime");
    add_drop_source(&mut index, "card", "fire card", "Bat");
    add_drop_source(&mut index, "card", "  ", "Rat");
    assert_eq!(
        strings_of(index.get("card:fire card")),
        Some(vec!["Slime".to_string(), "Bat".to_string()])
    );
    assert_eq!(index.get("card:"), None);
}

#[test]
fn add_monster_location_keys_by_clean_key() {
    let mut index = SourceIndex::new();
    add_monster_location(&mut index, "Slime", "Field");
    add_monster_location(&mut index, " slime ", "Field");
    add_monster_location(&mut index, "SLIME", "Cave");
    add_monster_location(&mut index, "", "Town");
    assert_eq!(
        strings_of(index.get("slime")),
        Some(vec!["Field".to_string(), "Cave".to_string()])
    );
    assert_eq!(index.get(""), None);
}

#[test]
fn monster_drop_index_collects_card_and_gem_sources() {
    let index = monster_drop_index(&doc(MONSTERS_PAGE)).ok().unwrap();
    let slime = vec!["Slime (Lv 3) \u{b7} 0.5%".to_string()];
    assert_eq!(strings_of(index.get("card:fire-card")), Some(slime.clone()));
    assert_eq!(strings_of(index.get("card:card_fire")), Some(slime.clone()));
    assert_eq!(strings_of(index.get("card:fire card")), Some(slime));
    assert_eq!(strings_of(index.get("card:plain card")), Some(vec!["Boss Bat".to_string()]));
    assert_eq!(strings_of(index.get("gem:ruby")), Some(vec!["Boss Bat".to_string()]));
    assert_eq!(index.get("material:goo"), None);
}

#[test]
fn monster_drop_index_requires_records() {
    let err = monster_drop_index(&doc(r#"{"props":{"monsters":{}}}"#)).err().unwrap();
    assert_eq!(err, "SpiritVale Info did not provide monster records.");
}

#[test]
fn monster_location_index_collects_pools_and_monsters() {
    let index = monster_location_index(&doc(MAPS_PAGE)).ok().unwrap();
    assert_eq!(strings_of(index.get("slime")), Some(vec!["Green Field".to_string()]));
    assert_eq!(strings_of(index.get("mon_slime")), Some(vec!["Green Field".to_string()]));
    assert_eq!(strings_of(index.get("boss bat")), Some(vec!["Cave".to_string()]));
    assert_eq!(index.get("x"), None);
    let err = monster_location_index(&doc(r#"{"other":1}"#)).err().unwrap();
    assert_eq!(err, "SpiritVale Info did not provide map records.");
}

// ---------------------------------------------------------------------------
// Entries
// ---------------------------------------------------------------------------

#[test]
fn parse_entries_builds_card_entries() {
    let drops = monster_drop_index(&doc(MONSTERS_PAGE)).ok().unwrap();
    let locations = SourceIndex::new();
    let entries =
        parse_entries(&doc(CARDS_PAGE), "cards", "Cards", "cards", &drops, &locations).ok().unwrap();
    assert_eq!(entries.len(), 2);
    let e = &entries[0];
    assert_eq!(e.id, "cards:fire-card:card_fire");
    assert_eq!(e.kind, "Cards");
    assert_eq!(e.name, "Fire Card");
    assert_eq!(e.subtitle, "Level 12 \u{b7} Fire");
    assert_eq!(e.summary, "Burns & stuff");
    assert_eq!(e.tags, vec!["Cards", "Fire", "Boss"]);
    assert_eq!(e.source_url, "https://www.spiritvale.info/cards");
    assert_eq!(
        e.image_url,
        Some("https://www.spiritvale.info/content/game/icons/item-fire.webp".to_string())
    );
    assert_eq!(e.aliases, "Card_Fire");
    assert_eq!(
        field_pairs(e),
        pairs(&[
            ("Stats", "ATK +5\nMATK +3"),
            ("Card slots", "0"),
            ("Drops", "x"),
            ("Dropped by", "Slime (Lv 3) \u{b7} 0.5%"),
        ])
    );
    let p = &entries[1];
    assert_eq!(p.id, "cards:plain-card:plain-card");
    assert_eq!(p.subtitle, "Cards");
    assert_eq!(p.summary, "Live Cards record from SpiritVale Info.");
    assert_eq!(p.tags, vec!["Cards", "", "Normal"]);
    assert_eq!(p.image_url, None);
    assert_eq!(field_pairs(p), pairs(&[("Dropped by", "Boss Bat")]));
}

#[test]
fn parse_entries_builds_monster_entries() {
    let drops = SourceIndex::new();
    let locations = monster_location_index(&doc(MAPS_PAGE)).ok().unwrap();
    let page = doc(MONSTERS_PAGE);
    let entries =
        parse_entries(&page, "monsters", "Monsters", "monsters", &drops, &locations).ok().unwrap();
    assert_eq!(entries.len(), 2);
    assert_eq!(
        field_pairs(&entries[0]),
        pairs(&[("Obtained from", "Fire Card 0.5%\nGoo"), ("Locations", "Green Field")])
    );
    assert_eq!(entries[0].id, "monsters:slime:slime");
    assert_eq!(entries[0].tags, vec!["Monsters", ""]);
    assert_eq!(entries[1].name, "Boss Bat");
    assert_eq!(
        field_pairs(&entries[1]),
        pairs(&[("Obtained from", "Plain Card"), ("Locations", "Cave")])
    );
}

#[test]
fn parse_entries_builds_skill_entries() {
    let page = doc(
        r#"{"props":{"skills":[{"name":"Fire Ball","isPassive":false,"MaxLv":10,"icon":"fireball",
        "values":{"cooldown":{"base":2.5,"level":-0.5},"cost":{"base":10,"level":2}}},
        {"name":"Guard","isPassive":true,"icon":"item-guard"}]}}"#,
    );
    let none = SourceIndex::new();
    let entries = parse_entries(&page, "skills", "Skills", "skills", &none, &none).ok().unwrap();
    assert_eq!(
        field_pairs(&entries[0]),
        pairs(&[
            ("Type", "Active"),
            ("Max level", "10"),
            ("Cooldown", "2.5 seconds"),
            ("Cost", "10 + 2 mana per level"),
        ])
    );
    assert_eq!(
        entries[0].image_url,
        Some("https://www.spiritvale.info/content/game/icons/skill-fireball.webp".to_string())
    );
    assert_eq!(entries[0].id, "skills:fire-ball:fire-ball");
    assert_eq!(field_pairs(&entries[1]), pairs(&[("Type", "Passive")]));
    assert_eq!(
        entries[1].image_url,
        Some("https://www.spiritvale.info/content/game/icons/item-guard.webp".to_string())
    );
}

#[test]
fn parse_entries_builds_artifact_and_map_entries() {
    let none = SourceIndex::new();
    let artifacts = doc(
        r#"{"props":{"artifacts":[{"name":"Ring","maps":[{"name":"Field","minLevel":3,"maxLevel":7},
        {"Name":"Cave","minLevel":2}],"statsPerPiece":["A"],"statsFullSet":[],"statsPerRefine":["B","C"]}]}}"#,
    );
    let entries =
        parse_entries(&artifacts, "artifacts", "Artifacts", "artifacts", &none, &none).ok().unwrap();
    assert_eq!(
        field_pairs(&entries[0]),
        pairs(&[("Drops", "Field (Lv 3 - 7)\nCave (Lv 2+)"), ("Per piece", "A"), ("Per refine", "B\nC")])
    );
    let maps_page = doc(MAPS_PAGE);
    let entries = parse_entries(&maps_page, "maps", "Maps", "maps", &none, &none).ok().unwrap();
    assert_eq!(entries.len(), 2);
    assert_eq!(field_pairs(&entries[0]), pairs(&[("Monsters", "Lv 3 \u{b7} Water \u{b7} Slime")]));
    assert_eq!(entries[1].name, "Cave");
    assert_eq!(entries[1].aliases, "Cave");
    assert_eq!(entries[1].id, "maps:cave:cave");
}

#[test]
fn parse_entries_falls_back_to_catalog_field() {
    let none = SourceIndex::new();
    let page = doc(r#"{"props":{"consumables":[{"name":"Red Potion"}]}}"#);
    let entries =
        parse_entries(&page, "consumables", "Consumables", "consumables", &none, &none).ok().unwrap();
    assert_eq!(field_pairs(&entries[0]), pairs(&[("Catalog", "Live Consumables record")]));
    assert_eq!(entries[0].id, "consumables:red-potion:red-potion");
}

#[test]
fn parse_entries_reports_missing_records() {
    let none = SourceIndex::new();
    let err = parse_entries(&doc(r#"{"props":{}}"#), "cards", "Cards", "cards", &none, &none)
        .err()
        .unwrap();
    assert_eq!(err, "SpiritVale Info did not provide Cards records.");
}

#[test]
fn parse_entries_follows_json_pointer_rules() {
    let none = SourceIndex::new();
    let page = doc(r#"{"props":{"a/b":[{"name":"Slash"}],"0":[{"name":"Zero"}],"list":[[{"name":"Nested"}]]}}"#);
    let e = parse_entries(&page, "a~1b", "Things", "things", &none, &none).ok().unwrap();
    assert_eq!(e[0].name, "Slash");
    let e = parse_entries(&page, "0", "Things", "things", &none, &none).ok().unwrap();
    assert_eq!(e[0].name, "Zero");
    let e = parse_entries(&page, "list/0", "Things", "things", &none, &none).ok().unwrap();
    assert_eq!(e[0].name, "Nested");
    assert!(parse_entries(&page, "list/00", "Things", "things", &none, &none).is_err());
    assert!(parse_entries(&page, "list/+0", "Things", "things", &none, &none).is_err());
    assert!(parse_entries(&page, "list/1", "Things", "things", &none, &none).is_err());
}

// ---------------------------------------------------------------------------
// Assembling, answering, window
// ---------------------------------------------------------------------------

fn input(kind: &str, path: &str, property: &str, data: Option<Result<Json, String>>) -> PageInput {
    PageInput {
        kind: kind.to_string(),
        path: path.to_string(),
        property: property.to_string(),
        data,
    }
}

#[test]
fn assemble_catalog_uses_indexes_across_pages() {
    let pages = vec![
        input("Cards", "cards", "cards", Some(Ok(doc(CARDS_PAGE)))),
        input("Maps", "maps", "maps", Some(Ok(doc(MAPS_PAGE)))),
        input("Monsters", "monsters", "monsters", Some(Ok(doc(MONSTERS_PAGE)))),
    ];
    let entries = assemble_catalog(&pages).ok().unwrap();
    let names: Vec<&str> = entries.iter().map(|e| e.name.as_str()).collect();
    assert_eq!(names, vec!["Fire Card", "Plain Card", "Green Field", "Cave", "Slime", "Boss Bat"]);
    assert_eq!(field_pairs(&entries[4]).last().unwrap().1, "Green Field");
    assert_eq!(field_pairs(&entries[0]).last().unwrap().1, "Slime (Lv 3) \u{b7} 0.5%");
}

#[test]
fn assemble_catalog_reports_first_failure() {
    let pages = vec![
        input("Cards", "cards", "cards", None),
        input("Monsters", "monsters", "monsters", None),
    ];
    assert_eq!(
        assemble_catalog(&pages).err().unwrap(),
        "SpiritVale Info did not provide monster drop data."
    );
    let pages = vec![
        input("Cards", "cards", "cards", Some(Err("bad json".to_string()))),
        input("Maps", "maps", "maps", None),
    ];
    assert_eq!(
        assemble_catalog(&pages).err().unwrap(),
        "SpiritVale Info did not provide map location data."
    );
    let pages = vec![input("Cards", "cards", "cards", Some(Err("bad json".to_string())))];
    assert_eq!(assemble_catalog(&pages).err().unwrap(), "bad json");
    let pages = vec![input("Gems", "gems", "gems", None)];
    assert_eq!(
        assemble_catalog(&pages).err().unwrap(),
        "SpiritVale Info did not provide database data."
    );
}

#[test]
fn catalog_sources_lists_nine_pages() {
    let s = catalog_sources();
    assert_eq!(s.len(), 9);
    assert_eq!(s[0], ("Artifacts", "artifacts", "artifacts"));
    assert_eq!(s[7], ("Equipment", "equipment", "equipmentList"));
}

#[test]
fn cache_serves_last_live_sync() {
    let none = SourceIndex::new();
    let page = doc(r#"{"props":{"consumables":[{"name":"Red Potion"}]}}"#);
    let entries =
        parse_entries(&page, "consumables", "Consumables", "consumables", &none, &none).ok().unwrap();
    let (cache, live) = live_catalog(entries, 1700000000);
    assert_eq!(live.source, "live");
    assert_eq!(live.synced_at, 1700000000);
    let served = cached_response(Some(cache), "offline".to_string()).ok().unwrap();
    assert_eq!(served.source, "cached");
    assert_eq!(served.synced_at, 1700000000);
    assert_eq!(served.entries.len(), 1);
    assert_eq!(served.entries[0].name, live.entries[0].name);
    assert_eq!(served.entries[0].id, live.entries[0].id);
    let none_cached: Option<CachedCatalog> = None;
    assert_eq!(cached_response(none_cached, "offline".to_string()).err().unwrap(), "offline");
}

#[test]
fn epoch_time_is_whole_seconds() {
    assert_eq!(epoch_seconds(Some(42)), 42);
    assert_eq!(epoch_seconds(None), 0);
    assert!(now_epoch() > 1_600_000_000);
}

#[test]
fn window_presets_are_the_four_sizes() {
    assert!(is_window_size_preset(960, 540));
    assert!(is_window_size_preset(1280, 720));
    assert!(is_window_size_preset(1600, 900));
    assert!(is_window_size_preset(1920, 1080));
    assert!(!is_window_size_preset(1280, 721));
    assert!(!is_window_size_preset(540, 960));
    let p = preset_preferences(1600, 900).ok().unwrap();
    assert_eq!((p.width, p.height), (1600, 900));
    assert_eq!(
        preset_preferences(1000, 1000).err().unwrap(),
        "That window size is not an available preset."
    );
}

#[test]
fn remembered_size_has_a_minimum() {
    let p = remembered_preferences(640, 360).ok().unwrap();
    assert_eq!((p.width, p.height), (640, 360));
    assert_eq!(
        remembered_preferences(639, 800).err().unwrap(),
        "The current window is too small to remember."
    );
    assert!(remembered_preferences(800, 359).is_err());
}

#[test]
fn shortcut_toggles_minimized_window() {
    assert!(matches!(palette_action(Some(true)), PaletteAction::Restore));
    assert!(matches!(palette_action(Some(false)), PaletteAction::Minimize));
    assert!(matches!(palette_action(None), PaletteAction::Minimize));
}
