//! Assembling the catalog from the fetched pages, answering with live or
//! cached data, and the sync time.
use vstd::prelude::*;
use crate::catalog::{entries_spec, entry_models, parse_entries, CatalogEntry, CatalogField, EntryModel};
use crate::index::SourceIndex;
use crate::json::Json;
use crate::sources::{
    drop_index_of, location_index_of, monster_drop_index, monster_location_index, page_records,
};
use crate::chars::same_text;
use std::time::{SystemTime, UNIX_EPOCH};

verus! {

// ---------------------------------------------------------------------------
// Sources
// ---------------------------------------------------------------------------

/// The catalog pages, in order: kind, page path, and the property of the
/// page data that holds the records.
pub open spec fn sources_spec() -> Seq<(Seq<char>, Seq<char>, Seq<char>)> {
    seq![
        ("Artifacts"@, "artifacts"@, "artifacts"@),
        ("Cards"@, "cards"@, "cards"@),
        ("Consumables"@, "consumables"@, "consumables"@),
        ("Gems"@, "gems"@, "gems"@),
        ("Maps"@, "maps"@, "maps"@),
        ("Materials"@, "materials"@, "materials"@),
        ("Monsters"@, "monsters"@, "monsters"@),
        ("Equipment"@, "equipment"@, "equipmentList"@),
        ("Skills"@, "skills"@, "skills"@),
    ]
}

/// The views of a list of source triples.
pub open spec fn source_views(s: Seq<(&str, &str, &str)>) -> Seq<(Seq<char>, Seq<char>, Seq<char>)> {
    s.map_values(|t: (&str, &str, &str)| (t.0@, t.1@, t.2@))
}

/// The catalog pages to fetch, in order.
pub fn catalog_sources() -> (res: Vec<(&'static str, &'static str, &'static str)>)
    ensures
        source_views(res@) == sources_spec(),
{
    let mut v: Vec<(&'static str, &'static str, &'static str)> = Vec::new();
    v.push(("Artifacts", "artifacts", "artifacts"));
    v.push(("Cards", "cards", "cards"));
    v.push(("Consumables", "consumables", "consumables"));
    v.push(("Gems", "gems", "gems"));
    v.push(("Maps", "maps", "maps"));
    v.push(("Materials", "materials", "materials"));
    v.push(("Monsters", "monsters", "monsters"));
    v.push(("Equipment", "equipment", "equipmentList"));
    v.push(("Skills", "skills", "skills"));
    assert(source_views(v@) =~= sources_spec());
    v
}

// ---------------------------------------------------------------------------
// Assembling the catalog
// ---------------------------------------------------------------------------

/// A fetched page: its kind, path and record property, and its data:
/// `None` when the page carries no data attribute, else the JSON document
/// that the attribute holds or the reason it is not one.
pub struct PageInput {
    pub kind: String,
    pub path: String,
    pub property: String,
    pub data: Option<Result<Json, String>>,
}

/// The first page of the given kind.
pub open spec fn first_page_of(pages: Seq<PageInput>, kind: Seq<char>) -> Option<PageInput>
    decreases pages.len(),
{
    if pages.len() == 0 {
        None
    } else if pages[0].kind@ == kind {
        Some(pages[0])
    } else {
        first_page_of(pages.skip(1), kind)
    }
}

/// The drop index from the monsters page; empty when there is none.
pub open spec fn drop_index_spec(pages: Seq<PageInput>) -> Result<
    Map<Seq<char>, Seq<Seq<char>>>,
    Seq<char>,
> {
    match first_page_of(pages, "Monsters"@) {
        None => Ok(Map::empty()),
        Some(p) => match p.data {
            None => Err("SpiritVale Info did not provide monster drop data."@),
            Some(Err(e)) => Err(e@),
            Some(Ok(j)) => match page_records(j, "/props/monsters"@) {
                Some(r) => Ok(drop_index_of(r)),
                None => Err("SpiritVale Info did not provide monster records."@),
            },
        },
    }
}

/// The location index from the maps page; empty when there is none.
pub open spec fn location_index_spec(pages: Seq<PageInput>) -> Result<
    Map<Seq<char>, Seq<Seq<char>>>,
    Seq<char>,
> {
    match first_page_of(pages, "Maps"@) {
        None => Ok(Map::empty()),
        Some(p) => match p.data {
            None => Err("SpiritVale Info did not provide map location data."@),
            Some(Err(e)) => Err(e@),
            Some(Ok(j)) => match page_records(j, "/props/maps"@) {
                Some(r) => Ok(location_index_of(r)),
                None => Err("SpiritVale Info did not provide map records."@),
            },
        },
    }
}

/// The entries of one page.
pub open spec fn page_entries_spec(
    p: PageInput,
    drops: Map<Seq<char>, Seq<Seq<char>>>,
    locations: Map<Seq<char>, Seq<Seq<char>>>,
) -> Result<Seq<EntryModel>, Seq<char>> {
    match p.data {
        None => Err("SpiritVale Info did not provide database data."@),
        Some(Err(e)) => Err(e@),
        Some(Ok(j)) => match page_records(j, "/props/"@ + p.property@) {
            Some(r) => Ok(entries_spec(r, p.kind@, p.path@, drops, locations)),
            None => Err("SpiritVale Info did not provide "@ + p.kind@ + " records."@),
        },
    }
}

/// The entries of the pages in order, or the first failure.
pub open spec fn pages_entries_spec(
    pages: Seq<PageInput>,
    drops: Map<Seq<char>, Seq<Seq<char>>>,
    locations: Map<Seq<char>, Seq<Seq<char>>>,
) -> Result<Seq<EntryModel>, Seq<char>>
    decreases pages.len(),
{
    if pages.len() == 0 {
        Ok(seq![])
    } else {
        match pages_entries_spec(pages.drop_last(), drops, locations) {
            Err(e) => Err(e),
            Ok(prev) => match page_entries_spec(pages.last(), drops, locations) {
                Err(e) => Err(e),
                Ok(es) => Ok(prev + es),
            },
        }
    }
}

/// The whole catalog: the drop index, then the location index, then the
/// entries of every page, stopping at the first failure.
pub open spec fn catalog_spec(pages: Seq<PageInput>) -> Result<Seq<EntryModel>, Seq<char>> {
    match drop_index_spec(pages) {
        Err(e) => Err(e),
        Ok(drops) => match location_index_spec(pages) {
            Err(e) => Err(e),
            Ok(locations) => pages_entries_spec(pages, drops, locations),
        },
    }
}

/// The first page of the given kind.
fn find_page<'a>(pages: &'a Vec<PageInput>, kind: &str) -> (res: Option<&'a PageInput>)
    ensures
        match res {
            Some(p) => first_page_of(pages@, kind@) == Some(*p),
            None => first_page_of(pages@, kind@) is None,
        },
{
    let n = pages.len();
    assert(pages@.skip(0) == pages@);
    for i in 0..n
        invariant
            n == pages@.len(),
            first_page_of(pages@, kind@) == first_page_of(pages@.skip(i as int), kind@),
    {
        assert(pages@.skip(i as int)[0] == pages@[i as int]);
        assert(pages@.skip(i as int).skip(1) =~= pages@.skip(i + 1));
        if same_text(pages[i].kind.as_str(), kind) {
            return Some(&pages[i]);
        }
    }
    None
}

/// A copy of an error message.
fn copy_text(s: &String) -> (res: String)
    ensures
        res@ == s@,
{
    String::from_str(s.as_str())
}

/// The drop index from the monsters page; empty when there is none.
fn drops_from_pages(pages: &Vec<PageInput>) -> (res: Result<SourceIndex, String>)
    ensures
        match drop_index_spec(pages@) {
            Ok(m) => res matches Ok(ix) && ix@ == m,
            Err(e) => res matches Err(x) && x@ == e,
        },
{
    match find_page(pages, "Monsters") {
        None => Ok(SourceIndex::new()),
        Some(p) => match &p.data {
            None => Err(String::from_str("SpiritVale Info did not provide monster drop data.")),
            Some(Err(e)) => Err(copy_text(e)),
            Some(Ok(j)) => monster_drop_index(j),
        },
    }
}

/// The location index from the maps page; empty when there is none.
fn locations_from_pages(pages: &Vec<PageInput>) -> (res: Result<SourceIndex, String>)
    ensures
        match location_index_spec(pages@) {
            Ok(m) => res matches Ok(ix) && ix@ == m,
            Err(e) => res matches Err(x) && x@ == e,
        },
{
    match find_page(pages, "Maps") {
        None => Ok(SourceIndex::new()),
        Some(p) => match &p.data {
            None => Err(String::from_str("SpiritVale Info did not provide map location data.")),
            Some(Err(e)) => Err(copy_text(e)),
            Some(Ok(j)) => monster_location_index(j),
        },
    }
}

/// The entries of one page.
fn page_entries(page: &PageInput, drops: &SourceIndex, locations: &SourceIndex) -> (res: Result<
    Vec<CatalogEntry>,
    String,
>)
    ensures
        match page_entries_spec(*page, drops@, locations@) {
            Ok(es) => res matches Ok(v) && entry_models(v@) == es,
            Err(e) => res matches Err(x) && x@ == e,
        },
{
    match &page.data {
        None => Err(String::from_str("SpiritVale Info did not provide database data.")),
        Some(Err(e)) => Err(copy_text(e)),
        Some(Ok(j)) => parse_entries(
            j,
            page.property.as_str(),
            page.kind.as_str(),
            page.path.as_str(),
            drops,
            locations,
        ),
    }
}

/// The catalog of the fetched pages: the drop index from the monsters
/// page, the location index from the maps page, then the entries of every
/// page in order; the first failure is the answer.
pub fn assemble_catalog(pages: &Vec<PageInput>) -> (res: Result<Vec<CatalogEntry>, String>)
    ensures
        match catalog_spec(pages@) {
            Ok(es) => res matches Ok(v) && entry_models(v@) == es,
            Err(e) => res matches Err(x) && x@ == e,
        },
{
    let drops = match drops_from_pages(pages) {
        Ok(d) => d,
        Err(e) => {
            return Err(e);
        },
    };
    let locations = match locations_from_pages(pages) {
        Ok(l) => l,
        Err(e) => {
            return Err(e);
        },
    };
    assert(drop_index_spec(pages@) == Ok::<Map<Seq<char>, Seq<Seq<char>>>, Seq<char>>(drops@));
    assert(location_index_spec(pages@) == Ok::<Map<Seq<char>, Seq<Seq<char>>>, Seq<char>>(
        locations@,
    ));
    let mut entries: Vec<CatalogEntry> = Vec::new();
    let n = pages.len();
    assert(pages@.take(0) =~= Seq::<PageInput>::empty());
    assert(entry_models(entries@) =~= Seq::<EntryModel>::empty());
    for i in 0..n
        invariant
            n == pages@.len(),
            drop_index_spec(pages@) == Ok::<Map<Seq<char>, Seq<Seq<char>>>, Seq<char>>(drops@),
            location_index_spec(pages@) == Ok::<Map<Seq<char>, Seq<Seq<char>>>, Seq<char>>(
                locations@,
            ),
            pages_entries_spec(pages@.take(i as int), drops@, locations@) == Ok::<
                Seq<EntryModel>,
                Seq<char>,
            >(entry_models(entries@)),
    {
        assert(pages@.take(i + 1).drop_last() =~= pages@.take(i as int));
        assert(pages@.take(i + 1).last() == pages@[i as int]);
        match page_entries(&pages[i], &drops, &locations) {
            Ok(mut more) => {
                let ghost before = entries@;
                let ghost added = more@;
                entries.append(&mut more);
                assert(entry_models(entries@) =~= entry_models(before) + entry_models(added));
            },
            Err(e) => {
                assert(pages_entries_spec(pages@.take(i + 1), drops@, locations@) == Err::<
                    Seq<EntryModel>,
                    Seq<char>,
                >(e@));
                proof {
                    lemma_pages_error_stays(pages@, i as int + 1, drops@, locations@);
                }
                assert(catalog_spec(pages@) == Err::<Seq<EntryModel>, Seq<char>>(e@));
                return Err(e);
            },
        }
    }
    assert(pages@.take(n as int) =~= pages@);
    Ok(entries)
}

/// Once a prefix of the pages fails, every longer prefix fails the same way.
proof fn lemma_pages_error_stays(
    pages: Seq<PageInput>,
    k: int,
    drops: Map<Seq<char>, Seq<Seq<char>>>,
    locations: Map<Seq<char>, Seq<Seq<char>>>,
)
    requires
        0 <= k <= pages.len(),
        pages_entries_spec(pages.take(k), drops, locations) is Err,
    ensures
        pages_entries_spec(pages, drops, locations) == pages_entries_spec(pages.take(k), drops, locations),
    decreases pages.len() - k,
{
    if k < pages.len() {
        assert(pages.take(k + 1).drop_last() =~= pages.take(k));
        lemma_pages_error_stays(pages, k + 1, drops, locations);
    } else {
        assert(pages.take(k) =~= pages);
    }
}

// ---------------------------------------------------------------------------
// Live and cached answers
// ---------------------------------------------------------------------------

/// The answer to a catalog request: the entries, whether they are `live`
/// or `cached`, and when they were synced (seconds since the Unix epoch).
pub struct CatalogResponse {
    pub entries: Vec<CatalogEntry>,
    pub source: String,
    pub synced_at: u64,
}

/// The last synced catalog, as kept on disk.
pub struct CachedCatalog {
    pub entries: Vec<CatalogEntry>,
    pub synced_at: u64,
}

/// A response as plain values.
pub struct ResponseModel {
    pub entries: Seq<EntryModel>,
    pub source: Seq<char>,
    pub synced_at: u64,
}

/// A cached catalog as plain values.
pub struct CacheModel {
    pub entries: Seq<EntryModel>,
    pub synced_at: u64,
}

impl View for CatalogResponse {
    type V = ResponseModel;

    open spec fn view(&self) -> ResponseModel {
        ResponseModel {
            entries: entry_models(self.entries@),
            source: self.source@,
            synced_at: self.synced_at,
        }
    }
}

impl View for CachedCatalog {
    type V = CacheModel;

    open spec fn view(&self) -> CacheModel {
        CacheModel { entries: entry_models(self.entries@), synced_at: self.synced_at }
    }
}

/// The cache record and the response for a sync that succeeded.
pub open spec fn live_spec(entries: Seq<EntryModel>, synced_at: u64) -> (CacheModel, ResponseModel) {
    (
        CacheModel { entries, synced_at },
        ResponseModel { entries, source: "live"@, synced_at },
    )
}

/// The response for a sync that failed: the cached catalog when there is
/// one, else the sync's error.
pub open spec fn cached_spec(cache: Option<CacheModel>, network_error: Seq<char>) -> Result<
    ResponseModel,
    Seq<char>,
> {
    match cache {
        Some(c) => Ok(ResponseModel { entries: c.entries, source: "cached"@, synced_at: c.synced_at }),
        None => Err(network_error),
    }
}

/// A copy of a list of strings.
fn copy_strings(v: &Vec<String>) -> (res: Vec<String>)
    ensures
        crate::index::string_views(res@) == crate::index::string_views(v@),
{
    let mut out: Vec<String> = Vec::new();
    let n = v.len();
    for i in 0..n
        invariant
            n == v@.len(),
            crate::index::string_views(out@) == crate::index::string_views(v@.take(i as int)),
    {
        let ghost before = out@;
        out.push(copy_text(&v[i]));
        assert(crate::index::string_views(out@) =~= crate::index::string_views(before).push(
            v@[i as int]@,
        ));
        assert(crate::index::string_views(v@.take(i + 1)) =~= crate::index::string_views(
            v@.take(i as int),
        ).push(v@[i as int]@));
    }
    assert(v@.take(n as int) =~= v@);
    out
}

/// A copy of an entry.
fn copy_entry(e: &CatalogEntry) -> (res: CatalogEntry)
    ensures
        res@ == e@,
{
    let mut fields: Vec<CatalogField> = Vec::new();
    let n = e.fields.len();
    for i in 0..n
        invariant
            n == e.fields@.len(),
            crate::catalog::field_models(fields@) == crate::catalog::field_models(
                e.fields@.take(i as int),
            ),
    {
        let ghost before = fields@;
        let f = CatalogField {
            label: copy_text(&e.fields[i].label),
            value: copy_text(&e.fields[i].value),
        };
        fields.push(f);
        assert(crate::catalog::field_models(fields@) =~= crate::catalog::field_models(before).push(
            e.fields@[i as int]@,
        ));
        assert(crate::catalog::field_models(e.fields@.take(i + 1)) =~= crate::catalog::field_models(
            e.fields@.take(i as int),
        ).push(e.fields@[i as int]@));
    }
    assert(e.fields@.take(n as int) =~= e.fields@);
    let image_url = match &e.image_url {
        Some(u) => Some(copy_text(u)),
        None => None,
    };
    let res = CatalogEntry {
        id: copy_text(&e.id),
        kind: copy_text(&e.kind),
        name: copy_text(&e.name),
        subtitle: copy_text(&e.subtitle),
        summary: copy_text(&e.summary),
        tags: copy_strings(&e.tags),
        source_url: copy_text(&e.source_url),
        image_url,
        aliases: copy_text(&e.aliases),
        fields,
    };
    assert(res@.fields =~= e@.fields);
    res
}

/// A copy of a list of entries.
fn copy_entries(v: &Vec<CatalogEntry>) -> (res: Vec<CatalogEntry>)
    ensures
        entry_models(res@) == entry_models(v@),
{
    let mut out: Vec<CatalogEntry> = Vec::new();
    let n = v.len();
    for i in 0..n
        invariant
            n == v@.len(),
            entry_models(out@) == entry_models(v@.take(i as int)),
    {
        let ghost before = out@;
        out.push(copy_entry(&v[i]));
        assert(entry_models(out@) =~= entry_models(before).push(v@[i as int]@));
        assert(entry_models(v@.take(i + 1)) =~= entry_models(v@.take(i as int)).push(
            v@[i as int]@,
        ));
    }
    assert(v@.take(n as int) =~= v@);
    out
}

/// After a sync that succeeded: the record to keep in the cache and the
/// live response, both with the synced entries and time.
pub fn live_catalog(entries: Vec<CatalogEntry>, synced_at: u64) -> (res: (
    CachedCatalog,
    CatalogResponse,
))
    ensures
        (res.0@, res.1@) == live_spec(entry_models(entries@), synced_at),
{
    let cache = CachedCatalog { entries: copy_entries(&entries), synced_at };
    let response = CatalogResponse { entries, source: String::from_str("live"), synced_at };
    (cache, response)
}

/// After a sync that failed: the cached catalog when one could be read,
/// else the sync's error.
pub fn cached_response(cache: Option<CachedCatalog>, network_error: String) -> (res: Result<
    CatalogResponse,
    String,
>)
    ensures
        match cached_spec(
            match cache {
                Some(c) => Some(c@),
                None => None,
            },
            network_error@,
        ) {
            Ok(r) => res matches Ok(x) && x@ == r,
            Err(e) => res matches Err(x) && x@ == e,
        },
{
    match cache {
        Some(c) => Ok(
            CatalogResponse {
                entries: c.entries,
                source: String::from_str("cached"),
                synced_at: c.synced_at,
            },
        ),
        None => Err(network_error),
    }
}

// ---------------------------------------------------------------------------
// Sync time
// ---------------------------------------------------------------------------

/// Declares std's `SystemTime` as an opaque type, carried from the clock
/// reading to the epoch conversion.
#[verifier::external_type_specification]
#[verifier::external_body]
pub struct ExSystemTime(SystemTime);

/// Calls `SystemTime::now`; nothing is claimed of the clock's reading.
#[verifier::external_body]
fn system_now() -> SystemTime {
    SystemTime::now()
}

/// Calls `SystemTime::duration_since` with the Unix epoch and keeps the
/// whole seconds (`Duration::as_secs`); `None` when the time lies before
/// the epoch. Nothing is claimed of the value, which depends on the clock.
#[verifier::external_body]
fn seconds_since_epoch(t: &SystemTime) -> Option<u64> {
    t.duration_since(UNIX_EPOCH).ok().map(|d| d.as_secs())
}

/// The sync time for a clock reading: its whole seconds since the Unix
/// epoch, `0` for a reading before the epoch.
pub fn epoch_seconds(elapsed: Option<u64>) -> (res: u64)
    ensures
        res == match elapsed {
            Some(s) => s,
            None => 0,
        },
{
    match elapsed {
        Some(s) => s,
        None => 0,
    }
}

/// The current time in whole seconds since the Unix epoch (`0` if the clock
/// reads earlier).
pub fn now_epoch() -> u64 {
    epoch_seconds(seconds_since_epoch(&system_now()))
}

} // verus!
