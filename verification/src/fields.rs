//! Field readers: the display text that the catalog takes from a record's
//! members (names, numbers, stat lists, map locations, drops, monsters and
//! skill values).
use vstd::prelude::*;
use crate::chars::{
    chars_of, extend_chars, extend_str, int_chars, int_text, join_chars, joined, same_chars,
    string_of,
};
use crate::json::{array_of, decimal_of, integer_of, member, object_of, text_of, Decimal, Json};
use crate::markup::{clean_text, cleaned};

verus! {

// ---------------------------------------------------------------------------
// Specifications
// ---------------------------------------------------------------------------

/// The raw string of the first key, in order, whose member is a string.
pub open spec fn first_text(obj: Seq<(String, Json)>, keys: Seq<Seq<char>>) -> Option<Seq<char>>
    decreases keys.len(),
{
    if keys.len() == 0 {
        None
    } else {
        match member(obj, keys[0]) {
            Some(v) => match text_of(v) {
                Some(t) => Some(t),
                None => first_text(obj, keys.skip(1)),
            },
            None => first_text(obj, keys.skip(1)),
        }
    }
}

/// The cleaned string of the first key whose member is a string, or the
/// empty string.
pub open spec fn text_spec(obj: Seq<(String, Json)>, keys: Seq<Seq<char>>) -> Seq<char> {
    match first_text(obj, keys) {
        Some(t) => cleaned(t),
        None => seq![],
    }
}

/// The decimal rendering of member `key` when it is an `i64`, or the empty
/// string.
pub open spec fn number_spec(obj: Seq<(String, Json)>, key: Seq<char>) -> Seq<char> {
    match member(obj, key) {
        Some(v) => match integer_of(v) {
            Some(i) => int_text(i as int),
            None => seq![],
        },
        None => seq![],
    }
}

/// The elements of member `key` when it is an array; none otherwise.
pub open spec fn array_member(obj: Seq<(String, Json)>, key: Seq<char>) -> Seq<Json> {
    match member(obj, key) {
        Some(v) => match array_of(v) {
            Some(a) => a,
            None => seq![],
        },
        None => seq![],
    }
}

/// The values that `f` gives, in order, skipping those it refuses.
pub open spec fn collect_lines(values: Seq<Json>, f: spec_fn(Json) -> Option<Seq<char>>) -> Seq<
    Seq<char>,
>
    decreases values.len(),
{
    if values.len() == 0 {
        seq![]
    } else {
        let rest = collect_lines(values.drop_last(), f);
        match f(values.last()) {
            Some(line) => rest.push(line),
            None => rest,
        }
    }
}

/// `list` with `x` added at the end unless it holds it already.
pub open spec fn push_new(list: Seq<Seq<char>>, x: Seq<char>) -> Seq<Seq<char>> {
    if list.contains(x) {
        list
    } else {
        list.push(x)
    }
}

/// The values that `f` gives, in order of first appearance, each once.
pub open spec fn collect_distinct(values: Seq<Json>, f: spec_fn(Json) -> Option<Seq<char>>) -> Seq<
    Seq<char>,
>
    decreases values.len(),
{
    if values.len() == 0 {
        seq![]
    } else {
        let rest = collect_distinct(values.drop_last(), f);
        match f(values.last()) {
            Some(line) => push_new(rest, line),
            None => rest,
        }
    }
}

/// The line separator of multi-line fields.
pub open spec fn newline() -> Seq<char> {
    seq!['\n']
}

/// The separator between the parts of a detail: ` · `.
pub open spec fn dot_sep() -> Seq<char> {
    seq![' ', '\u{b7}', ' ']
}

/// The cleaned, non-empty text of a string element.
pub open spec fn clean_item(v: Json) -> Option<Seq<char>> {
    match text_of(v) {
        Some(t) => if cleaned(t).len() > 0 {
            Some(cleaned(t))
        } else {
            None
        },
        None => None,
    }
}

/// The non-empty stat lists of the given keys, one per key.
pub open spec fn string_groups(obj: Seq<(String, Json)>, keys: Seq<Seq<char>>) -> Seq<Seq<char>>
    decreases keys.len(),
{
    if keys.len() == 0 {
        seq![]
    } else {
        let rest = string_groups(obj, keys.drop_last());
        match member(obj, keys.last()) {
            Some(v) => match array_of(v) {
                Some(a) => {
                    let group = joined(collect_lines(a, |e: Json| clean_item(e)), newline());
                    if group.len() > 0 {
                        rest.push(group)
                    } else {
                        rest
                    }
                },
                None => rest,
            },
            None => rest,
        }
    }
}

/// Every string of the array members of the given keys, cleaned, one per
/// line, without empty lines.
pub open spec fn strings_spec(obj: Seq<(String, Json)>, keys: Seq<Seq<char>>) -> Seq<char> {
    joined(string_groups(obj, keys), newline())
}

/// The keys by which a map, a drop's monster or a map's name is found.
pub open spec fn name_keys() -> Seq<Seq<char>> {
    seq!["name"@, "DisplayName"@, "Name"@]
}

/// The integer of member `key`, `0` when it has none.
pub open spec fn integer_or_zero(obj: Seq<(String, Json)>, key: Seq<char>) -> int {
    match member(obj, key) {
        Some(v) => match integer_of(v) {
            Some(i) => i as int,
            None => 0,
        },
        None => 0,
    }
}

/// The location line of one element of an artifact's `maps`.
pub open spec fn location_line(v: Json) -> Option<Seq<char>> {
    match object_of(v) {
        Some(m) => {
            let name = text_spec(m, name_keys());
            let lo = integer_or_zero(m, "minLevel"@);
            let hi = integer_or_zero(m, "maxLevel"@);
            if name.len() == 0 {
                None
            } else if lo > 0 && hi > 0 {
                Some(name + " (Lv "@ + int_text(lo) + " - "@ + int_text(hi) + ")"@)
            } else if lo > 0 {
                Some(name + " (Lv "@ + int_text(lo) + "+)"@)
            } else {
                Some(name)
            }
        },
        None => None,
    }
}

/// The distinct locations of an artifact, one per line.
pub open spec fn maps_spec(obj: Seq<(String, Json)>) -> Seq<char> {
    joined(collect_distinct(array_member(obj, "maps"@), |v: Json| location_line(v)), newline())
}

/// The record that names a drop's source: its `monster` object when it has
/// one, else the drop itself.
pub open spec fn drop_holder(item: Seq<(String, Json)>) -> Seq<(String, Json)> {
    match member(item, "monster"@) {
        Some(mv) => match object_of(mv) {
            Some(o) => o,
            None => item,
        },
        None => item,
    }
}

/// The line of one drop: the source's name, with its chance when it has one.
pub open spec fn related_line(v: Json) -> Option<Seq<char>> {
    match object_of(v) {
        Some(item) => {
            let name = text_spec(drop_holder(item), name_keys());
            if name.len() == 0 {
                None
            } else {
                match member(item, "chance"@) {
                    Some(c) => match decimal_of(c) {
                        Some(d) => Some(name + " "@ + d.text@ + "%"@),
                        None => Some(name),
                    },
                    None => Some(name),
                }
            }
        },
        None => None,
    }
}

/// The sources an item is obtained from, one per line.
pub open spec fn related_spec(obj: Seq<(String, Json)>) -> Seq<char> {
    match member(obj, "drops"@) {
        Some(v) => match array_of(v) {
            Some(a) => joined(collect_lines(a, |e: Json| related_line(e)), newline()),
            None => seq![],
        },
        None => seq![],
    }
}

/// Two parts joined by `sep`, leaving out an empty part.
pub open spec fn pair_joined(a: Seq<char>, b: Seq<char>, sep: Seq<char>) -> Seq<char> {
    if a.len() == 0 {
        b
    } else if b.len() == 0 {
        a
    } else {
        a + sep + b
    }
}

/// The keys by which a monster's name is found.
pub open spec fn monster_name_keys() -> Seq<Seq<char>> {
    seq!["DisplayName"@, "name"@, "Name"@, "GameId"@]
}

/// The line of one monster of a map: level and element, then the name.
pub open spec fn monster_line(v: Json) -> Option<Seq<char>> {
    match object_of(v) {
        Some(m) => {
            let name = text_spec(m, monster_name_keys());
            let level = number_spec(m, "Level"@);
            let element = text_spec(m, seq!["Element"@]);
            let level_part = if level.len() == 0 {
                seq![]
            } else {
                "Lv "@ + level
            };
            let detail = pair_joined(level_part, element, dot_sep());
            if name.len() == 0 {
                None
            } else if detail.len() == 0 {
                Some(name)
            } else {
                Some(detail + dot_sep() + name)
            }
        },
        None => None,
    }
}

/// The distinct monsters of a map, one per line.
pub open spec fn map_monsters_spec(obj: Seq<(String, Json)>) -> Seq<char> {
    joined(collect_distinct(array_member(obj, "monsters"@), |v: Json| monster_line(v)), newline())
}

/// The metric object `values.key` of a skill.
pub open spec fn metric_of(obj: Seq<(String, Json)>, key: Seq<char>) -> Option<Seq<(String, Json)>> {
    match member(obj, "values"@) {
        Some(vs) => match object_of(vs) {
            Some(values) => match member(values, key) {
                Some(m) => object_of(m),
                None => None,
            },
            None => None,
        },
        None => None,
    }
}

/// The decimal facts of member `key`, when it is a number.
pub open spec fn decimal_member(obj: Seq<(String, Json)>, key: Seq<char>) -> Option<Decimal> {
    match member(obj, key) {
        Some(v) => decimal_of(v),
        None => None,
    }
}

/// A skill value: its base, and how it grows or shrinks per level.
pub open spec fn skill_metric_spec(obj: Seq<(String, Json)>, key: Seq<char>, unit: Seq<char>) -> Seq<
    char,
> {
    match metric_of(obj, key) {
        Some(metric) => match decimal_member(metric, "base"@) {
            Some(base) => match decimal_member(metric, "level"@) {
                Some(level) => if level.above_zero {
                    base.whole_text@ + " + "@ + level.whole_text@ + " "@ + unit + " per level"@
                } else if level.below_minus_one {
                    base.whole_text@ + " - "@ + level.negated_whole_text@ + " "@ + unit
                        + " per level"@
                } else {
                    base.whole_text@ + " "@ + unit
                },
                None => base.whole_text@ + " "@ + unit,
            },
            None => seq![],
        },
        None => seq![],
    }
}

// ---------------------------------------------------------------------------
// Readers
// ---------------------------------------------------------------------------

/// The views of a list of string slices.
pub open spec fn str_views(keys: Seq<&str>) -> Seq<Seq<char>> {
    keys.map_values(|k: &str| k@)
}

/// The cleaned string of the first key whose member is a string, or the
/// empty string.
pub fn text(object: &Vec<(String, Json)>, keys: &[&str]) -> (res: String)
    ensures
        res@ == text_spec(object@, str_views(keys@)),
{
    let ghost ks = str_views(keys@);
    let n = keys.len();
    assert(ks.skip(0) == ks);
    for i in 0..n
        invariant
            n == keys@.len(),
            ks == str_views(keys@),
            first_text(object@, ks) == first_text(object@, ks.skip(i as int)),
    {
        assert(ks.skip(i as int)[0] == keys@[i as int]@);
        assert(ks.skip(i as int).skip(1) =~= ks.skip(i + 1));
        match crate::json::get_member(object, keys[i]) {
            Some(v) => match v.as_text() {
                Some(t) => {
                    return clean_text(t.as_str());
                },
                None => {},
            },
            None => {},
        }
    }
    assert(ks.skip(n as int) =~= Seq::<Seq<char>>::empty());
    String::new()
}

/// The decimal rendering of member `key` when it is an `i64`, or the empty
/// string.
pub fn number(object: &Vec<(String, Json)>, key: &str) -> (res: String)
    ensures
        res@ == number_spec(object@, key@),
{
    match crate::json::get_member(object, key) {
        Some(v) => match v.as_i64() {
            Some(i) => string_of(&int_chars(i)),
            None => String::new(),
        },
        None => String::new(),
    }
}

/// The views of a list of character vectors.
pub open spec fn char_views(parts: Seq<Vec<char>>) -> Seq<Seq<char>> {
    parts.map_values(|p: Vec<char>| p@)
}

/// Appends `x` to `list`.
fn push_line(list: &mut Vec<Vec<char>>, x: Vec<char>)
    ensures
        char_views(final(list)@) == char_views(old(list)@).push(x@),
{
    let ghost before = list@;
    list.push(x);
    assert(char_views(list@) =~= char_views(before).push(x@));
}

/// Whether `list` holds `x`.
pub fn contains_line(list: &Vec<Vec<char>>, x: &Vec<char>) -> (res: bool)
    ensures
        res == char_views(list@).contains(x@),
{
    let n = list.len();
    for i in 0..n
        invariant
            n == list@.len(),
            forall|k: int| 0 <= k < i ==> list@[k]@ != x@,
    {
        if same_chars(&list[i], x) {
            assert(char_views(list@)[i as int] == x@);
            return true;
        }
    }
    assert forall|k: int| 0 <= k < char_views(list@).len() implies char_views(list@)[k] != x@ by {
        assert(char_views(list@)[k] == list@[k]@);
    }
    false
}

/// Appends `x` to `list` unless it holds it already.
fn push_distinct(list: &mut Vec<Vec<char>>, x: Vec<char>)
    ensures
        char_views(final(list)@) == push_new(char_views(old(list)@), x@),
{
    if !contains_line(list, &x) {
        push_line(list, x);
    }
}

/// The cleaned, non-empty text of a string element.
fn clean_item_of(v: &Json) -> (res: Option<Vec<char>>)
    ensures
        match res {
            Some(t) => clean_item(*v) == Some(t@),
            None => clean_item(*v) is None,
        },
{
    match v.as_text() {
        Some(t) => {
            let c = chars_of(clean_text(t.as_str()).as_str());
            if c.len() > 0 {
                Some(c)
            } else {
                None
            }
        },
        None => None,
    }
}

/// The cleaned, non-empty strings of an array, one per line.
fn string_group(items: &Vec<Json>) -> (res: Vec<char>)
    ensures
        res@ == joined(collect_lines(items@, |e: Json| clean_item(e)), newline()),
{
    let ghost f = |e: Json| clean_item(e);
    let mut lines: Vec<Vec<char>> = Vec::new();
    let n = items.len();
    for i in 0..n
        invariant
            n == items@.len(),
            f == (|e: Json| clean_item(e)),
            char_views(lines@) == collect_lines(items@.take(i as int), f),
    {
        assert(items@.take(i + 1).drop_last() =~= items@.take(i as int));
        match clean_item_of(&items[i]) {
            Some(t) => push_line(&mut lines, t),
            None => {},
        }
    }
    assert(items@.take(n as int) =~= items@);
    let mut nl: Vec<char> = Vec::new();
    nl.push('\n');
    assert(nl@ =~= newline());
    join_chars(&lines, &nl)
}

/// Every string of the array members of the given keys, cleaned, one per
/// line, without empty lines.
pub fn strings(object: &Vec<(String, Json)>, keys: &[&str]) -> (res: String)
    ensures
        res@ == strings_spec(object@, str_views(keys@)),
{
    let ghost ks = str_views(keys@);
    let mut groups: Vec<Vec<char>> = Vec::new();
    let n = keys.len();
    for i in 0..n
        invariant
            n == keys@.len(),
            ks == str_views(keys@),
            char_views(groups@) == string_groups(object@, ks.take(i as int)),
    {
        assert(ks.take(i + 1).drop_last() =~= ks.take(i as int));
        assert(ks.take(i + 1).last() == keys@[i as int]@);
        match crate::json::get_member(object, keys[i]) {
            Some(v) => match v.as_array() {
                Some(a) => {
                    let group = string_group(a);
                    if group.len() > 0 {
                        push_line(&mut groups, group);
                    }
                },
                None => {},
            },
            None => {},
        }
    }
    assert(ks.take(n as int) =~= ks);
    let mut nl: Vec<char> = Vec::new();
    nl.push('\n');
    assert(nl@ =~= newline());
    string_of(&join_chars(&groups, &nl))
}

/// The integer of member `key`, `0` when it has none.
fn integer_or_zero_of(object: &Vec<(String, Json)>, key: &str) -> (res: i64)
    ensures
        res as int == integer_or_zero(object@, key@),
{
    match crate::json::get_member(object, key) {
        Some(v) => match v.as_i64() {
            Some(i) => i,
            None => 0,
        },
        None => 0,
    }
}

/// The name of a map, a drop's monster or a map record.
fn name_text(object: &Vec<(String, Json)>) -> (res: Vec<char>)
    ensures
        res@ == text_spec(object@, name_keys()),
{
    let keys: [&str; 3] = ["name", "DisplayName", "Name"];
    assert(str_views(keys@) =~= name_keys());
    chars_of(text(object, &keys).as_str())
}

/// The location line of one element of an artifact's `maps`.
fn location_line_of(v: &Json) -> (res: Option<Vec<char>>)
    ensures
        match res {
            Some(t) => location_line(*v) == Some(t@),
            None => location_line(*v) is None,
        },
{
    match v.as_object() {
        Some(m) => {
            let name = name_text(m);
            let lo = integer_or_zero_of(m, "minLevel");
            let hi = integer_or_zero_of(m, "maxLevel");
            if name.len() == 0 {
                None
            } else if lo > 0 && hi > 0 {
                let mut out = name;
                extend_str(&mut out, " (Lv ");
                extend_chars(&mut out, &int_chars(lo));
                extend_str(&mut out, " - ");
                extend_chars(&mut out, &int_chars(hi));
                extend_str(&mut out, ")");
                Some(out)
            } else if lo > 0 {
                let mut out = name;
                extend_str(&mut out, " (Lv ");
                extend_chars(&mut out, &int_chars(lo));
                extend_str(&mut out, "+)");
                Some(out)
            } else {
                Some(name)
            }
        },
        None => None,
    }
}

/// The distinct locations of an artifact, one per line.
pub fn maps(object: &Vec<(String, Json)>) -> (res: String)
    ensures
        res@ == maps_spec(object@),
{
    let ghost f = |v: Json| location_line(v);
    let empty: Vec<Json> = Vec::new();
    let items: &Vec<Json> = match crate::json::get_member(object, "maps") {
        Some(v) => match v.as_array() {
            Some(a) => a,
            None => &empty,
        },
        None => &empty,
    };
    assert(items@ == array_member(object@, "maps"@));
    let mut lines: Vec<Vec<char>> = Vec::new();
    let n = items.len();
    for i in 0..n
        invariant
            n == items@.len(),
            f == (|v: Json| location_line(v)),
            char_views(lines@) == collect_distinct(items@.take(i as int), f),
    {
        assert(items@.take(i + 1).drop_last() =~= items@.take(i as int));
        match location_line_of(&items[i]) {
            Some(t) => push_distinct(&mut lines, t),
            None => {},
        }
    }
    assert(items@.take(n as int) =~= items@);
    let mut nl: Vec<char> = Vec::new();
    nl.push('\n');
    assert(nl@ =~= newline());
    string_of(&join_chars(&lines, &nl))
}

/// The line of one drop: the source's name, with its chance when it has one.
fn related_line_of(v: &Json) -> (res: Option<Vec<char>>)
    ensures
        match res {
            Some(t) => related_line(*v) == Some(t@),
            None => related_line(*v) is None,
        },
{
    match v.as_object() {
        Some(item) => {
            let holder: &Vec<(String, Json)> = match crate::json::get_member(item, "monster") {
                Some(mv) => match mv.as_object() {
                    Some(o) => o,
                    None => item,
                },
                None => item,
            };
            assert(holder@ == drop_holder(item@));
            let name = name_text(holder);
            if name.len() == 0 {
                return None;
            }
            match crate::json::get_member(item, "chance") {
                Some(c) => match c.as_decimal() {
                    Some(d) => {
                        let mut out = name;
                        extend_str(&mut out, " ");
                        extend_str(&mut out, d.text.as_str());
                        extend_str(&mut out, "%");
                        Some(out)
                    },
                    None => Some(name),
                },
                None => Some(name),
            }
        },
        None => None,
    }
}

/// The sources an item is obtained from, one per line.
pub fn related(object: &Vec<(String, Json)>) -> (res: String)
    ensures
        res@ == related_spec(object@),
{
    let ghost f = |v: Json| related_line(v);
    match crate::json::get_member(object, "drops") {
        Some(v) => match v.as_array() {
            Some(items) => {
                let mut lines: Vec<Vec<char>> = Vec::new();
                let n = items.len();
                for i in 0..n
                    invariant
                        n == items@.len(),
                        f == (|v: Json| related_line(v)),
                        char_views(lines@) == collect_lines(items@.take(i as int), f),
                {
                    assert(items@.take(i + 1).drop_last() =~= items@.take(i as int));
                    match related_line_of(&items[i]) {
                        Some(t) => push_line(&mut lines, t),
                        None => {},
                    }
                }
                assert(items@.take(n as int) =~= items@);
                let mut nl: Vec<char> = Vec::new();
                nl.push('\n');
                assert(nl@ =~= newline());
                string_of(&join_chars(&lines, &nl))
            },
            None => String::new(),
        },
        None => String::new(),
    }
}

/// The separator ` · ` as characters.
fn dot_sep_chars() -> (res: Vec<char>)
    ensures
        res@ == dot_sep(),
{
    let mut out: Vec<char> = Vec::new();
    out.push(' ');
    out.push('\u{b7}');
    out.push(' ');
    assert(out@ =~= dot_sep());
    out
}

/// Two parts joined by `sep`, leaving out an empty part.
fn pair_join(a: Vec<char>, b: Vec<char>, sep: &Vec<char>) -> (res: Vec<char>)
    ensures
        res@ == pair_joined(a@, b@, sep@),
{
    if a.len() == 0 {
        b
    } else if b.len() == 0 {
        a
    } else {
        let mut out = a;
        extend_chars(&mut out, sep);
        extend_chars(&mut out, &b);
        out
    }
}

/// The line of one monster of a map: level and element, then the name.
fn monster_line_of(v: &Json) -> (res: Option<Vec<char>>)
    ensures
        match res {
            Some(t) => monster_line(*v) == Some(t@),
            None => monster_line(*v) is None,
        },
{
    match v.as_object() {
        Some(m) => {
            let name_keys: [&str; 4] = ["DisplayName", "name", "Name", "GameId"];
            assert(str_views(name_keys@) =~= monster_name_keys());
            let element_keys: [&str; 1] = ["Element"];
            assert(str_views(element_keys@) =~= seq!["Element"@]);
            let name = chars_of(text(m, &name_keys).as_str());
            let level = chars_of(number(m, "Level").as_str());
            let element = chars_of(text(m, &element_keys).as_str());
            let level_part = if level.len() == 0 {
                Vec::new()
            } else {
                let mut p = chars_of("Lv ");
                extend_chars(&mut p, &level);
                p
            };
            let sep = dot_sep_chars();
            let detail = pair_join(level_part, element, &sep);
            if name.len() == 0 {
                None
            } else if detail.len() == 0 {
                Some(name)
            } else {
                let mut out = detail;
                extend_chars(&mut out, &sep);
                extend_chars(&mut out, &name);
                Some(out)
            }
        },
        None => None,
    }
}

/// The distinct monsters of a map, one per line.
pub fn map_monsters(object: &Vec<(String, Json)>) -> (res: String)
    ensures
        res@ == map_monsters_spec(object@),
{
    let ghost f = |v: Json| monster_line(v);
    let empty: Vec<Json> = Vec::new();
    let items: &Vec<Json> = match crate::json::get_member(object, "monsters") {
        Some(v) => match v.as_array() {
            Some(a) => a,
            None => &empty,
        },
        None => &empty,
    };
    assert(items@ == array_member(object@, "monsters"@));
    let mut lines: Vec<Vec<char>> = Vec::new();
    let n = items.len();
    for i in 0..n
        invariant
            n == items@.len(),
            f == (|v: Json| monster_line(v)),
            char_views(lines@) == collect_distinct(items@.take(i as int), f),
    {
        assert(items@.take(i + 1).drop_last() =~= items@.take(i as int));
        match monster_line_of(&items[i]) {
            Some(t) => push_distinct(&mut lines, t),
            None => {},
        }
    }
    assert(items@.take(n as int) =~= items@);
    let mut nl: Vec<char> = Vec::new();
    nl.push('\n');
    assert(nl@ =~= newline());
    string_of(&join_chars(&lines, &nl))
}

/// The metric object `values.key` of a skill.
fn metric_object<'a>(object: &'a Vec<(String, Json)>, key: &str) -> (res: Option<
    &'a Vec<(String, Json)>,
>)
    ensures
        match res {
            Some(m) => metric_of(object@, key@) == Some(m@),
            None => metric_of(object@, key@) is None,
        },
{
    match crate::json::get_member(object, "values") {
        Some(vs) => match vs.as_object() {
            Some(values) => match crate::json::get_member(values, key) {
                Some(m) => m.as_object(),
                None => None,
            },
            None => None,
        },
        None => None,
    }
}

/// The decimal facts of member `key`, when it is a number.
fn decimal_member_of<'a>(object: &'a Vec<(String, Json)>, key: &str) -> (res: Option<&'a Decimal>)
    ensures
        match res {
            Some(d) => decimal_member(object@, key@) == Some(*d),
            None => decimal_member(object@, key@) is None,
        },
{
    match crate::json::get_member(object, key) {
        Some(v) => v.as_decimal(),
        None => None,
    }
}

/// A skill value: its base, and how it grows or shrinks per level; empty
/// when the skill has no numeric base for `key`.
pub fn skill_metric(object: &Vec<(String, Json)>, key: &str, unit: &str) -> (res: String)
    ensures
        res@ == skill_metric_spec(object@, key@, unit@),
{
    let metric = match metric_object(object, key) {
        Some(m) => m,
        None => {
            return String::new();
        },
    };
    let base = match decimal_member_of(metric, "base") {
        Some(b) => b,
        None => {
            return String::new();
        },
    };
    let mut out = chars_of(base.whole_text.as_str());
    match decimal_member_of(metric, "level") {
        Some(level) => {
            if level.above_zero {
                extend_str(&mut out, " + ");
                extend_str(&mut out, level.whole_text.as_str());
                extend_str(&mut out, " ");
                extend_str(&mut out, unit);
                extend_str(&mut out, " per level");
            } else if level.below_minus_one {
                extend_str(&mut out, " - ");
                extend_str(&mut out, level.negated_whole_text.as_str());
                extend_str(&mut out, " ");
                extend_str(&mut out, unit);
                extend_str(&mut out, " per level");
            } else {
                extend_str(&mut out, " ");
                extend_str(&mut out, unit);
            }
        },
        None => {
            extend_str(&mut out, " ");
            extend_str(&mut out, unit);
        },
    }
    string_of(&out)
}

} // verus!
