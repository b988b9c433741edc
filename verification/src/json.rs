//! The JSON documents that catalog pages carry, as plain values, with the
//! lookups that the catalog reads them by (object members, variants and
//! JSON pointers).
use vstd::prelude::*;
use crate::chars::{chars_of, replace_chars, replaced, same_chars};

verus! {

/// What the catalog reads of a floating-point JSON number: its usual
/// decimal rendering, its rendering for skill values (whole numbers without
/// a fractional part), the same rendering of its negation, and how it
/// compares with `0` and `-1`.
pub struct Decimal {
    pub text: String,
    pub whole_text: String,
    pub negated_whole_text: String,
    pub above_zero: bool,
    pub below_minus_one: bool,
}

/// A JSON number: its value as an `i64` where it is one, and the
/// floating-point facts where it reads as one.
pub struct JsonNumber {
    pub integer: Option<i64>,
    pub decimal: Option<Decimal>,
}

/// A JSON value. An object keeps its members in document order.
pub enum Json {
    Null,
    Bool(bool),
    Number(JsonNumber),
    Text(String),
    Array(Vec<Json>),
    Object(Vec<(String, Json)>),
}

// ---------------------------------------------------------------------------
// Specifications
// ---------------------------------------------------------------------------

/// The value of the first member named `key`.
pub open spec fn member(members: Seq<(String, Json)>, key: Seq<char>) -> Option<Json>
    decreases members.len(),
{
    if members.len() == 0 {
        None
    } else if members[0].0@ == key {
        Some(members[0].1)
    } else {
        member(members.skip(1), key)
    }
}

/// The members when `v` is an object.
pub open spec fn object_of(v: Json) -> Option<Seq<(String, Json)>> {
    match v {
        Json::Object(m) => Some(m@),
        _ => None,
    }
}

/// The elements when `v` is an array.
pub open spec fn array_of(v: Json) -> Option<Seq<Json>> {
    match v {
        Json::Array(a) => Some(a@),
        _ => None,
    }
}

/// The characters when `v` is a string.
pub open spec fn text_of(v: Json) -> Option<Seq<char>> {
    match v {
        Json::Text(s) => Some(s@),
        _ => None,
    }
}

/// The integer when `v` is a number that fits an `i64`.
pub open spec fn integer_of(v: Json) -> Option<i64> {
    match v {
        Json::Number(n) => n.integer,
        _ => None,
    }
}

/// The floating-point facts when `v` is a number.
pub open spec fn decimal_of(v: Json) -> Option<Decimal> {
    match v {
        Json::Number(n) => n.decimal,
        _ => None,
    }
}

/// The boolean when `v` is one.
pub open spec fn bool_of(v: Json) -> Option<bool> {
    match v {
        Json::Bool(b) => Some(b),
        _ => None,
    }
}

/// The member `key` of `v` when `v` is an object holding it.
pub open spec fn field(v: Json, key: Seq<char>) -> Option<Json> {
    match object_of(v) {
        Some(m) => member(m, key),
        None => None,
    }
}

/// `s` cut at every `c` (`str::split` with a character pattern): always at
/// least one piece.
pub open spec fn split_at_char(s: Seq<char>, c: char) -> Seq<Seq<char>>
    decreases s.len(),
{
    if s.len() == 0 {
        seq![seq![]]
    } else {
        let r = split_at_char(s.drop_last(), c);
        if s.last() == c {
            r.push(seq![])
        } else {
            r.update(r.len() - 1, r.last().push(s.last()))
        }
    }
}

/// Whether every character of `t` is an ASCII digit.
pub open spec fn all_digits(t: Seq<char>) -> bool {
    forall|k: int| 0 <= k < t.len() ==> '0' <= #[trigger] t[k] && t[k] <= '9'
}

/// The number that a string of ASCII digits denotes.
pub open spec fn digits_value(t: Seq<char>) -> nat
    decreases t.len(),
{
    if t.len() == 0 {
        0
    } else {
        digits_value(t.drop_last()) * 10 + ((t.last() as u32) - ('0' as u32)) as nat
    }
}

/// An array index written as a pointer token: plain decimal digits, no
/// sign, no leading zero, within `usize`.
pub open spec fn index_token(t: Seq<char>) -> Option<nat> {
    if t.len() == 0 || !all_digits(t) || (t[0] == '0' && t.len() != 1) || digits_value(t)
        > usize::MAX {
        None
    } else {
        Some(digits_value(t))
    }
}

/// A pointer token with `~1` read as `/` and then `~0` read as `~`.
pub open spec fn unescaped(t: Seq<char>) -> Seq<char> {
    replaced(replaced(t, seq!['~', '1'], seq!['/']), seq!['~', '0'], seq!['~'])
}

/// One step of a pointer: a member of an object, or an element of an array.
pub open spec fn step(v: Json, token: Seq<char>) -> Option<Json> {
    match v {
        Json::Object(m) => member(m@, token),
        Json::Array(a) => match index_token(token) {
            Some(i) => if i < a@.len() {
                Some(a@[i as int])
            } else {
                None
            },
            None => None,
        },
        _ => None,
    }
}

/// The value reached from `v` by the raw tokens in order.
pub open spec fn walk(v: Json, tokens: Seq<Seq<char>>) -> Option<Json>
    decreases tokens.len(),
{
    if tokens.len() == 0 {
        Some(v)
    } else {
        match step(v, unescaped(tokens[0])) {
            Some(w) => walk(w, tokens.skip(1)),
            None => None,
        }
    }
}

/// The value a JSON pointer (RFC 6901) designates in `v`.
pub open spec fn pointer_target(v: Json, p: Seq<char>) -> Option<Json> {
    if p.len() == 0 {
        Some(v)
    } else if p[0] != '/' {
        None
    } else {
        walk(v, split_at_char(p.skip(1), '/'))
    }
}

// ---------------------------------------------------------------------------
// Lookups
// ---------------------------------------------------------------------------

/// The value of the first member named `key` (`Map::get`).
pub fn get_member<'a>(members: &'a Vec<(String, Json)>, key: &str) -> (res: Option<&'a Json>)
    ensures
        match res {
            Some(v) => member(members@, key@) == Some(*v),
            None => member(members@, key@) is None,
        },
{
    let k = chars_of(key);
    get_member_chars(members, &k)
}

/// The value of the first member whose name is `key`.
pub fn get_member_chars<'a>(members: &'a Vec<(String, Json)>, key: &Vec<char>) -> (res: Option<
    &'a Json,
>)
    ensures
        match res {
            Some(v) => member(members@, key@) == Some(*v),
            None => member(members@, key@) is None,
        },
{
    let n = members.len();
    assert(members@.skip(0) == members@);
    for i in 0..n
        invariant
            n == members@.len(),
            member(members@, key@) == member(members@.skip(i as int), key@),
    {
        let name = chars_of(members[i].0.as_str());
        if same_chars(&name, key) {
            return Some(&members[i].1);
        }
        assert(members@.skip(i as int).skip(1) =~= members@.skip(i + 1));
    }
    None
}

impl Json {
    /// The members when this is an object (`Value::as_object`).
    pub fn as_object(&self) -> (res: Option<&Vec<(String, Json)>>)
        ensures
            match res {
                Some(m) => object_of(*self) == Some(m@),
                None => object_of(*self) is None,
            },
    {
        match self {
            Json::Object(m) => Some(m),
            _ => None,
        }
    }

    /// The elements when this is an array (`Value::as_array`).
    pub fn as_array(&self) -> (res: Option<&Vec<Json>>)
        ensures
            match res {
                Some(a) => array_of(*self) == Some(a@),
                None => array_of(*self) is None,
            },
    {
        match self {
            Json::Array(a) => Some(a),
            _ => None,
        }
    }

    /// The string when this is one (`Value::as_str`).
    pub fn as_text(&self) -> (res: Option<&String>)
        ensures
            match res {
                Some(s) => text_of(*self) == Some(s@),
                None => text_of(*self) is None,
            },
    {
        match self {
            Json::Text(s) => Some(s),
            _ => None,
        }
    }

    /// The integer when this is a number that fits an `i64` (`Value::as_i64`).
    pub fn as_i64(&self) -> (res: Option<i64>)
        ensures
            res == integer_of(*self),
    {
        match self {
            Json::Number(n) => n.integer,
            _ => None,
        }
    }

    /// The floating-point facts when this is a number (`Value::as_f64`).
    pub fn as_decimal(&self) -> (res: Option<&Decimal>)
        ensures
            match res {
                Some(d) => decimal_of(*self) == Some(*d),
                None => decimal_of(*self) is None,
            },
    {
        match self {
            Json::Number(n) => match &n.decimal {
                Some(d) => Some(d),
                None => None,
            },
            _ => None,
        }
    }

    /// The boolean when this is one (`Value::as_bool`).
    pub fn as_bool(&self) -> (res: Option<bool>)
        ensures
            res == bool_of(*self),
    {
        match self {
            Json::Bool(b) => Some(*b),
            _ => None,
        }
    }

    /// The member `key` when this is an object holding it.
    pub fn get(&self, key: &str) -> (res: Option<&Json>)
        ensures
            match res {
                Some(v) => field(*self, key@) == Some(*v),
                None => field(*self, key@) is None,
            },
    {
        match self {
            Json::Object(m) => get_member(m, key),
            _ => None,
        }
    }

    /// The value that a JSON pointer designates (`Value::pointer`).
    pub fn pointer(&self, p: &str) -> (res: Option<&Json>)
        ensures
            match res {
                Some(v) => pointer_target(*self, p@) == Some(*v),
                None => pointer_target(*self, p@) is None,
            },
    {
        let cs = chars_of(p);
        if cs.len() == 0 {
            return Some(self);
        }
        if cs[0] != '/' {
            return None;
        }
        let rest = skip_first(&cs);
        let tokens = split_chars(&rest, '/');
        walk_tokens(self, &tokens)
    }
}

/// All characters of `s` but the first.
fn skip_first(s: &Vec<char>) -> (res: Vec<char>)
    requires
        s@.len() > 0,
    ensures
        res@ == s@.skip(1),
{
    let mut out: Vec<char> = Vec::new();
    let n = s.len();
    for i in 1..n
        invariant
            n == s@.len(),
            out@ == s@.subrange(1, i as int),
    {
        out.push(s[i]);
        assert(s@.subrange(1, i + 1) =~= s@.subrange(1, i as int).push(s@[i as int]));
    }
    assert(s@.subrange(1, n as int) =~= s@.skip(1));
    out
}

/// `s` cut at every `c`.
pub fn split_chars(s: &Vec<char>, c: char) -> (res: Vec<Vec<char>>)
    ensures
        res@.map_values(|t: Vec<char>| t@) == split_at_char(s@, c),
{
    let mut pieces: Vec<Vec<char>> = Vec::new();
    let mut cur: Vec<char> = Vec::new();
    let n = s.len();
    assert(s@.take(0) =~= Seq::<char>::empty());
    for i in 0..n
        invariant
            n == s@.len(),
            pieces@.map_values(|t: Vec<char>| t@).push(cur@) == split_at_char(s@.take(i as int), c),
    {
        let ghost before = split_at_char(s@.take(i as int), c);
        assert(s@.take(i + 1).drop_last() =~= s@.take(i as int));
        if s[i] == c {
            let done = cur;
            pieces.push(done);
            cur = Vec::new();
            assert(pieces@.map_values(|t: Vec<char>| t@).push(cur@) =~= before.push(seq![]));
        } else {
            cur.push(s[i]);
            assert(pieces@.map_values(|t: Vec<char>| t@).push(cur@) =~= before.update(
                before.len() - 1,
                before.last().push(s@[i as int]),
            ));
        }
    }
    assert(s@.take(n as int) =~= s@);
    pieces.push(cur);
    pieces
}

/// The array index that a token denotes (`parse_index` of `serde_json`).
pub fn parse_index_token(t: &Vec<char>) -> (res: Option<usize>)
    ensures
        match index_token(t@) {
            Some(i) => res == Some(i as usize),
            None => res is None,
        },
{
    let n = t.len();
    if n == 0 {
        return None;
    }
    if t[0] == '0' && n != 1 {
        return None;
    }
    let mut value: usize = 0;
    let mut overflow = false;
    assert(t@.take(0) =~= Seq::<char>::empty());
    for i in 0..n
        invariant
            n == t@.len(),
            all_digits(t@.take(i as int)),
            !overflow ==> value == digits_value(t@.take(i as int)),
            overflow ==> digits_value(t@.take(i as int)) > usize::MAX,
    {
        let c = t[i];
        assert(t@.take(i + 1).drop_last() =~= t@.take(i as int));
        assert(t@.take(i + 1).last() == c);
        if !('0' <= c && c <= '9') {
            assert(!all_digits(t@));
            return None;
        }
        let d: usize = ((c as u32) - 48) as usize;
        proof {
            lemma_digits_monotone(t@.take(i as int), t@.take(i + 1));
        }
        if !overflow {
            if value > (usize::MAX - d) / 10 {
                overflow = true;
            } else {
                value = value * 10 + d;
            }
        }
        assert(all_digits(t@.take(i + 1)));
    }
    assert(t@.take(n as int) =~= t@);
    if overflow {
        None
    } else {
        Some(value)
    }
}

/// Appending a digit does not lower the value.
proof fn lemma_digits_monotone(a: Seq<char>, b: Seq<char>)
    requires
        b.len() == a.len() + 1,
        b.drop_last() == a,
        '0' <= b.last() && b.last() <= '9',
    ensures
        digits_value(b) >= digits_value(a),
        digits_value(b) == digits_value(a) * 10 + ((b.last() as u32) - ('0' as u32)) as nat,
{
}

/// A pointer token with `~1` read as `/` and then `~0` read as `~`.
fn unescape_token(t: &Vec<char>) -> (res: Vec<char>)
    ensures
        res@ == unescaped(t@),
{
    let mut tilde1: Vec<char> = Vec::new();
    tilde1.push('~');
    tilde1.push('1');
    let mut slash: Vec<char> = Vec::new();
    slash.push('/');
    let mut tilde0: Vec<char> = Vec::new();
    tilde0.push('~');
    tilde0.push('0');
    let mut tilde: Vec<char> = Vec::new();
    tilde.push('~');
    assert(tilde1@ =~= seq!['~', '1']);
    assert(slash@ =~= seq!['/']);
    assert(tilde0@ =~= seq!['~', '0']);
    assert(tilde@ =~= seq!['~']);
    let once = replace_chars(t, &tilde1, &slash);
    replace_chars(&once, &tilde0, &tilde)
}

/// One pointer step from `v` by an unescaped token.
fn step_value<'a>(v: &'a Json, token: &Vec<char>) -> (res: Option<&'a Json>)
    ensures
        match res {
            Some(w) => step(*v, token@) == Some(*w),
            None => step(*v, token@) is None,
        },
{
    match v {
        Json::Object(m) => get_member_chars(m, token),
        Json::Array(a) => match parse_index_token(token) {
            Some(k) => if k < a.len() {
                Some(&a[k])
            } else {
                None
            },
            None => None,
        },
        _ => None,
    }
}

/// The value reached from `v` by the raw tokens in order.
fn walk_tokens<'a>(v: &'a Json, tokens: &Vec<Vec<char>>) -> (res: Option<&'a Json>)
    ensures
        match res {
            Some(w) => walk(*v, tokens@.map_values(|t: Vec<char>| t@)) == Some(*w),
            None => walk(*v, tokens@.map_values(|t: Vec<char>| t@)) is None,
        },
{
    let ghost views = tokens@.map_values(|t: Vec<char>| t@);
    let mut cur: &'a Json = v;
    let n = tokens.len();
    assert(views.skip(0) == views);
    for i in 0..n
        invariant
            n == tokens@.len(),
            views == tokens@.map_values(|t: Vec<char>| t@),
            walk(*v, views) == walk(*cur, views.skip(i as int)),
    {
        let token = unescape_token(&tokens[i]);
        assert(views.skip(i as int)[0] == tokens@[i as int]@);
        assert(views.skip(i as int).skip(1) =~= views.skip(i + 1));
        match step_value(cur, &token) {
            Some(w) => {
                cur = w;
            },
            None => {
                return None;
            },
        }
    }
    assert(views.skip(n as int) =~= Seq::<Seq<char>>::empty());
    Some(cur)
}

} // verus!
