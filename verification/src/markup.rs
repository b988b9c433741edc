//! Markup cleanup and extraction of the page data attribute, on top of the
//! `regex` crate.
use vstd::prelude::*;
use regex::Regex;
use crate::chars::{
    chars_of, has_prefix, replace_chars, replaced, string_of, trim_chars, trimmed,
};

verus! {

// ---------------------------------------------------------------------------
// What the two regular expressions match
// ---------------------------------------------------------------------------

/// `s` with every match of the pattern `<[^>]*>` removed: scanning left to
/// right, a `<` that has a `>` somewhere after it starts a tag that runs to
/// the first such `>`; every other character stays.
pub open spec fn tags_removed(s: Seq<char>) -> Seq<char>
    decreases s.len(), 1nat,
{
    if s.len() == 0 {
        s
    } else if s[0] == '<' && s.skip(1).contains('>') {
        tag_rest_removed(s.skip(1))
    } else {
        seq![s[0]] + tags_removed(s.skip(1))
    }
}

/// Inside a tag: drops up to and including the first `>`, then goes on as
/// `tags_removed`.
pub open spec fn tag_rest_removed(t: Seq<char>) -> Seq<char>
    decreases t.len(), 0nat,
{
    if t.len() == 0 {
        t
    } else if t[0] == '>' {
        tags_removed(t.skip(1))
    } else {
        tag_rest_removed(t.skip(1))
    }
}

/// The literal that opens the page data attribute: `data-page="`.
pub open spec fn attr_open() -> Seq<char> {
    seq!['d', 'a', 't', 'a', '-', 'p', 'a', 'g', 'e', '=', '"']
}

/// The number of characters before the first `"` in `t` (its length when
/// it holds none).
pub open spec fn quote_free_run(t: Seq<char>) -> nat
    decreases t.len(),
{
    if t.len() == 0 || t[0] == '"' {
        0
    } else {
        1 + quote_free_run(t.skip(1))
    }
}

/// The captured value when the pattern `data-page="([^"]+)"` matches
/// starting at position `i` of `s`.
pub open spec fn attr_value_at(s: Seq<char>, i: int) -> Option<Seq<char>> {
    if 0 <= i && has_prefix(s.skip(i), attr_open()) {
        let t = s.skip(i + 11);
        let r = quote_free_run(t);
        if 0 < r && r < t.len() {
            Some(t.take(r as int))
        } else {
            None
        }
    } else {
        None
    }
}

/// The capture of the leftmost match at or after position `i`.
pub open spec fn attr_value_from(s: Seq<char>, i: int) -> Option<Seq<char>>
    decreases s.len() - i,
{
    if i < 0 || i >= s.len() {
        None
    } else {
        match attr_value_at(s, i) {
            Some(v) => Some(v),
            None => attr_value_from(s, i + 1),
        }
    }
}

/// Group 1 of the leftmost match of `data-page="([^"]+)"` in `s`.
pub open spec fn page_attr(s: Seq<char>) -> Option<Seq<char>> {
    attr_value_from(s, 0)
}

// ---------------------------------------------------------------------------
// Trusted calls into `regex`
// ---------------------------------------------------------------------------

/// Calls `Regex::replace_all` with the pattern `<[^>]*>` and an empty
/// replacement. The claim is the documented leftmost-first, non-overlapping
/// semantics of that pattern: the result is `tags_removed` of the input.
/// The pattern is a fixed valid one, so `Regex::new` does not fail.
#[verifier::external_body]
fn remove_tags(text: &str) -> (res: String)
    ensures
        res@ == tags_removed(text@),
{
    Regex::new(r"<[^>]*>").expect("valid tag regex").replace_all(text, "").into_owned()
}

/// Calls `Regex::captures` with the pattern `data-page="([^"]+)"` and takes
/// capture group 1. The claim is the documented leftmost-first semantics:
/// `None` when the pattern does not match, else the group of the leftmost
/// match (`page_attr`). Group 1 takes part in every match, so indexing it
/// does not panic; the pattern is a fixed valid one.
#[verifier::external_body]
fn capture_page_attr(payload: &str) -> (res: Option<String>)
    ensures
        match res {
            Some(v) => page_attr(payload@) == Some(v@),
            None => page_attr(payload@) is None,
        },
{
    Regex::new(r#"data-page=\"([^\"]+)\""#).expect("valid page regex").captures(payload).map(
        |capture| capture[1].to_string(),
    )
}

// ---------------------------------------------------------------------------
// Text cleanup
// ---------------------------------------------------------------------------

/// The cleanup that `clean_text` performs: decode `&lt;` and `&gt;`, drop
/// tags, decode `&amp;` and `&#039;`, and trim.
pub open spec fn cleaned(s: Seq<char>) -> Seq<char> {
    let decoded = replaced(replaced(s, "&lt;"@, "<"@), "&gt;"@, ">"@);
    let untagged = tags_removed(decoded);
    trimmed(replaced(replaced(untagged, "&amp;"@, "&"@), "&#039;"@, "'"@))
}

/// Replaces `pat` by `rep` in `s`, where both are string literals.
fn replace_lit(s: &Vec<char>, pat: &str, rep: &str) -> (res: Vec<char>)
    requires
        pat@.len() > 0,
    ensures
        res@ == replaced(s@, pat@, rep@),
{
    let p = chars_of(pat);
    let r = chars_of(rep);
    replace_chars(s, &p, &r)
}

/// Markup-free text: entity-decodes, strips tags and trims, as the catalog
/// shows record text.
pub fn clean_text(value: &str) -> (res: String)
    ensures
        res@ == cleaned(value@),
{
    proof {
        reveal_strlit("&lt;");
        reveal_strlit("&gt;");
        reveal_strlit("&amp;");
        reveal_strlit("&#039;");
    }
    let s = chars_of(value);
    let s = replace_lit(&s, "&lt;", "<");
    let s = replace_lit(&s, "&gt;", ">");
    let untagged = remove_tags(string_of(&s).as_str());
    let s = chars_of(untagged.as_str());
    let s = replace_lit(&s, "&amp;", "&");
    let s = replace_lit(&s, "&#039;", "'");
    string_of(&trim_chars(&s))
}

// ---------------------------------------------------------------------------
// Page data
// ---------------------------------------------------------------------------

/// The JSON text that a page carries: the data attribute with `&quot;` and
/// `&amp;` decoded.
pub open spec fn page_json_text(payload: Seq<char>) -> Option<Seq<char>> {
    match page_attr(payload) {
        Some(v) => Some(replaced(replaced(v, "&quot;"@, "\""@), "&amp;"@, "&"@)),
        None => None,
    }
}

/// The JSON text that a page carries in its data attribute, with `&quot;`
/// and `&amp;` decoded; `None` when the page has no such attribute.
pub fn page_data(payload: &str) -> (res: Option<String>)
    ensures
        match page_json_text(payload@) {
            Some(t) => res matches Some(v) && v@ == t,
            None => res is None,
        },
{
    proof {
        reveal_strlit("&quot;");
        reveal_strlit("&amp;");
    }
    match capture_page_attr(payload) {
        Some(v) => {
            let s = chars_of(v.as_str());
            let s = replace_lit(&s, "&quot;", "\"");
            let s = replace_lit(&s, "&amp;", "&");
            Some(string_of(&s))
        },
        None => None,
    }
}

} // verus!
