//! Classification of single lines and extraction of their content.
use vstd::prelude::*;
use crate::text::{
    copy_range, skip_class, span_end, trim, trim_start, trimmed, trimmed_start, CharClass,
};

verus! {

/// A heading: one to six `#`, then a space; the level and the text after that space.
pub open spec fn heading(l: Seq<char>) -> Option<(nat, Seq<char>)> {
    let u = trim_start(l);
    let h = span_end(u, 0, CharClass::Hash);
    if 1 <= h <= 6 && h < u.len() && u[h] == ' ' {
        Some((h as nat, u.subrange(h + 1, u.len() as int)))
    } else {
        None
    }
}

/// A blockquote line starts with `>` after its leading whitespace.
pub open spec fn is_quote(l: Seq<char>) -> bool {
    let u = trim_start(l);
    u.len() > 0 && u[0] == '>'
}

/// An unordered item starts with `-`, `*` or `+` and a space after its leading whitespace.
pub open spec fn is_bullet(l: Seq<char>) -> bool {
    let u = trim_start(l);
    u.len() >= 2 && (u[0] == '-' || u[0] == '*' || u[0] == '+') && u[1] == ' '
}

/// An ordered item starts with one or more ASCII digits, `.` and a space after its
/// leading whitespace.
pub open spec fn is_numbered(l: Seq<char>) -> bool {
    let u = trim_start(l);
    let d = span_end(u, 0, CharClass::Digit);
    d >= 1 && u.len() - d > 1 && u[d] == '.' && u[d + 1] == ' '
}

/// The text of a blockquote line: what follows its run of `>`, without leading whitespace.
pub open spec fn quote_text(l: Seq<char>) -> Seq<char> {
    let u = trim_start(l);
    trim_start(u.subrange(span_end(u, 0, CharClass::Gt), u.len() as int))
}

/// The text of an unordered item: what follows the two-character marker, trimmed.
pub open spec fn bullet_text(l: Seq<char>) -> Seq<char> {
    let u = trim_start(l);
    if u.len() >= 2 {
        trim(u.subrange(2, u.len() as int))
    } else {
        Seq::empty()
    }
}

/// The first position at or after `i` where `". "` stands, or the length.
pub open spec fn sep_at(u: Seq<char>, i: int) -> int
    decreases u.len() - i,
{
    if 0 <= i && i + 1 < u.len() {
        if u[i] == '.' && u[i + 1] == ' ' {
            i
        } else {
            sep_at(u, i + 1)
        }
    } else {
        u.len() as int
    }
}

/// The text of an ordered item: what follows the first `". "` of the line, trimmed.
pub open spec fn numbered_text(l: Seq<char>) -> Seq<char> {
    let u = trim_start(l);
    let k = sep_at(u, 0);
    if k < u.len() {
        trim(u.subrange(k + 2, u.len() as int))
    } else {
        Seq::empty()
    }
}

/// Recognises a heading line; gives its level and the text after the marker.
pub fn parse_heading(line: &Vec<char>) -> (r: Option<(usize, Vec<char>)>)
    ensures
        r is Some <==> heading(line@) is Some,
        r matches Some((lv, c)) ==> heading(line@) == Some((lv as nat, c@)),
{
    let u = trimmed_start(line);
    let h = skip_class(&u, 0, CharClass::Hash);
    if 1 <= h && h <= 6 && h < u.len() && u[h] == ' ' {
        let c = copy_range(&u, h + 1, u.len());
        Some((h, c))
    } else {
        None
    }
}

pub fn is_blockquote(line: &Vec<char>) -> (r: bool)
    ensures
        r == is_quote(line@),
{
    let a = skip_class(line, 0, CharClass::Space);
    a < line.len() && line[a] == '>'
}

pub fn is_list_item(line: &Vec<char>) -> (r: bool)
    ensures
        r == is_bullet(line@),
{
    let a = skip_class(line, 0, CharClass::Space);
    line.len() - a >= 2 && (line[a] == '-' || line[a] == '*' || line[a] == '+') && line[a
        + 1] == ' '
}

pub fn is_ordered_list_item(line: &Vec<char>) -> (r: bool)
    ensures
        r == is_numbered(line@),
{
    let u = trimmed_start(line);
    let d = skip_class(&u, 0, CharClass::Digit);
    d >= 1 && u.len() - d > 1 && u[d] == '.' && u[d + 1] == ' '
}

pub fn blockquote_text(line: &Vec<char>) -> (r: Vec<char>)
    ensures
        r@ == quote_text(line@),
{
    let u = trimmed_start(line);
    let g = skip_class(&u, 0, CharClass::Gt);
    let rest = copy_range(&u, g, u.len());
    trimmed_start(&rest)
}

pub fn list_item_text(line: &Vec<char>) -> (r: Vec<char>)
    ensures
        r@ == bullet_text(line@),
{
    let u = trimmed_start(line);
    if u.len() >= 2 {
        let rest = copy_range(&u, 2, u.len());
        trimmed(&rest)
    } else {
        Vec::new()
    }
}

pub fn ordered_item_text(line: &Vec<char>) -> (r: Vec<char>)
    ensures
        r@ == numbered_text(line@),
{
    let u = trimmed_start(line);
    let mut k: usize = 0;
    while u.len() - k > 1 && !(u[k] == '.' && u[k + 1] == ' ')
        invariant
            k <= u.len(),
            sep_at(u@, k as int) == sep_at(u@, 0),
        decreases u.len() - k,
    {
        k = k + 1;
    }
    if u.len() - k > 1 {
        let rest = copy_range(&u, k + 2, u.len());
        trimmed(&rest)
    } else {
        Vec::new()
    }
}

} // verus!
