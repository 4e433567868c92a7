//! File names for stored records.

use crate::digest::{hex_encode, hex_of, sha256, sha256_of};
use crate::text::{
    chars_of, join, joined, lacks, lemma_replaced_drops, lemma_replaced_keeps_lacking, lowercase,
    lowercase_of, replace_chars, replaced, slice_chars, string_of, views,
};
use crate::time::{format_time, formatted_time, Timestamp};
use vstd::prelude::*;
use vstd::string::StringExecFns;

verus! {

/// How the time of a record is written in its file name: date and time
/// down to the millisecond, digits only.
pub const TIMESTAMP_FORMAT: &'static str = "%Y%m%d%H%M%S%3f";

/// How many hexadecimal digits of a digest go into a file name.
pub const HASH_ID_LENGTH: usize = 7;

/// A name as it appears in a file name: lower case, with ` - `, spaces,
/// hyphens and slashes turned into underscores, and parentheses and full
/// stops dropped.
pub open spec fn normalized_attr(name: Seq<char>) -> Seq<char> {
    let a = lowercase_of(name);
    let b = replaced(a, seq![' ', '-', ' '], seq!['_']);
    let c = replaced(b, seq![' '], seq!['_']);
    let d = replaced(c, seq!['('], Seq::empty());
    let e = replaced(d, seq![')'], Seq::empty());
    let f = replaced(e, seq!['-'], seq!['_']);
    let g = replaced(f, seq!['.'], Seq::empty());
    replaced(g, seq!['/'], seq!['_'])
}

/// A normalised name holds no space, parenthesis, hyphen, full stop or
/// slash: it is one part of a file name and cannot reach into another
/// directory.
pub proof fn lemma_normalized_attr_is_plain(name: Seq<char>)
    ensures
        lacks(normalized_attr(name), ' '),
        lacks(normalized_attr(name), '('),
        lacks(normalized_attr(name), ')'),
        lacks(normalized_attr(name), '-'),
        lacks(normalized_attr(name), '.'),
        lacks(normalized_attr(name), '/'),
{
    let underscore = seq!['_'];
    let nothing = Seq::<char>::empty();
    let a = lowercase_of(name);
    let b = replaced(a, seq![' ', '-', ' '], underscore);
    let c = replaced(b, seq![' '], underscore);
    let d = replaced(c, seq!['('], nothing);
    let e = replaced(d, seq![')'], nothing);
    let f = replaced(e, seq!['-'], underscore);
    let g = replaced(f, seq!['.'], nothing);
    let h = replaced(g, seq!['/'], underscore);
    // Each step drops one character, and no later step brings it back.
    lemma_replaced_drops(b, ' ', underscore);
    lemma_replaced_drops(c, '(', nothing);
    lemma_replaced_drops(d, ')', nothing);
    lemma_replaced_drops(e, '-', underscore);
    lemma_replaced_drops(f, '.', nothing);
    lemma_replaced_drops(g, '/', underscore);
    lemma_replaced_keeps_lacking(c, seq!['('], nothing, ' ');
    lemma_replaced_keeps_lacking(d, seq![')'], nothing, ' ');
    lemma_replaced_keeps_lacking(e, seq!['-'], underscore, ' ');
    lemma_replaced_keeps_lacking(f, seq!['.'], nothing, ' ');
    lemma_replaced_keeps_lacking(g, seq!['/'], underscore, ' ');
    lemma_replaced_keeps_lacking(d, seq![')'], nothing, '(');
    lemma_replaced_keeps_lacking(e, seq!['-'], underscore, '(');
    lemma_replaced_keeps_lacking(f, seq!['.'], nothing, '(');
    lemma_replaced_keeps_lacking(g, seq!['/'], underscore, '(');
    lemma_replaced_keeps_lacking(e, seq!['-'], underscore, ')');
    lemma_replaced_keeps_lacking(f, seq!['.'], nothing, ')');
    lemma_replaced_keeps_lacking(g, seq!['/'], underscore, ')');
    lemma_replaced_keeps_lacking(f, seq!['.'], nothing, '-');
    lemma_replaced_keeps_lacking(g, seq!['/'], underscore, '-');
    lemma_replaced_keeps_lacking(g, seq!['/'], underscore, '.');
}

pub fn normalize_filename_attr(name: &str) -> (r: String)
    ensures
        r@ == normalized_attr(name@),
{
    let lower = lowercase(name);
    let a = chars_of(lower.as_str());
    let spaced_dash: Vec<char> = vec![' ', '-', ' '];
    let underscore: Vec<char> = vec!['_'];
    let space: Vec<char> = vec![' '];
    let open: Vec<char> = vec!['('];
    let close: Vec<char> = vec![')'];
    let dash: Vec<char> = vec!['-'];
    let stop: Vec<char> = vec!['.'];
    let slash: Vec<char> = vec!['/'];
    let nothing: Vec<char> = Vec::new();
    proof {
        assert(spaced_dash@ =~= seq![' ', '-', ' ']);
        assert(underscore@ =~= seq!['_']);
        assert(space@ =~= seq![' ']);
        assert(open@ =~= seq!['(']);
        assert(close@ =~= seq![')']);
        assert(dash@ =~= seq!['-']);
        assert(stop@ =~= seq!['.']);
        assert(slash@ =~= seq!['/']);
        assert(nothing@ =~= Seq::<char>::empty());
    }
    let b = replace_chars(&a, &spaced_dash, &underscore);
    let c = replace_chars(&b, &space, &underscore);
    let d = replace_chars(&c, &open, &nothing);
    let e = replace_chars(&d, &close, &nothing);
    let f = replace_chars(&e, &dash, &underscore);
    let g = replace_chars(&f, &stop, &nothing);
    let h = replace_chars(&g, &slash, &underscore);
    string_of(&h)
}

/// The normalised names, joined by full stops.
pub open spec fn attr_part(attrs: Seq<Seq<char>>) -> Seq<char> {
    joined(attrs.map_values(|a: Seq<char>| normalized_attr(a)), "."@)
}

fn join_attrs(attrs: &Vec<String>) -> (r: String)
    ensures
        r@ == attr_part(views(attrs@)),
{
    let mut names: Vec<String> = Vec::new();
    let mut i: usize = 0;
    let ghost wanted = views(attrs@).map_values(|a: Seq<char>| normalized_attr(a));
    while i < attrs.len()
        invariant
            i <= attrs.len(),
            wanted == views(attrs@).map_values(|a: Seq<char>| normalized_attr(a)),
            views(names@) =~= wanted.take(i as int),
        decreases attrs.len() - i,
    {
        let name = normalize_filename_attr(attrs[i].as_str());
        let ghost before = names@;
        names.push(name);
        proof {
            assert(wanted[i as int] == normalized_attr(attrs@[i as int]@));
            assert(views(names@) =~= views(before).push(name@));
            assert(wanted.take(i + 1) =~= wanted.take(i as int).push(wanted[i as int]));
        }
        i += 1;
    }
    assert(wanted.take(attrs@.len() as int) =~= wanted);
    join(&names, ".")
}

/// The file name of a record made at `timestamp` and described by
/// `attrs`: the time down to its millisecond, the normalised names and the
/// extension `md`, joined by full stops.
pub open spec fn timestamp_filename_of(timestamp: Timestamp, attrs: Seq<Seq<char>>) -> Option<
    Seq<char>,
> {
    let start = timestamp.to_millisecond();
    match formatted_time(start.seconds as int, start.nanos as int, TIMESTAMP_FORMAT@) {
        None => None,
        Some(stamp) => Some(stamp + "."@ + attr_part(attrs) + ".md"@),
    }
}

/// The file name for `timestamp` and `attrs`. There is none where the time
/// cannot be written: the moment is out of the calendar's range, or its
/// nanoseconds go beyond the second without it being a leap second.
pub fn timestamp_filename(timestamp: &Timestamp, attrs: &Vec<String>) -> (r: Option<String>)
    ensures
        match r {
            Some(name) => timestamp_filename_of(*timestamp, views(attrs@)) == Some(name@),
            None => timestamp_filename_of(*timestamp, views(attrs@)) is None,
        },
{
    let start = timestamp.to_millisecond();
    let stamp = match format_time(start.seconds, start.nanos, TIMESTAMP_FORMAT) {
        Some(s) => s,
        None => { return None; },
    };
    let names = join_attrs(attrs);
    let mut name = stamp;
    name.append(".");
    name.append(names.as_str());
    name.append(".md");
    Some(name)
}

/// The first `n` characters of a text, or all of it where it is shorter.
pub open spec fn prefix_of(s: Seq<char>, n: int) -> Seq<char> {
    if s.len() <= n {
        s
    } else {
        s.take(n)
    }
}

/// The file name of a record identified by `id`: the start of the
/// hexadecimal SHA-256 digest of `id`, the normalised names and the
/// extension `md`, joined by full stops.
pub open spec fn id_filename_of(id: Seq<char>, attrs: Seq<Seq<char>>) -> Seq<char> {
    prefix_of(hex_of(sha256_of(vstd::utf8::encode_utf8(id))), HASH_ID_LENGTH as int) + "."@
        + attr_part(attrs) + ".md"@
}

pub fn id_filename(id: &str, attrs: &Vec<String>) -> (r: String)
    ensures
        r@ == id_filename_of(id@, views(attrs@)),
{
    let hash = sha256(id.as_bytes());
    let hex = hex_encode(&hash);
    let digits = chars_of(hex.as_str());
    let len: usize = digits.len();
    let short = if len <= HASH_ID_LENGTH {
        assert(digits@.subrange(0, len as int) =~= digits@);
        slice_chars(&digits, 0, len)
    } else {
        slice_chars(&digits, 0, HASH_ID_LENGTH)
    };
    let names = join_attrs(attrs);
    let mut name = string_of(&short);
    name.append(".");
    name.append(names.as_str());
    name.append(".md");
    name
}

} // verus!
