//! Text primitives shared by the whole library.
//!
//! Every function here is specified over `Seq<char>`, the view of `str` and
//! `String`. The executable versions work on `Vec<char>` and convert at the
//! edges.

use vstd::prelude::*;
use vstd::string::StringExecFns;

verus! {

/// What `str::to_lowercase` returns for a text. Unicode lower-casing is a
/// table-driven mapping; it is named here, not restated.
pub uninterp spec fn lowercase_of(s: Seq<char>) -> Seq<char>;

/// `String::push`: the string afterwards is the string before with `c` at
/// its end.
#[verifier::external_body]
pub(crate) fn push_char(s: &mut String, c: char)
    ensures
        final(s)@ == old(s)@.push(c),
{
    s.push(c)
}

/// `str::to_lowercase`: the result is the lower-cased text, which depends
/// on the argument alone.
#[verifier::external_body]
pub(crate) fn lowercase(s: &str) -> (r: String)
    ensures
        r@ == lowercase_of(s@),
{
    s.to_lowercase()
}

/// The characters of a string, in order.
pub fn chars_of(s: &str) -> (v: Vec<char>)
    ensures
        v@ == s@,
{
    let mut v: Vec<char> = Vec::new();
    for c in it: s.chars()
        invariant
            it.seq() == s@,
            v@ == it.seq().take(it.index()),
    {
        v.push(c);
        assert(it.seq().take(it.index() + 1) == it.seq().take(it.index()).push(c));
    }
    assert(s@.take(s@.len() as int) == s@);
    v
}

/// The string made of the given characters.
pub fn string_of(v: &Vec<char>) -> (s: String)
    ensures
        s@ == v@,
{
    let mut s = String::new();
    let mut i: usize = 0;
    while i < v.len()
        invariant
            i <= v.len(),
            s@ == v@.take(i as int),
        decreases v.len() - i,
    {
        push_char(&mut s, v[i]);
        assert(v@.take(i + 1) == v@.take(i as int).push(v@[i as int]));
        i += 1;
    }
    assert(v@.take(v@.len() as int) == v@);
    s
}

/// Whether two texts hold the same characters.
pub fn same_text(a: &str, b: &str) -> (r: bool)
    ensures
        r == (a@ == b@),
{
    let x = a.to_owned();
    let y = b.to_owned();
    x == y
}

/// The view of an optional string.
pub open spec fn opt_view(s: Option<String>) -> Option<Seq<char>> {
    match s {
        Some(t) => Some(t@),
        None => None,
    }
}

/// A copy of an optional string.
pub fn clone_opt(s: &Option<String>) -> (r: Option<String>)
    ensures
        opt_view(r) == opt_view(*s),
{
    match s {
        Some(t) => Some(t.clone()),
        None => None,
    }
}

/// Unicode `White_Space`, the characters that trimming removes.
pub open spec fn is_whitespace(c: char) -> bool {
    let n = c as u32;
    (0x09 <= n <= 0x0D) || n == 0x20 || n == 0x85 || n == 0xA0 || n == 0x1680 || (0x2000 <= n
        <= 0x200A) || n == 0x2028 || n == 0x2029 || n == 0x202F || n == 0x205F || n == 0x3000
}

pub fn whitespace(c: char) -> (r: bool)
    ensures
        r == is_whitespace(c),
{
    let n: u32 = c as u32;
    (0x09 <= n && n <= 0x0D) || n == 0x20 || n == 0x85 || n == 0xA0 || n == 0x1680 || (0x2000 <= n
        && n <= 0x200A) || n == 0x2028 || n == 0x2029 || n == 0x202F || n == 0x205F || n == 0x3000
}

/// A text without its leading whitespace.
pub open spec fn trim_start_of(s: Seq<char>) -> Seq<char>
    decreases s.len(),
{
    if s.len() > 0 && is_whitespace(s[0]) {
        trim_start_of(s.skip(1))
    } else {
        s
    }
}

/// A text without its trailing whitespace.
pub open spec fn trim_end_of(s: Seq<char>) -> Seq<char>
    decreases s.len(),
{
    if s.len() > 0 && is_whitespace(s.last()) {
        trim_end_of(s.drop_last())
    } else {
        s
    }
}

/// A text without leading and trailing whitespace.
pub open spec fn trimmed(s: Seq<char>) -> Seq<char> {
    trim_end_of(trim_start_of(s))
}

/// Trimming on characters: the part of `s` between its first and its last
/// character that is not whitespace.
pub fn trim_chars(s: &Vec<char>) -> (r: Vec<char>)
    ensures
        r@ == trimmed(s@),
{
    let mut a: usize = 0;
    assert(s@.skip(0) == s@);
    while a < s.len() && whitespace(s[a])
        invariant
            a <= s.len(),
            trim_start_of(s@.skip(a as int)) == trim_start_of(s@),
        decreases s.len() - a,
    {
        assert(s@.skip(a as int).skip(1) == s@.skip(a + 1));
        a += 1;
    }
    assert(s@.skip(a as int) == trim_start_of(s@)) by {
        if a < s.len() {
            assert(s@.skip(a as int)[0] == s@[a as int]);
        }
    }
    let mut b: usize = s.len();
    assert(s@.subrange(a as int, b as int) == s@.skip(a as int));
    while b > a && whitespace(s[b - 1])
        invariant
            a <= b <= s.len(),
            trim_end_of(s@.subrange(a as int, b as int)) == trimmed(s@),
        decreases b,
    {
        assert(s@.subrange(a as int, b as int).drop_last() == s@.subrange(a as int, b - 1));
        b -= 1;
    }
    assert(s@.subrange(a as int, b as int) == trimmed(s@)) by {
        if b > a {
            assert(s@.subrange(a as int, b as int).last() == s@[b - 1]);
        }
    }
    let mut r: Vec<char> = Vec::new();
    let mut i: usize = a;
    while i < b
        invariant
            a <= i <= b <= s.len(),
            r@ == s@.subrange(a as int, i as int),
        decreases b - i,
    {
        r.push(s[i]);
        assert(s@.subrange(a as int, i + 1) == s@.subrange(a as int, i as int).push(s@[i as int]));
        i += 1;
    }
    r
}

/// `s` without leading and trailing whitespace.
pub fn trim(s: &str) -> (r: String)
    ensures
        r@ == trimmed(s@),
{
    let v = chars_of(s);
    let t = trim_chars(&v);
    string_of(&t)
}

/// Whether `pat` stands in `s` at position `i`.
pub open spec fn occurs_at(s: Seq<char>, pat: Seq<char>, i: int) -> bool {
    0 <= i && i + pat.len() <= s.len() && s.subrange(i, i + pat.len()) == pat
}

pub fn matches_at(s: &Vec<char>, pat: &Vec<char>, i: usize) -> (r: bool)
    ensures
        r == occurs_at(s@, pat@, i as int),
{
    if pat.len() > s.len() || i > s.len() - pat.len() {
        return false;
    }
    let mut k: usize = 0;
    while k < pat.len()
        invariant
            k <= pat.len(),
            i + pat.len() <= s.len(),
            forall|j: int| 0 <= j < k ==> s@[i + j] == pat@[j],
        decreases pat.len() - k,
    {
        if s[i + k] != pat[k] {
            assert(s@.subrange(i as int, i + pat.len())[k as int] == s@[i + k]);
            return false;
        }
        k += 1;
    }
    assert(s@.subrange(i as int, i + pat.len()) =~= pat@);
    true
}

/// The position of the first occurrence of `pat` in `s` at or after `i`.
pub open spec fn find_from(s: Seq<char>, pat: Seq<char>, i: int) -> Option<int>
    decreases s.len() + 1 - i,
{
    if i < 0 || i + pat.len() > s.len() {
        None
    } else if occurs_at(s, pat, i) {
        Some(i)
    } else {
        find_from(s, pat, i + 1)
    }
}

/// The position of the first occurrence of `pat` in `s`.
pub open spec fn find(s: Seq<char>, pat: Seq<char>) -> Option<int> {
    find_from(s, pat, 0)
}

/// `find_from` returns the least position at or after `i` where `pat`
/// occurs, and `None` exactly when there is none.
pub proof fn lemma_find_from_is_first(s: Seq<char>, pat: Seq<char>, i: int)
    requires
        0 <= i,
    ensures
        match find_from(s, pat, i) {
            Some(p) => i <= p && occurs_at(s, pat, p) && forall|j: int|
                i <= j < p ==> !occurs_at(s, pat, j),
            None => forall|j: int| i <= j ==> !occurs_at(s, pat, j),
        },
    decreases s.len() + 1 - i,
{
    if i + pat.len() > s.len() {
    } else if occurs_at(s, pat, i) {
    } else {
        lemma_find_from_is_first(s, pat, i + 1);
    }
}

pub fn find_chars(s: &Vec<char>, pat: &Vec<char>) -> (r: Option<usize>)
    ensures
        match r {
            Some(p) => find(s@, pat@) == Some(p as int) && p + pat@.len() <= s@.len(),
            None => find(s@, pat@) is None,
        },
{
    if pat.len() > s.len() {
        return None;
    }
    let last: usize = s.len() - pat.len();
    let mut i: usize = 0;
    loop
        invariant
            i <= last,
            last == s.len() - pat.len(),
            find_from(s@, pat@, i as int) == find(s@, pat@),
        decreases last - i,
    {
        if matches_at(s, pat, i) {
            return Some(i);
        }
        if i == last {
            assert(find_from(s@, pat@, i + 1) is None);
            return None;
        }
        i += 1;
    }
}

/// The text before and the text after the first occurrence of `sep`.
pub open spec fn split_once_of(s: Seq<char>, sep: Seq<char>) -> Option<(Seq<char>, Seq<char>)> {
    match find(s, sep) {
        Some(p) => Some((s.take(p), s.skip(p + sep.len()))),
        None => None,
    }
}

/// The characters of `s` from `from` up to `to`.
pub fn slice_chars(s: &Vec<char>, from: usize, to: usize) -> (r: Vec<char>)
    requires
        from <= to <= s.len(),
    ensures
        r@ == s@.subrange(from as int, to as int),
{
    let mut r: Vec<char> = Vec::new();
    let mut i: usize = from;
    while i < to
        invariant
            from <= i <= to <= s.len(),
            r@ == s@.subrange(from as int, i as int),
        decreases to - i,
    {
        r.push(s[i]);
        assert(s@.subrange(from as int, i + 1) == s@.subrange(from as int, i as int).push(
            s@[i as int],
        ));
        i += 1;
    }
    r
}

/// Splits `s` at the first occurrence of `sep`.
pub fn split_once(s: &str, sep: &str) -> (r: Option<(String, String)>)
    ensures
        match r {
            Some((a, b)) => split_once_of(s@, sep@) == Some((a@, b@)),
            None => split_once_of(s@, sep@) is None,
        },
{
    let sv = chars_of(s);
    let pv = chars_of(sep);
    let found = find_chars(&sv, &pv);
    match found {
        Some(p) => {
            let a = slice_chars(&sv, 0, p);
            let n: usize = pv.len();
            assert(p + n <= sv.len());
            let start: usize = p + n;
            let b = slice_chars(&sv, start, sv.len());
            Some((string_of(&a), string_of(&b)))
        },
        None => None,
    }
}

/// `s` with every occurrence of `from` replaced by `to`, scanning from the
/// left and never re-reading what was replaced. An empty `from` leaves the
/// text as it is.
pub open spec fn replaced(s: Seq<char>, from: Seq<char>, to: Seq<char>) -> Seq<char>
    decreases s.len(),
{
    if from.len() == 0 || s.len() < from.len() {
        s
    } else if occurs_at(s, from, 0) {
        to + replaced(s.skip(from.len() as int), from, to)
    } else {
        seq![s[0]] + replaced(s.skip(1), from, to)
    }
}

/// The character `c` stands nowhere in `s`.
pub open spec fn lacks(s: Seq<char>, c: char) -> bool {
    forall|i: int| 0 <= i < s.len() ==> #[trigger] s[i] != c
}

/// Replacing what does not occur changes nothing.
pub proof fn lemma_replaced_without_occurrence(s: Seq<char>, from: Seq<char>, to: Seq<char>)
    requires
        forall|i: int| !occurs_at(s, from, i),
    ensures
        replaced(s, from, to) == s,
    decreases s.len(),
{
    if from.len() == 0 || s.len() < from.len() {
    } else {
        assert(!occurs_at(s, from, 0));
        let rest = s.skip(1);
        assert forall|i: int| !occurs_at(rest, from, i) by {
            if occurs_at(rest, from, i) {
                assert(s.subrange(i + 1, i + 1 + from.len()) =~= rest.subrange(i, i + from.len()));
                assert(occurs_at(s, from, i + 1));
            }
        }
        lemma_replaced_without_occurrence(rest, from, to);
        assert(seq![s[0]] + rest =~= s);
    }
}

/// Replacing a character by a text without it leaves none of it.
pub proof fn lemma_replaced_drops(s: Seq<char>, c: char, to: Seq<char>)
    requires
        lacks(to, c),
    ensures
        lacks(replaced(s, seq![c], to), c),
    decreases s.len(),
{
    let from = seq![c];
    if s.len() >= 1 {
        let rest = s.skip(1);
        lemma_replaced_drops(rest, c, to);
        let tail = replaced(rest, from, to);
        if occurs_at(s, from, 0) {
            assert(s.skip(from.len() as int) == rest);
            assert(replaced(s, from, to) == to + tail);
        } else {
            assert(s.subrange(0, 1) =~= seq![s[0]]);
            assert(s[0] != c) by {
                if s[0] == c {
                    assert(seq![s[0]] =~= from);
                }
            }
            assert(replaced(s, from, to) == seq![s[0]] + tail);
        }
    }
}

/// Replacing by a text without `c` brings no `c` into a text without it.
pub proof fn lemma_replaced_keeps_lacking(s: Seq<char>, from: Seq<char>, to: Seq<char>, c: char)
    requires
        lacks(s, c),
        lacks(to, c),
    ensures
        lacks(replaced(s, from, to), c),
    decreases s.len(),
{
    if from.len() == 0 || s.len() < from.len() {
    } else if occurs_at(s, from, 0) {
        let rest = s.skip(from.len() as int);
        assert forall|i: int| 0 <= i < rest.len() implies #[trigger] rest[i] != c by {
            assert(rest[i] == s[i + from.len()]);
        }
        lemma_replaced_keeps_lacking(rest, from, to, c);
    } else {
        let rest = s.skip(1);
        assert forall|i: int| 0 <= i < rest.len() implies #[trigger] rest[i] != c by {
            assert(rest[i] == s[i + 1]);
        }
        lemma_replaced_keeps_lacking(rest, from, to, c);
        assert(s[0] != c);
    }
}

pub fn replace_chars(s: &Vec<char>, from: &Vec<char>, to: &Vec<char>) -> (r: Vec<char>)
    ensures
        r@ == replaced(s@, from@, to@),
{
    let mut r: Vec<char> = Vec::new();
    let mut i: usize = 0;
    assert(s@.skip(0) == s@);
    while i < s.len()
        invariant
            i <= s.len(),
            r@ + replaced(s@.skip(i as int), from@, to@) == replaced(s@, from@, to@),
        decreases s.len() - i,
    {
        let ghost rest = s@.skip(i as int);
        let ghost before = r@;
        assert(occurs_at(rest, from@, 0) == occurs_at(s@, from@, i as int)) by {
            if i + from@.len() <= s@.len() {
                assert(rest.subrange(0, from@.len() as int) == s@.subrange(
                    i as int,
                    i + from@.len(),
                ));
            }
        }
        if from.len() > 0 && matches_at(s, from, i) {
            let mut k: usize = 0;
            while k < to.len()
                invariant
                    k <= to.len(),
                    r@ == before + to@.take(k as int),
                decreases to.len() - k,
            {
                r.push(to[k]);
                assert(to@.take(k + 1) == to@.take(k as int).push(to@[k as int]));
                k += 1;
            }
            assert(to@.take(to@.len() as int) == to@);
            assert(rest.skip(from@.len() as int) == s@.skip(i + from@.len()));
            assert(r@ + replaced(s@.skip(i + from@.len()), from@, to@) == before + (to@ + replaced(
                rest.skip(from@.len() as int),
                from@,
                to@,
            )));
            i += from.len();
        } else {
            r.push(s[i]);
            assert(rest.skip(1) == s@.skip(i + 1));
            assert(rest[0] == s@[i as int]);
            proof {
                if from@.len() == 0 || rest.len() < from@.len() {
                    // The rest is copied as it stands.
                    assert(replaced(rest.skip(1), from@, to@) == rest.skip(1));
                    assert(rest == seq![rest[0]] + rest.skip(1));
                }
            }
            assert(r@ + replaced(s@.skip(i + 1), from@, to@) == before + (seq![rest[0]] + replaced(
                rest.skip(1),
                from@,
                to@,
            )));
            i += 1;
        }
    }
    assert(s@.skip(s@.len() as int) == Seq::<char>::empty());
    assert(r@ + Seq::<char>::empty() == r@);
    r
}

/// `s` with every occurrence of `from` replaced by `to`.
pub fn replace(s: &str, from: &str, to: &str) -> (r: String)
    ensures
        r@ == replaced(s@, from@, to@),
{
    let sv = chars_of(s);
    let fv = chars_of(from);
    let tv = chars_of(to);
    let out = replace_chars(&sv, &fv, &tv);
    string_of(&out)
}

/// The texts of `parts`, with `sep` between each two neighbours.
pub open spec fn joined(parts: Seq<Seq<char>>, sep: Seq<char>) -> Seq<char>
    decreases parts.len(),
{
    if parts.len() == 0 {
        Seq::empty()
    } else if parts.len() == 1 {
        parts[0]
    } else {
        joined(parts.drop_last(), sep) + sep + parts.last()
    }
}

/// The views of a list of strings.
pub open spec fn views(parts: Seq<String>) -> Seq<Seq<char>> {
    parts.map_values(|s: String| s@)
}

/// Joins `parts` with `sep` between each two neighbours.
pub fn join(parts: &Vec<String>, sep: &str) -> (r: String)
    ensures
        r@ == joined(views(parts@), sep@),
{
    let mut r = String::new();
    let mut i: usize = 0;
    let ghost all = views(parts@);
    assert(all.take(0) =~= Seq::<Seq<char>>::empty());
    while i < parts.len()
        invariant
            i <= parts.len(),
            all == views(parts@),
            r@ == joined(all.take(i as int), sep@),
        decreases parts.len() - i,
    {
        let ghost before = r@;
        if i > 0 {
            r.append(sep);
        }
        r.append(parts[i].as_str());
        proof {
            let now = all.take(i + 1);
            assert(now.drop_last() =~= all.take(i as int));
            assert(now.last() == parts@[i as int]@);
            if i == 0 {
                assert(before =~= Seq::<char>::empty());
                assert(r@ =~= now[0]);
            }
        }
        i += 1;
    }
    assert(all.take(parts@.len() as int) =~= all);
    r
}

/// `s` without `prefix` at its start, where it starts with it.
pub open spec fn without_prefix(s: Seq<char>, prefix: Seq<char>) -> Option<Seq<char>> {
    if occurs_at(s, prefix, 0) {
        Some(s.skip(prefix.len() as int))
    } else {
        None
    }
}

/// `s` without `suffix` at its end, where it ends with it.
pub open spec fn without_suffix(s: Seq<char>, suffix: Seq<char>) -> Option<Seq<char>> {
    if occurs_at(s, suffix, s.len() - suffix.len()) {
        Some(s.take(s.len() - suffix.len()))
    } else {
        None
    }
}

pub fn strip_prefix_chars(s: &Vec<char>, prefix: &Vec<char>) -> (r: Option<Vec<char>>)
    ensures
        match r {
            Some(rest) => without_prefix(s@, prefix@) == Some(rest@),
            None => without_prefix(s@, prefix@) is None,
        },
{
    if matches_at(s, prefix, 0) {
        let from: usize = prefix.len();
        let to: usize = s.len();
        assert(s@.subrange(from as int, to as int) =~= s@.skip(from as int));
        Some(slice_chars(s, from, to))
    } else {
        None
    }
}

pub fn strip_suffix_chars(s: &Vec<char>, suffix: &Vec<char>) -> (r: Option<Vec<char>>)
    ensures
        match r {
            Some(rest) => without_suffix(s@, suffix@) == Some(rest@),
            None => without_suffix(s@, suffix@) is None,
        },
{
    let n: usize = s.len();
    let m: usize = suffix.len();
    if m > n {
        return None;
    }
    let at: usize = n - m;
    if matches_at(s, suffix, at) {
        assert(s@.subrange(0, at as int) =~= s@.take(at as int));
        Some(slice_chars(s, 0, at))
    } else {
        None
    }
}

/// Whether two runs of characters are the same.
pub fn same_chars(a: &Vec<char>, b: &Vec<char>) -> (r: bool)
    ensures
        r == (a@ == b@),
{
    let n: usize = a.len();
    let m: usize = b.len();
    if n != m {
        return false;
    }
    let r = matches_at(a, b, 0);
    assert(a@.subrange(0, n as int) =~= a@);
    r
}

/// The order of texts: character by character, a shorter text before
/// every text that it starts.
pub open spec fn text_before(a: Seq<char>, b: Seq<char>) -> bool
    decreases a.len(),
{
    if b.len() == 0 {
        false
    } else if a.len() == 0 {
        true
    } else if a[0] != b[0] {
        (a[0] as u32) < (b[0] as u32)
    } else {
        text_before(a.skip(1), b.skip(1))
    }
}

/// No text stands before itself.
pub proof fn lemma_text_order_is_strict(a: Seq<char>)
    ensures
        !text_before(a, a),
    decreases a.len(),
{
    if a.len() > 0 {
        lemma_text_order_is_strict(a.skip(1));
    }
}

proof fn lemma_codes_differ(c: char, d: char)
    requires
        c != d,
    ensures
        c as u32 != d as u32,
{
}

/// Of two different texts, exactly one stands before the other.
pub proof fn lemma_text_order_is_total(a: Seq<char>, b: Seq<char>)
    ensures
        text_before(a, b) || a == b || text_before(b, a),
        !(text_before(a, b) && text_before(b, a)),
    decreases a.len(),
{
    if a.len() == 0 || b.len() == 0 {
        if a.len() == 0 && b.len() == 0 {
            assert(a =~= b);
        }
    } else if a[0] != b[0] {
        lemma_codes_differ(a[0], b[0]);
    } else {
        lemma_text_order_is_total(a.skip(1), b.skip(1));
        if a.skip(1) == b.skip(1) {
            assert(a =~= seq![a[0]] + a.skip(1));
            assert(b =~= seq![b[0]] + b.skip(1));
        }
    }
}

pub fn chars_before(a: &Vec<char>, b: &Vec<char>) -> (r: bool)
    ensures
        r == text_before(a@, b@),
{
    let n: usize = a.len();
    let m: usize = b.len();
    let mut i: usize = 0;
    assert(a@.skip(0) =~= a@ && b@.skip(0) =~= b@);
    while i < n && i < m
        invariant
            n == a.len(),
            m == b.len(),
            i <= n,
            i <= m,
            text_before(a@.skip(i as int), b@.skip(i as int)) == text_before(a@, b@),
        decreases n - i,
    {
        assert(a@.skip(i as int)[0] == a@[i as int]);
        assert(b@.skip(i as int)[0] == b@[i as int]);
        if a[i] != b[i] {
            return (a[i] as u32) < (b[i] as u32);
        }
        assert(a@.skip(i as int).skip(1) =~= a@.skip(i + 1));
        assert(b@.skip(i as int).skip(1) =~= b@.skip(i + 1));
        i += 1;
    }
    i < m
}

/// Each text stands before the next: the list is in order and holds
/// nothing twice.
pub open spec fn strictly_ordered(list: Seq<Seq<char>>) -> bool {
    forall|i: int| 0 <= i < list.len() - 1 ==> text_before(#[trigger] list[i], list[i + 1])
}

/// Where `name` stands in a list that is in order: the place of the entry
/// that equals it, or the place at which it goes in.
fn ordered_position(list: &Vec<String>, name: &Vec<char>) -> (r: (usize, bool))
    ensures
        r.0 <= list.len(),
        r.1 ==> r.0 < list.len() && list@[r.0 as int]@ == name@,
        !r.1 ==> (r.0 > 0 ==> text_before(list@[r.0 - 1]@, name@)) && (r.0 < list.len()
            ==> text_before(name@, list@[r.0 as int]@)),
{
    let mut at: usize = list.len();
    while at > 0
        invariant
            at <= list.len(),
            at < list.len() ==> text_before(name@, list@[at as int]@),
        decreases at,
    {
        let other = chars_of(list[at - 1].as_str());
        if chars_before(name, &other) {
            at -= 1;
        } else if same_chars(name, &other) {
            return (at - 1, true);
        } else {
            proof {
                lemma_text_order_is_total(name@, other@);
            }
            return (at, false);
        }
    }
    (at, false)
}

/// A text put between a smaller and a larger neighbour keeps the list in
/// order.
proof fn lemma_insert_keeps_order(before: Seq<Seq<char>>, at: int, name: Seq<char>)
    requires
        strictly_ordered(before),
        0 <= at <= before.len(),
        at > 0 ==> text_before(before[at - 1], name),
        at < before.len() ==> text_before(name, before[at]),
    ensures
        strictly_ordered(before.insert(at, name)),
{
    let after = before.insert(at, name);
    assert forall|i: int| 0 <= i < after.len() - 1 implies text_before(
        #[trigger] after[i],
        after[i + 1],
    ) by {
        if i + 1 < at {
            assert(after[i] == before[i] && after[i + 1] == before[i + 1]);
            assert(text_before(before[i], before[i + 1]));
        } else if i + 1 == at {
            assert(after[i] == before[at - 1] && after[i + 1] == name);
        } else if i == at {
            assert(after[i] == name && after[i + 1] == before[at]);
        } else {
            assert(after[i] == before[i - 1] && after[i + 1] == before[i]);
            assert(text_before(before[i - 1], before[i - 1 + 1]));
        }
    }
}

/// A list with a text put in holds that text besides what it held.
proof fn lemma_insert_adds_one(before: Seq<Seq<char>>, at: int, name: Seq<char>)
    requires
        0 <= at <= before.len(),
    ensures
        before.insert(at, name).to_set() == before.to_set().insert(name),
{
    let after = before.insert(at, name);
    assert forall|x: Seq<char>| after.to_set().contains(x) <==> before.to_set().insert(
        name,
    ).contains(x) by {
        if after.to_set().contains(x) {
            let k = choose|k: int| 0 <= k < after.len() && after[k] == x;
            if k < at {
                assert(before[k] == x);
            } else if k > at {
                assert(before[k - 1] == x);
            }
        }
        if before.to_set().contains(x) {
            let k = choose|k: int| 0 <= k < before.len() && before[k] == x;
            if k < at {
                assert(after[k] == x);
            } else {
                assert(after[k + 1] == x);
            }
        }
        if x == name {
            assert(after[at] == x);
        }
    }
    assert(after.to_set() =~= before.to_set().insert(name));
}

/// Puts `name` into a list that is in order, unless the list holds it.
pub(crate) fn insert_unique(list: &mut Vec<String>, name: String)
    requires
        strictly_ordered(views(old(list)@)),
    ensures
        strictly_ordered(views(final(list)@)),
        views(final(list)@).to_set() == views(old(list)@).to_set().insert(name@),
{
    let chars = chars_of(name.as_str());
    let ghost before = views(list@);
    let (at, found) = ordered_position(list, &chars);
    if found {
        proof {
            assert(before[at as int] == name@);
            assert(before.to_set().contains(name@));
            assert(before.to_set().insert(name@) =~= before.to_set());
        }
        return ;
    }
    proof {
        if at > 0 {
            assert(before[at - 1] == list@[at - 1]@);
        }
        if at < list.len() {
            assert(before[at as int] == list@[at as int]@);
        }
        lemma_insert_keeps_order(before, at as int, name@);
        lemma_insert_adds_one(before, at as int, name@);
        assert(views(list@.insert(at as int, name)) =~= before.insert(at as int, name@));
    }
    list.insert(at, name);
}

} // verus!
