//! Stored documents: a record's front matter, framed by delimiter lines,
//! followed by free text.
//!
//! ```text
//! ---
//! <front matter>
//! ---
//! <content>
//! ```

use crate::text::{
    chars_of, opt_view, push_char, same_chars, slice_chars, string_of, trim_chars, trimmed,
};
use vstd::prelude::*;
use vstd::string::StringExecFns;

verus! {

/// A record that names the file it is stored in.
pub trait Filename {
    /// The file name, where the record has one.
    spec fn filename_of(&self) -> Option<Seq<char>>;

    fn filename(&self) -> (r: Option<String>)
        ensures
            opt_view(r) == self.filename_of(),
    ;
}

/// A record that is put into its stored form before it is written.
pub trait PreDocument: Sized + View {
    /// The stored form of the record.
    spec fn stored_form(&self) -> Self::V;

    fn pre_document(&self) -> (r: Self)
        ensures
            r@ == self.stored_form(),
    ;
}

/// A record together with the free text that is stored below it.
pub struct Document<Documentable: Filename + PreDocument> {
    pub record: Documentable,
    pub content: Option<String>,
}

/// The line that opens and closes the front matter.
pub const DELIMITER: &'static str = "---";

/// Why a text is no stored document.
#[derive(Clone, Copy, Debug, PartialEq, Eq, Structural)]
pub enum DocumentError {
    /// No delimiter line opens a front matter.
    MissingFrontMatter,
    /// A front matter was opened and never closed.
    UnterminatedFrontMatter,
}

/// The parts of a stored document: what stands before the front matter,
/// the front matter, and the content.
#[derive(Debug, PartialEq, Eq)]
pub struct Parts {
    pub preamble: String,
    pub frontmatter: String,
    pub content: String,
}

/// `Parts` as plain values.
pub ghost struct PartsView {
    pub preamble: Seq<char>,
    pub frontmatter: Seq<char>,
    pub content: Seq<char>,
}

impl View for Parts {
    type V = PartsView;

    open spec fn view(&self) -> PartsView {
        PartsView {
            preamble: self.preamble@,
            frontmatter: self.frontmatter@,
            content: self.content@,
        }
    }
}

/// The text of a stored document: the front matter between two delimiter
/// lines, then the content.
pub open spec fn framed(frontmatter: Seq<char>, content: Option<Seq<char>>) -> Seq<char> {
    let body = match content {
        Some(c) => c,
        None => Seq::empty(),
    };
    DELIMITER@ + seq!['\n'] + frontmatter + DELIMITER@ + seq!['\n'] + body
}

/// Where the first line of `s` ends: at its first line feed, or at its
/// end.
pub open spec fn line_end(s: Seq<char>) -> int
    decreases s.len(),
{
    if s.len() == 0 || s[0] == '\n' {
        0
    } else {
        1 + line_end(s.skip(1))
    }
}

/// A delimiter line: `---`, with any whitespace around it.
pub open spec fn is_delimiter(line: Seq<char>) -> bool {
    trimmed(line) == DELIMITER@
}

/// A delimiter line in a text: where the line begins, and where what
/// follows the line begins.
pub ghost struct Delimiter {
    pub start: int,
    pub after: int,
}

/// A place further on in a text, by `by` characters.
pub open spec fn shifted(found: Option<Delimiter>, by: int) -> Option<Delimiter> {
    match found {
        Some(d) => Some(Delimiter { start: d.start + by, after: d.after + by }),
        None => None,
    }
}

/// The first delimiter line of a text. Each line feed ends a line, and
/// what follows the last one is a line too, unless it is empty.
pub open spec fn first_delimiter(s: Seq<char>) -> Option<Delimiter>
    decreases s.len(),
{
    if s.len() == 0 {
        None
    } else {
        let end = line_end(s);
        if end < 0 || end > s.len() {
            None
        } else if is_delimiter(s.take(end)) {
            Some(
                Delimiter {
                    start: 0,
                    after: if end < s.len() {
                        end + 1
                    } else {
                        end
                    },
                },
            )
        } else if end >= s.len() {
            None
        } else {
            shifted(first_delimiter(s.skip(end + 1)), end + 1)
        }
    }
}

/// The parts of a stored document. The first delimiter line opens the
/// front matter and the next one closes it; everything after that line is
/// the content, as it stands.
pub open spec fn split_of(text: Seq<char>) -> Result<PartsView, DocumentError> {
    match first_delimiter(text) {
        None => Err(DocumentError::MissingFrontMatter),
        Some(opening) => {
            let rest = text.skip(opening.after);
            match first_delimiter(rest) {
                None => Err(DocumentError::UnterminatedFrontMatter),
                Some(closing) => Ok(
                    PartsView {
                        preamble: text.take(opening.start),
                        frontmatter: rest.take(closing.start),
                        content: rest.skip(closing.after),
                    },
                ),
            }
        },
    }
}

proof fn lemma_line_end_bounds(s: Seq<char>)
    ensures
        0 <= line_end(s) <= s.len(),
        line_end(s) < s.len() ==> s[line_end(s)] == '\n',
        forall|k: int| 0 <= k < line_end(s) ==> s[k] != '\n',
    decreases s.len(),
{
    if s.len() == 0 || s[0] == '\n' {
    } else {
        lemma_line_end_bounds(s.skip(1));
        assert forall|k: int| 0 <= k < line_end(s) implies s[k] != '\n' by {
            if k > 0 {
                assert(s.skip(1)[k - 1] == s[k]);
            }
        }
    }
}

/// The first delimiter line of `text` at or after `from`, which is where a
/// line begins: where it begins, and where what follows it begins.
fn find_delimiter(text: &Vec<char>, from: usize) -> (r: Option<(usize, usize)>)
    requires
        from <= text.len(),
    ensures
        match r {
            Some((start, after)) => from <= start <= after <= text.len() && first_delimiter(
                text@.skip(from as int),
            ) == Some(Delimiter { start: start - from, after: after - from }),
            None => first_delimiter(text@.skip(from as int)) is None,
        },
{
    let n: usize = text.len();
    let delimiter = chars_of(DELIMITER);
    let mut start: usize = from;
    assert(shifted(first_delimiter(text@.skip(from as int)), 0) == first_delimiter(
        text@.skip(from as int),
    ));
    while start < n
        invariant
            n == text.len(),
            from <= start <= n,
            delimiter@ == DELIMITER@,
            shifted(first_delimiter(text@.skip(start as int)), start - from) == first_delimiter(
                text@.skip(from as int),
            ),
        decreases n - start,
    {
        let ghost rest = text@.skip(start as int);
        let mut end: usize = start;
        assert(text@.skip(end as int) =~= rest);
        while end < n && text[end] != '\n'
            invariant
                n == text.len(),
                start <= end <= n,
                rest == text@.skip(start as int),
                line_end(rest) == (end - start) + line_end(text@.skip(end as int)),
            decreases n - end,
        {
            assert(text@.skip(end as int).skip(1) =~= text@.skip(end + 1));
            end += 1;
        }
        proof {
            if end < n {
                assert(text@.skip(end as int)[0] == '\n');
            }
            assert(line_end(rest) == end - start);
            assert(rest.take(end - start) =~= text@.subrange(start as int, end as int));
        }
        let line = slice_chars(text, start, end);
        let bare = trim_chars(&line);
        let next: usize = if end < n { end + 1 } else { end };
        if same_chars(&bare, &delimiter) {
            return Some((start, next));
        }
        if end >= n {
            return None;
        }
        proof {
            assert(rest.skip(end - start + 1) =~= text@.skip(next as int));
            let inner = first_delimiter(text@.skip(next as int));
            assert(first_delimiter(rest) == shifted(inner, end - start + 1));
            assert(shifted(shifted(inner, end - start + 1), start - from) == shifted(
                inner,
                next - from,
            ));
        }
        start = next;
    }
    None
}

/// Splits the text of a stored document into its parts.
pub fn split(text: &str) -> (r: Result<Parts, DocumentError>)
    ensures
        match r {
            Ok(parts) => split_of(text@) == Ok::<PartsView, DocumentError>(parts@),
            Err(e) => split_of(text@) == Err::<PartsView, DocumentError>(e),
        },
{
    let chars = chars_of(text);
    let n: usize = chars.len();
    assert(chars@.skip(0) =~= chars@);
    let (opening, front) = match find_delimiter(&chars, 0) {
        Some(found) => found,
        None => { return Err(DocumentError::MissingFrontMatter); },
    };
    let (closing, body) = match find_delimiter(&chars, front) {
        Some(found) => found,
        None => { return Err(DocumentError::UnterminatedFrontMatter); },
    };
    let preamble = slice_chars(&chars, 0, opening);
    let frontmatter = slice_chars(&chars, front, closing);
    let content = slice_chars(&chars, body, n);
    proof {
        let rest = chars@.skip(front as int);
        assert(preamble@ =~= chars@.take(opening as int));
        assert(frontmatter@ =~= rest.take(closing - front));
        assert(content@ =~= rest.skip(body - front));
    }
    Ok(
        Parts {
            preamble: string_of(&preamble),
            frontmatter: string_of(&frontmatter),
            content: string_of(&content),
        },
    )
}

/// The text of a stored document with the given front matter and content.
pub fn frame(frontmatter: &str, content: &Option<String>) -> (r: String)
    ensures
        r@ == framed(frontmatter@, opt_view(*content)),
{
    let mut out = String::new();
    out.append(DELIMITER);
    push_char(&mut out, '\n');
    out.append(frontmatter);
    out.append(DELIMITER);
    push_char(&mut out, '\n');
    match content {
        Some(c) => {
            out.append(c.as_str());
        },
        None => {},
    }
    assert(out@ =~= framed(frontmatter@, opt_view(*content)));
    out
}

impl<Documentable: Filename + PreDocument> Document<Documentable> {
    /// The file name of the record.
    pub fn filename(&self) -> (r: Option<String>)
        ensures
            opt_view(r) == self.record.filename_of(),
    {
        self.record.filename()
    }

    /// The record in its stored form.
    pub fn prepared(&self) -> (r: Documentable)
        ensures
            r@ == self.record.stored_form(),
    {
        self.record.pre_document()
    }

    /// The text under which the document is stored, given the front matter
    /// that its record is written as.
    pub fn new_content(&self, frontmatter: &str) -> (r: String)
        ensures
            r@ == framed(frontmatter@, opt_view(self.content)),
    {
        frame(frontmatter, &self.content)
    }
}

/// The document that a stored text holds, given the record that its front
/// matter was read as: the record, with the content as it stands in the
/// text.
pub fn read<Documentable: Filename + PreDocument>(record: Documentable, parts: Parts) -> (r:
    Document<Documentable>)
    ensures
        r.record == record,
        opt_view(r.content) == Some(parts@.content),
{
    Document { record, content: Some(parts.content) }
}

/// A front matter that is read back as it was stored: it is empty or ends
/// with a line feed, and none of its lines is a delimiter.
pub open spec fn storable(frontmatter: Seq<char>) -> bool {
    &&& frontmatter.len() == 0 || frontmatter.last() == '\n'
    &&& first_delimiter(frontmatter) is None
}

proof fn lemma_line_end_of_concat(a: Seq<char>, b: Seq<char>)
    requires
        line_end(a) < a.len(),
    ensures
        line_end(a + b) == line_end(a),
    decreases a.len(),
{
    lemma_line_end_bounds(a);
    assert((a + b)[0] == a[0]);
    if a[0] != '\n' {
        assert((a + b).skip(1) =~= a.skip(1) + b);
        lemma_line_end_of_concat(a.skip(1), b);
    }
}

proof fn lemma_ends_its_first_line(a: Seq<char>)
    requires
        a.len() > 0,
        a.last() == '\n',
    ensures
        0 <= line_end(a) < a.len(),
{
    lemma_line_end_bounds(a);
    if line_end(a) == a.len() {
        assert(a[a.len() - 1] != '\n');
    }
}

/// Behind whole lines without a delimiter, the first delimiter line is
/// that of what follows them.
proof fn lemma_first_delimiter_after(a: Seq<char>, b: Seq<char>)
    requires
        a.len() == 0 || a.last() == '\n',
        first_delimiter(a) is None,
    ensures
        first_delimiter(a + b) == shifted(first_delimiter(b), a.len() as int),
    decreases a.len(),
{
    if a.len() == 0 {
        assert(a + b =~= b);
        assert(shifted(first_delimiter(b), 0) == first_delimiter(b));
    } else {
        lemma_ends_its_first_line(a);
        lemma_line_end_of_concat(a, b);
        let end = line_end(a);
        let rest = a.skip(end + 1);
        assert((a + b).take(end) =~= a.take(end));
        assert((a + b).skip(end + 1) =~= rest + b);
        assert(!is_delimiter(a.take(end)));
        assert(first_delimiter(a) == shifted(first_delimiter(rest), end + 1));
        assert(first_delimiter(rest) is None);
        if rest.len() > 0 {
            assert(rest.last() == a.last());
        }
        lemma_first_delimiter_after(rest, b);
        let inner = first_delimiter(b);
        assert(first_delimiter(a + b) == shifted(first_delimiter(rest + b), end + 1));
        assert(shifted(shifted(inner, rest.len() as int), end + 1) == shifted(
            inner,
            a.len() as int,
        ));
    }
}

/// A text that begins with a delimiter line has it as its first.
proof fn lemma_delimiter_comes_first(b: Seq<char>)
    ensures
        first_delimiter(DELIMITER@ + seq!['\n'] + b) == Some(Delimiter { start: 0, after: 4 }),
{
    reveal_strlit("---");
    let d = DELIMITER@;
    assert(d.len() == 3 && d[0] == '-' && d[1] == '-' && d[2] == '-');
    assert(!crate::text::is_whitespace('-'));
    assert(crate::text::trim_start_of(d) == d);
    assert(crate::text::trim_end_of(d) == d);
    assert(is_delimiter(d));
    let s = d + seq!['\n'] + b;
    lemma_line_end_bounds(s);
    let end = line_end(s);
    if end < 3 {
        assert(s[end] == d[end]);
    }
    if end > 3 {
        assert(s[3] == '\n');
    }
    assert(end == 3);
    assert(s.take(end) =~= d);
}

/// What is stored is read back: the text framed from a front matter and
/// a content splits into that front matter and exactly that content,
/// whatever the content holds. The front matter is to end its last line
/// and to hold no delimiter line. A document without content is read back
/// with an empty one.
pub proof fn lemma_framed_splits_back(frontmatter: Seq<char>, content: Option<Seq<char>>)
    requires
        storable(frontmatter),
    ensures
        split_of(framed(frontmatter, content)) == Ok::<PartsView, DocumentError>(
            PartsView {
                preamble: Seq::empty(),
                frontmatter,
                content: match content {
                    Some(c) => c,
                    None => Seq::empty(),
                },
            },
        ),
{
    let body = match content {
        Some(c) => c,
        None => Seq::<char>::empty(),
    };
    let mark = DELIMITER@ + seq!['\n'];
    reveal_strlit("---");
    assert(mark.len() == 4);
    let text = framed(frontmatter, content);
    let tail = mark + body;
    let rest = frontmatter + tail;
    assert(text =~= mark + rest);
    lemma_delimiter_comes_first(rest);
    assert(text.skip(4) =~= rest);
    lemma_delimiter_comes_first(body);
    lemma_first_delimiter_after(frontmatter, tail);
    let front = frontmatter.len() as int;
    assert(first_delimiter(rest) == Some(Delimiter { start: front, after: front + 4 }));
    assert(text.take(0) =~= Seq::<char>::empty());
    assert(rest.take(front) =~= frontmatter);
    assert(rest.skip(front + 4) =~= body);
}

} // verus!
