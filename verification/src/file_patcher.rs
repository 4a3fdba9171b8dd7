//! The per-file match-and-patch engine.
//!
//! Given one file's content and a query, decide which lines match and what
//! their replaced form is. Content that looks binary (a null byte) is never
//! a patch candidate. The engine never touches the disk: it returns the
//! ordered replacement list and the patched content, and the caller decides
//! what to write.

use vstd::prelude::*;

use crate::lines::{
    copy_bytes, join_lines, lemma_join_push, lemma_join_split_roundtrip,
    lemma_split_join_inverse, lemma_split_terminators, lemma_split_texts_newline_free,
    line_bytes, line_views, nl, spec_join, spec_split, split_lines, Line, LineV,
};
use crate::query::{q_matches, q_replaced, Query, QueryV};

verus! {

/// One line whose content changes: its 1-based position, the line as it
/// was, and the line as it will be.
#[derive(Clone, Debug, PartialEq, Eq)]
pub struct Replacement {
    pub line_number: usize,
    pub original_line: Vec<u8>,
    pub new_line: Vec<u8>,
}

/// Mathematical image of a `Replacement`.
pub ghost struct ReplV {
    pub line_number: int,
    pub original_line: Seq<u8>,
    pub new_line: Seq<u8>,
}

impl View for Replacement {
    type V = ReplV;

    open spec fn view(&self) -> ReplV {
        ReplV {
            line_number: self.line_number as int,
            original_line: self.original_line@,
            new_line: self.new_line@,
        }
    }
}

/// The views of a sequence of replacements.
pub open spec fn repl_views(rs: Seq<Replacement>) -> Seq<ReplV> {
    rs.map_values(|r: Replacement| r@)
}

/// The texts of a sequence of lines, terminators set aside.
pub open spec fn texts(lines: Seq<LineV>) -> Seq<Seq<u8>> {
    lines.map_values(|l: LineV| l.text)
}

/// Content is treated as binary when it contains a null byte; such a file
/// is never a patch candidate.
pub open spec fn is_binary(c: Seq<u8>) -> bool {
    c.contains(0u8)
}

/// The ordered replacement list for a sequence of line texts: one entry
/// per matching line, in line order, with 1-based line numbers.
pub open spec fn spec_replacements(lines: Seq<Seq<u8>>, q: QueryV) -> Seq<ReplV>
    decreases lines.len(),
{
    if lines.len() == 0 {
        Seq::empty()
    } else {
        let prefix = spec_replacements(lines.drop_last(), q);
        if q_matches(q, lines.last()) {
            prefix.push(
                ReplV {
                    line_number: lines.len() as int,
                    original_line: lines.last(),
                    new_line: q_replaced(q, lines.last()),
                },
            )
        } else {
            prefix
        }
    }
}

/// One line after patching: replaced text when the query matches, the
/// line unchanged otherwise; the terminator is never altered.
pub open spec fn patched_line(q: QueryV, l: LineV) -> LineV {
    if q_matches(q, l.text) {
        LineV { text: q_replaced(q, l.text), has_newline: l.has_newline }
    } else {
        l
    }
}

/// All lines after patching.
pub open spec fn spec_patched(lines: Seq<LineV>, q: QueryV) -> Seq<LineV> {
    lines.map_values(|l: LineV| patched_line(q, l))
}

/// The replacement list the engine produces for a file's content: empty
/// when the content is binary.
pub open spec fn spec_file_replacements(c: Seq<u8>, q: QueryV) -> Seq<ReplV> {
    if is_binary(c) {
        Seq::empty()
    } else {
        spec_replacements(texts(spec_split(c)), q)
    }
}

/// The file's content after patching every matching line.
pub open spec fn spec_patched_content(c: Seq<u8>, q: QueryV) -> Seq<u8> {
    spec_join(spec_patched(spec_split(c), q))
}

/// Does the content contain a null byte?
fn contains_null(c: &Vec<u8>) -> (r: bool)
    ensures
        r == is_binary(c@),
{
    let mut i: usize = 0;
    while i < c.len()
        invariant
            i <= c.len(),
            forall|k: int| 0 <= k < i ==> c@[k] != 0u8,
        decreases c.len() - i,
    {
        if c[i] == 0u8 {
            return true;
        }
        i = i + 1;
    }
    proof {
        assert(!c@.contains(0u8));
    }
    false
}

/// The per-file computation: the file's path, its lines, their patched
/// form, and the ordered replacement list. Constructed fresh per file and
/// discarded after use.
pub struct FilePatcher {
    path: Vec<u8>,
    patched: Vec<Line>,
    replacements: Vec<Replacement>,
    content: Ghost<Seq<u8>>,
    query: Ghost<QueryV>,
}

impl FilePatcher {
    /// The content this patcher was built from.
    pub closed spec fn spec_content(self) -> Seq<u8> {
        self.content@
    }

    /// The query this patcher was built with.
    pub closed spec fn spec_query(self) -> QueryV {
        self.query@
    }

    /// The path this patcher is for.
    pub closed spec fn spec_path(self) -> Seq<u8> {
        self.path@
    }

    /// The derived fields agree with the content and the query.
    pub closed spec fn wf(self) -> bool {
        &&& !is_binary(self.content@)
        &&& line_views(self.patched@) == spec_patched(spec_split(self.content@), self.query@)
        &&& repl_views(self.replacements@) == spec_replacements(
            texts(spec_split(self.content@)),
            self.query@,
        )
    }

    /// Build the patcher for one file's content, or report that the file
    /// is not a candidate (binary content). Zero matches is a candidate
    /// with an empty replacement list, not an error.
    pub fn build(path: &Vec<u8>, contents: &Vec<u8>, query: &Query) -> (r: Option<FilePatcher>)
        ensures
            r is Some <==> !is_binary(contents@),
            r is Some ==> r.unwrap().wf(),
            r is Some ==> r.unwrap().spec_content() == contents@,
            r is Some ==> r.unwrap().spec_query() == query@,
            r is Some ==> r.unwrap().spec_path() == path@,
    {
        if contains_null(contents) {
            return None;
        }
        let lines = split_lines(contents);
        let mut patched: Vec<Line> = Vec::new();
        let mut replacements: Vec<Replacement> = Vec::new();
        let ghost all = line_views(lines@);
        let mut i: usize = 0;
        while i < lines.len()
            invariant
                i <= lines.len(),
                all == line_views(lines@),
                all =~= spec_split(contents@),
                line_views(patched@) =~= spec_patched(all.take(i as int), query@),
                repl_views(replacements@) =~= spec_replacements(
                    texts(all.take(i as int)),
                    query@,
                ),
            decreases lines.len() - i,
        {
            let line = &lines[i];
            proof {
                assert(all.take(i as int + 1) =~= all.take(i as int).push(all[i as int]));
                assert(texts(all.take(i as int + 1)) =~= texts(all.take(i as int)).push(
                    all[i as int].text,
                ));
                assert(texts(all.take(i as int + 1)).drop_last() =~= texts(all.take(i as int)));
                assert(texts(all.take(i as int + 1)).last() == line.text@);
                assert(texts(all.take(i as int + 1)).len() == i + 1);
                assert(spec_patched(all.take(i as int + 1), query@) =~= spec_patched(
                    all.take(i as int),
                    query@,
                ).push(patched_line(query@, all[i as int])));
            }
            match query.matches(&line.text) {
                Some(new_text) => {
                    let original = copy_bytes(&line.text);
                    let new_copy = copy_bytes(&new_text);
                    let repl = Replacement {
                        line_number: i + 1,
                        original_line: original,
                        new_line: new_copy,
                    };
                    replacements.push(repl);
                    patched.push(Line { text: new_text, has_newline: line.has_newline });
                    proof {
                        assert(line_views(patched@) =~= line_views(patched@.drop_last()).push(
                            patched_line(query@, all[i as int]),
                        ));
                        assert(repl_views(replacements@) =~= repl_views(
                            replacements@.drop_last(),
                        ).push(
                            ReplV {
                                line_number: i + 1,
                                original_line: all[i as int].text,
                                new_line: q_replaced(query@, all[i as int].text),
                            },
                        ));
                        assert(line_views(patched@) =~= spec_patched(
                            all.take(i as int + 1),
                            query@,
                        ));
                        assert(repl_views(replacements@) =~= spec_replacements(
                            texts(all.take(i as int + 1)),
                            query@,
                        ));
                    }
                },
                None => {
                    let text = copy_bytes(&line.text);
                    patched.push(Line { text, has_newline: line.has_newline });
                    proof {
                        assert(line_views(patched@) =~= line_views(patched@.drop_last()).push(
                            patched_line(query@, all[i as int]),
                        ));
                        assert(line_views(patched@) =~= spec_patched(
                            all.take(i as int + 1),
                            query@,
                        ));
                        assert(repl_views(replacements@) =~= spec_replacements(
                            texts(all.take(i as int + 1)),
                            query@,
                        ));
                    }
                },
            }
            i = i + 1;
        }
        proof {
            assert(all.take(all.len() as int) =~= all);
        }
        Some(
            FilePatcher {
                path: copy_bytes(path),
                patched,
                replacements,
                content: Ghost(contents@),
                query: Ghost(query@),
            },
        )
    }

    /// Read-only view of the ordered replacement list; empty means this
    /// file is a no-op.
    pub fn replacements(&self) -> (r: &Vec<Replacement>)
        requires
            self.wf(),
        ensures
            repl_views(r@) == spec_file_replacements(self.spec_content(), self.spec_query()),
    {
        &self.replacements
    }

    /// Give up the patcher and keep only its ordered replacement list.
    pub fn into_replacements(self) -> (r: Vec<Replacement>)
        requires
            self.wf(),
        ensures
            repl_views(r@) == spec_file_replacements(self.spec_content(), self.spec_query()),
    {
        let FilePatcher { path: _, patched: _, replacements, content: _, query: _ } = self;
        replacements
    }

    /// The path this patcher is for.
    pub fn path(&self) -> (r: &Vec<u8>)
        ensures
            r@ == self.spec_path(),
    {
        &self.path
    }

    /// The file's content with every matching line replaced and every
    /// other byte, terminators included, left as it was.
    pub fn patched_contents(&self) -> (r: Vec<u8>)
        requires
            self.wf(),
        ensures
            r@ == spec_patched_content(self.spec_content(), self.spec_query()),
    {
        let r = join_lines(&self.patched);
        proof {
            assert(line_views(self.patched@) == spec_patched(
                spec_split(self.spec_content()),
                self.spec_query(),
            ));
        }
        r
    }
}

// ---------------------------------------------------------------------------
// Laws of the engine.
// ---------------------------------------------------------------------------

/// How many lines match the query.
pub open spec fn count_matches(lines: Seq<Seq<u8>>, q: QueryV) -> int
    decreases lines.len(),
{
    if lines.len() == 0 {
        0
    } else {
        count_matches(lines.drop_last(), q) + if q_matches(q, lines.last()) {
            1int
        } else {
            0int
        }
    }
}

/// A file with no matching line has an empty replacement list.
pub proof fn lemma_no_match_no_replacements(lines: Seq<Seq<u8>>, q: QueryV)
    requires
        forall|i: int| 0 <= i < lines.len() ==> !q_matches(q, #[trigger] lines[i]),
    ensures
        spec_replacements(lines, q) =~= Seq::<ReplV>::empty(),
    decreases lines.len(),
{
    if lines.len() > 0 {
        assert(forall|i: int|
            0 <= i < lines.drop_last().len() ==> #[trigger] lines.drop_last()[i] == lines[i]);
        lemma_no_match_no_replacements(lines.drop_last(), q);
        assert(lines.last() == lines[lines.len() - 1]);
    }
}

/// A file with no matching line is a no-op: no replacements, and the
/// patched content is byte-identical to the original.
pub proof fn lemma_no_match_file_unchanged(c: Seq<u8>, q: QueryV)
    requires
        forall|i: int|
            0 <= i < spec_split(c).len() ==> !q_matches(q, #[trigger] spec_split(c)[i].text),
    ensures
        spec_file_replacements(c, q).len() == 0,
        spec_patched_content(c, q) == c,
{
    let ls = spec_split(c);
    let ts = texts(ls);
    assert(forall|i: int| 0 <= i < ts.len() ==> !q_matches(q, #[trigger] ts[i]));
    lemma_no_match_no_replacements(ts, q);
    assert(spec_patched(ls, q) =~= ls);
    lemma_join_split_roundtrip(c);
}

/// The replacement list is exactly one entry per matching line: its length
/// is the number of matching lines, each entry records the 1-based position
/// of a matching line together with that line and its replaced form, and
/// line numbers are strictly ascending (hence unique).
pub proof fn lemma_replacements_form(lines: Seq<Seq<u8>>, q: QueryV)
    ensures
        spec_replacements(lines, q).len() == count_matches(lines, q),
        forall|j: int|
            0 <= j < spec_replacements(lines, q).len() ==> {
                let r = #[trigger] spec_replacements(lines, q)[j];
                &&& 1 <= r.line_number <= lines.len()
                &&& q_matches(q, lines[r.line_number - 1])
                &&& r.original_line == lines[r.line_number - 1]
                &&& r.new_line == q_replaced(q, lines[r.line_number - 1])
            },
        forall|j1: int, j2: int|
            0 <= j1 < j2 < spec_replacements(lines, q).len()
                ==> #[trigger] spec_replacements(lines, q)[j1].line_number
                < #[trigger] spec_replacements(lines, q)[j2].line_number,
    decreases lines.len(),
{
    if lines.len() > 0 {
        lemma_replacements_form(lines.drop_last(), q);
        let prefix = spec_replacements(lines.drop_last(), q);
        let rs = spec_replacements(lines, q);
        assert(forall|i: int|
            0 <= i < lines.drop_last().len() ==> #[trigger] lines.drop_last()[i] == lines[i]);
        assert(lines.last() == lines[lines.len() - 1]);
        assert forall|j: int| 0 <= j < rs.len() implies {
            let r = #[trigger] rs[j];
            &&& 1 <= r.line_number <= lines.len()
            &&& q_matches(q, lines[r.line_number - 1])
            &&& r.original_line == lines[r.line_number - 1]
            &&& r.new_line == q_replaced(q, lines[r.line_number - 1])
        } by {
            if j < prefix.len() {
                assert(rs[j] == prefix[j]);
            }
        }
    }
}

/// Idempotence at the line level: a second application of the query to the
/// patched lines yields no replacement, provided none of this file's own
/// replaced lines matches the query again. (A replacement whose text
/// re-creates a match is excluded by the proviso.)
pub proof fn lemma_idempotent_on_patched_lines(lines: Seq<LineV>, q: QueryV)
    requires
        forall|i: int|
            0 <= i < lines.len() ==> (q_matches(q, (#[trigger] lines[i]).text) ==> !q_matches(
                q,
                q_replaced(q, lines[i].text),
            )),
    ensures
        spec_replacements(texts(spec_patched(lines, q)), q) =~= Seq::<ReplV>::empty(),
{
    let pts = texts(spec_patched(lines, q));
    assert forall|i: int| 0 <= i < pts.len() implies !q_matches(q, #[trigger] pts[i]) by {
        let l = lines[i];
        assert(pts[i] == patched_line(q, l).text);
        if q_matches(q, l.text) {
            assert(pts[i] == q_replaced(q, l.text));
        }
    }
    lemma_no_match_no_replacements(pts, q);
}

/// Idempotence over a whole file: running the engine on the patched
/// content of a file finds nothing left to replace, provided none of this
/// file's own replaced lines matches the query again or holds a newline
/// byte. (A replacement whose text re-creates a match, or splits a line
/// in two, is excluded by the provisos.)
pub proof fn lemma_idempotent_on_patched_content(c: Seq<u8>, q: QueryV)
    requires
        forall|i: int|
            0 <= i < spec_split(c).len() ==> (q_matches(
                q,
                (#[trigger] spec_split(c)[i]).text,
            ) ==> !q_matches(q, q_replaced(q, spec_split(c)[i].text))),
        forall|i: int|
            0 <= i < spec_split(c).len() ==> (q_matches(
                q,
                (#[trigger] spec_split(c)[i]).text,
            ) ==> !q_replaced(q, spec_split(c)[i].text).contains(nl())),
    ensures
        spec_file_replacements(spec_patched_content(c, q), q) =~= Seq::<ReplV>::empty(),
{
    let ls = spec_split(c);
    let p = spec_patched(ls, q);
    let out = spec_patched_content(c, q);
    if !is_binary(out) {
        lemma_split_texts_newline_free(c);
        lemma_split_terminators(c);
        assert forall|i: int| 0 <= i < p.len() implies {
            &&& !(#[trigger] p[i]).text.contains(nl())
            &&& p[i].has_newline == ls[i].has_newline
            &&& !q_matches(q, p[i].text)
        } by {
            assert(p[i] == patched_line(q, ls[i]));
            assert(!ls[i].text.contains(nl()));
            if q_matches(q, ls[i].text) {
                assert(p[i].text == q_replaced(q, ls[i].text));
            }
        }
        if p.len() == 0 {
            assert(out =~= Seq::<u8>::empty());
            assert(spec_split(out) =~= Seq::<LineV>::empty());
            assert(texts(spec_split(out)) =~= Seq::<Seq<u8>>::empty());
        } else if p.last().has_newline || p.last().text.len() > 0 {
            assert forall|i: int|
                0 <= i < p.len() - 1 implies (#[trigger] p[i]).has_newline by {
                assert(ls[i].has_newline);
            }
            lemma_split_join_inverse(p);
            assert(spec_split(out) == p);
            assert forall|i: int|
                0 <= i < texts(p).len() implies !q_matches(q, #[trigger] texts(p)[i]) by {
                assert(texts(p)[i] == p[i].text);
            }
            lemma_no_match_no_replacements(texts(p), q);
        } else {
            // The last patched line became empty and carries no
            // terminator: it contributes no byte, so the re-split sees
            // one line fewer.
            let pd = p.drop_last();
            assert(p =~= pd.push(p.last()));
            lemma_join_push(pd, p.last());
            assert(line_bytes(p.last()) =~= Seq::<u8>::empty());
            assert(spec_join(p) =~= spec_join(pd) + Seq::<u8>::empty());
            assert(spec_join(pd) + Seq::<u8>::empty() =~= spec_join(pd));
            assert forall|i: int|
                0 <= i < pd.len() - 1 implies (#[trigger] pd[i]).has_newline by {
                assert(pd[i] == p[i]);
                assert(ls[i].has_newline);
            }
            assert forall|i: int|
                0 <= i < pd.len() implies !(#[trigger] pd[i]).text.contains(nl()) by {
                assert(pd[i] == p[i]);
            }
            if pd.len() > 0 && !pd.last().has_newline {
                assert(pd.last() == p[p.len() - 2]);
                assert(ls[p.len() - 2].has_newline);
                assert(false);
            }
            lemma_split_join_inverse(pd);
            assert(spec_split(out) == pd);
            assert forall|i: int|
                0 <= i < texts(pd).len() implies !q_matches(q, #[trigger] texts(pd)[i]) by {
                assert(texts(pd)[i] == pd[i].text);
                assert(pd[i] == p[i]);
            }
            lemma_no_match_no_replacements(texts(pd), q);
        }
    }
}

/// Binary-content safety: content with a null byte never yields a
/// replacement, so it never triggers a write.
pub proof fn lemma_binary_no_replacements(c: Seq<u8>, q: QueryV)
    requires
        is_binary(c),
    ensures
        spec_file_replacements(c, q) =~= Seq::<ReplV>::empty(),
{
}

} // verus!
