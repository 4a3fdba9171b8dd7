//! The find/replace specification applied uniformly to every eligible file.
//!
//! A query is either a literal substring with its replacement text, or a
//! regular expression with a replacement template. Matching is per line:
//! each line is an isolated matching unit.

use vstd::prelude::*;

use crate::errors::Error;

verus! {

// ---------------------------------------------------------------------------
// Literal substring matching, fully verified.
// ---------------------------------------------------------------------------

/// The pattern occurs in the line starting at position `i`.
pub open spec fn occurs_at(line: Seq<u8>, pat: Seq<u8>, i: int) -> bool {
    0 <= i && i + pat.len() <= line.len() && line.subrange(i, i + pat.len() as int) == pat
}

/// A non-empty literal pattern occurs somewhere in the line. The empty
/// pattern is defined to match nothing: there is no occurrence to replace.
pub open spec fn lit_matches(pat: Seq<u8>, line: Seq<u8>) -> bool {
    pat.len() > 0 && exists|i: int| occurs_at(line, pat, i)
}

/// The line with every non-overlapping occurrence of the pattern replaced,
/// scanning left to right.
pub open spec fn lit_replaced(pat: Seq<u8>, rep: Seq<u8>, line: Seq<u8>) -> Seq<u8>
    decreases line.len(),
{
    if pat.len() == 0 || line.len() < pat.len() {
        line
    } else if line.subrange(0, pat.len() as int) == pat {
        rep + lit_replaced(pat, rep, line.skip(pat.len() as int))
    } else {
        seq![line[0]] + lit_replaced(pat, rep, line.skip(1))
    }
}

/// Does `pat` occur in `line` at position `i`?
fn occurs_at_exec(line: &Vec<u8>, pat: &Vec<u8>, i: usize) -> (r: bool)
    requires
        i <= line.len(),
    ensures
        r == occurs_at(line@, pat@, i as int),
{
    if pat.len() > line.len() - i {
        proof {
            assert(!occurs_at(line@, pat@, i as int));
        }
        return false;
    }
    let mut j: usize = 0;
    while j < pat.len()
        invariant
            j <= pat.len(),
            i + pat.len() <= line.len(),
            forall|k: int| 0 <= k < j ==> line@[i + k] == pat@[k],
        decreases pat.len() - j,
    {
        if line[i + j] != pat[j] {
            proof {
                assert(line@.subrange(i as int, i + pat@.len() as int)[j as int] != pat@[j as int]);
            }
            return false;
        }
        j = j + 1;
    }
    proof {
        assert(line@.subrange(i as int, i + pat@.len() as int) =~= pat@);
    }
    true
}

/// Append all of `src` to `dst`.
fn push_all(dst: &mut Vec<u8>, src: &Vec<u8>)
    ensures
        final(dst)@ =~= old(dst)@ + src@,
{
    let mut j: usize = 0;
    while j < src.len()
        invariant
            j <= src.len(),
            dst@ =~= old(dst)@ + src@.take(j as int),
        decreases src.len() - j,
    {
        dst.push(src[j]);
        j = j + 1;
        proof {
            assert(src@.take(j as int) =~= src@.take(j as int - 1).push(src@[j as int - 1]));
        }
    }
    proof {
        assert(src@.take(src@.len() as int) =~= src@);
    }
}

/// Replace every non-overlapping occurrence of `pat` in `line` by `rep`,
/// or report that the pattern does not occur.
fn lit_replace(pat: &Vec<u8>, rep: &Vec<u8>, line: &Vec<u8>) -> (r: Option<Vec<u8>>)
    ensures
        r is Some <==> lit_matches(pat@, line@),
        r is Some ==> r.unwrap()@ == lit_replaced(pat@, rep@, line@),
{
    if pat.len() == 0 {
        return None;
    }
    let mut out: Vec<u8> = Vec::new();
    let mut matched = false;
    let mut i: usize = 0;
    proof {
        assert(line@.skip(0) =~= line@);
    }
    while i < line.len()
        invariant
            pat@.len() > 0,
            i <= line.len(),
            out@ + lit_replaced(pat@, rep@, line@.skip(i as int)) =~= lit_replaced(
                pat@,
                rep@,
                line@,
            ),
            matched ==> lit_matches(pat@, line@),
            !matched ==> forall|k: int| 0 <= k < i ==> !occurs_at(line@, pat@, k),
        decreases line.len() - i,
    {
        let ghost suffix = line@.skip(i as int);
        if occurs_at_exec(line, pat, i) {
            proof {
                assert(suffix.len() >= pat@.len());
                assert(suffix.subrange(0, pat@.len() as int) =~= line@.subrange(
                    i as int,
                    i + pat@.len() as int,
                ));
                assert(suffix.skip(pat@.len() as int) =~= line@.skip(i + pat@.len() as int));
                assert(lit_replaced(pat@, rep@, suffix) == rep@ + lit_replaced(
                    pat@,
                    rep@,
                    line@.skip(i + pat@.len() as int),
                ));
            }
            push_all(&mut out, rep);
            i = i + pat.len();
            matched = true;
        } else {
            proof {
                if suffix.len() >= pat@.len() {
                    assert(suffix.subrange(0, pat@.len() as int) =~= line@.subrange(
                        i as int,
                        i + pat@.len() as int,
                    ));
                    assert(suffix.subrange(0, pat@.len() as int) != pat@);
                    assert(suffix[0] == line@[i as int]);
                    assert(suffix.skip(1) =~= line@.skip(i as int + 1));
                    assert(lit_replaced(pat@, rep@, suffix) == seq![line@[i as int]]
                        + lit_replaced(pat@, rep@, line@.skip(i as int + 1)));
                } else {
                    assert(lit_replaced(pat@, rep@, suffix) == suffix);
                    assert(line@.skip(i as int + 1).len() < pat@.len());
                    assert(lit_replaced(pat@, rep@, line@.skip(i as int + 1)) == line@.skip(
                        i as int + 1,
                    ));
                    assert(suffix =~= seq![line@[i as int]] + line@.skip(i as int + 1));
                }
            }
            let b = line[i];
            out.push(b);
            i = i + 1;
        }
    }
    proof {
        assert(line@.skip(line@.len() as int) =~= Seq::<u8>::empty());
        assert(lit_replaced(pat@, rep@, Seq::<u8>::empty()) == Seq::<u8>::empty());
        assert(out@ + Seq::<u8>::empty() =~= out@);
        if !matched {
            assert forall|k: int| !occurs_at(line@, pat@, k) by {
                if 0 <= k && k + pat@.len() <= line@.len() {
                    assert(k < line@.len());
                }
            }
        }
    }
    if matched {
        Some(out)
    } else {
        None
    }
}

// ---------------------------------------------------------------------------
// Regular-expression matching, through the regex crate.
// ---------------------------------------------------------------------------

/// The pattern bytes are valid UTF-8 and parse as a regular expression.
pub uninterp spec fn regex_ok(pattern: Seq<u8>) -> bool;

/// The regular expression denoted by `pattern` matches somewhere in `line`.
pub uninterp spec fn regex_line_matches(pattern: Seq<u8>, line: Seq<u8>) -> bool;

/// `line` with every non-overlapping match of the regular expression
/// substituted by the replacement template, capture-group references
/// resolved.
pub uninterp spec fn regex_replaced(pattern: Seq<u8>, replacement: Seq<u8>, line: Seq<u8>) -> Seq<
    u8,
>;

/// Relies on `regex::bytes::Regex`: `new` succeeds exactly on the patterns
/// the crate accepts (valid UTF-8 that parses and compiles as a regular
/// expression), which decides the outer option; `is_match` and
/// `replace_all` are functions of the pattern, the replacement template
/// and the line alone, and `replace_all` resolves `$group` references in
/// the template against the captures of each match.
#[verifier::external_body]
fn regex_line_replace(pattern: &Vec<u8>, rep: &Vec<u8>, line: &Vec<u8>) -> (r: Option<
    Option<Vec<u8>>,
>)
    ensures
        r is Some <==> regex_ok(pattern@),
        match r {
            Some(inner) => {
                &&& inner is Some <==> regex_line_matches(pattern@, line@)
                &&& inner is Some ==> inner.unwrap()@ == regex_replaced(pattern@, rep@, line@)
            },
            None => true,
        },
{
    let pattern_str = core::str::from_utf8(pattern.as_slice()).ok()?;
    let re = regex::bytes::Regex::new(pattern_str).ok()?;
    if re.is_match(line.as_slice()) {
        Some(Some(re.replace_all(line.as_slice(), rep.as_slice()).into_owned()))
    } else {
        Some(None)
    }
}

// ---------------------------------------------------------------------------
// The Query value type.
// ---------------------------------------------------------------------------

/// Mathematical image of a `Query`.
pub ghost enum QueryV {
    /// Replace every occurrence of a literal substring.
    Substring { pattern: Seq<u8>, replacement: Seq<u8> },
    /// Replace every match of a regular expression.
    Pattern { pattern: Seq<u8>, replacement: Seq<u8> },
}

/// Does the query match this line?
pub open spec fn q_matches(q: QueryV, line: Seq<u8>) -> bool {
    match q {
        QueryV::Substring { pattern, .. } => lit_matches(pattern, line),
        QueryV::Pattern { pattern, .. } => regex_ok(pattern) && regex_line_matches(pattern, line),
    }
}

/// The line after the query's replacement, meaningful when the query
/// matches the line.
pub open spec fn q_replaced(q: QueryV, line: Seq<u8>) -> Seq<u8> {
    match q {
        QueryV::Substring { pattern, replacement } => lit_replaced(pattern, replacement, line),
        QueryV::Pattern { pattern, replacement } => regex_replaced(pattern, replacement, line),
    }
}

/// What `Query::matches` returns on a line.
pub open spec fn q_match_result(q: QueryV, line: Seq<u8>) -> Option<Seq<u8>> {
    if q_matches(q, line) {
        Some(q_replaced(q, line))
    } else {
        None
    }
}

/// Immutable find/replace specification: what to find and what to put in
/// its place. Built once, then shared read-only across every file of a run.
#[derive(Debug)]
pub struct Query {
    regex_mode: bool,
    pattern: Vec<u8>,
    replacement: Vec<u8>,
}

impl View for Query {
    type V = QueryV;

    closed spec fn view(&self) -> QueryV {
        if self.regex_mode {
            QueryV::Pattern { pattern: self.pattern@, replacement: self.replacement@ }
        } else {
            QueryV::Substring { pattern: self.pattern@, replacement: self.replacement@ }
        }
    }
}

impl Query {
    /// A literal substring query: every occurrence of `pattern` becomes
    /// `replacement`.
    pub fn substring(pattern: Vec<u8>, replacement: Vec<u8>) -> (r: Query)
        ensures
            r@ == (QueryV::Substring { pattern: pattern@, replacement: replacement@ }),
    {
        Query { regex_mode: false, pattern, replacement }
    }

    /// A regular-expression query: every match of `pattern` becomes
    /// `replacement`, with capture-group references resolved. Fails with
    /// `InvalidPattern` exactly when the pattern does not parse.
    pub fn regex(pattern: Vec<u8>, replacement: Vec<u8>) -> (r: Result<Query, Error>)
        ensures
            r is Ok <==> regex_ok(pattern@),
            r is Ok ==> r.unwrap()@ == (QueryV::Pattern {
                pattern: pattern@,
                replacement: replacement@,
            }),
            r is Err ==> r.unwrap_err() == Error::InvalidPattern,
    {
        // Compiling alone decides the outer option; the probe line is not
        // looked at.
        let probe: Vec<u8> = Vec::new();
        let empty_rep: Vec<u8> = Vec::new();
        match regex_line_replace(&pattern, &empty_rep, &probe) {
            Some(_) => Ok(Query { regex_mode: true, pattern, replacement }),
            None => Err(Error::InvalidPattern),
        }
    }

    /// Apply the query to one line: the replaced line, or `None` when the
    /// query does not match.
    pub fn matches(&self, line: &Vec<u8>) -> (r: Option<Vec<u8>>)
        ensures
            r is Some <==> q_matches(self@, line@),
            r is Some ==> r.unwrap()@ == q_replaced(self@, line@),
    {
        if self.regex_mode {
            match regex_line_replace(&self.pattern, &self.replacement, line) {
                Some(inner) => inner,
                None => None,
            }
        } else {
            lit_replace(&self.pattern, &self.replacement, line)
        }
    }
}

} // verus!
