//! Splitting file content into lines and joining it back.
//!
//! A file is a byte sequence; a line is the text between newline bytes,
//! with the terminator kept beside it so that joining the lines gives the
//! original content back byte for byte.

use vstd::prelude::*;

verus! {

/// The newline byte, `\n`.
pub open spec fn nl() -> u8 {
    10u8
}

/// One line of a file: its text without the terminator, and whether a
/// newline byte followed it in the original content. A carriage return
/// before the newline stays part of the text, so write-back never alters
/// terminators.
#[derive(Clone, Debug, PartialEq, Eq)]
pub struct Line {
    pub text: Vec<u8>,
    pub has_newline: bool,
}

/// Mathematical image of a `Line`.
pub ghost struct LineV {
    pub text: Seq<u8>,
    pub has_newline: bool,
}

impl View for Line {
    type V = LineV;

    open spec fn view(&self) -> LineV {
        LineV { text: self.text@, has_newline: self.has_newline }
    }
}

/// The views of a sequence of lines.
pub open spec fn line_views(lines: Seq<Line>) -> Seq<LineV> {
    lines.map_values(|l: Line| l@)
}

/// The bytes a single line contributes to the file.
pub open spec fn line_bytes(l: LineV) -> Seq<u8> {
    if l.has_newline {
        l.text.push(nl())
    } else {
        l.text
    }
}

/// The whole file a sequence of lines denotes.
pub open spec fn spec_join(lines: Seq<LineV>) -> Seq<u8>
    decreases lines.len(),
{
    if lines.len() == 0 {
        Seq::empty()
    } else {
        line_bytes(lines[0]) + spec_join(lines.skip(1))
    }
}

/// How a file's bytes fall into lines: a newline byte ends a line, and
/// trailing bytes without a final newline form a last line of their own.
pub open spec fn spec_split(c: Seq<u8>) -> Seq<LineV>
    decreases c.len(),
{
    if c.len() == 0 {
        Seq::empty()
    } else if c[0] == nl() {
        seq![LineV { text: Seq::empty(), has_newline: true }] + spec_split(c.skip(1))
    } else {
        let rest = spec_split(c.skip(1));
        if rest.len() == 0 {
            seq![LineV { text: seq![c[0]], has_newline: false }]
        } else {
            seq![LineV { text: seq![c[0]] + rest[0].text, has_newline: rest[0].has_newline }]
                + rest.skip(1)
        }
    }
}

/// Joining the split lines of a file gives the file back unchanged: the
/// decomposition loses no byte and alters no terminator.
pub proof fn lemma_join_split_roundtrip(c: Seq<u8>)
    ensures
        spec_join(spec_split(c)) =~= c,
    decreases c.len(),
{
    if c.len() == 0 {
    } else if c[0] == nl() {
        lemma_join_split_roundtrip(c.skip(1));
        let s = spec_split(c);
        assert(s.skip(1) =~= spec_split(c.skip(1)));
        assert(s[0] == LineV { text: Seq::<u8>::empty(), has_newline: true });
        assert(line_bytes(s[0]) =~= seq![nl()]);
        assert(spec_join(s) =~= seq![nl()] + spec_join(spec_split(c.skip(1))));
        assert(seq![nl()] + c.skip(1) =~= c);
    } else {
        lemma_join_split_roundtrip(c.skip(1));
        let rest = spec_split(c.skip(1));
        if rest.len() == 0 {
            assert(c.skip(1) =~= Seq::empty());
            let s = spec_split(c);
            assert(s =~= seq![LineV { text: seq![c[0]], has_newline: false }]);
            assert(s.skip(1) =~= Seq::<LineV>::empty());
            assert(spec_join(s) =~= seq![c[0]] + Seq::<u8>::empty());
            assert(seq![c[0]] + Seq::<u8>::empty() =~= c);
        } else {
            let s = spec_split(c);
            assert(s.skip(1) =~= rest.skip(1));
            assert(line_bytes(s[0]) =~= seq![c[0]] + line_bytes(rest[0]));
            assert(spec_join(rest) =~= line_bytes(rest[0]) + spec_join(rest.skip(1)));
            assert(line_bytes(s[0]) + spec_join(s.skip(1)) =~= seq![c[0]] + (line_bytes(rest[0])
                + spec_join(rest.skip(1))));
            assert(spec_join(s) =~= seq![c[0]] + spec_join(rest));
            assert(seq![c[0]] + c.skip(1) =~= c);
        }
    }
}

/// No line text produced by `spec_split` contains a newline byte.
pub proof fn lemma_split_texts_newline_free(c: Seq<u8>)
    ensures
        forall|i: int|
            0 <= i < spec_split(c).len() ==> !spec_split(c)[i].text.contains(nl()),
    decreases c.len(),
{
    if c.len() == 0 {
    } else {
        lemma_split_texts_newline_free(c.skip(1));
        let rest = spec_split(c.skip(1));
        if c[0] == nl() {
            assert forall|i: int| 0 <= i < spec_split(c).len() implies !spec_split(
                c,
            )[i].text.contains(nl()) by {
                if i > 0 {
                    assert(spec_split(c)[i] == rest[i - 1]);
                }
            }
        } else if rest.len() == 0 {
            assert forall|i: int| 0 <= i < spec_split(c).len() implies !spec_split(
                c,
            )[i].text.contains(nl()) by {
                assert(spec_split(c)[0].text =~= seq![c[0]]);
            }
        } else {
            assert(!rest[0].text.contains(nl()));
            assert forall|i: int| 0 <= i < spec_split(c).len() implies !spec_split(
                c,
            )[i].text.contains(nl()) by {
                if i == 0 {
                    let t = spec_split(c)[0].text;
                    assert(t =~= seq![c[0]] + rest[0].text);
                    assert forall|j: int| 0 <= j < t.len() implies t[j] != nl() by {
                        if j > 0 {
                            assert(rest[0].text[j - 1] != nl());
                        }
                    }
                } else {
                    assert(spec_split(c)[i] == rest[i]);
                }
            }
        }
    }
}

/// Every line of `spec_split` except the last carries a newline
/// terminator.
pub proof fn lemma_split_terminators(c: Seq<u8>)
    ensures
        forall|i: int|
            0 <= i < spec_split(c).len() - 1 ==> (#[trigger] spec_split(c)[i]).has_newline,
    decreases c.len(),
{
    if c.len() == 0 {
    } else {
        lemma_split_terminators(c.skip(1));
        let s = spec_split(c);
        let rest = spec_split(c.skip(1));
        if c[0] == nl() {
            assert forall|i: int| 0 <= i < s.len() - 1 implies (#[trigger] s[i]).has_newline by {
                if i > 0 {
                    assert(s[i] == rest[i - 1]);
                }
            }
        } else if rest.len() == 0 {
        } else {
            assert forall|i: int| 0 <= i < s.len() - 1 implies (#[trigger] s[i]).has_newline by {
                if i == 0 {
                    assert(s.len() == rest.len());
                    assert(s[0].has_newline == rest[0].has_newline);
                } else {
                    assert(s[i] == rest[i]);
                }
            }
        }
    }
}

/// Appending one line to a join appends that line's bytes.
pub proof fn lemma_join_push(lines: Seq<LineV>, x: LineV)
    ensures
        spec_join(lines.push(x)) =~= spec_join(lines) + line_bytes(x),
    decreases lines.len(),
{
    if lines.len() == 0 {
        assert(lines.push(x) =~= seq![x]);
        assert(lines.push(x)[0] == x);
        assert(lines.push(x).skip(1) =~= Seq::<LineV>::empty());
        assert(spec_join(lines.push(x).skip(1)) =~= Seq::<u8>::empty());
        assert(spec_join(lines.push(x)) =~= line_bytes(x) + Seq::<u8>::empty());
        assert(Seq::<u8>::empty() + line_bytes(x) =~= line_bytes(x));
        assert(line_bytes(x) + Seq::<u8>::empty() =~= line_bytes(x));
    } else {
        lemma_join_push(lines.skip(1), x);
        assert(lines.push(x)[0] == lines[0]);
        assert(lines.push(x).skip(1) =~= lines.skip(1).push(x));
        assert(spec_join(lines.push(x)) =~= line_bytes(lines[0]) + (spec_join(lines.skip(1))
            + line_bytes(x)));
        assert(line_bytes(lines[0]) + (spec_join(lines.skip(1)) + line_bytes(x)) =~= (line_bytes(
            lines[0],
        ) + spec_join(lines.skip(1))) + line_bytes(x));
    }
}

/// Splitting a newline-free text followed by a newline and further bytes
/// yields that text as a terminated first line, then the split of the
/// rest.
proof fn lemma_split_prefix_line(t: Seq<u8>, b: Seq<u8>)
    requires
        !t.contains(nl()),
    ensures
        spec_split(t + seq![nl()] + b) =~= seq![LineV { text: t, has_newline: true }]
            + spec_split(b),
    decreases t.len(),
{
    let s = t + seq![nl()] + b;
    if t.len() == 0 {
        assert(s[0] == nl());
        assert(s.skip(1) =~= b);
        assert(t =~= Seq::<u8>::empty());
    } else {
        assert(s[0] == t[0]);
        assert(t[0] != nl());
        assert(s.skip(1) =~= t.skip(1) + seq![nl()] + b);
        assert(!t.skip(1).contains(nl())) by {
            if t.skip(1).contains(nl()) {
                let i = choose|i: int| 0 <= i < t.skip(1).len() && t.skip(1)[i] == nl();
                assert(t[i + 1] == nl());
            }
        }
        lemma_split_prefix_line(t.skip(1), b);
        let rest = spec_split(s.skip(1));
        assert(rest.len() > 0);
        assert(rest[0] == LineV { text: t.skip(1), has_newline: true });
        assert(spec_split(s) =~= seq![
            LineV { text: seq![t[0]] + t.skip(1), has_newline: true },
        ] + rest.skip(1));
        assert(seq![t[0]] + t.skip(1) =~= t);
        assert(rest.skip(1) =~= spec_split(b));
    }
}

/// Splitting a non-empty newline-free text yields that one unterminated
/// line.
proof fn lemma_split_lone_line(t: Seq<u8>)
    requires
        t.len() > 0,
        !t.contains(nl()),
    ensures
        spec_split(t) =~= seq![LineV { text: t, has_newline: false }],
    decreases t.len(),
{
    assert(t[0] != nl());
    if t.len() == 1 {
        assert(t.skip(1) =~= Seq::<u8>::empty());
        assert(spec_split(t.skip(1)) =~= Seq::<LineV>::empty());
        assert(spec_split(t) =~= seq![LineV { text: seq![t[0]], has_newline: false }]);
        assert(seq![t[0]] =~= t);
    } else {
        assert(!t.skip(1).contains(nl())) by {
            if t.skip(1).contains(nl()) {
                let i = choose|i: int| 0 <= i < t.skip(1).len() && t.skip(1)[i] == nl();
                assert(t[i + 1] == nl());
            }
        }
        lemma_split_lone_line(t.skip(1));
        let rest = spec_split(t.skip(1));
        assert(rest[0] == LineV { text: t.skip(1), has_newline: false });
        assert(spec_split(t) =~= seq![
            LineV { text: seq![t[0]] + t.skip(1), has_newline: false },
        ] + rest.skip(1));
        assert(seq![t[0]] + t.skip(1) =~= t);
        assert(rest.skip(1) =~= Seq::<LineV>::empty());
    }
}

/// Splitting the joined bytes of well-formed lines gives the lines back:
/// texts hold no newline byte, every line but the last is terminated, and
/// a last unterminated line is non-empty.
pub proof fn lemma_split_join_inverse(lines: Seq<LineV>)
    requires
        forall|i: int|
            0 <= i < lines.len() ==> !(#[trigger] lines[i]).text.contains(nl()),
        forall|i: int| 0 <= i < lines.len() - 1 ==> (#[trigger] lines[i]).has_newline,
        lines.len() > 0 && !lines.last().has_newline ==> lines.last().text.len() > 0,
    ensures
        spec_split(spec_join(lines)) =~= lines,
    decreases lines.len(),
{
    if lines.len() == 0 {
    } else {
        let l0 = lines[0];
        if l0.has_newline {
            assert forall|i: int|
                0 <= i < lines.skip(1).len() implies !(#[trigger] lines.skip(
                1,
            )[i]).text.contains(nl()) by {
                assert(lines.skip(1)[i] == lines[i + 1]);
            }
            assert forall|i: int|
                0 <= i < lines.skip(1).len() - 1 implies (#[trigger] lines.skip(
                1,
            )[i]).has_newline by {
                assert(lines.skip(1)[i] == lines[i + 1]);
            }
            if lines.skip(1).len() > 0 {
                assert(lines.skip(1).last() == lines.last());
            }
            lemma_split_join_inverse(lines.skip(1));
            assert(line_bytes(l0) =~= l0.text + seq![nl()]);
            assert(spec_join(lines) =~= l0.text + seq![nl()] + spec_join(lines.skip(1)));
            lemma_split_prefix_line(l0.text, spec_join(lines.skip(1)));
            assert(spec_split(spec_join(lines)) =~= seq![
                LineV { text: l0.text, has_newline: true },
            ] + lines.skip(1));
            assert(LineV { text: l0.text, has_newline: true } == l0);
        } else {
            assert(lines.len() == 1);
            assert(lines.last() == l0);
            assert(l0.text.len() > 0);
            assert(spec_join(lines) =~= l0.text + spec_join(lines.skip(1)));
            assert(lines.skip(1) =~= Seq::<LineV>::empty());
            assert(spec_join(lines) =~= l0.text);
            lemma_split_lone_line(l0.text);
            assert(spec_split(spec_join(lines)) =~= seq![l0]);
            assert(lines =~= seq![l0]);
        }
    }
}

/// What a partly consumed split looks like: the text gathered so far,
/// prefixed to the split of the remaining bytes.
pub open spec fn split_state(cur: Seq<u8>, rest: Seq<LineV>) -> Seq<LineV> {
    if rest.len() == 0 {
        if cur.len() == 0 {
            Seq::empty()
        } else {
            seq![LineV { text: cur, has_newline: false }]
        }
    } else {
        seq![LineV { text: cur + rest[0].text, has_newline: rest[0].has_newline }] + rest.skip(1)
    }
}

proof fn lemma_split_state_newline(c: Seq<u8>, i: int, cur: Seq<u8>)
    requires
        0 <= i < c.len(),
        c[i] == nl(),
    ensures
        split_state(cur, spec_split(c.skip(i))) =~= seq![
            LineV { text: cur, has_newline: true },
        ] + split_state(Seq::empty(), spec_split(c.skip(i + 1))),
{
    assert(c.skip(i)[0] == nl());
    assert(c.skip(i).skip(1) =~= c.skip(i + 1));
    let rest = spec_split(c.skip(i + 1));
    assert(spec_split(c.skip(i)) =~= seq![LineV { text: Seq::empty(), has_newline: true }] + rest);
    if rest.len() == 0 {
        assert(split_state(cur, spec_split(c.skip(i))) =~= seq![
            LineV { text: cur + Seq::<u8>::empty(), has_newline: true },
        ]);
        assert(cur + Seq::<u8>::empty() =~= cur);
    } else {
        assert(spec_split(c.skip(i))[0] == LineV { text: Seq::<u8>::empty(), has_newline: true });
        assert(split_state(Seq::empty(), rest) =~= seq![
            LineV { text: Seq::<u8>::empty() + rest[0].text, has_newline: rest[0].has_newline },
        ] + rest.skip(1));
        assert(Seq::<u8>::empty() + rest[0].text =~= rest[0].text);
        assert(split_state(Seq::empty(), rest) =~= rest);
        assert(spec_split(c.skip(i)).skip(1) =~= rest);
        assert(cur + Seq::<u8>::empty() =~= cur);
    }
}

proof fn lemma_split_state_plain(c: Seq<u8>, i: int, cur: Seq<u8>)
    requires
        0 <= i < c.len(),
        c[i] != nl(),
    ensures
        split_state(cur, spec_split(c.skip(i))) =~= split_state(
            cur.push(c[i]),
            spec_split(c.skip(i + 1)),
        ),
{
    assert(c.skip(i)[0] == c[i]);
    assert(c.skip(i).skip(1) =~= c.skip(i + 1));
    let rest = spec_split(c.skip(i + 1));
    if rest.len() == 0 {
        assert(spec_split(c.skip(i)) =~= seq![LineV { text: seq![c[i]], has_newline: false }]);
        assert(cur + seq![c[i]] =~= cur.push(c[i]));
    } else {
        assert(spec_split(c.skip(i)) =~= seq![
            LineV { text: seq![c[i]] + rest[0].text, has_newline: rest[0].has_newline },
        ] + rest.skip(1));
        assert(cur + (seq![c[i]] + rest[0].text) =~= cur.push(c[i]) + rest[0].text);
        assert(spec_split(c.skip(i)).skip(1) =~= rest.skip(1));
    }
}

/// Copy a byte vector.
pub fn copy_bytes(v: &Vec<u8>) -> (r: Vec<u8>)
    ensures
        r@ =~= v@,
{
    let mut out: Vec<u8> = Vec::new();
    let mut i: usize = 0;
    while i < v.len()
        invariant
            i <= v.len(),
            out@ =~= v@.take(i as int),
        decreases v.len() - i,
    {
        out.push(v[i]);
        i = i + 1;
        proof {
            assert(v@.take(i as int) =~= v@.take(i as int - 1).push(v@[i as int - 1]));
        }
    }
    proof {
        assert(v@.take(v@.len() as int) =~= v@);
    }
    out
}

/// Split file content into its lines. The result is exactly `spec_split`
/// of the content.
pub fn split_lines(content: &Vec<u8>) -> (r: Vec<Line>)
    ensures
        line_views(r@) =~= spec_split(content@),
{
    let mut out: Vec<Line> = Vec::new();
    let mut cur: Vec<u8> = Vec::new();
    let mut i: usize = 0;
    proof {
        assert(content@.skip(0) =~= content@);
    }
    while i < content.len()
        invariant
            i <= content.len(),
            line_views(out@) + split_state(cur@, spec_split(content@.skip(i as int)))
                =~= spec_split(content@),
        decreases content.len() - i,
    {
        let b = content[i];
        if b == 10u8 {
            proof {
                lemma_split_state_newline(content@, i as int, cur@);
            }
            let done = Line { text: cur, has_newline: true };
            out.push(done);
            cur = Vec::new();
            proof {
                assert(line_views(out@) =~= line_views(out@.drop_last()).push(
                    LineV { text: out@.last().text@, has_newline: true },
                ));
            }
        } else {
            proof {
                lemma_split_state_plain(content@, i as int, cur@);
            }
            cur.push(b);
        }
        i = i + 1;
    }
    proof {
        assert(content@.skip(content@.len() as int) =~= Seq::<u8>::empty());
    }
    if cur.len() > 0 {
        let done = Line { text: cur, has_newline: false };
        out.push(done);
        proof {
            assert(line_views(out@) =~= line_views(out@.drop_last()).push(
                LineV { text: out@.last().text@, has_newline: false },
            ));
        }
    }
    out
}

/// Join lines back into file content. The result is exactly `spec_join`
/// of the lines' views.
pub fn join_lines(lines: &Vec<Line>) -> (r: Vec<u8>)
    ensures
        r@ =~= spec_join(line_views(lines@)),
{
    let mut out: Vec<u8> = Vec::new();
    let mut i: usize = 0;
    while i < lines.len()
        invariant
            i <= lines.len(),
            out@ =~= spec_join(line_views(lines@).take(i as int)),
        decreases lines.len() - i,
    {
        let line = &lines[i];
        let ghost done = out@;
        let mut j: usize = 0;
        while j < line.text.len()
            invariant
                j <= line.text.len(),
                out@ =~= done + line.text@.take(j as int),
            decreases line.text.len() - j,
        {
            out.push(line.text[j]);
            j = j + 1;
            proof {
                assert(line.text@.take(j as int) =~= line.text@.take(j as int - 1).push(
                    line.text@[j as int - 1],
                ));
            }
        }
        proof {
            assert(line.text@.take(line.text@.len() as int) =~= line.text@);
        }
        if line.has_newline {
            out.push(10u8);
        }
        proof {
            assert(out@ =~= done + line_bytes(lines@[i as int]@));
        }
        i = i + 1;
        proof {
            lemma_join_take_step(line_views(lines@), i as int);
            assert(line_views(lines@)[i - 1] == lines@[i - 1]@);
        }
    }
    proof {
        assert(line_views(lines@).take(lines@.len() as int) =~= line_views(lines@));
    }
    out
}

proof fn lemma_join_take_step(vs: Seq<LineV>, i: int)
    requires
        0 < i <= vs.len(),
    ensures
        spec_join(vs.take(i)) =~= spec_join(vs.take(i - 1)) + line_bytes(vs[i - 1]),
    decreases i,
{
    if i == 1 {
        assert(vs.take(1) =~= seq![vs[0]]);
        assert(vs.take(1).skip(1) =~= Seq::<LineV>::empty());
        assert(vs.take(0) =~= Seq::<LineV>::empty());
        assert(vs.take(1)[0] == vs[0]);
        assert(spec_join(vs.take(1).skip(1)) =~= Seq::<u8>::empty());
        assert(spec_join(vs.take(1)) =~= line_bytes(vs.take(1)[0]) + spec_join(vs.take(1).skip(1)));
        assert(spec_join(vs.take(1)) =~= line_bytes(vs[0]) + Seq::<u8>::empty());
        assert(line_bytes(vs[0]) + Seq::<u8>::empty() =~= line_bytes(vs[0]));
        assert(Seq::<u8>::empty() + line_bytes(vs[0]) =~= line_bytes(vs[0]));
    } else {
        lemma_join_take_step(vs.skip(1), i - 1);
        assert(vs.take(i)[0] == vs[0]);
        assert(vs.take(i).skip(1) =~= vs.skip(1).take(i - 1));
        assert(vs.take(i - 1)[0] == vs[0]);
        assert(vs.take(i - 1).skip(1) =~= vs.skip(1).take(i - 2));
        assert(vs.skip(1)[i - 2] == vs[i - 1]);
        assert(spec_join(vs.take(i)) =~= line_bytes(vs[0]) + spec_join(vs.skip(1).take(i - 1)));
        assert(spec_join(vs.take(i - 1)) =~= line_bytes(vs[0]) + spec_join(vs.skip(1).take(i - 2)));
        assert(line_bytes(vs[0]) + (spec_join(vs.skip(1).take(i - 2)) + line_bytes(vs[i - 1]))
            =~= (line_bytes(vs[0]) + spec_join(vs.skip(1).take(i - 2))) + line_bytes(vs[i - 1]));
    }
}

} // verus!
