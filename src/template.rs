//! Extraction templates: `||`-separated pieces, each a literal or a field path,
//! rendered against a structured model answer.

use vstd::prelude::*;
use vstd::string::*;
use crate::json::{resolve, Json};

verus! {

/// Position of the first `||` in `s`, or the length of `s` if there is none.
pub open spec fn first_bars(s: Seq<char>) -> nat
    decreases s.len(),
{
    if s.len() < 2 {
        s.len()
    } else if s[0] == '|' && s[1] == '|' {
        0
    } else {
        1 + first_bars(s.drop_first())
    }
}

/// `s` split at every `||`, scanning from the left.
pub open spec fn pieces(s: Seq<char>) -> Seq<Seq<char>>
    decreases s.len(),
    via pieces_decreases
{
    let k = first_bars(s);
    if k >= s.len() {
        seq![s]
    } else {
        seq![s.subrange(0, k as int)] + pieces(s.subrange(k as int + 2, s.len() as int))
    }
}

#[via_fn]
proof fn pieces_decreases(s: Seq<char>) {
    lemma_first_bars_bound(s);
}

pub proof fn lemma_first_bars_bound(s: Seq<char>)
    ensures
        first_bars(s) <= s.len(),
        first_bars(s) < s.len() ==> first_bars(s) + 2 <= s.len() && s[first_bars(s) as int]
            == '|' && s[first_bars(s) as int + 1] == '|',
    decreases s.len(),
{
    if s.len() >= 2 && !(s[0] == '|' && s[1] == '|') {
        let t = s.drop_first();
        lemma_first_bars_bound(t);
        if first_bars(s) < s.len() {
            assert(s[first_bars(s) as int] == t[first_bars(t) as int]);
            assert(s[first_bars(s) as int + 1] == t[first_bars(t) as int + 1]);
        }
    }
}

proof fn lemma_first_bars(s: Seq<char>, j: int)
    requires
        0 <= j <= s.len(),
        forall|k: int| 0 <= k < j && k + 1 < s.len() ==> !(#[trigger] s[k] == '|' && s[k + 1] == '|'),
        j + 1 >= s.len() || (s[j] == '|' && s[j + 1] == '|'),
    ensures
        first_bars(s) == (if j + 1 < s.len() {
            j
        } else {
            s.len() as int
        }),
    decreases j,
{
    if j > 0 && s.len() >= 2 {
        let t = s.drop_first();
        assert forall|k: int| 0 <= k < j - 1 && k + 1 < t.len() implies !(#[trigger] t[k] == '|' && t[k + 1] == '|') by {
            assert(t[k] == s[k + 1] && t[k + 1] == s[k + 2]);
        }
        if j + 1 < s.len() {
            assert(t[j - 1] == s[j] && t[j] == s[j + 1]);
        }
        assert(!(s[0] == '|' && s[1] == '|'));
        lemma_first_bars(t, j - 1);
    }
}

/// Index of the first `||` in `s` at or after `from`, or the length of `s`.
fn find_bars(s: &str, from: usize) -> (r: usize)
    requires
        from <= s@.len(),
    ensures
        r == from + first_bars(s@.subrange(from as int, s@.len() as int)),
{
    let n = s.unicode_len();
    let mut i: usize = from;
    while n - i > 1 && !(s.get_char(i) == '|' && s.get_char(i + 1) == '|')
        invariant
            from <= i <= n,
            n == s@.len(),
            forall|k: int| from <= k < i && k + 1 < n ==> !(#[trigger] s@[k] == '|' && s@[k + 1] == '|'),
        decreases n - i,
    {
        i = i + 1;
    }
    proof {
        let t = s@.subrange(from as int, n as int);
        assert forall|k: int| 0 <= k < i - from && k + 1 < t.len() implies !(#[trigger] t[k] == '|' && t[k + 1] == '|') by {
            assert(t[k] == s@[k + from] && t[k + 1] == s@[k + 1 + from]);
        }
        if i + 1 < n {
            assert(t[i - from] == s@[i as int] && t[i - from + 1] == s@[i + 1]);
        }
        lemma_first_bars(t, i - from);
    }
    if n - i > 1 {
        i
    } else {
        n
    }
}

/// A piece that names a field of the answer: it starts with `/`.
pub open spec fn is_path(p: Seq<char>) -> bool {
    p.len() > 0 && p[0] == '/'
}

/// What one piece contributes: the string found at its path, or the piece itself.
pub open spec fn piece_out(doc: Json, piece: Seq<char>) -> Seq<char> {
    if is_path(piece) {
        match resolve(doc, piece) {
            Some(Json::Str(v)) => v@,
            _ => piece,
        }
    } else {
        piece
    }
}

/// The pieces' contributions, concatenated in order.
pub open spec fn fill(doc: Json, ps: Seq<Seq<char>>) -> Seq<char>
    decreases ps.len(),
{
    if ps.len() == 0 {
        seq![]
    } else {
        fill(doc, ps.drop_last()) + piece_out(doc, ps.last())
    }
}

/// One parsed piece of an extraction template.
#[derive(Debug)]
pub enum Segment {
    Literal(String),
    Field(String),
}

pub open spec fn segment_text(g: Segment) -> Seq<char> {
    match g {
        Segment::Literal(t) => t@,
        Segment::Field(p) => p@,
    }
}

/// A parsed extraction template: its pieces in order.
#[derive(Debug)]
pub struct FieldTemplate {
    pub segments: Vec<Segment>,
}

impl FieldTemplate {
    pub open spec fn texts(&self) -> Seq<Seq<char>> {
        self.segments@.map_values(|g: Segment| segment_text(g))
    }

    /// A segment is a field exactly when its text is a path.
    pub open spec fn wf(&self) -> bool {
        forall|i: int|
            0 <= i < self.segments@.len() ==> (#[trigger] self.segments@[i] is Field <==> is_path(
                segment_text(self.segments@[i]),
            ))
    }

    /// Splits `template` at every `||` into literal and field segments.
    pub fn parse(template: &str) -> (r: FieldTemplate)
        ensures
            r.wf(),
            r.texts() == pieces(template@),
    {
        let n = template.unicode_len();
        let mut segments: Vec<Segment> = Vec::new();
        let mut pos: usize = 0;
        assert(template@.subrange(0, n as int) =~= template@);
        loop
            invariant
                pos <= n,
                n == template@.len(),
                pieces(template@) == segments@.map_values(|g: Segment| segment_text(g)) + pieces(
                    template@.subrange(pos as int, n as int),
                ),
                forall|i: int|
                    0 <= i < segments@.len() ==> (#[trigger] segments@[i] is Field <==> is_path(
                        segment_text(segments@[i]),
                    )),
            decreases n - pos,
        {
            let k = find_bars(template, pos);
            let ghost rest = template@.subrange(pos as int, n as int);
            proof {
                lemma_first_bars_bound(rest);
            }
            let piece = template.substring_char(pos, k);
            let text = String::from_str(piece);
            let ghost before = segments@;
            if k > pos && template.get_char(pos) == '/' {
                segments.push(Segment::Field(text));
            } else {
                segments.push(Segment::Literal(text));
            }
            proof {
                assert(piece@ =~= rest.subrange(0, k - pos));
                assert(segments@.map_values(|g: Segment| segment_text(g)) =~= before.map_values(
                    |g: Segment| segment_text(g),
                ).push(piece@));
                assert forall|i: int| 0 <= i < segments@.len() implies (
                #[trigger] segments@[i] is Field <==> is_path(segment_text(segments@[i]))) by {
                    if i < before.len() {
                        assert(segments@[i] == before[i]);
                    } else if k > pos {
                        assert(piece@[0] == template@[pos as int]);
                    }
                }
            }
            if k >= n {
                proof {
                    assert(rest.subrange(0, k - pos) =~= rest);
                    assert(pieces(rest) == seq![rest]);
                    assert(pieces(template@) =~= segments@.map_values(
                        |g: Segment| segment_text(g),
                    ));
                }
                return FieldTemplate { segments };
            }
            proof {
                assert(rest.subrange(k - pos + 2, rest.len() as int) =~= template@.subrange(
                    k + 2,
                    n as int,
                ));
                assert(pieces(rest) == seq![piece@] + pieces(template@.subrange(k + 2, n as int)));
                assert(before.map_values(|g: Segment| segment_text(g)) + (seq![piece@] + pieces(
                    template@.subrange(k + 2, n as int),
                )) =~= segments@.map_values(|g: Segment| segment_text(g)) + pieces(
                    template@.subrange(k + 2, n as int),
                ));
            }
            pos = k + 2;
        }
    }

    /// Renders the template against `doc`: a field segment becomes the string
    /// at its path when there is one and stays as written otherwise; a literal
    /// segment passes through.
    pub fn render(&self, doc: &Json) -> (r: String)
        requires
            self.wf(),
        ensures
            r@ == fill(*doc, self.texts()),
    {
        let mut out = String::new();
        let mut i: usize = 0;
        assert(self.texts().subrange(0, 0) =~= Seq::<Seq<char>>::empty());
        while i < self.segments.len()
            invariant
                self.wf(),
                i <= self.segments@.len(),
                out@ == fill(*doc, self.texts().subrange(0, i as int)),
            decreases self.segments@.len() - i,
        {
            let g = &self.segments[i];
            assert(self.segments@[i as int] is Field <==> is_path(segment_text(self.segments@[i as int])));
            match g {
                Segment::Literal(t) => {
                    out.append(t.as_str());
                },
                Segment::Field(p) => {
                    match doc.pointer(p.as_str()) {
                        Some(v) => match v.as_str() {
                            Some(s) => out.append(s),
                            None => out.append(p.as_str()),
                        },
                        None => out.append(p.as_str()),
                    }
                },
            }
            proof {
                let ts = self.texts().subrange(0, i + 1);
                assert(ts.drop_last() =~= self.texts().subrange(0, i as int));
                assert(ts.last() == segment_text(self.segments@[i as int]));
            }
            i = i + 1;
        }
        assert(self.texts().subrange(0, i as int) =~= self.texts());
        out
    }
}

/// Renders `template` against `doc` (see `FieldTemplate::render`).
pub fn fill_template(doc: &Json, template: &str) -> (r: String)
    ensures
        r@ == fill(*doc, pieces(template@)),
{
    let t = FieldTemplate::parse(template);
    t.render(doc)
}

} // verus!
