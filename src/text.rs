//! Character-level text helpers: whitespace trimming and line/delimiter scans.

use vstd::prelude::*;
use vstd::string::*;

verus! {

/// Unicode `White_Space` characters.
pub open spec fn is_space(c: char) -> bool {
    let u = c as u32;
    (0x9 <= u && u <= 0xd) || u == 0x20 || u == 0x85 || u == 0xa0 || u == 0x1680
        || (0x2000 <= u && u <= 0x200a) || u == 0x2028 || u == 0x2029 || u == 0x202f
        || u == 0x205f || u == 0x3000
}

/// `s` without its leading whitespace.
pub open spec fn trim_start(s: Seq<char>) -> Seq<char>
    decreases s.len(),
{
    if s.len() > 0 && is_space(s[0]) {
        trim_start(s.drop_first())
    } else {
        s
    }
}

/// `s` without its trailing whitespace.
pub open spec fn trim_end(s: Seq<char>) -> Seq<char>
    decreases s.len(),
{
    if s.len() > 0 && is_space(s.last()) {
        trim_end(s.drop_last())
    } else {
        s
    }
}

/// `s` without surrounding whitespace.
pub open spec fn trim(s: Seq<char>) -> Seq<char> {
    trim_end(trim_start(s))
}

/// Number of characters of `s` before the first occurrence of `c` (all of them if none).
pub open spec fn run_before(s: Seq<char>, c: char) -> nat
    decreases s.len(),
{
    if s.len() == 0 || s[0] == c {
        0
    } else {
        1 + run_before(s.drop_first(), c)
    }
}

/// The first line of `s`, without its line terminator.
pub open spec fn first_line(s: Seq<char>) -> Seq<char> {
    s.subrange(0, run_before(s, '\n') as int)
}

pub fn is_space_char(c: char) -> (r: bool)
    ensures
        r == is_space(c),
{
    let u = c as u32;
    (0x9 <= u && u <= 0xd) || u == 0x20 || u == 0x85 || u == 0xa0 || u == 0x1680 || (0x2000
        <= u && u <= 0x200a) || u == 0x2028 || u == 0x2029 || u == 0x202f || u == 0x205f || u
        == 0x3000
}

proof fn lemma_trim_start_from(s: Seq<char>, i: int)
    requires
        0 <= i <= s.len(),
        forall|k: int| 0 <= k < i ==> is_space(#[trigger] s[k]),
    ensures
        trim_start(s) == trim_start(s.subrange(i, s.len() as int)),
    decreases i,
{
    if i > 0 {
        assert(s.drop_first() =~= s.subrange(1, s.len() as int));
        let t = s.drop_first();
        assert forall|k: int| 0 <= k < i - 1 implies is_space(#[trigger] t[k]) by {
            assert(t[k] == s[k + 1]);
        }
        lemma_trim_start_from(t, i - 1);
        assert(t.subrange(i - 1, t.len() as int) =~= s.subrange(i, s.len() as int));
    } else {
        assert(s.subrange(0, s.len() as int) =~= s);
    }
}

proof fn lemma_trim_end_to(s: Seq<char>, j: int)
    requires
        0 <= j <= s.len(),
        forall|k: int| j <= k < s.len() ==> is_space(#[trigger] s[k]),
    ensures
        trim_end(s) == trim_end(s.subrange(0, j)),
    decreases s.len() - j,
{
    if j < s.len() {
        let t = s.drop_last();
        assert forall|k: int| j <= k < t.len() implies is_space(#[trigger] t[k]) by {
            assert(t[k] == s[k]);
        }
        assert(is_space(s[s.len() - 1]));
        lemma_trim_end_to(t, j);
        assert(t.subrange(0, j) =~= s.subrange(0, j));
    } else {
        assert(s.subrange(0, j) =~= s);
    }
}

/// Index of the first `c` in `s` at or after `from`, or the length of `s` if none.
pub fn find_char(s: &str, from: usize, c: char) -> (r: usize)
    requires
        from <= s@.len(),
    ensures
        r == from + run_before(s@.subrange(from as int, s@.len() as int), c),
        r <= s@.len(),
        r < s@.len() ==> s@[r as int] == c,
{
    let n = s.unicode_len();
    let mut i: usize = from;
    while i < n && s.get_char(i) != c
        invariant
            from <= i <= n,
            n == s@.len(),
            forall|k: int| from <= k < i ==> s@[k] != c,
        decreases n - i,
    {
        i = i + 1;
    }
    proof {
        lemma_run_before(s@.subrange(from as int, n as int), c, i - from);
    }
    i
}

pub proof fn lemma_run_before_bound(s: Seq<char>, c: char)
    ensures
        run_before(s, c) <= s.len(),
        run_before(s, c) < s.len() ==> s[run_before(s, c) as int] == c,
        forall|k: int| 0 <= k < run_before(s, c) ==> s[k] != c,
    decreases s.len(),
{
    if s.len() > 0 && s[0] != c {
        let t = s.drop_first();
        lemma_run_before_bound(t, c);
        assert forall|k: int| 0 <= k < run_before(s, c) implies s[k] != c by {
            if k > 0 {
                assert(s[k] == t[k - 1]);
            }
        }
    }
}

/// Whether two strings hold the same characters.
pub fn same_text(a: &str, b: &str) -> (r: bool)
    ensures
        r == (a@ == b@),
{
    let n = a.unicode_len();
    if n != b.unicode_len() {
        return false;
    }
    let mut i: usize = 0;
    while i < n
        invariant
            i <= n,
            n == a@.len(),
            n == b@.len(),
            forall|k: int| 0 <= k < i ==> a@[k] == b@[k],
        decreases n - i,
    {
        if a.get_char(i) != b.get_char(i) {
            return false;
        }
        i = i + 1;
    }
    assert(a@ =~= b@);
    true
}

proof fn lemma_run_before(s: Seq<char>, c: char, j: int)
    requires
        0 <= j <= s.len(),
        forall|k: int| 0 <= k < j ==> s[k] != c,
        j == s.len() || s[j] == c,
    ensures
        run_before(s, c) == j,
    decreases j,
{
    if j > 0 {
        let t = s.drop_first();
        assert forall|k: int| 0 <= k < j - 1 implies t[k] != c by {
            assert(t[k] == s[k + 1]);
        }
        assert(s[0] != c);
        lemma_run_before(t, c, j - 1);
    }
}

/// `s` without surrounding whitespace, as a slice of `s`.
pub fn trim_str(s: &str) -> (r: &str)
    ensures
        r@ == trim(s@),
{
    let n = s.unicode_len();
    let mut i: usize = 0;
    while i < n && is_space_char(s.get_char(i))
        invariant
            i <= n,
            n == s@.len(),
            forall|k: int| 0 <= k < i ==> is_space(#[trigger] s@[k]),
        decreases n - i,
    {
        i = i + 1;
    }
    proof {
        lemma_trim_start_from(s@, i as int);
        let t = s@.subrange(i as int, n as int);
        if i < n {
            assert(t[0] == s@[i as int]);
        }
        assert(trim_start(t) == t);
    }
    let mut j: usize = n;
    while j > i && is_space_char(s.get_char(j - 1))
        invariant
            i <= j <= n,
            n == s@.len(),
            forall|k: int| j <= k < n ==> is_space(#[trigger] s@[k]),
        decreases j,
    {
        j = j - 1;
    }
    proof {
        let t = s@.subrange(i as int, n as int);
        assert forall|k: int| j - i <= k < t.len() implies is_space(#[trigger] t[k]) by {
            assert(t[k] == s@[k + i]);
        }
        lemma_trim_end_to(t, j - i);
        let u = t.subrange(0, j - i);
        assert(u =~= s@.subrange(i as int, j as int));
        if j > i {
            assert(u.last() == s@[j - 1]);
        }
        assert(trim_end(u) == u);
    }
    s.substring_char(i, j)
}

/// Characters that models use to wrap an answer: backtick, double and single quote.
pub open spec fn is_fence(c: char) -> bool {
    c == '`' || c == '"' || c == '\''
}

/// `s` opens and closes with the same fence character.
pub open spec fn fenced(s: Seq<char>) -> bool {
    s.len() >= 2 && is_fence(s[0]) && s.last() == s[0]
}

/// Removes matching fence pairs around already trimmed text, trimming inside each.
pub open spec fn unfence(s: Seq<char>) -> Seq<char>
    decreases s.len(),
    via unfence_decreases
{
    if fenced(s) {
        unfence(trim(s.subrange(1, s.len() - 1)))
    } else {
        s
    }
}

/// The message taken from free-form model output: trimmed, unfenced, first line only.
pub open spec fn plain_message(content: Seq<char>) -> Seq<char> {
    trim(first_line(unfence(trim(content))))
}

#[via_fn]
proof fn unfence_decreases(s: Seq<char>) {
    if fenced(s) {
        lemma_trim_shorter(s.subrange(1, s.len() - 1));
    }
}

pub proof fn lemma_trim_shorter(s: Seq<char>)
    ensures
        trim_start(s).len() <= s.len(),
        trim_end(s).len() <= s.len(),
        trim(s).len() <= s.len(),
    decreases s.len(),
{
    if s.len() > 0 {
        lemma_trim_shorter(s.drop_first());
        lemma_trim_shorter(s.drop_last());
    }
    lemma_trim_shorter_end(trim_start(s));
}

proof fn lemma_trim_shorter_end(s: Seq<char>)
    ensures
        trim_end(s).len() <= s.len(),
    decreases s.len(),
{
    if s.len() > 0 {
        lemma_trim_shorter_end(s.drop_last());
    }
}

fn is_fence_char(c: char) -> (r: bool)
    ensures
        r == is_fence(c),
{
    c == '`' || c == '"' || c == '\''
}

/// Strips fence pairs from trimmed text.
fn unfence_str(s: &str) -> (r: &str)
    ensures
        r@ == unfence(s@),
{
    let mut t = s;
    loop
        invariant
            unfence(t@) == unfence(s@),
        decreases t@.len(),
    {
        let n = t.unicode_len();
        if n >= 2 && is_fence_char(t.get_char(0)) && t.get_char(n - 1) == t.get_char(0) {
            let inner = t.substring_char(1, n - 1);
            let u = trim_str(inner);
            proof {
                lemma_trim_shorter(inner@);
            }
            t = u;
        } else {
            return t;
        }
    }
}

/// The commit message carried by free-form model output: surrounding whitespace
/// removed, a wrapping pair of backticks or quotes stripped, and only the first
/// line kept.
pub fn plain_message_of(content: &str) -> (r: String)
    ensures
        r@ == plain_message(content@),
{
    let t = trim_str(content);
    let u = unfence_str(t);
    let end = find_char(u, 0, '\n');
    proof {
        assert(u@.subrange(0, u@.len() as int) =~= u@);
    }
    let line = u.substring_char(0, end);
    String::from_str(trim_str(line))
}

/// Output that opens with no fence comes back as its trimmed first line, trimmed.
pub proof fn law_unfenced_content(content: Seq<char>)
    requires
        !fenced(trim(content)),
    ensures
        plain_message(content) == trim(first_line(trim(content))),
{
}

proof fn lemma_trim_start_shape(s: Seq<char>)
    ensures
        trim_start(s).len() == 0 || !is_space(trim_start(s)[0]),
    decreases s.len(),
{
    if s.len() > 0 && is_space(s[0]) {
        lemma_trim_start_shape(s.drop_first());
    }
}

proof fn lemma_trim_end_shape(s: Seq<char>)
    ensures
        trim_end(s).len() <= s.len(),
        trim_end(s) == s.subrange(0, trim_end(s).len() as int),
        trim_end(s).len() == 0 || !is_space(trim_end(s).last()),
    decreases s.len(),
{
    if s.len() > 0 && is_space(s.last()) {
        let t = s.drop_last();
        lemma_trim_end_shape(t);
        assert(t.subrange(0, trim_end(t).len() as int) =~= s.subrange(
            0,
            trim_end(t).len() as int,
        ));
    } else {
        assert(s.subrange(0, s.len() as int) =~= s);
    }
}

proof fn lemma_trim_idempotent(s: Seq<char>)
    ensures
        trim(trim(s)) == trim(s),
{
    let y = trim_start(s);
    let w = trim_end(y);
    lemma_trim_start_shape(s);
    lemma_trim_end_shape(y);
    if w.len() > 0 {
        assert(w[0] == y[0]);
    }
    assert(trim_start(w) == w);
    assert(trim_end(w) == w);
}

proof fn lemma_trim_avoids(s: Seq<char>, c: char)
    requires
        forall|k: int| 0 <= k < s.len() ==> s[k] != c,
    ensures
        forall|k: int| 0 <= k < trim(s).len() ==> trim(s)[k] != c,
{
    lemma_trim_start_avoids(s, c);
    lemma_trim_end_shape(trim_start(s));
    let y = trim_start(s);
    assert forall|k: int| 0 <= k < trim(s).len() implies trim(s)[k] != c by {
        assert(trim(s)[k] == y.subrange(0, trim_end(y).len() as int)[k]);
    }
}

proof fn lemma_trim_start_avoids(s: Seq<char>, c: char)
    requires
        forall|k: int| 0 <= k < s.len() ==> s[k] != c,
    ensures
        forall|k: int| 0 <= k < trim_start(s).len() ==> trim_start(s)[k] != c,
    decreases s.len(),
{
    if s.len() > 0 && is_space(s[0]) {
        let t = s.drop_first();
        assert forall|k: int| 0 <= k < t.len() implies t[k] != c by {
            assert(t[k] == s[k + 1]);
        }
        lemma_trim_start_avoids(t, c);
        assert(trim_start(s) == trim_start(t));
    } else {
        assert(trim_start(s) == s);
    }
}

/// Extracting again from an extracted message that does not itself look
/// fenced gives the same message back.
pub proof fn law_plain_message_idempotent(content: Seq<char>)
    requires
        !fenced(plain_message(content)),
    ensures
        plain_message(plain_message(content)) == plain_message(content),
{
    let u = unfence(trim(content));
    let line = first_line(u);
    let r = plain_message(content);
    lemma_run_before_bound(u, '\n');
    assert forall|k: int| 0 <= k < line.len() implies line[k] != '\n' by {
        assert(line[k] == u[k]);
    }
    lemma_trim_avoids(line, '\n');
    lemma_trim_idempotent(line);
    assert(trim(r) == r);
    assert(unfence(r) == r);
    lemma_run_before(r, '\n', r.len() as int);
    assert(first_line(r) =~= r);
}

} // verus!
