//! A JSON document held as plain values, and path lookup inside it.

use vstd::prelude::*;
use vstd::string::*;
use crate::text::{find_char, lemma_run_before_bound, run_before};

verus! {

/// A JSON value. Numbers keep their textual form; objects keep their members in order.
#[derive(Debug)]
pub enum Json {
    Null,
    Bool(bool),
    Number(String),
    Str(String),
    Array(Vec<Json>),
    Object(Vec<(String, Json)>),
}

/// The value of the first member of `entries` named `key`.
pub open spec fn find_key(entries: Seq<(String, Json)>, key: Seq<char>) -> Option<Json>
    decreases entries.len(),
{
    if entries.len() == 0 {
        None
    } else if entries[0].0@ == key {
        Some(entries[0].1)
    } else {
        find_key(entries.drop_first(), key)
    }
}

pub open spec fn is_digit(c: char) -> bool {
    '0' <= c && c <= '9'
}

/// A decimal array index: digits only, with no leading zero unless it is `0` itself.
pub open spec fn is_index(t: Seq<char>) -> bool {
    &&& t.len() > 0
    &&& forall|k: int| 0 <= k < t.len() ==> is_digit(#[trigger] t[k])
    &&& (t.len() == 1 || t[0] != '0')
}

/// The number written by the digits of `t`.
pub open spec fn decimal(t: Seq<char>) -> nat
    decreases t.len(),
{
    if t.len() == 0 {
        0
    } else {
        decimal(t.drop_last()) * 10 + ((t.last() as u32) - 48) as nat
    }
}

/// A path segment with its escapes undone: `~1` stands for `/`, `~0` for `~`.
pub open spec fn unescape(t: Seq<char>) -> Seq<char>
    decreases t.len(),
{
    if t.len() == 0 {
        t
    } else if t.len() >= 2 && t[0] == '~' && t[1] == '1' {
        seq!['/'] + unescape(t.subrange(2, t.len() as int))
    } else if t.len() >= 2 && t[0] == '~' && t[1] == '0' {
        seq!['~'] + unescape(t.subrange(2, t.len() as int))
    } else {
        seq![t[0]] + unescape(t.drop_first())
    }
}

/// The child of `node` named by one (unescaped) path segment.
pub open spec fn child_of(node: Json, tok: Seq<char>) -> Option<Json> {
    match node {
        Json::Object(entries) => find_key(entries@, tok),
        Json::Array(items) => if is_index(tok) && decimal(tok) < items@.len() {
            Some(items@[decimal(tok) as int])
        } else {
            None
        },
        _ => None,
    }
}

/// The value at a slash-separated path: the empty path names the document
/// itself, and each `/segment` steps into an object member or an array element.
pub open spec fn resolve(doc: Json, path: Seq<char>) -> Option<Json>
    decreases path.len(),
    via resolve_decreases
{
    if path.len() == 0 {
        Some(doc)
    } else if path[0] != '/' {
        None
    } else {
        let rest = path.drop_first();
        let k = run_before(rest, '/');
        match child_of(doc, unescape(rest.subrange(0, k as int))) {
            None => None,
            Some(c) => resolve(c, rest.subrange(k as int, rest.len() as int)),
        }
    }
}

#[via_fn]
proof fn resolve_decreases(doc: Json, path: Seq<char>) {
    if path.len() > 0 {
        lemma_run_before_bound(path.drop_first(), '/');
    }
}

/// `r` is a reference to the value that `s` holds, if any.
pub open spec fn refers_to(r: Option<&Json>, s: Option<Json>) -> bool {
    match r {
        Some(x) => s == Some(*x),
        None => s is None,
    }
}

proof fn lemma_decimal_prefix(t: Seq<char>, i: int)
    requires
        0 <= i <= t.len(),
    ensures
        decimal(t.subrange(0, i)) <= decimal(t),
    decreases t.len(),
{
    if i == t.len() {
        assert(t.subrange(0, i) =~= t);
    } else {
        let u = t.drop_last();
        lemma_decimal_prefix(u, i);
        assert(u.subrange(0, i) =~= t.subrange(0, i));
        assert(decimal(u) <= decimal(u) * 10 + ((t.last() as u32) - 48) as nat) by (nonlinear_arith);
    }
}

/// The array position that `tok` names, when it is an index below `len`.
fn index_below(tok: &str, len: usize) -> (r: Option<usize>)
    ensures
        r == (if is_index(tok@) && decimal(tok@) < len {
            Some(decimal(tok@) as usize)
        } else {
            None
        }),
{
    let n = tok.unicode_len();
    if n == 0 || len == 0 {
        return None;
    }
    if n > 1 && tok.get_char(0) == '0' {
        return None;
    }
    let mut val: usize = 0;
    let mut i: usize = 0;
    while i < n
        invariant
            i <= n,
            n == tok@.len(),
            n > 0,
            n == 1 || tok@[0] != '0',
            forall|k: int| 0 <= k < i ==> is_digit(#[trigger] tok@[k]),
            val == decimal(tok@.subrange(0, i as int)),
            val < len,
        decreases n - i,
    {
        let c = tok.get_char(i);
        if !('0' <= c && c <= '9') {
            return None;
        }
        let d = (c as u32 - 48) as usize;
        proof {
            let p = tok@.subrange(0, i + 1);
            assert(p.drop_last() =~= tok@.subrange(0, i as int));
            assert(decimal(p) == val * 10 + d);
            lemma_decimal_prefix(tok@, i + 1);
        }
        if d >= len {
            return None;
        }
        if val > (len - d) / 10 {
            proof {
                assert(val * 10 + d >= len) by (nonlinear_arith)
                    requires
                        val > (len - d) / 10,
                        d < len,
                ;
            }
            return None;
        }
        assert(val * 10 <= len - d) by (nonlinear_arith)
            requires
                val <= (len - d) / 10,
                d < len,
        ;
        if val * 10 + d >= len {
            return None;
        }
        val = val * 10 + d;
        i = i + 1;
    }
    assert(tok@.subrange(0, n as int) =~= tok@);
    Some(val)
}

/// `t` with its path escapes undone.
fn unescape_str(t: &str) -> (r: String)
    ensures
        r@ == unescape(t@),
{
    let n = t.unicode_len();
    let mut out = String::new();
    let mut i: usize = 0;
    assert(t@.subrange(0, n as int) =~= t@);
    while i < n
        invariant
            i <= n,
            n == t@.len(),
            unescape(t@) == out@ + unescape(t@.subrange(i as int, n as int)),
        decreases n - i,
    {
        let ghost s = t@.subrange(i as int, n as int);
        let ghost prev = out@;
        assert(s[0] == t@[i as int]);
        if i + 1 < n {
            assert(s[1] == t@[i + 1]);
        }
        if i + 1 < n && t.get_char(i) == '~' && t.get_char(i + 1) == '1' {
            assert(s.subrange(2, s.len() as int) =~= t@.subrange(i + 2, n as int));
            out.append("/");
            proof {
                reveal_strlit("/");
            }
            assert("/"@ =~= seq!['/']);
            i = i + 2;
            assert(unescape(s) == seq!['/'] + unescape(t@.subrange(i as int, n as int)));
            assert(prev + (seq!['/'] + unescape(t@.subrange(i as int, n as int))) =~= out@
                + unescape(t@.subrange(i as int, n as int)));
        } else if i + 1 < n && t.get_char(i) == '~' && t.get_char(i + 1) == '0' {
            assert(s.subrange(2, s.len() as int) =~= t@.subrange(i + 2, n as int));
            out.append("~");
            proof {
                reveal_strlit("~");
            }
            assert("~"@ =~= seq!['~']);
            i = i + 2;
            assert(unescape(s) == seq!['~'] + unescape(t@.subrange(i as int, n as int)));
            assert(prev + (seq!['~'] + unescape(t@.subrange(i as int, n as int))) =~= out@
                + unescape(t@.subrange(i as int, n as int)));
        } else {
            assert(s.drop_first() =~= t@.subrange(i + 1, n as int));
            let one = t.substring_char(i, i + 1);
            assert(one@ =~= seq![s[0]]);
            out.append(one);
            i = i + 1;
            assert(unescape(s) == seq![s[0]] + unescape(t@.subrange(i as int, n as int)));
            assert(prev + (seq![s[0]] + unescape(t@.subrange(i as int, n as int))) =~= out@
                + unescape(t@.subrange(i as int, n as int)));
        }
    }
    assert(out@ + seq![] =~= out@);
    out
}

impl Json {
    /// The value of the first member of `entries` named `key`.
    pub fn find_member<'a>(entries: &'a Vec<(String, Json)>, key: &str) -> (r: Option<&'a Json>)
        ensures
            refers_to(r, find_key(entries@, key@)),
    {
        let mut i: usize = 0;
        assert(entries@.subrange(0, entries@.len() as int) =~= entries@);
        while i < entries.len()
            invariant
                i <= entries@.len(),
                find_key(entries@, key@) == find_key(
                    entries@.subrange(i as int, entries@.len() as int),
                    key@,
                ),
            decreases entries@.len() - i,
        {
            let e = &entries[i];
            proof {
                let s = entries@.subrange(i as int, entries@.len() as int);
                assert(s.drop_first() =~= entries@.subrange(i + 1, entries@.len() as int));
                assert(s[0] == entries@[i as int]);
            }
            if crate::text::same_text(e.0.as_str(), key) {
                return Some(&e.1);
            }
            i = i + 1;
        }
        None
    }

    /// The child of this value named by one unescaped path segment.
    pub fn child(&self, tok: &str) -> (r: Option<&Json>)
        ensures
            refers_to(r, child_of(*self, tok@)),
    {
        match self {
            Json::Object(entries) => Json::find_member(entries, tok),
            Json::Array(items) => match index_below(tok, items.len()) {
                Some(i) => Some(&items[i]),
                None => None,
            },
            _ => None,
        }
    }

    /// The value at a slash-separated path (see `resolve`).
    pub fn pointer(&self, path: &str) -> (r: Option<&Json>)
        ensures
            refers_to(r, resolve(*self, path@)),
    {
        let n = path.unicode_len();
        if n == 0 {
            return Some(self);
        }
        if path.get_char(0) != '/' {
            return None;
        }
        let mut cur: &Json = self;
        let mut pos: usize = 0;
        assert(path@.subrange(0, n as int) =~= path@);
        loop
            invariant
                pos < n,
                n == path@.len(),
                path@[pos as int] == '/',
                resolve(*self, path@) == resolve(*cur, path@.subrange(pos as int, n as int)),
            decreases n - pos,
        {
            let end = find_char(path, pos + 1, '/');
            let raw = path.substring_char(pos + 1, end);
            let tok = unescape_str(raw);
            proof {
                let p = path@.subrange(pos as int, n as int);
                let rest = p.drop_first();
                assert(rest =~= path@.subrange(pos + 1, n as int));
                assert(rest.subrange(0, end - pos - 1) =~= raw@);
                assert(rest.subrange(end - pos - 1, rest.len() as int) =~= path@.subrange(
                    end as int,
                    n as int,
                ));
            }
            proof {
                let p = path@.subrange(pos as int, n as int);
                assert(p[0] == '/');
                assert(resolve(*cur, p) == match child_of(*cur, tok@) {
                    None => None,
                    Some(c) => resolve(c, path@.subrange(end as int, n as int)),
                });
            }
            match cur.child(tok.as_str()) {
                None => {
                    return None;
                },
                Some(c) => {
                    if end == n {
                        assert(path@.subrange(end as int, n as int).len() == 0);
                        return Some(c);
                    }
                    cur = c;
                    pos = end;
                },
            }
        }
    }

    /// The text of a string value.
    pub fn as_str(&self) -> (r: Option<&str>)
        ensures
            match *self {
                Json::Str(s) => r is Some && r->0@ == s@,
                _ => r is None,
            },
    {
        match self {
            Json::Str(s) => Some(s.as_str()),
            _ => None,
        }
    }
}

#[verifier::external_type_specification]
#[verifier::external_body]
pub struct ExJsonValue(serde_json::Value);

/// The document that a JSON text denotes, if the text is JSON.
pub uninterp spec fn parsed_json(text: Seq<char>) -> Option<Json>;

/// Relies on `serde_json::from_str::<serde_json::Value>`: parses `text` as a
/// JSON document, or fails when it is not one.
#[verifier::external_body]
pub(crate) fn parse_json(text: &str) -> (r: Option<Json>)
    ensures
        r == parsed_json(text@),
{
    serde_json::from_str::<serde_json::Value>(text).ok().map(json_of_value)
}

/// Carries a parsed `serde_json::Value` over into `Json`, variant for variant.
#[verifier::external_body]
fn json_of_value(v: serde_json::Value) -> Json {
    match v {
        serde_json::Value::Null => Json::Null,
        serde_json::Value::Bool(b) => Json::Bool(b),
        serde_json::Value::Number(n) => Json::Number(n.to_string()),
        serde_json::Value::String(s) => Json::Str(s),
        serde_json::Value::Array(a) => Json::Array(a.into_iter().map(json_of_value).collect()),
        serde_json::Value::Object(m) => Json::Object(
            m.into_iter().map(|(k, x)| (k, json_of_value(x))).collect(),
        ),
    }
}

} // verus!
