//! Strings as the stores see them: the order in which names are listed, and
//! the prefix that a settings section puts before a profile's name.

use vstd::prelude::*;
use vstd::string::StringSliceAdditionalSpecFns;
use vstd::string::StrSliceExecFns;
use vstd::string::StringExecFns;
use vstd::utf8::encode_utf8;
use vstd::utf8::decode_utf8;
use vstd::utf8::encode_utf8_decode_utf8;

verus! {

/// Lexicographic order of two byte strings, read from position `from` on,
/// for strings that agree before it.
pub open spec fn bytes_less_from(a: Seq<u8>, b: Seq<u8>, from: int) -> bool
    decreases b.len() - from,
{
    if from < 0 || from >= b.len() {
        false
    } else if from >= a.len() {
        true
    } else if a[from] != b[from] {
        a[from] < b[from]
    } else {
        bytes_less_from(a, b, from + 1)
    }
}

/// `a` comes strictly before `b`: names are ordered as `str` orders them, by
/// the bytes of their UTF-8 encoding.
pub open spec fn name_less(a: Seq<char>, b: Seq<char>) -> bool {
    bytes_less_from(encode_utf8(a), encode_utf8(b), 0)
}

/// Where two names stand to each other.
#[derive(Clone, Copy, Debug, PartialEq, Eq, Structural)]
pub enum Rank {
    Before,
    Same,
    After,
}

proof fn lemma_bytes_same_from(a: Seq<u8>, b: Seq<u8>, from: int)
    requires
        0 <= from <= a.len(),
        from <= b.len(),
        !bytes_less_from(a, b, from),
        !bytes_less_from(b, a, from),
    ensures
        a.len() == b.len(),
        forall|i: int| from <= i < a.len() ==> a[i] == b[i],
    decreases b.len() - from,
{
    if from < b.len() && from < a.len() {
        lemma_bytes_same_from(a, b, from + 1);
    }
}

proof fn lemma_bytes_asymmetric(a: Seq<u8>, b: Seq<u8>, from: int)
    requires
        bytes_less_from(a, b, from),
    ensures
        !bytes_less_from(b, a, from),
    decreases b.len() - from,
{
    if from < a.len() && a[from] == b[from] {
        lemma_bytes_asymmetric(a, b, from + 1);
    }
}

proof fn lemma_bytes_transitive(a: Seq<u8>, b: Seq<u8>, c: Seq<u8>, from: int)
    requires
        bytes_less_from(a, b, from),
        bytes_less_from(b, c, from),
    ensures
        bytes_less_from(a, c, from),
    decreases c.len() - from,
{
    if from < a.len() && a[from] == b[from] && b[from] == c[from] {
        lemma_bytes_transitive(a, b, c, from + 1);
    }
}

/// No name comes before itself, and of two names at most one comes before
/// the other.
pub proof fn lemma_name_less_asymmetric(a: Seq<char>, b: Seq<char>)
    ensures
        !name_less(a, a),
        name_less(a, b) ==> !name_less(b, a),
{
    if name_less(a, a) {
        lemma_bytes_asymmetric(encode_utf8(a), encode_utf8(a), 0);
    }
    if name_less(a, b) {
        lemma_bytes_asymmetric(encode_utf8(a), encode_utf8(b), 0);
    }
}

/// The order of names is transitive.
pub proof fn lemma_name_less_transitive(a: Seq<char>, b: Seq<char>, c: Seq<char>)
    requires
        name_less(a, b),
        name_less(b, c),
    ensures
        name_less(a, c),
{
    lemma_bytes_transitive(encode_utf8(a), encode_utf8(b), encode_utf8(c), 0);
}

/// Two different names are ordered one way or the other.
pub proof fn lemma_name_less_total(a: Seq<char>, b: Seq<char>)
    ensures
        a == b || name_less(a, b) || name_less(b, a),
{
    let x = encode_utf8(a);
    let y = encode_utf8(b);
    if !name_less(a, b) && !name_less(b, a) {
        lemma_bytes_same_from(x, y, 0);
        assert(x =~= y);
        encode_utf8_decode_utf8(a);
        encode_utf8_decode_utf8(b);
        assert(decode_utf8(x) == decode_utf8(y));
    }
}

/// Compares two names in the order in which profiles are listed.
pub fn compare(a: &str, b: &str) -> (r: Rank)
    ensures
        match r {
            Rank::Before => name_less(a@, b@),
            Rank::Same => a@ == b@,
            Rank::After => name_less(b@, a@),
        },
{
    let x = a.as_bytes();
    let y = b.as_bytes();
    let mut i: usize = 0;
    while i < x.len() && i < y.len()
        invariant
            x@ == encode_utf8(a@),
            y@ == encode_utf8(b@),
            i <= x.len(),
            i <= y.len(),
            name_less(a@, b@) == bytes_less_from(x@, y@, i as int),
            name_less(b@, a@) == bytes_less_from(y@, x@, i as int),
        decreases x.len() - i,
    {
        if x[i] < y[i] {
            return Rank::Before;
        }
        if y[i] < x[i] {
            return Rank::After;
        }
        i = i + 1;
    }
    if i < y.len() {
        Rank::Before
    } else if i < x.len() {
        Rank::After
    } else {
        proof {
            lemma_name_less_total(a@, b@);
        }
        Rank::Same
    }
}

/// Whether two strings hold the same text.
pub fn same_text(a: &str, b: &str) -> (r: bool)
    ensures
        r == (a@ == b@),
{
    proof {
        lemma_name_less_asymmetric(a@, b@);
    }
    match compare(a, b) {
        Rank::Same => true,
        _ => false,
    }
}

/// The encoding of two strings, one behind the other, is the encoding of
/// the first followed by that of the second.
proof fn lemma_encode_joined(a: Seq<char>, b: Seq<char>)
    ensures
        encode_utf8(a + b) == encode_utf8(a) + encode_utf8(b),
    decreases a.len(),
{
    if a.len() == 0 {
        assert(a + b =~= b);
        assert(encode_utf8(a) + encode_utf8(b) =~= encode_utf8(b));
    } else {
        assert((a + b).drop_first() =~= a.drop_first() + b);
        assert((a + b)[0] == a[0]);
        lemma_encode_joined(a.drop_first(), b);
        assert(encode_utf8(a + b) =~= encode_utf8(a) + encode_utf8(b));
    }
}

/// Inside a common beginning two byte strings are ordered as their rests.
proof fn lemma_bytes_less_behind_common(x: Seq<u8>, u: Seq<u8>, v: Seq<u8>, at: int)
    requires
        0 <= at <= x.len(),
    ensures
        bytes_less_from(x + u, x + v, at) == bytes_less_from(u, v, 0),
    decreases x.len() - at,
{
    let n = x.len() as int;
    if at < n {
        assert((x + u)[at] == x[at]);
        assert((x + v)[at] == x[at]);
        lemma_bytes_less_behind_common(x, u, v, at + 1);
    } else {
        lemma_bytes_less_shifted(x, u, v, 0);
    }
}

/// Behind a common beginning two byte strings are ordered as their rests,
/// position by position.
proof fn lemma_bytes_less_shifted(x: Seq<u8>, u: Seq<u8>, v: Seq<u8>, from: int)
    requires
        0 <= from,
    ensures
        bytes_less_from(x + u, x + v, x.len() + from) == bytes_less_from(u, v, from),
    decreases v.len() - from,
{
    let n = x.len() as int;
    if from < v.len() && from < u.len() {
        assert((x + u)[n + from] == u[from]);
        assert((x + v)[n + from] == v[from]);
        if u[from] == v[from] {
            lemma_bytes_less_shifted(x, u, v, from + 1);
        }
    }
}

/// Two names with one prefix before them are ordered as the names are.
pub proof fn lemma_name_less_prefixed(prefix: Seq<char>, a: Seq<char>, b: Seq<char>)
    ensures
        name_less(prefix + a, prefix + b) == name_less(a, b),
{
    lemma_encode_joined(prefix, a);
    lemma_encode_joined(prefix, b);
    lemma_bytes_less_behind_common(encode_utf8(prefix), encode_utf8(a), encode_utf8(b), 0);
}

/// `s` begins with `prefix`.
pub open spec fn has_prefix(s: Seq<char>, prefix: Seq<char>) -> bool {
    prefix.len() <= s.len() && s.take(prefix.len() as int) == prefix
}

/// What stands in `s` behind `prefix`, where `s` begins with it: `None` where
/// it does not.
pub fn strip_prefix(s: &str, prefix: &str) -> (r: Option<String>)
    ensures
        match r {
            Some(rest) => has_prefix(s@, prefix@) && rest@ == s@.skip(prefix@.len() as int),
            None => !has_prefix(s@, prefix@),
        },
{
    let n = s.unicode_len();
    let p = prefix.unicode_len();
    if n < p {
        return None;
    }
    let mut i: usize = 0;
    while i < p
        invariant
            p == prefix@.len(),
            n == s@.len(),
            p <= n,
            i <= p,
            forall|j: int| 0 <= j < i ==> s@[j] == prefix@[j],
        decreases p - i,
    {
        if s.get_char(i) != prefix.get_char(i) {
            assert(s@.take(p as int)[i as int] != prefix@[i as int]);
            return None;
        }
        i = i + 1;
    }
    assert(s@.take(p as int) =~= prefix@);
    assert(s@.subrange(p as int, n as int) =~= s@.skip(p as int));
    Some(s.substring_char(p, n).to_owned())
}

/// `a` followed by `b`.
pub fn join(a: &str, b: &str) -> (r: String)
    ensures
        r@ == a@ + b@,
{
    let mut r = a.to_owned();
    r.append(b);
    r
}

/// A string that begins with a prefix is the prefix followed by the rest, and
/// a prefix can be taken off again from what it was put before.
pub proof fn lemma_prefix(prefix: Seq<char>, s: Seq<char>)
    ensures
        has_prefix(prefix + s, prefix),
        (prefix + s).skip(prefix.len() as int) == s,
        has_prefix(s, prefix) ==> prefix + s.skip(prefix.len() as int) == s,
{
    assert((prefix + s).take(prefix.len() as int) =~= prefix);
    assert((prefix + s).skip(prefix.len() as int) =~= s);
    if has_prefix(s, prefix) {
        assert(prefix + s.skip(prefix.len() as int) =~= s);
    }
}

} // verus!
