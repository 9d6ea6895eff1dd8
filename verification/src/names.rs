//! The variant name deriver: the pure function taking a catalog type name to
//! the identifier-safe label used for its case in the generated enumeration.
//!
//! Rules, applied in order: the literal name `anyarray` maps to the fixed
//! label `AnyArray`; a name ending in `range` or `vector` gets an underscore
//! inserted before that suffix; a leading underscore (the catalog's mark for
//! an array type) is stripped and `_array` appended; the resulting
//! snake-case word is turned into capitalized-word form, each
//! underscore-delimited segment capitalized and the underscores removed.

use vstd::prelude::*;

use crate::text::{
    append_str_chars, eq_chars_str, is_lower_char, is_upper_char, str_to_chars, subvec,
    to_upper_char, upper_char,
};

verus! {

pub open spec fn ends_with(s: Seq<char>, suf: Seq<char>) -> bool {
    suf.len() <= s.len() && s.subrange(s.len() - suf.len(), s.len() as int) == suf
}

pub fn ends_with_str(v: &Vec<char>, s: &str) -> (r: bool)
    ensures
        r == ends_with(v@, s@),
{
    let m = s.unicode_len();
    let n = v.len();
    if m > n {
        return false;
    }
    let mut j: usize = 0;
    while j < m
        invariant
            m == s@.len(),
            n == v@.len(),
            m <= n,
            j <= m,
            forall|k: int| 0 <= k < j ==> v@[n - m + k] == s@[k],
        decreases m - j,
    {
        if v[n - m + j] != s.get_char(j) {
            proof {
                assert(v@.subrange(n - m, n as int)[j as int] != s@[j as int]);
            }
            return false;
        }
        j += 1;
    }
    proof {
        assert(v@.subrange(n - m, n as int) =~= s@);
    }
    true
}

// ---------------------------------------------------------------------------
// Snake case to capitalized-word form
// ---------------------------------------------------------------------------

/// The capitalized-word form of the characters of `s` from `i` on, appended
/// to `out`: underscores are dropped, and a character that begins a segment
/// (`start` true) is capitalized.
pub open spec fn camel_acc(s: Seq<char>, i: int, start: bool, out: Seq<char>) -> Seq<char>
    decreases s.len() - i,
{
    if i < 0 || i >= s.len() {
        out
    } else if s[i] == '_' {
        camel_acc(s, i + 1, true, out)
    } else if start {
        camel_acc(s, i + 1, false, out.push(upper_char(s[i])))
    } else {
        camel_acc(s, i + 1, false, out.push(s[i]))
    }
}

pub open spec fn camel_of(s: Seq<char>) -> Seq<char> {
    camel_acc(s, 0, true, Seq::empty())
}

pub fn camel(v: &Vec<char>) -> (r: Vec<char>)
    ensures
        r@ == camel_of(v@),
{
    let n = v.len();
    let mut out: Vec<char> = Vec::new();
    let mut start: bool = true;
    let mut i: usize = 0;
    proof {
        assert(out@ =~= Seq::<char>::empty());
    }
    while i < n
        invariant
            n == v@.len(),
            i <= n,
            camel_of(v@) == camel_acc(v@, i as int, start, out@),
        decreases n - i,
    {
        let c = v[i];
        if c == '_' {
            start = true;
        } else {
            if start {
                out.push(to_upper_char(c));
            } else {
                out.push(c);
            }
            start = false;
        }
        i += 1;
    }
    out
}

// ---------------------------------------------------------------------------
// The deriver itself
// ---------------------------------------------------------------------------

/// An underscore inserted before a trailing `range` or `vector`, so that the
/// case conversion treats the suffix as a word of its own.
pub open spec fn suffixed_name(n: Seq<char>) -> Seq<char> {
    if ends_with(n, "range"@) {
        n.subrange(0, n.len() - 5) + "_range"@
    } else if ends_with(n, "vector"@) {
        n.subrange(0, n.len() - 6) + "_vector"@
    } else {
        n
    }
}

/// A leading underscore, the catalog's mark for an array type, stripped and
/// `_array` appended.
pub open spec fn array_name(n: Seq<char>) -> Seq<char> {
    if n.len() > 0 && n[0] == '_' {
        n.subrange(1, n.len() as int) + "_array"@
    } else {
        n
    }
}

/// The derived variant label of a catalog type name.
pub open spec fn variant_spec(n: Seq<char>) -> Seq<char> {
    if n == "anyarray"@ {
        "AnyArray"@
    } else {
        camel_of(array_name(suffixed_name(n)))
    }
}

pub fn variant_name(name: &Vec<char>) -> (r: Vec<char>)
    ensures
        r@ == variant_spec(name@),
{
    if eq_chars_str(name, "anyarray") {
        return str_to_chars("AnyArray");
    }
    proof {
        reveal_strlit("range");
        reveal_strlit("vector");
    }
    let mut t: Vec<char>;
    if ends_with_str(name, "range") {
        t = subvec(name, 0, name.len() - 5);
        append_str_chars(&mut t, "_range");
    } else if ends_with_str(name, "vector") {
        t = subvec(name, 0, name.len() - 6);
        append_str_chars(&mut t, "_vector");
    } else {
        t = subvec(name, 0, name.len());
        proof {
            assert(t@ =~= name@);
        }
    }
    proof {
        assert(t@ == suffixed_name(name@));
    }
    let mut u: Vec<char>;
    if t.len() > 0 && t[0] == '_' {
        u = subvec(&t, 1, t.len());
        append_str_chars(&mut u, "_array");
    } else {
        u = t;
    }
    proof {
        assert(u@ == array_name(suffixed_name(name@)));
    }
    camel(&u)
}

// ---------------------------------------------------------------------------
// Injectivity of the case conversion
// ---------------------------------------------------------------------------

/// A character a snake-case word may hold.
pub open spec fn word_char_ok(c: char) -> bool {
    is_lower_char(c) || crate::text::is_digit_char(c) || c == '_'
}

/// A well-shaped snake-case word: non-empty, over lower-case letters,
/// digits and underscores, beginning with a letter, every underscore
/// followed by a letter.
pub open spec fn word_ok(s: Seq<char>) -> bool {
    &&& s.len() > 0
    &&& is_lower_char(s[0])
    &&& forall|i: int| 0 <= i < s.len() ==> word_char_ok(#[trigger] s[i])
    &&& forall|i: int|
        0 <= i < s.len() && #[trigger] s[i] == '_' ==> i + 1 < s.len() && is_lower_char(s[i + 1])
}

/// `camel_acc` without its accumulator: what the conversion makes of the
/// characters from `i` on.
pub open spec fn camel_rest(s: Seq<char>, i: int, start: bool) -> Seq<char>
    decreases s.len() - i,
{
    if i < 0 || i >= s.len() {
        Seq::empty()
    } else if s[i] == '_' {
        camel_rest(s, i + 1, true)
    } else if start {
        seq![upper_char(s[i])] + camel_rest(s, i + 1, false)
    } else {
        seq![s[i]] + camel_rest(s, i + 1, false)
    }
}

pub proof fn lemma_camel_acc_rest(s: Seq<char>, i: int, start: bool, out: Seq<char>)
    ensures
        camel_acc(s, i, start, out) == out + camel_rest(s, i, start),
    decreases s.len() - i,
{
    if i < 0 || i >= s.len() {
        assert(out + Seq::<char>::empty() =~= out);
    } else if s[i] == '_' {
        lemma_camel_acc_rest(s, i + 1, true, out);
    } else if start {
        lemma_camel_acc_rest(s, i + 1, false, out.push(upper_char(s[i])));
        assert(out.push(upper_char(s[i])) + camel_rest(s, i + 1, false) =~= out + (seq![
            upper_char(s[i]),
        ] + camel_rest(s, i + 1, false)));
    } else {
        lemma_camel_acc_rest(s, i + 1, false, out.push(s[i]));
        assert(out.push(s[i]) + camel_rest(s, i + 1, false) =~= out + (seq![s[i]] + camel_rest(
            s,
            i + 1,
            false,
        )));
    }
}

pub proof fn lemma_upper_of_lower(c: char)
    requires
        is_lower_char(c),
    ensures
        is_upper_char(upper_char(c)),
{
}

pub proof fn lemma_upper_inj(a: char, b: char)
    requires
        is_lower_char(a),
        is_lower_char(b),
        upper_char(a) == upper_char(b),
    ensures
        a == b,
{
}

/// `start` may only claim a segment boundary where a letter stands.
pub open spec fn start_ok(s: Seq<char>, i: int, start: bool) -> bool {
    start ==> (i >= s.len() || is_lower_char(s[i]))
}

pub proof fn lemma_camel_rest_nonempty(s: Seq<char>, i: int, start: bool)
    requires
        word_ok(s),
        0 <= i < s.len(),
        start_ok(s, i, start),
    ensures
        camel_rest(s, i, start).len() > 0,
    decreases s.len() - i,
{
    if s[i] == '_' {
        lemma_camel_rest_nonempty(s, i + 1, true);
    }
}

/// After an underscore the conversion emits an upper-case letter first.
pub proof fn lemma_camel_rest_upper_head(s: Seq<char>, i: int)
    requires
        word_ok(s),
        0 <= i < s.len(),
        is_lower_char(s[i]),
    ensures
        camel_rest(s, i, true).len() > 0,
        is_upper_char(camel_rest(s, i, true)[0]),
{
    lemma_upper_of_lower(s[i]);
}

pub proof fn lemma_camel_rest_inj(s1: Seq<char>, i1: int, s2: Seq<char>, i2: int, start: bool)
    requires
        word_ok(s1),
        word_ok(s2),
        0 <= i1 <= s1.len(),
        0 <= i2 <= s2.len(),
        start_ok(s1, i1, start),
        start_ok(s2, i2, start),
        camel_rest(s1, i1, start) == camel_rest(s2, i2, start),
    ensures
        s1.subrange(i1, s1.len() as int) == s2.subrange(i2, s2.len() as int),
    decreases s1.len() - i1,
{
    let r1 = camel_rest(s1, i1, start);
    let r2 = camel_rest(s2, i2, start);
    if i1 >= s1.len() && i2 >= s2.len() {
        assert(s1.subrange(i1, s1.len() as int) =~= s2.subrange(i2, s2.len() as int));
    } else if i1 >= s1.len() {
        lemma_camel_rest_nonempty(s2, i2, start);
        assert(false);
    } else if i2 >= s2.len() {
        lemma_camel_rest_nonempty(s1, i1, start);
        assert(false);
    } else {
        let a = s1[i1];
        let b = s2[i2];
        if start {
            // both heads are letters, capitalized in the output
            assert(r1[0] == upper_char(a));
            assert(r2[0] == upper_char(b));
            lemma_upper_inj(a, b);
            let t1 = camel_rest(s1, i1 + 1, false);
            let t2 = camel_rest(s2, i2 + 1, false);
            assert(t1 =~= r1.subrange(1, r1.len() as int));
            assert(t2 =~= r2.subrange(1, r2.len() as int));
            lemma_camel_rest_inj(s1, i1 + 1, s2, i2 + 1, false);
            assert(s1.subrange(i1, s1.len() as int) =~= seq![a] + s1.subrange(
                i1 + 1,
                s1.len() as int,
            ));
            assert(s2.subrange(i2, s2.len() as int) =~= seq![b] + s2.subrange(
                i2 + 1,
                s2.len() as int,
            ));
        } else if a == '_' && b == '_' {
            assert(is_lower_char(s1[i1 + 1]));
            assert(is_lower_char(s2[i2 + 1]));
            lemma_camel_rest_inj(s1, i1 + 1, s2, i2 + 1, true);
            assert(s1.subrange(i1, s1.len() as int) =~= seq![a] + s1.subrange(
                i1 + 1,
                s1.len() as int,
            ));
            assert(s2.subrange(i2, s2.len() as int) =~= seq![b] + s2.subrange(
                i2 + 1,
                s2.len() as int,
            ));
        } else if a == '_' {
            // the left side opens a new segment, so its head is upper case,
            // while the right side hands its plain character through
            assert(is_lower_char(s1[i1 + 1]));
            lemma_camel_rest_upper_head(s1, i1 + 1);
            assert(word_char_ok(b));
            assert(r2[0] == b);
            assert(is_upper_char(r1[0]));
            assert(!is_upper_char(b));
            assert(false);
        } else if b == '_' {
            assert(is_lower_char(s2[i2 + 1]));
            lemma_camel_rest_upper_head(s2, i2 + 1);
            assert(word_char_ok(a));
            assert(r1[0] == a);
            assert(is_upper_char(r2[0]));
            assert(!is_upper_char(a));
            assert(false);
        } else {
            assert(r1[0] == a);
            assert(r2[0] == b);
            let t1 = camel_rest(s1, i1 + 1, false);
            let t2 = camel_rest(s2, i2 + 1, false);
            assert(t1 =~= r1.subrange(1, r1.len() as int));
            assert(t2 =~= r2.subrange(1, r2.len() as int));
            lemma_camel_rest_inj(s1, i1 + 1, s2, i2 + 1, false);
            assert(s1.subrange(i1, s1.len() as int) =~= seq![a] + s1.subrange(
                i1 + 1,
                s1.len() as int,
            ));
            assert(s2.subrange(i2, s2.len() as int) =~= seq![b] + s2.subrange(
                i2 + 1,
                s2.len() as int,
            ));
        }
    }
}

/// The case conversion is injective over well-shaped snake-case words.
pub proof fn lemma_camel_inj(s1: Seq<char>, s2: Seq<char>)
    requires
        word_ok(s1),
        word_ok(s2),
        camel_of(s1) == camel_of(s2),
    ensures
        s1 == s2,
{
    lemma_camel_acc_rest(s1, 0, true, Seq::empty());
    lemma_camel_acc_rest(s2, 0, true, Seq::empty());
    assert(Seq::<char>::empty() + camel_rest(s1, 0, true) =~= camel_rest(s1, 0, true));
    assert(Seq::<char>::empty() + camel_rest(s2, 0, true) =~= camel_rest(s2, 0, true));
    lemma_camel_rest_inj(s1, 0, s2, 0, true);
    assert(s1 =~= s1.subrange(0, s1.len() as int));
    assert(s2 =~= s2.subrange(0, s2.len() as int));
}

// ---------------------------------------------------------------------------
// Injectivity of the whole deriver
// ---------------------------------------------------------------------------

/// A catalog-shaped type name: non-empty, over lower-case letters, digits
/// and underscores; a letter first, except for the leading underscore of an
/// array name, which a letter must follow; every later underscore followed
/// by a letter; and free of the endings that would collide under the
/// deriver's rewrite rules — no name ends in `_range` or `_vector` (the
/// inserted separator would double), none but `anyarray` ends in `array`,
/// and `_any` does not occur (its label would be the special-cased
/// `AnyArray`).
pub open spec fn name_ok(n: Seq<char>) -> bool {
    &&& n.len() > 0
    &&& forall|i: int| 0 <= i < n.len() ==> word_char_ok(#[trigger] n[i])
    &&& (if n[0] == '_' {
        n.len() >= 2 && is_lower_char(n[1])
    } else {
        is_lower_char(n[0])
    })
    &&& forall|i: int|
        1 <= i < n.len() && #[trigger] n[i] == '_' ==> i + 1 < n.len() && is_lower_char(n[i + 1])
    &&& !ends_with(n, "_range"@)
    &&& !ends_with(n, "_vector"@)
    &&& (ends_with(n, "array"@) ==> n == "anyarray"@)
    &&& n != "_any"@
}

/// The array rule keeps a well-shaped word well-shaped.
pub proof fn lemma_array_word_ok(t: Seq<char>)
    requires
        t.len() > 0,
        forall|i: int| 0 <= i < t.len() ==> word_char_ok(#[trigger] t[i]),
        forall|i: int|
            1 <= i < t.len() && #[trigger] t[i] == '_' ==> i + 1 < t.len() && is_lower_char(
                t[i + 1],
            ),
        (if t[0] == '_' {
            t.len() >= 2 && is_lower_char(t[1])
        } else {
            is_lower_char(t[0])
        }),
    ensures
        word_ok(array_name(t)),
{
    reveal_strlit("_array");
    let a = "_array"@;
    assert(a.len() == 6 && a[0] == '_' && a[1] == 'a' && a[2] == 'r' && a[3] == 'r' && a[4] == 'a'
        && a[5] == 'y');
    if t[0] == '_' {
        let u = t.subrange(1, t.len() as int) + a;
        assert(array_name(t) == u);
        assert(u.len() == t.len() + 5);
        assert(is_lower_char(u[0]));
        assert forall|i: int| 0 <= i < u.len() implies word_char_ok(#[trigger] u[i]) by {
            if i < t.len() - 1 {
                assert(u[i] == t[i + 1]);
            } else {
                assert(u[i] == a[i - (t.len() - 1)]);
            }
        }
        assert forall|i: int| 0 <= i < u.len() && #[trigger] u[i] == '_' implies i + 1 < u.len()
            && is_lower_char(u[i + 1]) by {
            if i < t.len() - 1 {
                assert(u[i] == t[i + 1]);
                assert(t[i + 1] == '_' ==> i + 2 < t.len() && is_lower_char(t[i + 2]));
                assert(i + 1 < t.len() - 1);
                assert(u[i + 1] == t[i + 2]);
            } else {
                assert(u[i] == a[i - (t.len() - 1)]);
                assert(i == t.len() - 1);
                assert(u[i + 1] == a[1]);
            }
        }
    } else {
        assert(array_name(t) == t);
        assert forall|i: int| 0 <= i < t.len() && #[trigger] t[i] == '_' implies i + 1 < t.len()
            && is_lower_char(t[i + 1]) by {
            assert(i >= 1);
        }
    }
}

/// The suffix rule followed by the array rule takes a catalog-shaped name
/// to a well-shaped word.
pub proof fn lemma_name_word_ok(n: Seq<char>)
    requires
        name_ok(n),
    ensures
        word_ok(array_name(suffixed_name(n))),
{
    reveal_strlit("range");
    reveal_strlit("_range");
    reveal_strlit("vector");
    reveal_strlit("_vector");
    if ends_with(n, "range"@) {
        let r = "range"@;
        let ur = "_range"@;
        assert(r.len() == 5 && r[0] == 'r' && r[1] == 'a' && r[2] == 'n' && r[3] == 'g' && r[4]
            == 'e');
        assert(ur.len() == 6 && ur[0] == '_' && ur[1] == 'r' && ur[2] == 'a' && ur[3] == 'n'
            && ur[4] == 'g' && ur[5] == 'e');
        let p = n.subrange(0, n.len() - 5);
        let t = p + ur;
        assert(suffixed_name(n) == t);
        // the character before the inserted underscore is not itself an
        // underscore: the name would end in `_range`
        if p.len() > 0 && p[p.len() - 1] == '_' {
            assert(n.subrange(n.len() - 6, n.len() as int) =~= ur);
            assert(false);
        }
        assert forall|i: int| 0 <= i < t.len() implies word_char_ok(#[trigger] t[i]) by {
            if i < p.len() {
                assert(t[i] == n[i]);
            } else {
                assert(t[i] == ur[i - p.len()]);
            }
        }
        assert forall|i: int| 1 <= i < t.len() && #[trigger] t[i] == '_' implies i + 1 < t.len()
            && is_lower_char(t[i + 1]) by {
            if i < p.len() {
                assert(t[i] == n[i]);
                assert(i + 1 < p.len());
                assert(t[i + 1] == n[i + 1]);
            } else {
                assert(i == p.len());
                assert(t[i + 1] == ur[1]);
            }
        }
        if t[0] == '_' {
            if p.len() == 0 {
                assert(t =~= ur);
                assert(is_lower_char(t[1]));
            } else {
                assert(t[0] == n[0]);
                assert(t[1] == if p.len() == 1 { ur[1] } else { n[1] });
                assert(is_lower_char(t[1]));
            }
        } else {
            assert(t[0] == n[0]);
        }
        lemma_array_word_ok(t);
    } else if ends_with(n, "vector"@) {
        let r = "vector"@;
        let ur = "_vector"@;
        assert(r.len() == 6 && r[0] == 'v' && r[1] == 'e' && r[2] == 'c' && r[3] == 't' && r[4]
            == 'o' && r[5] == 'r');
        assert(ur.len() == 7 && ur[0] == '_' && ur[1] == 'v' && ur[2] == 'e' && ur[3] == 'c'
            && ur[4] == 't' && ur[5] == 'o' && ur[6] == 'r');
        let p = n.subrange(0, n.len() - 6);
        let t = p + ur;
        assert(suffixed_name(n) == t);
        if p.len() > 0 && p[p.len() - 1] == '_' {
            assert(n.subrange(n.len() - 7, n.len() as int) =~= ur);
            assert(false);
        }
        assert forall|i: int| 0 <= i < t.len() implies word_char_ok(#[trigger] t[i]) by {
            if i < p.len() {
                assert(t[i] == n[i]);
            } else {
                assert(t[i] == ur[i - p.len()]);
            }
        }
        assert forall|i: int| 1 <= i < t.len() && #[trigger] t[i] == '_' implies i + 1 < t.len()
            && is_lower_char(t[i + 1]) by {
            if i < p.len() {
                assert(t[i] == n[i]);
                assert(i + 1 < p.len());
                assert(t[i + 1] == n[i + 1]);
            } else {
                assert(i == p.len());
                assert(t[i + 1] == ur[1]);
            }
        }
        if t[0] == '_' {
            if p.len() == 0 {
                assert(t =~= ur);
                assert(is_lower_char(t[1]));
            } else {
                assert(t[0] == n[0]);
                assert(t[1] == if p.len() == 1 { ur[1] } else { n[1] });
                assert(is_lower_char(t[1]));
            }
        } else {
            assert(t[0] == n[0]);
        }
        lemma_array_word_ok(t);
    } else {
        assert(suffixed_name(n) == n);
        lemma_array_word_ok(n);
    }
}

/// What the suffix rule yields never ends in `_array`.
pub proof fn lemma_suffixed_no_array_end(n: Seq<char>)
    requires
        name_ok(n),
        n != "anyarray"@,
    ensures
        !ends_with(suffixed_name(n), "_array"@),
{
    reveal_strlit("range");
    reveal_strlit("_range");
    reveal_strlit("vector");
    reveal_strlit("_vector");
    reveal_strlit("array");
    reveal_strlit("_array");
    let a = "_array"@;
    let t = suffixed_name(n);
    if ends_with(t, a) {
        assert(t[t.len() - 1] == a[5]);
        assert(a[5] == 'y');
        if ends_with(n, "range"@) {
            assert(t[t.len() - 1] == "_range"@[5]);
            assert(false);
        } else if ends_with(n, "vector"@) {
            assert(t[t.len() - 1] == "_vector"@[6]);
            assert(false);
        } else {
            assert(t == n);
            let ar = "array"@;
            assert(ar.len() == 5 && ar[0] == 'a' && ar[1] == 'r' && ar[2] == 'r' && ar[3] == 'a'
                && ar[4] == 'y');
            assert(a.len() == 6 && a[0] == '_' && a[1] == 'a' && a[2] == 'r' && a[3] == 'r'
                && a[4] == 'a' && a[5] == 'y');
            let s6 = n.subrange(n.len() - 6, n.len() as int);
            assert(s6 == a);
            assert forall|k: int| 0 <= k < 5 implies n.subrange(n.len() - 5, n.len() as int)[k]
                == ar[k] by {
                assert(n[n.len() - 6 + (k + 1)] == s6[k + 1]);
                assert(s6[k + 1] == a[k + 1]);
            }
            assert(n.subrange(n.len() - 5, n.len() as int) =~= ar);
            assert(ends_with(n, "array"@));
            assert(false);
        }
    }
}

/// The array rule is injective over words that do not already end in
/// `_array`.
pub proof fn lemma_array_name_inj(t1: Seq<char>, t2: Seq<char>)
    requires
        t1.len() > 0,
        t2.len() > 0,
        !ends_with(t1, "_array"@),
        !ends_with(t2, "_array"@),
        array_name(t1) == array_name(t2),
    ensures
        t1 == t2,
{
    reveal_strlit("_array");
    let a = "_array"@;
    if t1[0] == '_' && t2[0] == '_' {
        let u = t1.subrange(1, t1.len() as int) + a;
        assert(u == t2.subrange(1, t2.len() as int) + a);
        assert(t1.len() == t2.len());
        assert forall|i: int| 0 <= i < t1.len() implies t1[i] == t2[i] by {
            if i >= 1 {
                assert(t1[i] == u[i - 1]);
                assert(t2[i] == u[i - 1]);
            }
        }
        assert(t1 =~= t2);
    } else if t1[0] == '_' {
        let u = t1.subrange(1, t1.len() as int) + a;
        assert(t2 == u);
        assert(t2.subrange(t2.len() - 6, t2.len() as int) =~= a);
        assert(false);
    } else if t2[0] == '_' {
        let u = t2.subrange(1, t2.len() as int) + a;
        assert(t1 == u);
        assert(t1.subrange(t1.len() - 6, t1.len() as int) =~= a);
        assert(false);
    } else {
    }
}

/// The suffix rule is injective over catalog-shaped names.
pub proof fn lemma_suffixed_inj(n1: Seq<char>, n2: Seq<char>)
    requires
        name_ok(n1),
        name_ok(n2),
        suffixed_name(n1) == suffixed_name(n2),
    ensures
        n1 == n2,
{
    reveal_strlit("range");
    reveal_strlit("_range");
    reveal_strlit("vector");
    reveal_strlit("_vector");
    let t = suffixed_name(n1);
    if ends_with(n1, "range"@) && ends_with(n2, "range"@) {
        let p1 = n1.subrange(0, n1.len() - 5);
        let p2 = n2.subrange(0, n2.len() - 5);
        assert(p1 + "_range"@ == p2 + "_range"@);
        assert(p1.len() == p2.len());
        assert forall|i: int| 0 <= i < p1.len() implies p1[i] == p2[i] by {
            assert(p1[i] == (p1 + "_range"@)[i]);
            assert(p2[i] == (p2 + "_range"@)[i]);
        }
        assert(n1.len() == n2.len());
        assert forall|i: int| 0 <= i < n1.len() implies n1[i] == n2[i] by {
            if i < n1.len() - 5 {
                assert(n1[i] == p1[i]);
                assert(n2[i] == p2[i]);
            } else {
                assert(n1[i] == n1.subrange(n1.len() - 5, n1.len() as int)[i - (n1.len() - 5)]);
                assert(n2[i] == n2.subrange(n2.len() - 5, n2.len() as int)[i - (n2.len() - 5)]);
            }
        }
        assert(n1 =~= n2);
    } else if ends_with(n1, "range"@) && !ends_with(n2, "range"@) {
        if ends_with(n2, "vector"@) {
            assert(t[t.len() - 1] == "_range"@[5]);
            assert(t[t.len() - 1] == "_vector"@[6]);
            assert(false);
        } else {
            assert(t == n2);
            assert(n2.subrange(n2.len() - 5, n2.len() as int) =~= "range"@);
            assert(false);
        }
    } else if !ends_with(n1, "range"@) && ends_with(n2, "range"@) {
        if ends_with(n1, "vector"@) {
            assert(t[t.len() - 1] == "_vector"@[6]);
            assert(t[t.len() - 1] == "_range"@[5]);
            assert(false);
        } else {
            assert(t == n1);
            assert(n1.subrange(n1.len() - 5, n1.len() as int) =~= "range"@);
            assert(false);
        }
    } else if ends_with(n1, "vector"@) && ends_with(n2, "vector"@) {
        let p1 = n1.subrange(0, n1.len() - 6);
        let p2 = n2.subrange(0, n2.len() - 6);
        assert(p1 + "_vector"@ == p2 + "_vector"@);
        assert(p1.len() == p2.len());
        assert forall|i: int| 0 <= i < p1.len() implies p1[i] == p2[i] by {
            assert(p1[i] == (p1 + "_vector"@)[i]);
            assert(p2[i] == (p2 + "_vector"@)[i]);
        }
        assert(n1.len() == n2.len());
        assert forall|i: int| 0 <= i < n1.len() implies n1[i] == n2[i] by {
            if i < n1.len() - 6 {
                assert(n1[i] == p1[i]);
                assert(n2[i] == p2[i]);
            } else {
                assert(n1[i] == n1.subrange(n1.len() - 6, n1.len() as int)[i - (n1.len() - 6)]);
                assert(n2[i] == n2.subrange(n2.len() - 6, n2.len() as int)[i - (n2.len() - 6)]);
            }
        }
        assert(n1 =~= n2);
    } else if ends_with(n1, "vector"@) && !ends_with(n2, "vector"@) {
        assert(t == n2);
        assert(n2.subrange(n2.len() - 6, n2.len() as int) =~= "vector"@);
        assert(false);
    } else if !ends_with(n1, "vector"@) && ends_with(n2, "vector"@) {
        assert(t == n1);
        assert(n1.subrange(n1.len() - 6, n1.len() as int) =~= "vector"@);
        assert(false);
    } else {
        assert(t == n1);
        assert(t == n2);
    }
}

/// The fixed label `AnyArray` names no other catalog-shaped name.
pub proof fn lemma_not_anyarray_label(n: Seq<char>)
    requires
        name_ok(n),
        n != "anyarray"@,
    ensures
        variant_spec(n) != "AnyArray"@,
{
    reveal_strlit("anyarray");
    reveal_strlit("AnyArray");
    reveal_strlit("any_array");
    reveal_strlit("_any");
    reveal_strlit("range");
    reveal_strlit("_range");
    reveal_strlit("vector");
    reveal_strlit("_vector");
    reveal_strlit("_array");
    let w = "any_array"@;
    assert(w.len() == 9 && w[0] == 'a' && w[1] == 'n' && w[2] == 'y' && w[3] == '_' && w[4] == 'a'
        && w[5] == 'r' && w[6] == 'r' && w[7] == 'a' && w[8] == 'y');
    assert(word_ok(w)) by {
        assert forall|i: int| 0 <= i < w.len() implies word_char_ok(#[trigger] w[i]) by {}
        assert forall|i: int| 0 <= i < w.len() && #[trigger] w[i] == '_' implies i + 1 < w.len()
            && is_lower_char(w[i + 1]) by {
            assert(i == 3);
        }
    }
    assert(camel_of(w) == "AnyArray"@) by {
        reveal_with_fuel(camel_acc, 11);
        assert(camel_of(w) =~= "AnyArray"@);
    }
    if variant_spec(n) == "AnyArray"@ {
        lemma_name_word_ok(n);
        let t = suffixed_name(n);
        let u = array_name(t);
        lemma_camel_inj(u, w);
        assert(u == w);
        lemma_suffixed_no_array_end(n);
        if t.len() > 0 && t[0] == '_' {
            let x = t.subrange(1, t.len() as int);
            assert(x + "_array"@ == w);
            assert(x.len() == 3);
            assert forall|i: int| 0 <= i < 3 implies x[i] == w[i] by {
                assert(x[i] == (x + "_array"@)[i]);
            }
            assert(t =~= "_any"@);
            if ends_with(n, "range"@) {
                assert(t[t.len() - 1] == "_range"@[5]);
                assert(false);
            } else if ends_with(n, "vector"@) {
                assert(t[t.len() - 1] == "_vector"@[6]);
                assert(false);
            } else {
                assert(n == t);
                assert(false);
            }
        } else {
            assert(u == t);
            assert(t.subrange(t.len() - 6, t.len() as int) =~= "_array"@);
            assert(ends_with(t, "_array"@));
            assert(false);
        }
    }
}

/// Injectivity of the deriver: over catalog-shaped names, no two distinct
/// names yield the same variant label.
pub proof fn lemma_variant_injective(n1: Seq<char>, n2: Seq<char>)
    requires
        name_ok(n1),
        name_ok(n2),
        variant_spec(n1) == variant_spec(n2),
    ensures
        n1 == n2,
{
    if n1 == "anyarray"@ && n2 == "anyarray"@ {
    } else if n1 == "anyarray"@ {
        lemma_not_anyarray_label(n2);
        assert(false);
    } else if n2 == "anyarray"@ {
        lemma_not_anyarray_label(n1);
        assert(false);
    } else {
        lemma_name_word_ok(n1);
        lemma_name_word_ok(n2);
        lemma_camel_inj(array_name(suffixed_name(n1)), array_name(suffixed_name(n2)));
        lemma_suffixed_no_array_end(n1);
        lemma_suffixed_no_array_end(n2);
        lemma_array_name_inj(suffixed_name(n1), suffixed_name(n2));
        lemma_suffixed_inj(n1, n2);
    }
}

/// The deriver on ordinary strings: the label of `name`.
pub fn variant_label(name: &str) -> (r: String)
    ensures
        r@ == variant_spec(name@),
{
    let chars = str_to_chars(name);
    let v = variant_name(&chars);
    crate::text::chars_to_string(&v)
}

} // verus!
