//! Text normalization and the fuzzy matching rule used on search results.
//!
//! A candidate string matches a query when, after both are reduced to their
//! alphanumeric characters and lower-cased, the reduced query occurs inside
//! the reduced candidate as a contiguous substring.

use vstd::prelude::*;
use vstd::string::StrSliceExecFns;

verus! {

/// Whether the character counts as alphanumeric for the matching rule.
pub uninterp spec fn is_alnum(c: char) -> bool;

/// Whether the character is numeric, as the identifier extraction rule
/// understands it.
pub uninterp spec fn is_num(c: char) -> bool;

/// Whether the character is whitespace for trimming and collapsing.
pub uninterp spec fn is_wspace(c: char) -> bool;

/// What lower-casing a string yields; a function of the characters alone.
pub uninterp spec fn lower_of(s: Seq<char>) -> Seq<char>;

/// Relies on char::is_alphanumeric: a pure classification of the character.
pub assume_specification[ char::is_alphanumeric ](c: char) -> (r: bool)
    ensures
        r == is_alnum(c),
;

/// Relies on char::is_numeric: a pure classification of the character.
pub assume_specification[ char::is_numeric ](c: char) -> (r: bool)
    ensures
        r == is_num(c),
;

/// Relies on char::is_whitespace: a pure classification of the character.
pub assume_specification[ char::is_whitespace ](c: char) -> (r: bool)
    ensures
        r == is_wspace(c),
;

/// Relies on str::to_lowercase: the result depends on the characters alone,
/// and an empty string stays empty.
#[verifier::external_body]
pub fn lowercase(s: &str) -> (r: String)
    ensures
        r@ == lower_of(s@),
        s@.len() == 0 ==> r@.len() == 0,
{
    s.to_lowercase()
}

/// Relies on String::push: appends one character.
#[verifier::external_body]
fn push_char(s: &mut String, c: char)
    ensures
        final(s)@ == old(s)@.push(c),
{
    s.push(c);
}

/// The characters of `s`, in order, as a vector.
pub fn chars_vec(s: &str) -> (v: Vec<char>)
    ensures
        v@ == s@,
{
    let len = s.unicode_len();
    let mut v: Vec<char> = Vec::new();
    let mut i: usize = 0;
    while i < len
        invariant
            len == s@.len(),
            i <= len,
            v@ == s@.subrange(0, i as int),
        decreases len - i,
    {
        v.push(s.get_char(i));
        assert(v@ =~= s@.subrange(0, i + 1));
        i += 1;
    }
    assert(v@ =~= s@);
    v
}

/// The string holding exactly the characters of `v`.
pub fn chars_to_string(v: &Vec<char>) -> (s: String)
    ensures
        s@ == v@,
{
    let mut s = String::new();
    let mut i: usize = 0;
    while i < v.len()
        invariant
            i <= v@.len(),
            s@ == v@.subrange(0, i as int),
        decreases v@.len() - i,
    {
        push_char(&mut s, v[i]);
        assert(s@ =~= v@.subrange(0, i + 1));
        i += 1;
    }
    assert(s@ =~= v@);
    s
}

/// The subsequence of the alphanumeric characters of `s`, in order.
pub open spec fn alnum_only(s: Seq<char>) -> Seq<char>
    decreases s.len(),
{
    if s.len() == 0 {
        Seq::empty()
    } else if is_alnum(s[0]) {
        seq![s[0]] + alnum_only(s.drop_first())
    } else {
        alnum_only(s.drop_first())
    }
}

proof fn lemma_alnum_only_skip_step(s: Seq<char>, i: int, acc: Seq<char>)
    requires
        0 <= i < s.len(),
        alnum_only(s) == acc + alnum_only(s.skip(i)),
    ensures
        is_alnum(s[i]) ==> alnum_only(s) == acc.push(s[i]) + alnum_only(s.skip(i + 1)),
        !is_alnum(s[i]) ==> alnum_only(s) == acc + alnum_only(s.skip(i + 1)),
{
    assert(s.skip(i)[0] == s[i]);
    assert(s.skip(i).drop_first() =~= s.skip(i + 1));
    if is_alnum(s[i]) {
        assert(alnum_only(s.skip(i)) == seq![s[i]] + alnum_only(s.skip(i + 1)));
        assert(acc + (seq![s[i]] + alnum_only(s.skip(i + 1))) =~= acc.push(s[i]) + alnum_only(
            s.skip(i + 1),
        ));
    }
}

/// The reduced form a string is matched in: alphanumeric characters only,
/// lower-cased.
pub open spec fn reduced(s: Seq<char>) -> Seq<char> {
    lower_of(alnum_only(s))
}

/// The reduced form of a string: its alphanumeric characters, lower-cased.
pub fn clean_string(input: &str) -> (r: String)
    ensures
        r@ == reduced(input@),
{
    let v = chars_vec(input);
    let mut kept: Vec<char> = Vec::new();
    let mut i: usize = 0;
    proof {
        assert(v@.skip(0) =~= v@);
    }
    while i < v.len()
        invariant
            i <= v@.len(),
            v@ == input@,
            alnum_only(input@) == kept@ + alnum_only(v@.skip(i as int)),
        decreases v@.len() - i,
    {
        proof {
            lemma_alnum_only_skip_step(v@, i as int, kept@);
        }
        if v[i].is_alphanumeric() {
            kept.push(v[i]);
        }
        i += 1;
    }
    proof {
        assert(v@.skip(v@.len() as int) =~= Seq::<char>::empty());
        assert(kept@ + Seq::<char>::empty() =~= kept@);
    }
    let filtered = chars_to_string(&kept);
    lowercase(filtered.as_str())
}

/// Whether `needle` occurs in `hay` as a contiguous substring.
pub open spec fn contains_seq(hay: Seq<char>, needle: Seq<char>) -> bool {
    exists|i: int|
        0 <= i <= hay.len() - needle.len() && #[trigger] hay.subrange(i, i + needle.len())
            == needle
}

/// Substring search over character vectors.
fn seq_contains(hay: &Vec<char>, needle: &Vec<char>) -> (r: bool)
    ensures
        r == contains_seq(hay@, needle@),
{
    let m = needle.len();
    let n = hay.len();
    if m > n {
        assert(!contains_seq(hay@, needle@));
        return false;
    }
    let mut i: usize = 0;
    while i <= n - m
        invariant
            m == needle@.len(),
            n == hay@.len(),
            m <= n,
            i <= n - m + 1,
            forall|k: int|
                0 <= k < i ==> #[trigger] hay@.subrange(k, k + needle@.len()) != needle@,
        decreases n - i,
    {
        let mut j: usize = 0;
        let mut mismatch = false;
        while j < m
            invariant
                m == needle@.len(),
                n == hay@.len(),
                m <= n,
                i <= n - m,
                j <= m,
                !mismatch ==> forall|t: int| 0 <= t < j ==> hay@[i + t] == needle@[t],
                mismatch ==> hay@.subrange(i as int, i + needle@.len()) != needle@,
                mismatch ==> m > 0,
            decreases m - j,
        {
            if hay[i + j] != needle[j] {
                proof {
                    assert(hay@.subrange(i as int, i + needle@.len())[j as int] == hay@[i + j]);
                }
                mismatch = true;
                j = m;
            } else {
                j += 1;
            }
        }
        if !mismatch {
            proof {
                assert(hay@.subrange(i as int, i + needle@.len()) =~= needle@);
            }
            return true;
        }
        i += 1;
    }
    proof {
        assert forall|k: int| 0 <= k <= hay@.len() - needle@.len() implies #[trigger] hay@.subrange(
            k,
            k + needle@.len(),
        ) != needle@ by {
            assert(k < i);
        }
    }
    false
}

/// Index of the first occurrence of `c` in `s`, if any.
pub open spec fn find_char(s: Seq<char>, c: char) -> Option<int>
    decreases s.len(),
{
    if s.len() == 0 {
        None
    } else if s[0] == c {
        Some(0)
    } else {
        match find_char(s.drop_first(), c) {
            Some(i) => Some(i + 1),
            None => None,
        }
    }
}

/// What `find_char` finds is the first occurrence.
pub proof fn lemma_find_char(s: Seq<char>, c: char)
    ensures
        match find_char(s, c) {
            Some(i) => 0 <= i < s.len() && s[i] == c && forall|j: int| 0 <= j < i ==> s[j] != c,
            None => forall|j: int| 0 <= j < s.len() ==> s[j] != c,
        },
    decreases s.len(),
{
    if s.len() > 0 && s[0] != c {
        let t = s.drop_first();
        lemma_find_char(t, c);
        match find_char(t, c) {
            Some(i) => {
                assert(s[i + 1] == t[i]);
                assert forall|j: int| 0 <= j < i + 1 implies s[j] != c by {
                    if j >= 1 {
                        assert(t[j - 1] == s[j]);
                        assert(t[j - 1] != c);
                    }
                }
            },
            None => {
                assert forall|j: int| 0 <= j < s.len() implies s[j] != c by {
                    if j >= 1 {
                        assert(t[j - 1] == s[j]);
                        assert(t[j - 1] != c);
                    }
                }
            },
        }
    }
}

/// The prefix of `s` before the first occurrence of `c`, or all of `s`.
pub open spec fn before_char(s: Seq<char>, c: char) -> Seq<char> {
    match find_char(s, c) {
        Some(i) => s.take(i),
        None => s,
    }
}

/// Finds the first occurrence of `c` in the vector.
pub fn find_in_vec(v: &Vec<char>, c: char) -> (r: Option<usize>)
    ensures
        match r {
            Some(i) => find_char(v@, c) == Some(i as int),
            None => find_char(v@, c) is None,
        },
{
    proof {
        lemma_find_char(v@, c);
    }
    let mut i: usize = 0;
    while i < v.len()
        invariant
            i <= v@.len(),
            forall|j: int| 0 <= j < i ==> v@[j] != c,
            match find_char(v@, c) {
                Some(k) => 0 <= k < v@.len() && v@[k] == c && forall|j: int|
                    0 <= j < k ==> v@[j] != c,
                None => forall|j: int| 0 <= j < v@.len() ==> v@[j] != c,
            },
        decreases v@.len() - i,
    {
        if v[i] == c {
            proof {
                if find_char(v@, c) is None {
                    assert(v@[i as int] != c);
                }
                let k = find_char(v@, c)->Some_0;
                if k < i {
                    assert(v@[k] != c);
                }
                if k > i {
                    assert(v@[i as int] != c);
                }
            }
            return Some(i);
        }
        i += 1;
    }
    proof {
        if find_char(v@, c) is Some {
            let k = find_char(v@, c)->Some_0;
            assert(v@[k] != c);
        }
    }
    None
}

/// Length of the run of whitespace characters at the head of `s`.
pub open spec fn ws_run_len(s: Seq<char>) -> nat
    decreases s.len(),
{
    if s.len() > 0 && is_wspace(s[0]) {
        1 + ws_run_len(s.drop_first())
    } else {
        0
    }
}

proof fn lemma_ws_run_len_le(s: Seq<char>)
    ensures
        ws_run_len(s) <= s.len(),
    decreases s.len(),
{
    if s.len() > 0 && is_wspace(s[0]) {
        lemma_ws_run_len_le(s.drop_first());
    }
}

proof fn lemma_ws_run_len_at(s: Seq<char>, k: int)
    requires
        0 <= k <= s.len(),
        forall|m: int| 0 <= m < k ==> is_wspace(s[m]),
        k == s.len() || !is_wspace(s[k]),
    ensures
        ws_run_len(s) == k,
    decreases s.len(),
{
    if s.len() > 0 && is_wspace(s[0]) {
        assert(k >= 1) by {
            if k == 0 {
                assert(!is_wspace(s[0]));
            }
        }
        let t = s.drop_first();
        assert(forall|m: int| 0 <= m < k - 1 ==> is_wspace(#[trigger] t[m]));
        assert(k - 1 == t.len() || !is_wspace(t[k - 1]));
        lemma_ws_run_len_at(t, k - 1);
    } else {
        assert(k == 0) by {
            if k > 0 {
                assert(is_wspace(s[0]));
            }
        }
    }
}

/// `s` with its leading whitespace removed.
pub open spec fn trim_start(s: Seq<char>) -> Seq<char>
    decreases s.len(),
{
    if s.len() > 0 && is_wspace(s[0]) {
        trim_start(s.drop_first())
    } else {
        s
    }
}

/// `s` with its trailing whitespace removed.
pub open spec fn trim_end(s: Seq<char>) -> Seq<char>
    decreases s.len(),
{
    if s.len() > 0 && is_wspace(s.last()) {
        trim_end(s.drop_last())
    } else {
        s
    }
}

/// `s` with leading and trailing whitespace removed.
pub open spec fn trimmed(s: Seq<char>) -> Seq<char> {
    trim_end(trim_start(s))
}

proof fn lemma_trim_start_skip(s: Seq<char>, a: int)
    requires
        0 <= a <= s.len(),
        forall|m: int| 0 <= m < a ==> is_wspace(s[m]),
        a == s.len() || !is_wspace(s[a]),
    ensures
        trim_start(s) == s.skip(a),
    decreases s.len(),
{
    if s.len() > 0 && is_wspace(s[0]) {
        assert(a >= 1) by {
            if a == 0 {
                assert(!is_wspace(s[0]));
            }
        }
        let t = s.drop_first();
        assert(forall|m: int| 0 <= m < a - 1 ==> is_wspace(#[trigger] t[m]));
        assert(a - 1 == t.len() || !is_wspace(t[a - 1]));
        lemma_trim_start_skip(t, a - 1);
        assert(t.skip(a - 1) =~= s.skip(a));
    } else {
        assert(a == 0) by {
            if a > 0 {
                assert(is_wspace(s[0]));
            }
        }
        assert(s.skip(0) =~= s);
    }
}

proof fn lemma_trim_end_take(s: Seq<char>, b: int)
    requires
        0 <= b <= s.len(),
        forall|m: int| b <= m < s.len() ==> is_wspace(s[m]),
        b == 0 || !is_wspace(s[b - 1]),
    ensures
        trim_end(s) == s.take(b),
    decreases s.len(),
{
    if s.len() > 0 && is_wspace(s.last()) {
        assert(b < s.len()) by {
            if b == s.len() {
                assert(!is_wspace(s[b - 1]));
            }
        }
        let t = s.drop_last();
        assert(forall|m: int| b <= m < t.len() ==> is_wspace(#[trigger] t[m]));
        assert(b == 0 || !is_wspace(t[b - 1]));
        lemma_trim_end_take(t, b);
        assert(t.take(b) =~= s.take(b));
    } else {
        assert(b == s.len()) by {
            if b < s.len() {
                assert(is_wspace(s[s.len() - 1]));
            }
        }
        assert(s.take(s.len() as int) =~= s);
    }
}

/// `s` with every run of two or more whitespace characters replaced by one
/// space; a single whitespace character stays as it is.
pub open spec fn collapse_ws(s: Seq<char>) -> Seq<char>
    decreases s.len(),
    via collapse_ws_decreases
{
    if s.len() == 0 {
        Seq::empty()
    } else if s.len() >= 2 && is_wspace(s[0]) && is_wspace(s[1]) {
        seq![' '] + collapse_ws(s.skip(ws_run_len(s) as int))
    } else {
        seq![s[0]] + collapse_ws(s.drop_first())
    }
}

#[via_fn]
proof fn collapse_ws_decreases(s: Seq<char>) {
    lemma_ws_run_len_le(s);
}

/// The fully normalized form of a free-text field: trimmed, with inner
/// whitespace runs collapsed.
pub open spec fn normalized_text(s: Seq<char>) -> Seq<char> {
    collapse_ws(trimmed(s))
}

/// Removes leading and trailing whitespace from a character vector.
pub(crate) fn trim_chars(v: &Vec<char>) -> (t: Vec<char>)
    ensures
        t@ == trimmed(v@),
{
    let n = v.len();
    let mut a: usize = 0;
    while a < n && v[a].is_whitespace()
        invariant
            n == v@.len(),
            a <= n,
            forall|m: int| 0 <= m < a ==> is_wspace(v@[m]),
        decreases n - a,
    {
        a += 1;
    }
    proof {
        lemma_trim_start_skip(v@, a as int);
    }
    if a == n {
        proof {
            assert(v@.skip(a as int) =~= Seq::<char>::empty());
            assert(trim_end(Seq::<char>::empty()) == Seq::<char>::empty());
        }
        let t: Vec<char> = Vec::new();
        return t;
    }
    let mut b: usize = n;
    while b > a + 1 && v[b - 1].is_whitespace()
        invariant
            n == v@.len(),
            a < n,
            a + 1 <= b <= n,
            forall|m: int| b <= m < n ==> is_wspace(v@[m]),
        decreases b,
    {
        b -= 1;
    }
    // either the character before b is not whitespace, or b is a + 1 and
    // v[a] is not whitespace by the choice of a
    proof {
        let s = v@.skip(a as int);
        assert(forall|m: int| b - a <= m < s.len() ==> is_wspace(#[trigger] s[m]));
        assert(!is_wspace(s[b - 1 - a]));
        lemma_trim_end_take(s, b - a);
    }
    let mut t: Vec<char> = Vec::new();
    let mut i: usize = a;
    while i < b
        invariant
            n == v@.len(),
            a <= i <= b <= n,
            t@ == v@.subrange(a as int, i as int),
        decreases b - i,
    {
        t.push(v[i]);
        assert(t@ =~= v@.subrange(a as int, i + 1));
        i += 1;
    }
    proof {
        assert(v@.skip(a as int).take(b - a as int) =~= v@.subrange(a as int, b as int));
    }
    t
}

/// Collapses every whitespace run of length two or more to a single space.
fn collapse_chars(t: &Vec<char>) -> (out: Vec<char>)
    ensures
        out@ == collapse_ws(t@),
{
    let n = t.len();
    let mut out: Vec<char> = Vec::new();
    let mut i: usize = 0;
    proof {
        assert(t@.skip(0) =~= t@);
    }
    while i < n
        invariant
            n == t@.len(),
            i <= n,
            collapse_ws(t@) == out@ + collapse_ws(t@.skip(i as int)),
        decreases n - i,
    {
        let ghost rest = t@.skip(i as int);
        if t[i].is_whitespace() && i + 1 < n && t[i + 1].is_whitespace() {
            let mut j: usize = i;
            while j < n && t[j].is_whitespace()
                invariant
                    n == t@.len(),
                    i <= j <= n,
                    forall|m: int| i <= m < j ==> is_wspace(t@[m]),
                decreases n - j,
            {
                j += 1;
            }
            proof {
                assert(forall|m: int| 0 <= m < j - i ==> is_wspace(#[trigger] rest[m]));
                assert(j - i == rest.len() || !is_wspace(rest[j - i]));
                lemma_ws_run_len_at(rest, j - i);
                assert(rest[0] == t@[i as int] && rest[1] == t@[i + 1]);
                assert(collapse_ws(rest) == seq![' '] + collapse_ws(
                    rest.skip(ws_run_len(rest) as int),
                ));
                assert(rest.skip(j - i) =~= t@.skip(j as int));
                assert(out@ + (seq![' '] + collapse_ws(t@.skip(j as int))) =~= out@.push(' ')
                    + collapse_ws(t@.skip(j as int)));
            }
            out.push(' ');
            i = j;
        } else {
            proof {
                assert(rest[0] == t@[i as int]);
                if rest.len() >= 2 {
                    assert(rest[1] == t@[i + 1]);
                }
                assert(collapse_ws(rest) == seq![rest[0]] + collapse_ws(rest.drop_first()));
                assert(rest.drop_first() =~= t@.skip(i + 1));
                assert(out@ + (seq![t@[i as int]] + collapse_ws(t@.skip(i + 1))) =~= out@.push(
                    t@[i as int],
                ) + collapse_ws(t@.skip(i + 1)));
            }
            out.push(t[i]);
            i += 1;
        }
    }
    proof {
        assert(t@.skip(n as int) =~= Seq::<char>::empty());
        assert(out@ + Seq::<char>::empty() =~= out@);
    }
    out
}

/// The normalized form of a free-text field: trimmed, inner whitespace runs
/// collapsed to one space.
pub fn normalize_text(s: &str) -> (r: String)
    ensures
        r@ == normalized_text(s@),
{
    let v = chars_vec(s);
    let t = trim_chars(&v);
    let c = collapse_chars(&t);
    chars_to_string(&c)
}

/// Whether the reduced `query` occurs inside the reduced `candidate`.
pub open spec fn spec_matches(candidate: Seq<char>, query: Seq<char>) -> bool {
    contains_seq(reduced(candidate), reduced(query))
}

/// The fuzzy match between a search-result string and the caller's query.
pub fn matches(candidate: &str, query: &str) -> (r: bool)
    ensures
        r == spec_matches(candidate@, query@),
{
    let c = clean_string(candidate);
    let q = clean_string(query);
    let cv = chars_vec(c.as_str());
    let qv = chars_vec(q.as_str());
    seq_contains(&cv, &qv)
}

/// Every string matches itself: the reduced form of a string always contains
/// itself as a substring.
pub proof fn lemma_matches_reflexive(a: Seq<char>)
    ensures
        spec_matches(a, a),
{
    let r = reduced(a);
    assert(r.subrange(0, 0 + r.len() as int) =~= r);
    assert(contains_seq(r, r));
}

proof fn lemma_alnum_only_concat(a: Seq<char>, b: Seq<char>)
    ensures
        alnum_only(a + b) == alnum_only(a) + alnum_only(b),
    decreases a.len(),
{
    if a.len() == 0 {
        assert(a + b =~= b);
        assert(alnum_only(a) + alnum_only(b) =~= alnum_only(b));
    } else {
        assert((a + b).drop_first() =~= a.drop_first() + b);
        lemma_alnum_only_concat(a.drop_first(), b);
        assert((a + b)[0] == a[0]);
        if is_alnum(a[0]) {
            assert(seq![a[0]] + (alnum_only(a.drop_first()) + alnum_only(b)) =~= (seq![a[0]]
                + alnum_only(a.drop_first())) + alnum_only(b));
        }
    }
}

/// Inserting a non-alphanumeric character — punctuation or whitespace —
/// anywhere in a string leaves its reduced form unchanged.
pub proof fn lemma_insert_non_alnum_preserves_reduced(s: Seq<char>, i: int, c: char)
    requires
        0 <= i <= s.len(),
        !is_alnum(c),
    ensures
        reduced(s.insert(i, c)) == reduced(s),
{
    assert(s.insert(i, c) =~= s.take(i) + (seq![c] + s.skip(i)));
    lemma_alnum_only_concat(s.take(i), seq![c] + s.skip(i));
    lemma_alnum_only_concat(seq![c], s.skip(i));
    assert(alnum_only(seq![c]) =~= Seq::<char>::empty()) by {
        assert(seq![c].len() == 1);
        assert(seq![c][0] == c);
        assert(seq![c].drop_first() =~= Seq::<char>::empty());
        assert(alnum_only(seq![c]) == alnum_only(seq![c].drop_first()));
        assert(alnum_only(Seq::<char>::empty()) == Seq::<char>::empty());
    }
    assert(alnum_only(seq![c]) + alnum_only(s.skip(i)) =~= alnum_only(s.skip(i)));
    lemma_alnum_only_concat(s.take(i), s.skip(i));
    assert(s.take(i) + s.skip(i) =~= s);
    assert(alnum_only(s.insert(i, c)) == alnum_only(s));
}

/// The match is invariant under punctuation or whitespace inserted in either
/// argument: the decision does not change.
pub proof fn lemma_matches_ignores_inserted_punctuation(
    candidate: Seq<char>,
    i: int,
    c: char,
    query: Seq<char>,
    j: int,
    d: char,
)
    requires
        0 <= i <= candidate.len(),
        0 <= j <= query.len(),
        !is_alnum(c),
        !is_alnum(d),
    ensures
        spec_matches(candidate.insert(i, c), query.insert(j, d)) == spec_matches(
            candidate,
            query,
        ),
{
    lemma_insert_non_alnum_preserves_reduced(candidate, i, c);
    lemma_insert_non_alnum_preserves_reduced(query, j, d);
}

/// The match is invariant under inserted punctuation or whitespace on either
/// side: two candidates and two queries that reduce alike decide alike.
pub proof fn lemma_matches_reduction_invariant(
    a1: Seq<char>,
    a2: Seq<char>,
    b1: Seq<char>,
    b2: Seq<char>,
)
    requires
        alnum_only(a1) == alnum_only(a2),
        alnum_only(b1) == alnum_only(b2),
    ensures
        spec_matches(a1, b1) == spec_matches(a2, b2),
{
}

/// The match fails whenever the reduced query is not a substring of the
/// reduced candidate.
pub proof fn lemma_matches_needs_substring(candidate: Seq<char>, query: Seq<char>)
    ensures
        !contains_seq(reduced(candidate), reduced(query)) ==> !spec_matches(candidate, query),
{
}

} // verus!
