//! Sanitization of submitted text: literal deletion of a fixed set of
//! forbidden substrings, repeated until none is left.

use vstd::prelude::*;
use crate::chars::{from_chars, to_chars};

verus! {

/// How many substrings sanitization strips.
pub const FORBIDDEN_COUNT: usize = 7;

/// The forbidden substrings, in the order one pass strips them.
pub open spec fn forbidden_patterns() -> Seq<Seq<char>> {
    seq![
        seq!['<'],
        seq!['>'],
        seq!['"'],
        seq!['\''],
        seq![';'],
        seq!['-', '-'],
        seq!['s', 'c', 'r', 'i', 'p', 't'],
    ]
}

/// `p` stands in `s` starting at index `i`.
pub open spec fn occurs_at(s: Seq<char>, p: Seq<char>, i: int) -> bool {
    0 <= i && i + p.len() <= s.len() && s.subrange(i, i + p.len()) == p
}

/// `p` is a substring of `s`.
pub open spec fn contains(s: Seq<char>, p: Seq<char>) -> bool {
    exists|i: int| occurs_at(s, p, i)
}

/// No forbidden substring stands anywhere in `s`.
pub open spec fn is_clean(s: Seq<char>) -> bool {
    forall|k: int| 0 <= k < forbidden_patterns().len() ==> !contains(s, #[trigger] forbidden_patterns()[k])
}

/// `s` with every occurrence of `p` deleted, scanning from the left and
/// matching occurrences that do not overlap.
pub open spec fn remove_all(s: Seq<char>, p: Seq<char>) -> Seq<char>
    decreases s.len(),
{
    if s.len() == 0 {
        s
    } else if p.len() > 0 && p.len() <= s.len() && s.subrange(0, p.len() as int) == p {
        remove_all(s.subrange(p.len() as int, s.len() as int), p)
    } else {
        seq![s[0]] + remove_all(s.subrange(1, s.len() as int), p)
    }
}

/// The forbidden substrings from the `k`-th on, deleted from `s` one after another.
pub open spec fn strip_from(s: Seq<char>, k: nat) -> Seq<char>
    decreases forbidden_patterns().len() - k,
{
    if k >= forbidden_patterns().len() {
        s
    } else {
        strip_from(remove_all(s, forbidden_patterns()[k as int]), k + 1)
    }
}

/// One pass of sanitization: each forbidden substring deleted in turn.
pub open spec fn strip_pass(s: Seq<char>) -> Seq<char> {
    strip_from(s, 0)
}

/// Sanitized text: passes repeated until one deletes nothing.
pub open spec fn sanitized(s: Seq<char>) -> Seq<char>
    decreases s.len(),
{
    let t = strip_pass(s);
    if t.len() < s.len() {
        sanitized(t)
    } else {
        s
    }
}

proof fn lemma_remove_all_len(s: Seq<char>, p: Seq<char>)
    ensures
        remove_all(s, p).len() <= s.len(),
        remove_all(s, p).len() == s.len() ==> remove_all(s, p) == s,
        p.len() > 0 && contains(s, p) ==> remove_all(s, p).len() < s.len(),
    decreases s.len(),
{
    if s.len() == 0 {
    } else if p.len() > 0 && p.len() <= s.len() && s.subrange(0, p.len() as int) == p {
        lemma_remove_all_len(s.subrange(p.len() as int, s.len() as int), p);
    } else {
        let tail = s.subrange(1, s.len() as int);
        lemma_remove_all_len(tail, p);
        if remove_all(s, p).len() == s.len() {
            assert(remove_all(s, p) =~= s);
        }
        if p.len() > 0 && contains(s, p) {
            let i = choose|i: int| occurs_at(s, p, i);
            assert(i != 0);
            assert(occurs_at(tail, p, i - 1)) by {
                assert(tail.subrange(i - 1, i - 1 + p.len()) =~= s.subrange(i, i + p.len()));
            }
        }
    }
}

proof fn lemma_strip_from(s: Seq<char>, k: nat)
    requires
        k <= forbidden_patterns().len(),
    ensures
        strip_from(s, k).len() <= s.len(),
        strip_from(s, k).len() == s.len() ==> strip_from(s, k) == s,
        strip_from(s, k).len() == s.len() ==> forall|j: int|
            k <= j < forbidden_patterns().len() ==> !contains(s, #[trigger] forbidden_patterns()[j]),
    decreases forbidden_patterns().len() - k,
{
    if k < forbidden_patterns().len() {
        let p = forbidden_patterns()[k as int];
        let t = remove_all(s, p);
        assert(p.len() > 0);
        lemma_remove_all_len(s, p);
        lemma_strip_from(t, k + 1);
    }
}

proof fn lemma_remove_absent(s: Seq<char>, p: Seq<char>)
    requires
        p.len() > 0,
        !contains(s, p),
    ensures
        remove_all(s, p) == s,
    decreases s.len(),
{
    if s.len() > 0 {
        let tail = s.subrange(1, s.len() as int);
        assert(!occurs_at(s, p, 0));
        assert forall|i: int| !occurs_at(tail, p, i) by {
            if occurs_at(tail, p, i) {
                assert(s.subrange(i + 1, i + 1 + p.len()) =~= tail.subrange(i, i + p.len()));
                assert(occurs_at(s, p, i + 1));
            }
        }
        lemma_remove_absent(tail, p);
        assert(seq![s[0]] + tail =~= s);
    }
}

proof fn lemma_strip_clean(s: Seq<char>, k: nat)
    requires
        k <= forbidden_patterns().len(),
        is_clean(s),
    ensures
        strip_from(s, k) == s,
    decreases forbidden_patterns().len() - k,
{
    if k < forbidden_patterns().len() {
        let p = forbidden_patterns()[k as int];
        assert(!contains(s, p));
        lemma_remove_absent(s, p);
        lemma_strip_clean(s, k + 1);
    }
}

/// Text that holds no forbidden substring is left as it is.
pub proof fn lemma_clean_unchanged(s: Seq<char>)
    requires
        is_clean(s),
    ensures
        sanitized(s) == s,
{
    lemma_strip_clean(s, 0);
}

/// Sanitizing twice gives what sanitizing once gives.
pub proof fn lemma_sanitize_idempotent(s: Seq<char>)
    ensures
        sanitized(sanitized(s)) == sanitized(s),
{
    lemma_sanitized_clean(s);
    lemma_clean_unchanged(sanitized(s));
}

/// `c` stands somewhere in `s`.
pub open spec fn has_char(s: Seq<char>, c: char) -> bool {
    exists|i: int| 0 <= i < s.len() && s[i] == c
}

/// `c` is part of some forbidden substring.
pub open spec fn is_forbidden_char(c: char) -> bool {
    exists|k: int| 0 <= k < forbidden_patterns().len() && #[trigger] has_char(forbidden_patterns()[k], c)
}

proof fn lemma_remove_keeps_char(s: Seq<char>, p: Seq<char>, c: char)
    requires
        has_char(s, c),
        !has_char(p, c),
    ensures
        has_char(remove_all(s, p), c),
    decreases s.len(),
{
    let i = choose|i: int| 0 <= i < s.len() && s[i] == c;
    if p.len() > 0 && p.len() <= s.len() && s.subrange(0, p.len() as int) == p {
        let tail = s.subrange(p.len() as int, s.len() as int);
        if i < p.len() {
            assert(p[i] == c);
        }
        assert(tail[i - p.len()] == c);
        lemma_remove_keeps_char(tail, p, c);
    } else {
        let tail = s.subrange(1, s.len() as int);
        let r = remove_all(s, p);
        if i == 0 {
            assert(r[0] == c);
        } else {
            assert(tail[i - 1] == c);
            lemma_remove_keeps_char(tail, p, c);
            let j = choose|j: int| 0 <= j < remove_all(tail, p).len() && remove_all(tail, p)[j] == c;
            assert(r[j + 1] == c);
        }
    }
}

proof fn lemma_strip_keeps_char(s: Seq<char>, k: nat, c: char)
    requires
        k <= forbidden_patterns().len(),
        has_char(s, c),
        !is_forbidden_char(c),
    ensures
        has_char(strip_from(s, k), c),
    decreases forbidden_patterns().len() - k,
{
    if k < forbidden_patterns().len() {
        let p = forbidden_patterns()[k as int];
        assert(!has_char(p, c));
        lemma_remove_keeps_char(s, p, c);
        lemma_strip_keeps_char(remove_all(s, p), k + 1, c);
    }
}

/// A character that belongs to no forbidden substring survives sanitization.
pub proof fn lemma_sanitize_keeps_char(s: Seq<char>, c: char)
    requires
        has_char(s, c),
        !is_forbidden_char(c),
    ensures
        has_char(sanitized(s), c),
    decreases s.len(),
{
    lemma_strip_keeps_char(s, 0, c);
    let t = strip_pass(s);
    if t.len() < s.len() {
        lemma_sanitize_keeps_char(t, c);
    }
}

/// Sanitized text holds no forbidden substring, and is never longer than the input.
pub proof fn lemma_sanitized_clean(s: Seq<char>)
    ensures
        is_clean(sanitized(s)),
        sanitized(s).len() <= s.len(),
    decreases s.len(),
{
    let t = strip_pass(s);
    lemma_strip_from(s, 0);
    if t.len() < s.len() {
        lemma_sanitized_clean(t);
    }
}

/// Whether `p` stands in `s` at index `i`.
pub(crate) fn occurs_at_exec(s: &Vec<char>, p: &Vec<char>, i: usize) -> (r: bool)
    requires
        i <= s.len(),
    ensures
        r == occurs_at(s@, p@, i as int),
{
    if p.len() > s.len() - i {
        return false;
    }
    let mut j: usize = 0;
    while j < p.len()
        invariant
            j <= p.len(),
            i + p.len() <= s.len(),
            forall|m: int| 0 <= m < j ==> s@[i + m] == p@[m],
        decreases p.len() - j,
    {
        if s[i + j] != p[j] {
            assert(s@.subrange(i as int, i + p.len())[j as int] != p@[j as int]);
            return false;
        }
        j = j + 1;
    }
    assert(s@.subrange(i as int, i + p.len()) =~= p@);
    true
}

/// `s` with every occurrence of `p` deleted.
fn remove_pattern(s: &Vec<char>, p: &Vec<char>) -> (r: Vec<char>)
    requires
        p.len() > 0,
    ensures
        r@ == remove_all(s@, p@),
{
    let mut r: Vec<char> = Vec::new();
    let mut i: usize = 0;
    assert(s@.subrange(0, s.len() as int) =~= s@);
    while i < s.len()
        invariant
            i <= s.len(),
            p.len() > 0,
            r@ + remove_all(s@.subrange(i as int, s.len() as int), p@) == remove_all(s@, p@),
        decreases s.len() - i,
    {
        let rest = Ghost(s@.subrange(i as int, s.len() as int));
        if occurs_at_exec(s, p, i) {
            assert(rest@.subrange(0, p.len() as int) =~= s@.subrange(i as int, i + p.len()));
            assert(rest@.subrange(p.len() as int, rest@.len() as int) =~= s@.subrange(i + p.len(), s.len() as int));
            i = i + p.len();
        } else {
            assert(!(p.len() <= rest@.len() && rest@.subrange(0, p.len() as int) == p@)) by {
                if p.len() <= rest@.len() {
                    assert(rest@.subrange(0, p.len() as int) =~= s@.subrange(i as int, i + p.len()));
                }
            }
            assert(rest@.subrange(1, rest@.len() as int) =~= s@.subrange(i + 1, s.len() as int));
            assert(r@.push(s@[i as int]) + remove_all(s@.subrange(i + 1, s.len() as int), p@)
                =~= r@ + remove_all(rest@, p@));
            r.push(s[i]);
            i = i + 1;
        }
    }
    assert(r@ + remove_all(s@.subrange(i as int, s.len() as int), p@) =~= r@);
    r
}

/// The `k`-th forbidden substring.
fn forbidden_pattern(k: usize) -> (p: Vec<char>)
    requires
        k < FORBIDDEN_COUNT,
    ensures
        p@ == forbidden_patterns()[k as int],
{
    let p = match k {
        0 => vec!['<'],
        1 => vec!['>'],
        2 => vec!['"'],
        3 => vec!['\''],
        4 => vec![';'],
        5 => vec!['-', '-'],
        _ => vec!['s', 'c', 'r', 'i', 'p', 't'],
    };
    assert(p@ =~= forbidden_patterns()[k as int]);
    p
}

/// One pass: each forbidden substring deleted in turn.
fn strip_once(s: &Vec<char>) -> (r: Vec<char>)
    ensures
        r@ == strip_pass(s@),
{
    let mut cur = s.clone();
    let mut k: usize = 0;
    assert(cur@ == s@);
    while k < FORBIDDEN_COUNT
        invariant
            k <= FORBIDDEN_COUNT,
            FORBIDDEN_COUNT == forbidden_patterns().len(),
            strip_from(cur@, k as nat) == strip_pass(s@),
        decreases FORBIDDEN_COUNT - k,
    {
        let p = forbidden_pattern(k);
        cur = remove_pattern(&cur, &p);
        k = k + 1;
    }
    cur
}

/// Deletes every forbidden substring from `text`, repeating until none is
/// left: the result holds none of them, even where a deletion brought a new
/// one together (`"<<script>>"` becomes empty).
pub fn sanitize_text(text: &mut String)
    ensures
        final(text)@ == sanitized(old(text)@),
        is_clean(final(text)@),
{
    let mut cur = to_chars(text.as_str());
    assert(sanitized(old(text)@) == sanitized(cur@));
    let mut next = strip_once(&cur);
    while next.len() < cur.len()
        invariant
            next@ == strip_pass(cur@),
            sanitized(cur@) == sanitized(old(text)@),
        decreases cur.len(),
    {
        cur = next;
        next = strip_once(&cur);
    }
    assert(sanitized(cur@) == cur@);
    proof {
        lemma_sanitized_clean(cur@);
    }
    *text = from_chars(&cur);
}

} // verus!
