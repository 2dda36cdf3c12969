//! Text: list ids derived from names, and the order in which names sort.

use vstd::prelude::*;

verus! {

/// The lower-case form of a text, as the standard library's Unicode tables
/// give it.
pub uninterp spec fn lowercase_of(s: Seq<char>) -> Seq<char>;

/// Calls `str::to_lowercase`. The contract only names the result: the
/// lower-case form is a function of the text alone.
#[verifier::external_body]
pub(crate) fn to_lowercase(s: &str) -> (lower: String)
    ensures
        lower@ == lowercase_of(s@),
{
    s.to_lowercase()
}

/// Calls `String::push`: the character is appended.
#[verifier::external_body]
pub(crate) fn push_char(s: &mut String, c: char)
    ensures
        final(s)@ == old(s)@.push(c),
{
    s.push(c)
}

/// Calls `str::eq`: two texts are equal exactly if they hold the same
/// characters.
#[verifier::external_body]
pub(crate) fn same_text(a: &str, b: &str) -> (same: bool)
    ensures
        same == (a@ == b@),
{
    a == b
}

/// A character of an id: a space becomes a hyphen, anything else stays.
pub open spec fn hyphen_for_space(c: char) -> char {
    if c == ' ' {
        '-'
    } else {
        c
    }
}

/// A text with each space replaced by a hyphen.
pub open spec fn hyphenated(s: Seq<char>) -> Seq<char> {
    Seq::new(s.len(), |i: int| hyphen_for_space(s[i]))
}

/// The id under which a list of this name is stored: the name in lower
/// case, with a hyphen for each space.
pub open spec fn slug_of(name: Seq<char>) -> Seq<char> {
    hyphenated(lowercase_of(name))
}

/// The characters of a text, in order.
pub fn chars_of(s: &str) -> (chars: Vec<char>)
    ensures
        chars@ == s@,
{
    let mut chars: Vec<char> = Vec::new();
    for c in it: s.chars()
        invariant
            it.seq() == s@,
            chars@ == s@.take(it.index()),
    {
        chars.push(c);
        assert(s@.take(it.index() + 1) =~= s@.take(it.index()).push(s@[it.index()]));
    }
    assert(s@.take(s@.len() as int) =~= s@);
    chars
}

/// Replaces each space by a hyphen.
pub fn hyphenate(s: &str) -> (out: String)
    ensures
        out@ == hyphenated(s@),
{
    let mut out = String::new();
    for c in it: s.chars()
        invariant
            it.seq() == s@,
            out@ == hyphenated(s@).take(it.index()),
    {
        push_char(&mut out, if c == ' ' { '-' } else { c });
        assert(hyphenated(s@).take(it.index() + 1) =~= hyphenated(s@).take(it.index()).push(
            hyphen_for_space(s@[it.index()]),
        ));
    }
    assert(hyphenated(s@).take(s@.len() as int) =~= hyphenated(s@));
    out
}

/// Derives a list's id from its name.
pub fn slugify(name: &str) -> (id: String)
    ensures
        id@ == slug_of(name@),
{
    let lower = to_lowercase(name);
    hyphenate(lower.as_str())
}

/// `a` and `b` hold the same characters in their first `k` places.
pub open spec fn agree_upto(a: Seq<char>, b: Seq<char>, k: int) -> bool {
    &&& 0 <= k <= a.len()
    &&& k <= b.len()
    &&& forall|i: int| 0 <= i < k ==> a[i] == b[i]
}

/// The first `k` places agree, and at place `k` the text `a` has ended or
/// holds the smaller character while `b` goes on.
pub open spec fn decides_before(a: Seq<char>, b: Seq<char>, k: int) -> bool {
    &&& agree_upto(a, b, k)
    &&& k < b.len()
    &&& (k == a.len() || a[k] < b[k])
}

/// Whether `a` sorts strictly before `b`: character by character, by code
/// point, a proper prefix before what extends it.
pub open spec fn sorts_before(a: Seq<char>, b: Seq<char>) -> bool {
    exists|k: int| decides_before(a, b, k)
}

/// The place where the comparison of `a` and `b` is settled: the first
/// where they differ, or where one of them ends.
pub open spec fn settles_at(a: Seq<char>, b: Seq<char>, k: int) -> bool {
    &&& agree_upto(a, b, k)
    &&& (k == a.len() || k == b.len() || a[k] != b[k])
}

/// Where the comparison is settled at `k`, `a` sorts before `b` exactly if
/// place `k` decides so.
pub proof fn lemma_settled(a: Seq<char>, b: Seq<char>, k: int)
    requires
        settles_at(a, b, k),
    ensures
        sorts_before(a, b) == decides_before(a, b, k),
        sorts_before(b, a) == decides_before(b, a, k),
        a == b <==> (k == a.len() && k == b.len()),
{
    assert forall|j: int| decides_before(a, b, j) implies j == k by {
        if j < k {
            assert(a[j] == b[j]);
        } else if j > k {
            assert(a[k] == b[k]);
        }
    }
    assert forall|j: int| decides_before(b, a, j) implies j == k by {
        if j < k {
            assert(a[j] == b[j]);
        } else if j > k {
            assert(a[k] == b[k]);
        }
    }
    if k == a.len() && k == b.len() {
        assert(a =~= b);
    }
}

/// Every comparison is settled somewhere at or after a place up to which
/// the two texts agree.
pub proof fn lemma_settles(a: Seq<char>, b: Seq<char>, from: int) -> (k: int)
    requires
        agree_upto(a, b, from),
    ensures
        settles_at(a, b, k),
    decreases a.len() - from,
{
    if from == a.len() || from == b.len() || a[from] != b[from] {
        from
    } else {
        lemma_settles(a, b, from + 1)
    }
}

/// Of two texts, one sorts before the other or they are the same text,
/// and only one of the three.
pub proof fn lemma_order_total(a: Seq<char>, b: Seq<char>)
    ensures
        sorts_before(a, b) || sorts_before(b, a) || a == b,
        !(sorts_before(a, b) && sorts_before(b, a)),
        !(sorts_before(a, b) && a == b),
{
    let k = lemma_settles(a, b, 0);
    lemma_settled(a, b, k);
}

/// Sorting before is transitive.
pub proof fn lemma_order_transitive(a: Seq<char>, b: Seq<char>, c: Seq<char>)
    requires
        sorts_before(a, b),
        sorts_before(b, c),
    ensures
        sorts_before(a, c),
{
    let k1 = choose|k: int| decides_before(a, b, k);
    let k2 = choose|k: int| decides_before(b, c, k);
    let k = if k1 <= k2 { k1 } else { k2 };
    assert(decides_before(a, c, k));
}

/// Tells whether `a` sorts strictly before `b`.
pub fn precedes(a: &Vec<char>, b: &Vec<char>) -> (before: bool)
    ensures
        before == sorts_before(a@, b@),
{
    let mut i: usize = 0;
    while i < a.len() && i < b.len()
        invariant
            agree_upto(a@, b@, i as int),
        decreases a.len() - i,
    {
        if a[i] != b[i] {
            proof {
                lemma_settled(a@, b@, i as int);
            }
            return a[i] < b[i];
        }
        i += 1;
    }
    proof {
        lemma_settled(a@, b@, i as int);
    }
    i < b.len()
}

} // verus!
