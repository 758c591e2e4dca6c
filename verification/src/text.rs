//! Character-level helpers on strings and byte strings.
use vstd::prelude::*;
use vstd::string::{StrSliceExecFns, StringExecFns};
use vstd::utf8::{decode_utf8, valid_utf8};

verus! {

/// `i` is where `x` first occurs in `s`.
pub open spec fn is_first_occurrence<A>(s: Seq<A>, x: A, i: int) -> bool {
    &&& 0 <= i < s.len()
    &&& s[i] == x
    &&& forall|j: int| 0 <= j < i ==> s[j] != x
}

/// The part of `s` before the first `x`, or all of `s` when `x` does not occur.
pub open spec fn before_first<A>(s: Seq<A>, x: A) -> Seq<A> {
    if exists|i: int| is_first_occurrence(s, x, i) {
        s.take(choose|i: int| is_first_occurrence(s, x, i))
    } else {
        s
    }
}

/// The part of `s` after the first `x`, when `x` occurs.
pub open spec fn after_first<A>(s: Seq<A>, x: A) -> Option<Seq<A>> {
    if exists|i: int| is_first_occurrence(s, x, i) {
        Some(s.skip((choose|i: int| is_first_occurrence(s, x, i)) + 1))
    } else {
        None
    }
}

/// The characters of `s`, in order.
pub fn chars_of(s: &str) -> (r: Vec<char>)
    ensures
        r@ == s@,
{
    let mut r: Vec<char> = Vec::new();
    for c in it: s.chars()
        invariant
            r@ == it.seq().take(it.index() as int),
            it.seq() == s@,
    {
        r.push(c);
    }
    r
}

/// Where `c` first occurs in `s`, if it does.
pub fn find_char(s: &[char], c: char) -> (r: Option<usize>)
    ensures
        r matches Some(i) ==> is_first_occurrence(s@, c, i as int),
        r is None ==> forall|j: int| 0 <= j < s@.len() ==> s@[j] != c,
{
    let mut i: usize = 0;
    while i < s.len()
        invariant
            i <= s@.len(),
            forall|j: int| 0 <= j < i ==> s@[j] != c,
        decreases s@.len() - i,
    {
        if s[i] == c {
            return Some(i);
        }
        i = i + 1;
    }
    None
}

/// Where the byte `b` first occurs in `s`, if it does.
pub fn find_byte(s: &[u8], b: u8) -> (r: Option<usize>)
    ensures
        r matches Some(i) ==> is_first_occurrence(s@, b, i as int),
        r is None ==> forall|j: int| 0 <= j < s@.len() ==> s@[j] != b,
{
    let mut i: usize = 0;
    while i < s.len()
        invariant
            i <= s@.len(),
            forall|j: int| 0 <= j < i ==> s@[j] != b,
        decreases s@.len() - i,
    {
        if s[i] == b {
            return Some(i);
        }
        i = i + 1;
    }
    None
}

/// The first occurrence is the only one that qualifies.
pub proof fn lemma_first_occurrence_unique<A>(s: Seq<A>, x: A, i: int, k: int)
    requires
        is_first_occurrence(s, x, i),
        is_first_occurrence(s, x, k),
    ensures
        i == k,
{
}

/// Where `x` first occurs fixes what lies before and after it.
pub proof fn lemma_split_at_first<A>(s: Seq<A>, x: A, i: int)
    requires
        is_first_occurrence(s, x, i),
    ensures
        before_first(s, x) == s.take(i),
        after_first(s, x) == Some(s.skip(i + 1)),
{
    let k: int = choose|k: int| is_first_occurrence(s, x, k);
    lemma_first_occurrence_unique(s, x, i, k);
}

/// Without `x`, nothing is cut off and nothing follows.
pub proof fn lemma_split_without<A>(s: Seq<A>, x: A)
    requires
        forall|j: int| 0 <= j < s.len() ==> s[j] != x,
    ensures
        before_first(s, x) == s,
        after_first(s, x) is None,
{
    assert(!exists|i: int| is_first_occurrence(s, x, i));
}

/// The part of `s` before its first `c` (all of `s` when there is none):
/// `s.split(c).next().unwrap()`.
pub fn prefix_before(s: &str, c: char) -> (r: String)
    ensures
        r@ == before_first(s@, c),
{
    let cs = chars_of(s);
    match find_char(cs.as_slice(), c) {
        Some(i) => {
            proof {
                lemma_split_at_first(s@, c, i as int);
            }
            s.substring_char(0, i).to_owned()
        },
        None => {
            proof {
                lemma_split_without(s@, c);
            }
            s.to_owned()
        },
    }
}

/// Whether two strings hold the same characters.
pub fn str_equal(a: &str, b: &str) -> (r: bool)
    ensures
        r == (a@ == b@),
{
    let x = a.to_owned();
    let y = b.to_owned();
    x == y
}

/// `String::push`: appends one character.
#[verifier::external_body]
pub fn string_push(s: &mut String, c: char)
    ensures
        final(s)@ == old(s)@.push(c),
{
    s.push(c)
}

/// What `String::from_utf8_lossy` makes of the bytes `b`.
pub uninterp spec fn utf8_lossy(b: Seq<u8>) -> Seq<char>;

/// `String::from_utf8_lossy`, owned: the text of `b` with each invalid
/// sequence replaced by U+FFFD. Valid UTF-8 comes through unchanged, which
/// the second clause states.
#[verifier::external_body]
pub fn string_from_utf8_lossy(b: &[u8]) -> (s: String)
    ensures
        s@ == utf8_lossy(b@),
        valid_utf8(b@) ==> s@ == decode_utf8(b@),
{
    String::from_utf8_lossy(b).into_owned()
}

} // verus!
