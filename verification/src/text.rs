//! Small character-level helpers over `&str`, specified over `Seq<char>`.

use vstd::prelude::*;

verus! {

broadcast use vstd::string::axiom_spec_iter;

/// Collects the characters of `s` in order.
pub fn chars_of(s: &str) -> (out: Vec<char>)
    ensures
        out@ == s@,
{
    let mut out: Vec<char> = Vec::new();
    for c in it: s.chars()
        invariant
            out@ == it.seq().take(it.index()),
    {
        out.push(c);
        assert(out@ =~= it.seq().take(it.index() + 1));
    }
    out
}


/// The ASCII upper-case form of `c`; every other character is unchanged.
pub open spec fn ascii_upper(c: char) -> char {
    if 'a' <= c && c <= 'z' {
        ((c as u32) - 32) as char
    } else {
        c
    }
}

/// ASCII upper-casing turns each of `a`..`z` into the capital 32 code points
/// below it and changes no other character; it never yields a lower-case
/// ASCII letter, and it keeps letters and digits letters and digits.
pub proof fn lemma_ascii_upper(c: char)
    ensures
        !('a' <= ascii_upper(c) && ascii_upper(c) <= 'z'),
        ('a' <= c && c <= 'z') ==> ascii_upper(c) as u32 + 32 == c as u32,
        !('a' <= c && c <= 'z') ==> ascii_upper(c) == c,
        ascii_upper(ascii_upper(c)) == ascii_upper(c),
        is_ascii_alnum(ascii_upper(c)) == is_ascii_alnum(c),
{
}

/// Whether `c` is an ASCII letter or digit.
pub open spec fn is_ascii_alnum(c: char) -> bool {
    ('0' <= c && c <= '9') || ('A' <= c && c <= 'Z') || ('a' <= c && c <= 'z')
}

/// `needle` occurs in `hay` as a contiguous run.
pub open spec fn contains_run(hay: Seq<char>, needle: Seq<char>) -> bool {
    exists|i: int|
        0 <= i && i + needle.len() <= hay.len() && #[trigger] hay.subrange(i, i + needle.len())
            == needle
}

fn upper_char(c: char) -> (u: char)
    ensures
        u == ascii_upper(c),
{
    if 'a' <= c && c <= 'z' {
        ((c as u8) - 32) as char
    } else {
        c
    }
}

/// The ASCII upper-case form of every character of `chars`.
pub fn to_ascii_upper(chars: &Vec<char>) -> (out: Vec<char>)
    ensures
        out@ == chars@.map_values(|c: char| ascii_upper(c)),
{
    let mut out: Vec<char> = Vec::new();
    let mut i: usize = 0;
    while i < chars.len()
        invariant
            i <= chars.len(),
            out@ == chars@.take(i as int).map_values(|c: char| ascii_upper(c)),
        decreases chars.len() - i,
    {
        out.push(upper_char(chars[i]));
        assert(chars@.take(i + 1) =~= chars@.take(i as int).push(chars@[i as int]));
        i += 1;
        assert(out@ =~= chars@.take(i as int).map_values(|c: char| ascii_upper(c)));
    }
    assert(chars@.take(i as int) =~= chars@);
    out
}


/// The ASCII letters and digits of `chars`, in order.
pub fn keep_ascii_alnum(chars: &Vec<char>) -> (out: Vec<char>)
    ensures
        out@ == chars@.filter(|c: char| is_ascii_alnum(c)),
{
    let mut out: Vec<char> = Vec::new();
    let mut i: usize = 0;
    while i < chars.len()
        invariant
            i <= chars.len(),
            out@ == chars@.take(i as int).filter(|c: char| is_ascii_alnum(c)),
        decreases chars.len() - i,
    {
        let c = chars[i];
        proof {
            reveal(Seq::filter);
            assert(chars@.take(i + 1).drop_last() =~= chars@.take(i as int));
        }
        if ('0' <= c && c <= '9') || ('A' <= c && c <= 'Z') || ('a' <= c && c <= 'z') {
            out.push(c);
        }
        i += 1;
    }
    assert(chars@.take(i as int) =~= chars@);
    out
}

/// Whether `a` and `b` hold the same characters.
pub fn same_chars(a: &Vec<char>, b: &Vec<char>) -> (eq: bool)
    ensures
        eq == (a@ == b@),
{
    if a.len() != b.len() {
        return false;
    }
    let mut i: usize = 0;
    while i < a.len()
        invariant
            a.len() == b.len(),
            i <= a.len(),
            forall|k: int| 0 <= k < i ==> a@[k] == b@[k],
        decreases a.len() - i,
    {
        if a[i] != b[i] {
            return false;
        }
        i += 1;
    }
    assert(a@ =~= b@);
    true
}

/// Whether the characters of `needle` occur as a contiguous run in `hay`.
pub fn contains_chars(hay: &Vec<char>, needle: &Vec<char>) -> (found: bool)
    ensures
        found == contains_run(hay@, needle@),
{
    if needle.len() > hay.len() {
        return false;
    }
    if needle.len() == 0 {
        assert(hay@.subrange(0int, 0int + needle@.len()) =~= needle@);
        return true;
    }
    let last = hay.len() - needle.len();
    let mut start: usize = 0;
    while start <= last
        invariant
            last == hay.len() - needle.len(),
            0 < needle.len() <= hay.len(),
            forall|i: int|
                0 <= i < start ==> #[trigger] hay@.subrange(i, i + needle@.len()) != needle@,
        decreases last + 1 - start,
    {
        let mut k: usize = 0;
        let mut matched = true;
        while k < needle.len()
            invariant
                start <= last,
                last == hay.len() - needle.len(),
                k <= needle.len(),
                matched ==> forall|j: int| 0 <= j < k ==> hay@[start + j] == needle@[j],
                !matched ==> hay@.subrange(start as int, start + needle@.len()) != needle@,
            decreases needle.len() - k,
        {
            if hay[start + k] != needle[k] {
                matched = false;
                assert(hay@.subrange(start as int, start + needle@.len())[k as int] != needle@[k as int]);
            }
            k += 1;
        }
        if matched {
            assert(hay@.subrange(start as int, start + needle@.len()) =~= needle@);
            return true;
        }
        start += 1;
    }
    assert forall|i: int|
        0 <= i && i + needle@.len() <= hay@.len() implies #[trigger] hay@.subrange(
        i,
        i + needle@.len(),
    ) != needle@ by {
        assert(i < start);
    }
    false
}

} // verus!
