use vstd::prelude::*;

verus! {

/// `needle` occurs in `hay` starting at position `i`.
pub open spec fn occurs_at(hay: Seq<char>, needle: Seq<char>, i: int) -> bool {
    0 <= i && i + needle.len() <= hay.len() && hay.subrange(i, i + needle.len()) == needle
}

/// `needle` is a substring of `hay` (the empty needle is a substring of
/// every text).
pub open spec fn contains(hay: Seq<char>, needle: Seq<char>) -> bool {
    exists|i: int| occurs_at(hay, needle, i)
}

/// Some line of `lines` contains `needle`.
pub open spec fn any_line_contains(lines: Seq<Seq<char>>, needle: Seq<char>) -> bool {
    exists|k: int| 0 <= k < lines.len() && contains(#[trigger] lines[k], needle)
}

/// `k` is the index of the first line of `lines` that contains `needle`.
pub open spec fn is_first_match(lines: Seq<Seq<char>>, needle: Seq<char>, k: int) -> bool {
    &&& 0 <= k < lines.len()
    &&& contains(lines[k], needle)
    &&& forall|j: int| 0 <= j < k ==> !contains(#[trigger] lines[j], needle)
}

/// The characters of `s`, in order.
fn chars_of(s: &str) -> (v: Vec<char>)
    ensures
        v@ == s@,
{
    let mut v: Vec<char> = Vec::new();
    for c in it: s.chars()
        invariant
            it.seq() == s@,
            v@ == s@.subrange(0, it.index() as int),
    {
        assert(c == s@[v@.len() as int]);
        v.push(c);
        assert(v@ =~= s@.subrange(0, v@.len() as int));
    }
    assert(v@ =~= s@);
    v
}

/// Whether `needle` occurs in `hay` at position `i`.
fn occurs_at_exec(hay: &Vec<char>, needle: &Vec<char>, i: usize) -> (r: bool)
    requires
        i + needle@.len() <= hay@.len(),
    ensures
        r == occurs_at(hay@, needle@, i as int),
{
    let hay_len: usize = hay.len();
    let mut j: usize = 0;
    while j < needle.len()
        invariant
            hay_len == hay@.len(),
            i + needle@.len() <= hay@.len(),
            j <= needle@.len(),
            forall|t: int| 0 <= t < j ==> hay@[i + t] == needle@[t],
        decreases needle@.len() - j,
    {
        if hay[i + j] != needle[j] {
            assert(hay@.subrange(i as int, i + needle@.len())[j as int] != needle@[j as int]);
            return false;
        }
        j = j + 1;
    }
    assert(hay@.subrange(i as int, i + needle@.len()) =~= needle@);
    true
}

/// Whether `needle` is a substring of `hay`, on character sequences.
fn contains_chars(hay: &Vec<char>, needle: &Vec<char>) -> (r: bool)
    ensures
        r == contains(hay@, needle@),
{
    if needle.len() > hay.len() {
        return false;
    }
    let last: usize = hay.len() - needle.len();
    let mut i: usize = 0;
    while i < last
        invariant
            last == hay@.len() - needle@.len(),
            i <= last,
            forall|t: int| 0 <= t < i ==> !occurs_at(hay@, needle@, t),
        decreases last - i,
    {
        if occurs_at_exec(hay, needle, i) {
            return true;
        }
        i = i + 1;
    }
    occurs_at_exec(hay, needle, last)
}

/// Whether `needle` is a substring of `line` (case-sensitive, exact).
pub fn line_contains(line: &str, needle: &str) -> (r: bool)
    ensures
        r == contains(line@, needle@),
{
    let hay = chars_of(line);
    let pat = chars_of(needle);
    contains_chars(&hay, &pat)
}

/// Scans `lines` in order for the first line containing `needle` and stops
/// there. Returns whether one was found and how many lines were examined:
/// up to and including the first match, or all of them when none matches.
pub fn scan_first_match(lines: &Vec<String>, needle: &str) -> (r: (bool, usize))
    ensures
        r.0 == any_line_contains(lines.deep_view(), needle@),
        r.0 ==> r.1 >= 1 && is_first_match(lines.deep_view(), needle@, r.1 - 1),
        !r.0 ==> r.1 == lines.len(),
{
    let pat = chars_of(needle);
    let mut k: usize = 0;
    while k < lines.len()
        invariant
            pat@ == needle@,
            k <= lines.len(),
            forall|j: int| 0 <= j < k ==> !contains(#[trigger] lines.deep_view()[j], needle@),
        decreases lines.len() - k,
    {
        let hay = chars_of(lines[k].as_str());
        if contains_chars(&hay, &pat) {
            assert(lines.deep_view()[k as int] == hay@);
            return (true, k + 1);
        }
        k = k + 1;
    }
    (false, k)
}

/// Whether some line of `lines` contains `needle`; lines after the first
/// match are not examined.
pub fn search_first_match(lines: &Vec<String>, needle: &str) -> (r: bool)
    ensures
        r == any_line_contains(lines.deep_view(), needle@),
{
    scan_first_match(lines, needle).0
}

} // verus!
