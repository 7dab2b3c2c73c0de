//! Finding the definition file of a package in the collection's manifest.

use vstd::prelude::*;

verus! {

/// The pieces of `s` between occurrences of `sep`, with `cur` already read.
pub open spec fn pieces_after(s: Seq<char>, sep: char, cur: Seq<char>) -> Seq<Seq<char>>
    decreases s.len(),
{
    if s.len() == 0 {
        seq![cur]
    } else if s[0] == sep {
        seq![cur] + pieces_after(s.drop_first(), sep, Seq::empty())
    } else {
        pieces_after(s.drop_first(), sep, cur.push(s[0]))
    }
}

/// The pieces of `s` between occurrences of `sep`, empty ones included.
pub open spec fn pieces(s: Seq<char>, sep: char) -> Seq<Seq<char>> {
    pieces_after(s, sep, Seq::empty())
}

/// Whether `needle` occurs in `s` at `i`.
pub open spec fn occurs_at(s: Seq<char>, needle: Seq<char>, i: int) -> bool {
    0 <= i && i + needle.len() <= s.len() && s.subrange(i, i + needle.len()) == needle
}

/// Whether `needle` occurs in `s`.
pub open spec fn contains(s: Seq<char>, needle: Seq<char>) -> bool {
    exists|i: int| occurs_at(s, needle, i)
}

/// The text that the manifest line of `package` holds: ` <package> = `.
pub open spec fn entry_needle(package: Seq<char>) -> Seq<char> {
    seq![' '] + package + seq![' ', '=', ' ']
}

/// The first of `lines` that holds `needle`.
pub open spec fn first_holding(lines: Seq<Seq<char>>, needle: Seq<char>) -> Option<Seq<char>>
    decreases lines.len(),
{
    if lines.len() == 0 {
        None
    } else if contains(lines[0], needle) {
        Some(lines[0])
    } else {
        first_holding(lines.drop_first(), needle)
    }
}

/// The path of `package`'s definition directory, read from `manifest`: on
/// the first line that holds ` <package> = `, the sixth space-separated
/// field without its first three characters.
pub open spec fn package_path_of(manifest: Seq<char>, package: Seq<char>) -> Option<Seq<char>> {
    match first_holding(pieces(manifest, '\n'), entry_needle(package)) {
        None => None,
        Some(line) => {
            let f = pieces(line, ' ');
            if f.len() > 5 && f[5].len() >= 3 {
                Some(f[5].skip(3))
            } else {
                None
            }
        },
    }
}

/// Relies on `str::chars` collected into a `Vec`: the characters of `s`.
#[verifier::external_body]
fn chars_of(s: &str) -> (r: Vec<char>)
    ensures
        r@ == s@,
{
    s.chars().collect()
}

/// Relies on `String`'s `FromIterator<char>`: the string of `cs`.
#[verifier::external_body]
fn string_of(cs: &[char]) -> (r: String)
    ensures
        r@ == cs@,
{
    cs.iter().collect()
}

/// The characters of `s` from `start` up to `end`.
fn slice_chars(s: &Vec<char>, start: usize, end: usize) -> (r: Vec<char>)
    requires
        start <= end <= s@.len(),
    ensures
        r@ == s@.subrange(start as int, end as int),
{
    let mut r: Vec<char> = Vec::new();
    let mut i: usize = start;
    while i < end
        invariant
            start <= i <= end <= s@.len(),
            r@ == s@.subrange(start as int, i as int),
        decreases end - i,
    {
        r.push(s[i]);
        i = i + 1;
        assert(r@ =~= s@.subrange(start as int, i as int));
    }
    r
}

/// Splits `s` at each `sep`.
pub fn split_on(s: &Vec<char>, sep: char) -> (r: Vec<Vec<char>>)
    ensures
        r@.map_values(|p: Vec<char>| p@) == pieces(s@, sep),
{
    let n = s.len();
    let mut out: Vec<Vec<char>> = Vec::new();
    let mut start: usize = 0;
    let mut i: usize = 0;
    assert(s@.skip(0) =~= s@);
    assert(s@.subrange(0, 0) =~= Seq::<char>::empty());
    assert(out@.map_values(|p: Vec<char>| p@) =~= Seq::<Seq<char>>::empty());
    while i < n
        invariant
            n == s@.len(),
            start <= i <= n,
            out@.map_values(|p: Vec<char>| p@) + pieces_after(
                s@.skip(i as int),
                sep,
                s@.subrange(start as int, i as int),
            ) == pieces(s@, sep),
        decreases n - i,
    {
        let c = s[i];
        let ghost rest = s@.skip(i as int);
        let ghost cur = s@.subrange(start as int, i as int);
        let ghost before = out@.map_values(|p: Vec<char>| p@);
        assert(rest.drop_first() =~= s@.skip(i + 1));
        assert(rest[0] == c);
        if c == sep {
            let p = slice_chars(s, start, i);
            out.push(p);
            assert(out@.map_values(|p: Vec<char>| p@) =~= before.push(cur));
            assert(before.push(cur) + pieces_after(s@.skip(i + 1), sep, Seq::empty()) =~= before + (seq![cur]
                + pieces_after(s@.skip(i + 1), sep, Seq::empty())));
            start = i + 1;
            assert(s@.subrange(start as int, start as int) =~= Seq::<char>::empty());
        } else {
            assert(cur.push(c) =~= s@.subrange(start as int, i + 1));
        }
        i = i + 1;
    }
    let ghost before = out@.map_values(|p: Vec<char>| p@);
    let ghost cur = s@.subrange(start as int, i as int);
    assert(s@.skip(i as int) =~= Seq::<char>::empty());
    let p = slice_chars(s, start, i);
    out.push(p);
    assert(out@.map_values(|p: Vec<char>| p@) =~= before + seq![cur]);
    out
}

/// Whether `needle` occurs in `s` at `i`.
fn matches_at(s: &Vec<char>, needle: &Vec<char>, i: usize) -> (r: bool)
    ensures
        r == occurs_at(s@, needle@, i as int),
{
    if i > s.len() || needle.len() > s.len() - i {
        return false;
    }
    let mut k: usize = 0;
    while k < needle.len()
        invariant
            i + needle@.len() <= s@.len() <= usize::MAX,
            k <= needle@.len(),
            forall|t: int| 0 <= t < k ==> s@[i + t] == needle@[t],
        decreases needle@.len() - k,
    {
        if s[i + k] != needle[k] {
            assert(s@.subrange(i as int, i + needle@.len())[k as int] != needle@[k as int]);
            return false;
        }
        k = k + 1;
    }
    assert(s@.subrange(i as int, i + needle@.len()) =~= needle@);
    true
}

/// Whether `needle` occurs in `s`.
pub fn contains_chars(s: &Vec<char>, needle: &Vec<char>) -> (r: bool)
    ensures
        r == contains(s@, needle@),
{
    if needle.len() == 0 {
        assert(occurs_at(s@, needle@, 0)) by {
            assert(s@.subrange(0, 0) =~= needle@);
        }
        return true;
    }
    if needle.len() > s.len() {
        assert(!contains(s@, needle@));
        return false;
    }
    let count = s.len() - needle.len() + 1;
    let mut i: usize = 0;
    while i < count
        invariant
            count + needle@.len() == s@.len() + 1,
            i <= count,
            forall|t: int| 0 <= t < i ==> !occurs_at(s@, needle@, t),
        decreases count - i,
    {
        if matches_at(s, needle, i) {
            return true;
        }
        i = i + 1;
    }
    assert forall|t: int| !occurs_at(s@, needle@, t) by {
        if 0 <= t && t + needle@.len() <= s@.len() {
            assert(t < count);
        }
    }
    false
}

/// The path of `package`'s definition directory, read from `manifest`: on
/// the first line that holds ` <package> = `, the sixth space-separated
/// field without its first three characters. None where no line holds it,
/// or that line has no such field.
pub fn package_path(manifest: &str, package: &str) -> (r: Option<String>)
    ensures
        r.is_some() == package_path_of(manifest@, package@).is_some(),
        r.is_some() ==> r.unwrap()@ == package_path_of(manifest@, package@).unwrap(),
{
    let text = chars_of(manifest);
    let pkg = chars_of(package);
    let mut needle: Vec<char> = vec![' '];
    let mut k: usize = 0;
    while k < pkg.len()
        invariant
            k <= pkg@.len(),
            needle@ == seq![' '] + pkg@.subrange(0, k as int),
        decreases pkg@.len() - k,
    {
        needle.push(pkg[k]);
        k = k + 1;
        assert(needle@ =~= seq![' '] + pkg@.subrange(0, k as int));
    }
    needle.push(' ');
    needle.push('=');
    needle.push(' ');
    assert(needle@ =~= entry_needle(package@));
    let lines = split_on(&text, '\n');
    let ghost all = lines@.map_values(|p: Vec<char>| p@);
    assert(all == pieces(manifest@, '\n'));
    let mut i: usize = 0;
    assert(all.skip(0) =~= all);
    while i < lines.len()
        invariant
            i <= lines@.len(),
            all == lines@.map_values(|p: Vec<char>| p@),
            all == pieces(manifest@, '\n'),
            needle@ == entry_needle(package@),
            first_holding(all, needle@) == first_holding(all.skip(i as int), needle@),
        decreases lines@.len() - i,
    {
        let ghost rest = all.skip(i as int);
        assert(rest[0] == lines@[i as int]@);
        assert(rest.drop_first() =~= all.skip(i + 1));
        if contains_chars(&lines[i], &needle) {
            assert(first_holding(all, needle@) == Some(lines@[i as int]@));
            let fields = split_on(&lines[i], ' ');
            let ghost fs = fields@.map_values(|p: Vec<char>| p@);
            assert(all[i as int] == lines@[i as int]@);
            assert(fs == pieces(all[i as int], ' '));
            assert(fs.len() == fields@.len());
            if fields.len() > 5 && fields[5].len() >= 3 {
                assert(fs[5] == fields@[5]@);
                let f = &fields[5];
                let tail = slice_chars(f, 3, f.len());
                assert(tail@ =~= fs[5].skip(3));
                let t = tail.as_slice();
                assert(t@ == tail@);
                return Some(string_of(t));
            }
            return None;
        }
        i = i + 1;
    }
    assert(all.skip(i as int) =~= Seq::<Seq<char>>::empty());
    None
}

} // verus!
