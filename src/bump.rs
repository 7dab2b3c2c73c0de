//! Recognising version-bump commit messages, `"<package>: <from> -> <to>"`.

use crate::words::{split_words, words};
use regex::Regex;
use vstd::prelude::*;

verus! {

/// Whether a message holds a version shape: a run of digits, `.` or `-`,
/// and another run of digits.
pub uninterp spec fn has_version_shape(s: Seq<char>) -> bool;

/// Relies on `regex::Regex::new` and `Regex::is_match`: whether the pattern
/// `\d+\.\d+|\d+-\d+` occurs in `message`.
#[verifier::external_body]
pub(crate) fn version_shaped(message: &str) -> (r: bool)
    ensures
        r == has_version_shape(message@),
{
    Regex::new(r"\d+\.\d+|\d+-\d+").unwrap().is_match(message)
}

/// The word that opens a bump commit of `package`.
pub open spec fn owner_word(package: Seq<char>) -> Seq<char> {
    package.push(':')
}

/// The word that separates the two versions.
pub open spec fn arrow_word() -> Seq<char> {
    seq!['-', '>']
}

/// The (from, to) versions of `message` when it is a bump commit of
/// `package`; `shaped` tells whether the message holds a version shape.
pub open spec fn bump_of(message: Seq<char>, package: Seq<char>, shaped: bool) -> Option<
    (Seq<char>, Seq<char>),
> {
    let w = words(message);
    if shaped && w.len() >= 4 && w[0] == owner_word(package) && w[2] == arrow_word() {
        Some((w[1], w[3]))
    } else {
        None
    }
}

/// The fourth word of `message`, if it has one.
pub open spec fn fourth_word_of(message: Seq<char>) -> Option<Seq<char>> {
    let w = words(message);
    if w.len() >= 4 {
        Some(w[3])
    } else {
        None
    }
}

/// Whether `w` is `package` followed by a colon.
fn is_owner_word(w: &str, package: &str) -> (r: bool)
    ensures
        r == (w@ == owner_word(package@)),
{
    let n = package.unicode_len();
    let m = w.unicode_len();
    if m == 0 || m - 1 != n {
        return false;
    }
    if w.get_char(n) != ':' {
        assert(w@ != owner_word(package@)) by {
            assert(owner_word(package@)[n as int] == ':');
        }
        return false;
    }
    let mut i: usize = 0;
    while i < n
        invariant
            n == package@.len(),
            w@.len() == n + 1,
            w@[n as int] == ':',
            i <= n,
            forall|k: int| 0 <= k < i ==> w@[k] == package@[k],
        decreases n - i,
    {
        if w.get_char(i) != package.get_char(i) {
            assert(w@ != owner_word(package@)) by {
                assert(owner_word(package@)[i as int] == package@[i as int]);
            }
            return false;
        }
        i = i + 1;
    }
    assert(w@ =~= owner_word(package@));
    true
}

/// Whether `w` is `->`.
fn is_arrow_word(w: &str) -> (r: bool)
    ensures
        r == (w@ == arrow_word()),
{
    if w.unicode_len() != 2 {
        return false;
    }
    let a = w.get_char(0);
    let b = w.get_char(1);
    if a == '-' && b == '>' {
        assert(w@ =~= arrow_word());
        true
    } else {
        false
    }
}

/// The (from, to) versions of `message` when it is a bump commit of
/// `package`; `shaped` tells whether the message holds a version shape.
pub fn parse_bump(message: &str, package: &str, shaped: bool) -> (r: Option<(String, String)>)
    ensures
        r.is_some() == bump_of(message@, package@, shaped).is_some(),
        r.is_some() ==> r.unwrap().0@ == bump_of(message@, package@, shaped).unwrap().0
            && r.unwrap().1@ == bump_of(message@, package@, shaped).unwrap().1,
{
    if !shaped {
        return None;
    }
    let w = split_words(message);
    proof {
        assert(w@.map_values(|s: String| s@).len() == w@.len());
    }
    if w.len() < 4 {
        return None;
    }
    assert(w@.map_values(|s: String| s@)[0] == w@[0]@);
    assert(w@.map_values(|s: String| s@)[1] == w@[1]@);
    assert(w@.map_values(|s: String| s@)[2] == w@[2]@);
    assert(w@.map_values(|s: String| s@)[3] == w@[3]@);
    if is_owner_word(w[0].as_str(), package) && is_arrow_word(w[2].as_str()) {
        Some((w[1].clone(), w[3].clone()))
    } else {
        None
    }
}

/// The fourth word of `message`, if it has one.
pub fn fourth_word(message: &str) -> (r: Option<String>)
    ensures
        r.is_some() == fourth_word_of(message@).is_some(),
        r.is_some() ==> r.unwrap()@ == fourth_word_of(message@).unwrap(),
{
    let w = split_words(message);
    proof {
        assert(w@.map_values(|s: String| s@).len() == w@.len());
    }
    if w.len() < 4 {
        return None;
    }
    assert(w@.map_values(|s: String| s@)[3] == w@[3]@);
    Some(w[3].clone())
}

} // verus!
