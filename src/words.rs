//! Splitting a commit message into whitespace-separated words.

use vstd::prelude::*;

verus! {

/// The characters that separate words: ASCII whitespace.
pub open spec fn is_space(c: char) -> bool {
    c == ' ' || c == '\t' || c == '\n' || c == '\r' || c == '\x0C'
}

/// `cur` holds the word being read so far; what comes out is that word,
/// when it is non-empty.
pub open spec fn flush(cur: Seq<char>) -> Seq<Seq<char>> {
    if cur.len() == 0 {
        Seq::empty()
    } else {
        seq![cur]
    }
}

/// The words of `s`, reading left to right with `cur` already read.
pub open spec fn words_after(s: Seq<char>, cur: Seq<char>) -> Seq<Seq<char>>
    decreases s.len(),
{
    if s.len() == 0 {
        flush(cur)
    } else if is_space(s[0]) {
        flush(cur) + words_after(s.drop_first(), Seq::empty())
    } else {
        words_after(s.drop_first(), cur.push(s[0]))
    }
}

/// The maximal runs of non-space characters of `s`, in order.
pub open spec fn words(s: Seq<char>) -> Seq<Seq<char>> {
    words_after(s, Seq::empty())
}

/// Splits `s` into its words.
pub fn split_words(s: &str) -> (r: Vec<String>)
    ensures
        r@.map_values(|w: String| w@) == words(s@),
{
    let n = s.unicode_len();
    let mut out: Vec<String> = Vec::new();
    let mut start: usize = 0;
    let mut i: usize = 0;
    assert(s@.skip(0) =~= s@);
    assert(s@.subrange(0, 0) =~= Seq::<char>::empty());
    assert(out@.map_values(|w: String| w@) =~= Seq::<Seq<char>>::empty());
    while i < n
        invariant
            n == s@.len(),
            start <= i <= n,
            forall|k: int| start <= k < i ==> !is_space(#[trigger] s@[k]),
            out@.map_values(|w: String| w@) + words_after(s@.skip(i as int), s@.subrange(start as int, i as int))
                == words(s@),
        decreases n - i,
    {
        let c = s.get_char(i);
        let ghost rest = s@.skip(i as int);
        let ghost cur = s@.subrange(start as int, i as int);
        let ghost before = out@.map_values(|w: String| w@);
        assert(rest.drop_first() =~= s@.skip(i + 1));
        assert(rest[0] == c);
        if is_space_char(c) {
            if start < i {
                let w = s.substring_char(start, i).to_owned();
                out.push(w);
                assert(out@.map_values(|w: String| w@) =~= before.push(cur));
                assert(before.push(cur) + words_after(s@.skip(i + 1), Seq::empty())
                    =~= before + (flush(cur) + words_after(s@.skip(i + 1), Seq::empty())));
            } else {
                assert(cur.len() == 0);
                assert(before + words_after(s@.skip(i + 1), Seq::empty())
                    =~= before + (flush(cur) + words_after(s@.skip(i + 1), Seq::empty())));
            }
            start = i + 1;
            assert(s@.subrange(start as int, start as int) =~= Seq::<char>::empty());
        } else {
            assert(cur.push(c) =~= s@.subrange(start as int, i + 1));
        }
        i = i + 1;
    }
    let ghost before = out@.map_values(|w: String| w@);
    let ghost cur = s@.subrange(start as int, i as int);
    assert(s@.skip(i as int) =~= Seq::<char>::empty());
    if start < i {
        let w = s.substring_char(start, i).to_owned();
        out.push(w);
        assert(out@.map_values(|w: String| w@) =~= before + flush(cur));
    } else {
        assert(before + flush(cur) =~= before);
    }
    out
}

/// Whether `c` is one of the separating characters.
pub fn is_space_char(c: char) -> (r: bool)
    ensures
        r == is_space(c),
{
    c == ' ' || c == '\t' || c == '\n' || c == '\r' || c == '\x0C'
}

} // verus!
