//! Building a version history from a commit log that arrives newest first,
//! one page at a time.

use crate::bump::{bump_of, fourth_word, fourth_word_of, has_version_shape, parse_bump, version_shaped};
use crate::history::{lemma_lookup_put_other, lemma_lookup_put_same, lookup, put, without, Entries, VersionHistory};
use crate::words::words;
use vstd::prelude::*;

verus! {

/// How many records a full page of the commit log holds.
pub const PAGE_SIZE: usize = 100;

/// One change to the package's definition file.
#[derive(Clone, Debug)]
pub struct CommitRecord {
    pub message: String,
    pub revision: String,
}

/// What commit `j` of `page` does to `h`. `newest` is the revision of the
/// newest commit of the whole log.
pub open spec fn commit_step(
    h: Entries,
    newest: Seq<char>,
    page: Seq<CommitRecord>,
    shaped: Seq<bool>,
    package: Seq<char>,
    j: int,
) -> Entries {
    match bump_of(page[j].message@, package, shaped[j]) {
        None => h,
        Some(b) => {
            let h1 = if h.len() == 0 {
                put(h, b.1, newest)
            } else {
                h
            };
            if j + 1 < page.len() {
                put(h1, b.0, page[j + 1].revision@)
            } else {
                h1
            }
        },
    }
}

/// `h` after the first `n` commits of `page`, in order.
pub open spec fn steps(
    h: Entries,
    newest: Seq<char>,
    page: Seq<CommitRecord>,
    shaped: Seq<bool>,
    package: Seq<char>,
    n: int,
) -> Entries
    decreases n,
{
    if n <= 0 {
        h
    } else {
        commit_step(steps(h, newest, page, shaped, package, n - 1), newest, page, shaped, package, n - 1)
    }
}

/// What a page of the log does to `h`. `newest` is the revision of the
/// newest commit seen on earlier pages, none on the first page; `shaped[j]`
/// tells whether message `j` holds a version shape. A first page of one
/// record is the whole log: its fourth word maps to its revision.
pub open spec fn page_effect(
    h: Entries,
    newest: Option<Seq<char>>,
    page: Seq<CommitRecord>,
    shaped: Seq<bool>,
    package: Seq<char>,
) -> Entries {
    if page.len() == 0 {
        h
    } else if newest is None && page.len() == 1 {
        match fourth_word_of(page[0].message@) {
            Some(w) => put(h, w, page[0].revision@),
            None => h,
        }
    } else {
        let top = match newest {
            Some(r) => r,
            None => page[0].revision@,
        };
        steps(h, top, page, shaped, package, page.len() as int)
    }
}

/// Whether each message of `page` holds a version shape.
pub open spec fn shapes_of(page: Seq<CommitRecord>) -> Seq<bool> {
    page.map_values(|c: CommitRecord| has_version_shape(c.message@))
}

/// A log of exactly one commit, whose message has at least four words,
/// gives a history of exactly one entry: the fourth word of the message,
/// mapped to the commit's revision. No pattern or shape is asked of it.
pub proof fn single_commit_log(c: CommitRecord, shaped: bool, package: Seq<char>)
    requires
        words(c.message@).len() >= 4,
    ensures
        page_effect(Seq::empty(), None, seq![c], seq![shaped], package) == seq![
            (words(c.message@)[3], c.revision@),
        ],
{
    reveal(Seq::filter);
    let k = words(c.message@)[3];
    assert(without(Seq::empty(), k) =~= Seq::<(Seq<char>, Seq<char>)>::empty());
    assert(seq![c][0] == c);
    assert(put(Seq::empty(), k, c.revision@) =~= seq![(k, c.revision@)]);
}

/// Whether every commit of `page` is a bump commit of `package`.
pub open spec fn all_bumps(page: Seq<CommitRecord>, shaped: Seq<bool>, package: Seq<char>) -> bool {
    forall|j: int| 0 <= j < page.len() ==> (#[trigger] bump_of(page[j].message@, package, shaped[j])) is Some
}

/// The version that commit `j` bumps from.
pub open spec fn from_at(page: Seq<CommitRecord>, shaped: Seq<bool>, package: Seq<char>, j: int) -> Seq<char> {
    bump_of(page[j].message@, package, shaped[j]).unwrap().0
}

/// The version that commit `j` bumps to.
pub open spec fn to_at(page: Seq<CommitRecord>, shaped: Seq<bool>, package: Seq<char>, j: int) -> Seq<char> {
    bump_of(page[j].message@, package, shaped[j]).unwrap().1
}

/// Whether the from-versions of `page` differ from each other and from the
/// version that the newest commit bumps to.
pub open spec fn distinct_labels(page: Seq<CommitRecord>, shaped: Seq<bool>, package: Seq<char>) -> bool {
    &&& forall|i: int, j: int|
        0 <= i < j < page.len() ==> #[trigger] from_at(page, shaped, package, i) != #[trigger] from_at(
            page,
            shaped,
            package,
            j,
        )
    &&& forall|i: int| 0 <= i < page.len() ==> #[trigger] from_at(page, shaped, package, i) != to_at(page, shaped, package, 0)
}

proof fn lemma_chain_prefix(page: Seq<CommitRecord>, shaped: Seq<bool>, package: Seq<char>, k: int)
    requires
        1 <= k <= page.len(),
        shaped.len() == page.len(),
        all_bumps(page, shaped, package),
        distinct_labels(page, shaped, package),
    ensures
        steps(Seq::empty(), page[0].revision@, page, shaped, package, k).len() > 0,
        lookup(steps(Seq::empty(), page[0].revision@, page, shaped, package, k), to_at(page, shaped, package, 0))
            == Some(page[0].revision@),
        forall|i: int|
            0 <= i < k && i + 1 < page.len() ==> lookup(
                steps(Seq::empty(), page[0].revision@, page, shaped, package, k),
                #[trigger] from_at(page, shaped, package, i),
            ) == Some(page[i + 1].revision@),
    decreases k,
{
    let top = page[0].revision@;
    let e = Seq::<(Seq<char>, Seq<char>)>::empty();
    let j = k - 1;
    let prev = steps(e, top, page, shaped, package, j);
    assert(bump_of(page[j].message@, package, shaped[j]) is Some);
    let from = from_at(page, shaped, package, j);
    let to0 = to_at(page, shaped, package, 0);
    if k == 1 {
        let h1 = put(e, to0, top);
        lemma_lookup_put_same(e, to0, top);
        if 1 < page.len() {
            lemma_lookup_put_same(h1, from, page[1].revision@);
            lemma_lookup_put_other(h1, from, page[1].revision@, to0);
        }
    } else {
        lemma_chain_prefix(page, shaped, package, j);
        if k < page.len() {
            lemma_lookup_put_same(prev, from, page[k].revision@);
            lemma_lookup_put_other(prev, from, page[k].revision@, to0);
            assert forall|i: int| 0 <= i < k && i + 1 < page.len() implies lookup(
                steps(e, top, page, shaped, package, k),
                #[trigger] from_at(page, shaped, package, i),
            ) == Some(page[i + 1].revision@) by {
                if i < j {
                    lemma_lookup_put_other(prev, from, page[k].revision@, from_at(page, shaped, package, i));
                }
            }
        }
    }
}

/// In a log of bump commits that arrives as one page, newest first, the
/// version that the newest commit bumps to maps to the newest revision, and
/// the version that each commit bumps from maps to the revision of the
/// commit after it, where there is one. The labels must differ: a repeated
/// label keeps only the revision of its last insertion.
pub proof fn bump_chain(page: Seq<CommitRecord>, shaped: Seq<bool>, package: Seq<char>)
    requires
        page.len() >= 1,
        shaped.len() == page.len(),
        all_bumps(page, shaped, package),
        distinct_labels(page, shaped, package),
    ensures
        lookup(page_effect(Seq::empty(), None, page, shaped, package), to_at(page, shaped, package, 0))
            == Some(page[0].revision@),
        forall|i: int|
            0 <= i < page.len() - 1 ==> lookup(
                page_effect(Seq::empty(), None, page, shaped, package),
                #[trigger] from_at(page, shaped, package, i),
            ) == Some(page[i + 1].revision@),
{
    assert(bump_of(page[0].message@, package, shaped[0]) is Some);
    if page.len() == 1 {
        let w = fourth_word_of(page[0].message@).unwrap();
        lemma_lookup_put_same(Seq::empty(), w, page[0].revision@);
    } else {
        lemma_chain_prefix(page, shaped, package, page.len() as int);
    }
}

/// A commit that is not a bump commit of `package`, for want of the pattern
/// or of a version shape, adds no entry.
pub proof fn non_bump_commit_adds_nothing(
    h: Entries,
    newest: Seq<char>,
    page: Seq<CommitRecord>,
    shaped: Seq<bool>,
    package: Seq<char>,
    j: int,
)
    requires
        0 <= j < page.len(),
        bump_of(page[j].message@, package, shaped[j]) is None,
    ensures
        commit_step(h, newest, page, shaped, package, j) == h,
{
}

proof fn lemma_no_bumps_steps(
    h: Entries,
    newest: Seq<char>,
    page: Seq<CommitRecord>,
    shaped: Seq<bool>,
    package: Seq<char>,
    n: int,
)
    requires
        n <= page.len(),
        forall|j: int| 0 <= j < page.len() ==> (#[trigger] bump_of(page[j].message@, package, shaped[j])) is None,
    ensures
        steps(h, newest, page, shaped, package, n) == h,
    decreases n,
{
    if n > 0 {
        lemma_no_bumps_steps(h, newest, page, shaped, package, n - 1);
        assert(bump_of(page[n - 1].message@, package, shaped[n - 1]) is None);
    }
}

/// A page none of whose commits is a bump commit of `package` leaves the
/// history as it was, unless it is the lone record of the whole log.
pub proof fn non_bump_page_adds_nothing(
    h: Entries,
    newest: Option<Seq<char>>,
    page: Seq<CommitRecord>,
    shaped: Seq<bool>,
    package: Seq<char>,
)
    requires
        !(newest is None && page.len() == 1),
        forall|j: int| 0 <= j < page.len() ==> (#[trigger] bump_of(page[j].message@, package, shaped[j])) is None,
    ensures
        page_effect(h, newest, page, shaped, package) == h,
{
    if page.len() > 0 {
        let top = match newest {
            Some(r) => r,
            None => page[0].revision@,
        };
        lemma_no_bumps_steps(h, top, page, shaped, package, page.len() as int);
    }
}

/// Why a history could not be had.
#[derive(Clone, Debug, PartialEq, Eq)]
pub enum BuildError {
    /// The log held no version of the package.
    NoVersions,
}

/// Consumes the pages of a commit log, newest first, and builds the history.
pub struct HistoryBuilder {
    package: String,
    history: VersionHistory,
    newest: Option<String>,
    page: u64,
    finished: bool,
}

impl HistoryBuilder {
    /// The package whose log is read.
    pub closed spec fn package_spec(&self) -> Seq<char> {
        self.package@
    }

    /// The history built so far.
    pub closed spec fn history_spec(&self) -> Entries {
        self.history@
    }

    /// The revision of the newest commit, once a record has been seen.
    pub closed spec fn newest_spec(&self) -> Option<Seq<char>> {
        match self.newest {
            Some(r) => Some(r@),
            None => None,
        }
    }

    /// The number of the page to fetch next.
    pub closed spec fn page_spec(&self) -> u64 {
        self.page
    }

    /// Whether the last page has been read.
    pub closed spec fn finished_spec(&self) -> bool {
        self.finished
    }

    /// A builder for `package` that has read nothing yet.
    pub fn new(package: String) -> (r: HistoryBuilder)
        ensures
            r.package_spec() == package@,
            r.history_spec() == Seq::<(Seq<char>, Seq<char>)>::empty(),
            r.newest_spec() is None,
            r.page_spec() == 1,
            !r.finished_spec(),
    {
        HistoryBuilder { package, history: VersionHistory::new(), newest: None, page: 1, finished: false }
    }

    /// The package whose log is read.
    pub fn package(&self) -> (r: &String)
        ensures
            r@ == self.package_spec(),
    {
        &self.package
    }

    /// The number of the page to fetch next, or none once the log is read.
    pub fn next_page(&self) -> (r: Option<u64>)
        ensures
            r == (if self.finished_spec() {
                None
            } else {
                Some(self.page_spec())
            }),
    {
        if self.finished {
            None
        } else {
            Some(self.page)
        }
    }

    /// Reads one page of the log; `shaped[j]` tells whether message `j`
    /// holds a version shape. A page shorter than `PAGE_SIZE` is the last;
    /// so is a page whose number cannot grow further. Once the log is read,
    /// a page changes nothing.
    pub fn apply_page(&mut self, page: &Vec<CommitRecord>, shaped: &Vec<bool>)
        requires
            shaped@.len() == page@.len(),
        ensures
            old(self).finished_spec() ==> *final(self) == *old(self),
            !old(self).finished_spec() ==> {
                &&& final(self).history_spec() == page_effect(
                    old(self).history_spec(),
                    old(self).newest_spec(),
                    page@,
                    shaped@,
                    old(self).package_spec(),
                )
                &&& final(self).newest_spec() == (if old(self).newest_spec() is None && page@.len() > 0 {
                    Some(page@[0].revision@)
                } else {
                    old(self).newest_spec()
                })
                &&& final(self).finished_spec() == (page@.len() < PAGE_SIZE || old(self).page_spec() == u64::MAX)
                &&& final(self).page_spec() == (if final(self).finished_spec() {
                    old(self).page_spec()
                } else {
                    (old(self).page_spec() + 1) as u64
                })
                &&& final(self).package_spec() == old(self).package_spec()
            },
    {
        if self.finished {
            return;
        }
        let n = page.len();
        if n > 0 {
            if self.newest.is_none() && n == 1 {
                match fourth_word(page[0].message.as_str()) {
                    Some(w) => self.history.insert(w, page[0].revision.clone()),
                    None => {},
                }
            } else {
                let top = match &self.newest {
                    Some(r) => r.clone(),
                    None => page[0].revision.clone(),
                };
                let ghost h0 = self.history@;
                let mut j: usize = 0;
                while j < n
                    invariant
                        n == page@.len(),
                        shaped@.len() == n,
                        j <= n,
                        self.package == old(self).package,
                        self.newest == old(self).newest,
                        self.page == old(self).page,
                        self.finished == old(self).finished,
                        self.history@ == steps(h0, top@, page@, shaped@, self.package@, j as int),
                    decreases n - j,
                {
                    let b = parse_bump(page[j].message.as_str(), self.package.as_str(), shaped[j]);
                    match b {
                        None => {},
                        Some(fromto) => {
                            let (from, to) = fromto;
                            if self.history.is_empty() {
                                self.history.insert(to, top.clone());
                            }
                            if j + 1 < n {
                                self.history.insert(from, page[j + 1].revision.clone());
                            }
                        },
                    }
                    j = j + 1;
                }
            }
            if self.newest.is_none() {
                self.newest = Some(page[0].revision.clone());
            }
        }
        if n < PAGE_SIZE || self.page == u64::MAX {
            self.finished = true;
        } else {
            self.page = self.page + 1;
        }
    }

    /// Reads one page of the log, testing each message for a version shape.
    /// A page shorter than `PAGE_SIZE` is the last; so is a page whose number
    /// cannot grow further. Once the log is read, a page changes nothing.
    pub fn accept_page(&mut self, page: &Vec<CommitRecord>)
        ensures
            old(self).finished_spec() ==> *final(self) == *old(self),
            !old(self).finished_spec() ==> {
                &&& final(self).history_spec() == page_effect(
                    old(self).history_spec(),
                    old(self).newest_spec(),
                    page@,
                    shapes_of(page@),
                    old(self).package_spec(),
                )
                &&& final(self).newest_spec() == (if old(self).newest_spec() is None && page@.len() > 0 {
                    Some(page@[0].revision@)
                } else {
                    old(self).newest_spec()
                })
                &&& final(self).finished_spec() == (page@.len() < PAGE_SIZE || old(self).page_spec() == u64::MAX)
                &&& final(self).page_spec() == (if final(self).finished_spec() {
                    old(self).page_spec()
                } else {
                    (old(self).page_spec() + 1) as u64
                })
                &&& final(self).package_spec() == old(self).package_spec()
            },
    {
        let mut shaped: Vec<bool> = Vec::new();
        let mut j: usize = 0;
        while j < page.len()
            invariant
                j <= page@.len(),
                shaped@.len() == j,
                forall|k: int| 0 <= k < j ==> shaped@[k] == has_version_shape(#[trigger] page@[k].message@),
            decreases page@.len() - j,
        {
            let s = version_shaped(page[j].message.as_str());
            shaped.push(s);
            j = j + 1;
        }
        assert(shaped@ =~= shapes_of(page@));
        self.apply_page(page, &shaped);
    }

    /// The history built, unless it is empty.
    pub fn finish(self) -> (r: Result<VersionHistory, BuildError>)
        ensures
            self.history_spec().len() == 0 ==> r == Err::<VersionHistory, BuildError>(BuildError::NoVersions),
            self.history_spec().len() > 0 ==> r is Ok && r.unwrap()@ == self.history_spec(),
    {
        if self.history.is_empty() {
            Err(BuildError::NoVersions)
        } else {
            Ok(self.history)
        }
    }
}

} // verus!
