//! The backup catalog: the ordered collection of all known backups for one
//! bridge target.  Listing orders backups newest first, with ties in the
//! creation time broken deterministically by the directory name; `latest`
//! resolution picks the backup that a listing would show first.

use vstd::prelude::*;
use vstd::string::StrSliceExecFns;
use crate::errors::CoreError;

verus! {

broadcast use vstd::seq_lib::to_multiset_insert, vstd::seq_lib::group_to_multiset_ensures;

/// One completed snapshot recorded in the catalog.
pub struct Backup {
    pub directory_name: String,
    pub size: u64,
    pub created_at: u64,
    pub compressed: bool,
    pub encrypted: bool,
}

impl Clone for Backup {
    fn clone(&self) -> (r: Self)
        ensures
            r == *self,
    {
        Backup {
            directory_name: self.directory_name.clone(),
            size: self.size,
            created_at: self.created_at,
            compressed: self.compressed,
            encrypted: self.encrypted,
        }
    }
}

/// Selects which backup a restore reads: the newest one, or one by name.
pub enum ReadOptions {
    Latest,
    Backup { name: String },
}

/// Strict lexicographic order on character sequences, by code point.
pub open spec fn lex_lt(a: Seq<char>, b: Seq<char>) -> bool
    decreases a.len(),
{
    if b.len() == 0 {
        false
    } else if a.len() == 0 {
        true
    } else if a[0] != b[0] {
        a[0] < b[0]
    } else {
        lex_lt(a.skip(1), b.skip(1))
    }
}

pub proof fn lemma_lex_connex(a: Seq<char>, b: Seq<char>)
    ensures
        lex_lt(a, b) || lex_lt(b, a) || a == b,
    decreases a.len(),
{
    if b.len() == 0 {
        if a.len() == 0 {
            assert(a =~= b);
        }
    } else if a.len() == 0 {
    } else if a[0] != b[0] {
    } else {
        lemma_lex_connex(a.skip(1), b.skip(1));
        if a.skip(1) == b.skip(1) {
            assert(a.skip(1).len() == a.len() - 1);
            assert(b.skip(1).len() == b.len() - 1);
            assert(a.len() == b.len());
            assert forall|i: int| 0 <= i < a.len() implies a[i] == b[i] by {
                if i > 0 {
                    assert(a[i] == a.skip(1)[i - 1]);
                    assert(b[i] == b.skip(1)[i - 1]);
                }
            }
            assert(a =~= b);
        }
    }
}

pub proof fn lemma_lex_trans(a: Seq<char>, b: Seq<char>, c: Seq<char>)
    requires
        lex_lt(a, b),
        lex_lt(b, c),
    ensures
        lex_lt(a, c),
    decreases a.len(),
{
    if a.len() == 0 {
    } else {
        // a, b, c are all non-empty here
        if a[0] == b[0] && b[0] == c[0] {
            lemma_lex_trans(a.skip(1), b.skip(1), c.skip(1));
        }
    }
}

/// `a` is listed no later than `b`: newer first, ties in `created_at` broken
/// by the larger directory name first.
pub open spec fn listing_le(a: Backup, b: Backup) -> bool {
    a.created_at > b.created_at || (a.created_at == b.created_at && (a.directory_name@
        == b.directory_name@ || lex_lt(b.directory_name@, a.directory_name@)))
}

pub proof fn lemma_listing_le_total(a: Backup, b: Backup)
    ensures
        listing_le(a, b) || listing_le(b, a),
{
    if a.created_at == b.created_at {
        lemma_lex_connex(a.directory_name@, b.directory_name@);
    }
}

pub proof fn lemma_listing_le_trans(a: Backup, b: Backup, c: Backup)
    requires
        listing_le(a, b),
        listing_le(b, c),
    ensures
        listing_le(a, c),
{
    if a.created_at == b.created_at && b.created_at == c.created_at {
        if a.directory_name@ != b.directory_name@ && b.directory_name@ != c.directory_name@ {
            lemma_lex_trans(c.directory_name@, b.directory_name@, a.directory_name@);
        }
    }
}

/// The listing order, as a property of a whole sequence.
pub open spec fn sorted_listing(s: Seq<Backup>) -> bool {
    forall|i: int, j: int| 0 <= i < j < s.len() ==> #[trigger] listing_le(s[i], s[j])
}

/// No two catalog entries share a directory name.
pub open spec fn distinct_names(s: Seq<Backup>) -> bool {
    forall|i: int, j: int|
        0 <= i < j < s.len() ==> #[trigger] s[i].directory_name@ != #[trigger] s[
            j
        ].directory_name@
}

/// Some catalog entry carries this name.
pub open spec fn contains_name(s: Seq<Backup>, name: Seq<char>) -> bool {
    exists|i: int| 0 <= i < s.len() && #[trigger] s[i].directory_name@ == name
}

/// Index `i` holds a backup that a listing would show first.
pub open spec fn is_newest(s: Seq<Backup>, i: int) -> bool {
    &&& 0 <= i < s.len()
    &&& forall|j: int| 0 <= j < s.len() ==> listing_le(s[i], #[trigger] s[j])
}

/// Strict lexicographic comparison of two strings, by character code point.
pub fn str_lex_lt(a: &str, b: &str) -> (r: bool)
    ensures
        r == lex_lt(a@, b@),
{
    let a_len = a.unicode_len();
    let b_len = b.unicode_len();
    let mut i: usize = 0;
    proof {
        assert(a@.skip(0) =~= a@);
        assert(b@.skip(0) =~= b@);
    }
    while i < a_len && i < b_len
        invariant
            i <= a_len,
            i <= b_len,
            a_len == a@.len(),
            b_len == b@.len(),
            lex_lt(a@, b@) == lex_lt(a@.skip(i as int), b@.skip(i as int)),
        decreases a_len - i,
    {
        let ca = a.get_char(i);
        let cb = b.get_char(i);
        if ca != cb {
            proof {
                assert(a@.skip(i as int)[0] == ca);
                assert(b@.skip(i as int)[0] == cb);
            }
            return ca < cb;
        }
        proof {
            assert(a@.skip(i as int).skip(1) =~= a@.skip(i + 1));
            assert(b@.skip(i as int).skip(1) =~= b@.skip(i + 1));
        }
        i = i + 1;
    }
    proof {
        if i == b_len {
            assert(b@.skip(i as int).len() == 0);
        } else {
            assert(a@.skip(i as int).len() == 0);
            assert(b@.skip(i as int).len() > 0);
        }
    }
    i < b_len
}

/// `a` is listed no later than `b`.
pub fn backup_le(a: &Backup, b: &Backup) -> (r: bool)
    ensures
        r == listing_le(*a, *b),
{
    if a.created_at > b.created_at {
        true
    } else if a.created_at < b.created_at {
        false
    } else if a.directory_name == b.directory_name {
        true
    } else {
        str_lex_lt(b.directory_name.as_str(), a.directory_name.as_str())
    }
}

/// The catalog: the single source of truth for what backups exist.
pub struct IndexFile {
    pub backups: Vec<Backup>,
}

impl Clone for IndexFile {
    fn clone(&self) -> (r: Self)
        ensures
            r.backups@ == self.backups@,
    {
        let mut backups: Vec<Backup> = Vec::new();
        let mut i: usize = 0;
        while i < self.backups.len()
            invariant
                i <= self.backups.len(),
                backups@ =~= self.backups@.take(i as int),
            decreases self.backups.len() - i,
        {
            backups.push(self.backups[i].clone());
            assert(backups@ =~= self.backups@.take(i + 1));
            i = i + 1;
        }
        proof {
            assert(backups@ =~= self.backups@);
        }
        IndexFile { backups }
    }
}

impl IndexFile {
    /// A catalog with no backups yet: a valid, empty index.
    pub fn empty() -> (r: Self)
        ensures
            r.backups@.len() == 0,
    {
        IndexFile { backups: Vec::new() }
    }

    /// The backups in listing order: newest first, deterministic tiebreak.
    /// Rearranges only; every catalog entry appears exactly as often as before.
    pub fn sorted_backups(&self) -> (r: Vec<Backup>)
        ensures
            sorted_listing(r@),
            r@.to_multiset() == self.backups@.to_multiset(),
    {
        let mut out: Vec<Backup> = Vec::new();
        let mut i: usize = 0;
        while i < self.backups.len()
            invariant
                i <= self.backups.len(),
                sorted_listing(out@),
                out@.to_multiset() == self.backups@.take(i as int).to_multiset(),
            decreases self.backups.len() - i,
        {
            let x = self.backups[i].clone();
            let mut idx: usize = 0;
            while idx < out.len() && backup_le(&out[idx], &x)
                invariant
                    idx <= out.len(),
                    forall|k: int| 0 <= k < idx ==> listing_le(#[trigger] out@[k], x),
                decreases out.len() - idx,
            {
                idx = idx + 1;
            }
            proof {
                let o = out@;
                if idx < o.len() {
                    lemma_listing_le_total(o[idx as int], x);
                    assert(listing_le(x, o[idx as int]));
                    assert forall|m: int| idx <= m < o.len() implies listing_le(
                        x,
                        #[trigger] o[m],
                    ) by {
                        if m > idx {
                            assert(listing_le(o[idx as int], o[m]));
                            lemma_listing_le_trans(x, o[idx as int], o[m]);
                        }
                    }
                }
            }
            let ghost out_before = out@;
            out.insert(idx, x);
            proof {
                let o2 = out@;
                assert(o2 == out_before.insert(idx as int, x));
                assert forall|p: int, q: int| 0 <= p < q < o2.len() implies #[trigger] listing_le(
                    o2[p],
                    o2[q],
                ) by {
                    if p < idx && q < idx {
                        assert(o2[p] == out_before[p] && o2[q] == out_before[q]);
                    } else if p < idx && q == idx {
                        assert(o2[p] == out_before[p] && o2[q] == x);
                    } else if p < idx && q > idx {
                        assert(o2[p] == out_before[p] && o2[q] == out_before[q - 1]);
                    } else if p == idx {
                        assert(o2[p] == x && o2[q] == out_before[q - 1]);
                    } else {
                        assert(o2[p] == out_before[p - 1] && o2[q] == out_before[q - 1]);
                    }
                }
                assert(self.backups@.take(i + 1) =~= self.backups@.take(i as int).push(
                    self.backups@[i as int],
                ));
                assert(out@.to_multiset() == self.backups@.take(i + 1).to_multiset());
            }
            i = i + 1;
        }
        proof {
            assert(self.backups@.take(self.backups@.len() as int) =~= self.backups@);
        }
        out
    }

    /// Index of the first backup carrying the given name, if any.
    pub fn find_by_name(&self, name: &String) -> (r: Option<usize>)
        ensures
            match r {
                Some(i) => i < self.backups@.len() && self.backups@[i as int].directory_name@
                    == name@ && forall|j: int|
                    0 <= j < i ==> #[trigger] self.backups@[j].directory_name@ != name@,
                None => forall|j: int|
                    0 <= j < self.backups@.len() ==> #[trigger] self.backups@[j].directory_name@
                        != name@,
            },
    {
        let mut i: usize = 0;
        while i < self.backups.len()
            invariant
                i <= self.backups.len(),
                forall|j: int| 0 <= j < i ==> #[trigger] self.backups@[j].directory_name@ != name@,
            decreases self.backups.len() - i,
        {
            if self.backups[i].directory_name == *name {
                return Some(i);
            }
            i = i + 1;
        }
        None
    }

    /// Index of the backup a listing would show first: the newest entry.
    pub fn newest(&self) -> (r: Option<usize>)
        ensures
            match r {
                Some(i) => is_newest(self.backups@, i as int),
                None => self.backups@.len() == 0,
            },
    {
        if self.backups.len() == 0 {
            return None;
        }
        let mut best: usize = 0;
        let mut i: usize = 1;
        while i < self.backups.len()
            invariant
                best < i,
                i <= self.backups.len(),
                forall|j: int|
                    0 <= j < i ==> listing_le(self.backups@[best as int], #[trigger] self.backups@[
                        j
                    ]),
            decreases self.backups.len() - i,
        {
            if !backup_le(&self.backups[best], &self.backups[i]) {
                proof {
                    lemma_listing_le_total(self.backups@[best as int], self.backups@[i as int]);
                    assert forall|j: int| 0 <= j < i + 1 implies listing_le(
                        self.backups@[i as int],
                        #[trigger] self.backups@[j],
                    ) by {
                        if j < i {
                            lemma_listing_le_trans(
                                self.backups@[i as int],
                                self.backups@[best as int],
                                self.backups@[j],
                            );
                        }
                    }
                }
                best = i;
            }
            i = i + 1;
        }
        Some(best)
    }

    /// Resolve a restore selector against the catalog.  `Latest` on an empty
    /// catalog is a fatal lookup error, never an empty choice; an unknown name
    /// is reported with the offending name.
    pub fn resolve_read(&self, options: &ReadOptions) -> (r: Result<usize, CoreError>)
        ensures
            match r {
                Ok(i) => match options {
                    ReadOptions::Latest => is_newest(self.backups@, i as int),
                    ReadOptions::Backup { name } => i < self.backups@.len() && self.backups@[
                        i as int
                    ].directory_name@ == name@ && forall|j: int|
                        0 <= j < i ==> #[trigger] self.backups@[j].directory_name@ != name@,
                },
                Err(e) => match options {
                    ReadOptions::Latest => self.backups@.len() == 0 && e is NoBackupsAvailable,
                    ReadOptions::Backup { name } => (e matches CoreError::BackupNotFound(n)
                        && n@ == name@) && forall|j: int|
                        0 <= j < self.backups@.len() ==> #[trigger] self.backups@[
                            j
                        ].directory_name@ != name@,
                },
            },
    {
        match options {
            ReadOptions::Latest => match self.newest() {
                Some(i) => Ok(i),
                None => Err(CoreError::NoBackupsAvailable),
            },
            ReadOptions::Backup { name } => match self.find_by_name(name) {
                Some(i) => Ok(i),
                None => Err(CoreError::BackupNotFound(name.clone())),
            },
        }
    }
}

/// In a catalog with distinct names, the newest entry is the only entry that
/// carries its name: resolving `latest` and resolving that name by exact
/// lookup select the same backup, hence the same stored content.
pub proof fn lemma_latest_resolution(s: Seq<Backup>, i: int, j: int)
    requires
        distinct_names(s),
        is_newest(s, i),
        0 <= j < s.len(),
        s[j].directory_name@ == s[i].directory_name@,
    ensures
        j == i,
        s[j] == s[i],
{
    if j != i {
        if i < j {
            assert(s[i].directory_name@ != s[j].directory_name@);
        } else {
            assert(s[j].directory_name@ != s[i].directory_name@);
        }
    }
}

/// With pairwise distinct creation times, the listing order is strictly
/// newest first.
pub proof fn lemma_listing_strictly_newest_first(s: Seq<Backup>)
    requires
        sorted_listing(s),
        forall|i: int, j: int|
            0 <= i < j < s.len() ==> #[trigger] s[i].created_at != #[trigger] s[j].created_at,
    ensures
        forall|i: int, j: int|
            0 <= i < j < s.len() ==> #[trigger] s[i].created_at > #[trigger] s[j].created_at,
{
    assert forall|i: int, j: int| 0 <= i < j < s.len() implies #[trigger] s[i].created_at
        > #[trigger] s[j].created_at by {
        assert(listing_le(s[i], s[j]));
    }
}

} // verus!
