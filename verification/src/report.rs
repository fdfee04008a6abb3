//! The catalog listing as a reporting collaborator consumes it: one row per
//! backup — name, human-readable size, human-readable relative age, and the
//! two envelope flags — sorted newest first, or an explicit notice when the
//! catalog is empty.

use vstd::prelude::*;
use crate::catalog::{Backup, IndexFile, sorted_listing};

verus! {

/// The decimal digit `d` as a character.
pub open spec fn digit_char(d: int) -> char {
    if d == 0 {
        '0'
    } else if d == 1 {
        '1'
    } else if d == 2 {
        '2'
    } else if d == 3 {
        '3'
    } else if d == 4 {
        '4'
    } else if d == 5 {
        '5'
    } else if d == 6 {
        '6'
    } else if d == 7 {
        '7'
    } else if d == 8 {
        '8'
    } else {
        '9'
    }
}

/// The decimal digits of `n`, most significant first.
pub open spec fn dec_digits(n: nat) -> Seq<char>
    decreases n,
{
    if n < 10 {
        seq![digit_char(n as int)]
    } else {
        dec_digits(n / 10) + seq![digit_char((n % 10) as int)]
    }
}

/// One decimal digit as a string slice.
fn digit_str(d: u64) -> (r: &'static str)
    requires
        d < 10,
    ensures
        r@ == seq![digit_char(d as int)],
{
    proof {
        reveal_strlit("0");
        reveal_strlit("1");
        reveal_strlit("2");
        reveal_strlit("3");
        reveal_strlit("4");
        reveal_strlit("5");
        reveal_strlit("6");
        reveal_strlit("7");
        reveal_strlit("8");
        reveal_strlit("9");
    }
    if d == 0 {
        assert("0"@ =~= seq!['0']);
        "0"
    } else if d == 1 {
        assert("1"@ =~= seq!['1']);
        "1"
    } else if d == 2 {
        assert("2"@ =~= seq!['2']);
        "2"
    } else if d == 3 {
        assert("3"@ =~= seq!['3']);
        "3"
    } else if d == 4 {
        assert("4"@ =~= seq!['4']);
        "4"
    } else if d == 5 {
        assert("5"@ =~= seq!['5']);
        "5"
    } else if d == 6 {
        assert("6"@ =~= seq!['6']);
        "6"
    } else if d == 7 {
        assert("7"@ =~= seq!['7']);
        "7"
    } else if d == 8 {
        assert("8"@ =~= seq!['8']);
        "8"
    } else {
        assert("9"@ =~= seq!['9']);
        "9"
    }
}

/// `n` written in decimal.
pub fn u64_string(n: u64) -> (r: String)
    ensures
        r@ == dec_digits(n as nat),
    decreases n,
{
    if n < 10 {
        String::from_str(digit_str(n))
    } else {
        let mut s = u64_string(n / 10);
        s.append(digit_str(n % 10));
        s
    }
}

/// A whole part, a dot, and one fractional digit of `n` scaled by `unit`.
pub open spec fn scaled_spec(n: nat, unit: nat) -> Seq<char>
    recommends
        unit > 0,
{
    dec_digits(n / unit) + seq!['.'] + seq![digit_char(((n % unit) * 10 / unit) as int)]
}

/// `n` bytes, written for a human: `B` below 1000, then one decimal of
/// `kB`, `MB`, `GB` or `TB`, in powers of 1000.
pub open spec fn human_size_spec(n: nat) -> Seq<char> {
    if n < 1000 {
        dec_digits(n) + seq![' ', 'B']
    } else if n < 1000000 {
        scaled_spec(n, 1000) + seq![' ', 'k', 'B']
    } else if n < 1000000000 {
        scaled_spec(n, 1000000) + seq![' ', 'M', 'B']
    } else if n < 1000000000000 {
        scaled_spec(n, 1000000000) + seq![' ', 'G', 'B']
    } else {
        scaled_spec(n, 1000000000000) + seq![' ', 'T', 'B']
    }
}

/// A scaled value with one fractional digit and a unit label.
fn scaled_string(n: u64, unit: u64, label: &'static str) -> (r: String)
    requires
        unit > 0,
        ((n % unit) as int) * 10 <= u64::MAX,
        ((n % unit) as int) * 10 / (unit as int) < 10,
    ensures
        r@ == scaled_spec(n as nat, unit as nat) + label@,
{
    let mut s = u64_string(n / unit);
    proof {
        reveal_strlit(".");
        assert("."@ =~= seq!['.']);
    }
    s.append(".");
    s.append(digit_str((n % unit) * 10 / unit));
    s.append(label);
    proof {
        assert(s@ =~= scaled_spec(n as nat, unit as nat) + label@);
    }
    s
}

/// `n` bytes, written for a human.
pub fn human_size(n: u64) -> (r: String)
    ensures
        r@ == human_size_spec(n as nat),
{
    if n < 1000 {
        let mut s = u64_string(n);
        proof {
            reveal_strlit(" B");
            assert(" B"@ =~= seq![' ', 'B']);
        }
        s.append(" B");
        assert(s@ =~= human_size_spec(n as nat));
        s
    } else if n < 1000000 {
        proof {
            reveal_strlit(" kB");
            assert(" kB"@ =~= seq![' ', 'k', 'B']);
        }
        scaled_string(n, 1000, " kB")
    } else if n < 1000000000 {
        proof {
            reveal_strlit(" MB");
            assert(" MB"@ =~= seq![' ', 'M', 'B']);
        }
        scaled_string(n, 1000000, " MB")
    } else if n < 1000000000000 {
        proof {
            reveal_strlit(" GB");
            assert(" GB"@ =~= seq![' ', 'G', 'B']);
        }
        scaled_string(n, 1000000000, " GB")
    } else {
        proof {
            reveal_strlit(" TB");
            assert(" TB"@ =~= seq![' ', 'T', 'B']);
        }
        scaled_string(n, 1000000000000, " TB")
    }
}

/// The relative-age phrase for a duration: a fixed function of the
/// duration alone.
pub uninterp spec fn relative_age(duration_millis: int) -> Seq<char>;

/// Relies on timeago's `Formatter::convert` with the default English
/// formatter: the phrase depends on the duration alone.
#[verifier::external_body]
fn format_age(duration_millis: u64) -> (r: String)
    ensures
        r@ == relative_age(duration_millis as int),
{
    timeago::Formatter::new().convert(core::time::Duration::from_millis(duration_millis))
}

/// How long before `now` this backup was created; a backup stamped in the
/// future reads as just created.
pub open spec fn age_millis(now: u64, created_at: u64) -> int {
    if now >= created_at {
        now - created_at
    } else {
        0
    }
}

/// One row of the catalog listing.
pub struct BackupRow {
    pub name: String,
    pub size: String,
    pub when: String,
    pub compressed: bool,
    pub encrypted: bool,
}

/// The row faithfully presents the backup as of `now`.
pub open spec fn row_matches(row: BackupRow, b: Backup, now: u64) -> bool {
    &&& row.name@ == b.directory_name@
    &&& row.size@ == human_size_spec(b.size as nat)
    &&& row.when@ == relative_age(age_millis(now, b.created_at))
    &&& row.compressed == b.compressed
    &&& row.encrypted == b.encrypted
}

/// The listing row for one backup.
pub fn row_of(b: &Backup, now: u64) -> (r: BackupRow)
    ensures
        row_matches(r, *b, now),
{
    let age: u64 = if now >= b.created_at {
        now - b.created_at
    } else {
        0
    };
    BackupRow {
        name: b.directory_name.clone(),
        size: human_size(b.size),
        when: format_age(age),
        compressed: b.compressed,
        encrypted: b.encrypted,
    }
}

/// What a listing shows: the explicit empty-catalog notice, or rows.
pub enum Listing {
    Empty,
    Rows(Vec<BackupRow>),
}

/// The rows present exactly the catalog's backups, in listing order.
pub open spec fn rows_present(rows: Seq<BackupRow>, backups: Seq<Backup>, now: u64) -> bool {
    exists|s: Seq<Backup>|
        {
            &&& #[trigger] s.to_multiset() == backups.to_multiset()
            &&& sorted_listing(s)
            &&& rows.len() == s.len()
            &&& forall|i: int| 0 <= i < s.len() ==> row_matches(rows[i], #[trigger] s[i], now)
        }
}

/// The catalog listing: the empty notice if and only if no backups exist,
/// else one row per backup, newest first.
pub fn list_backups(index: &IndexFile, now: u64) -> (r: Listing)
    ensures
        (index.backups@.len() == 0) <==> (r is Empty),
        r matches Listing::Rows(rows) ==> rows@.len() == index.backups@.len() && rows_present(
            rows@,
            index.backups@,
            now,
        ),
{
    if index.backups.len() == 0 {
        return Listing::Empty;
    }
    let sorted = index.sorted_backups();
    let mut rows: Vec<BackupRow> = Vec::new();
    let mut i: usize = 0;
    while i < sorted.len()
        invariant
            i <= sorted.len(),
            rows@.len() == i,
            forall|j: int| 0 <= j < i ==> row_matches(#[trigger] rows@[j], sorted@[j], now),
        decreases sorted.len() - i,
    {
        rows.push(row_of(&sorted[i], now));
        i = i + 1;
    }
    proof {
        broadcast use vstd::seq_lib::group_to_multiset_ensures;

        assert(sorted@.to_multiset() == index.backups@.to_multiset());
        assert(sorted@.to_multiset().len() == sorted@.len());
        assert(index.backups@.to_multiset().len() == index.backups@.len());
        assert(sorted@.len() == index.backups@.len());
        assert(rows_present(rows@, index.backups@, now));
    }
    Listing::Rows(rows)
}

/// The notice a listing prints instead of an empty table.
pub fn empty_catalog_notice() -> (r: String)
    ensures
        r@ == "<empty> no backups available"@,
{
    String::from_str("<empty> no backups available")
}

} // verus!
