// Database backups: naming, listing, expiry and the checks made before a
// backup file is touched. The file system work is the caller's.

use vstd::prelude::*;
use crate::text::{contains_str, contains_text, push_str, str_chars, string_from_chars};

verus! {

/// One backup file as listed to the user.
#[derive(Debug, Clone)]
pub struct BackupInfo {
    pub filename: String,
    pub date: String,
    pub size_bytes: u64,
}

pub struct BackupInfoModel {
    pub filename: Seq<char>,
    pub date: Seq<char>,
    pub size_bytes: u64,
}

impl View for BackupInfo {
    type V = BackupInfoModel;

    open spec fn view(&self) -> BackupInfoModel {
        BackupInfoModel { filename: self.filename@, date: self.date@, size_bytes: self.size_bytes }
    }
}

/// A file in the backups directory: its name and, if its metadata could be
/// read, its size.
#[derive(Debug, Clone)]
pub struct BackupEntry {
    pub name: String,
    pub size: Option<u64>,
}

// ── Names ───────────────────────────────────────────────────────────────────

pub open spec fn backup_prefix() -> Seq<char> {
    "rlist_"@
}

pub open spec fn backup_suffix() -> Seq<char> {
    ".db"@
}

/// The file a backup of `date` is stored in: `rlist_<date>.db`.
pub open spec fn backup_file_spec(date: Seq<char>) -> Seq<char> {
    backup_prefix() + date + backup_suffix()
}

/// The date of a backup file: its name without the `rlist_` prefix and the
/// `.db` suffix; `None` for any other file.
pub open spec fn backup_date_spec(name: Seq<char>) -> Option<Seq<char>> {
    let p = backup_prefix();
    let x = backup_suffix();
    if name.len() >= p.len() && name.take(p.len() as int) == p {
        let rest = name.skip(p.len() as int);
        if rest.len() >= x.len() && rest.skip(rest.len() - x.len()) == x {
            Some(rest.take(rest.len() - x.len()))
        } else {
            None
        }
    } else {
        None
    }
}

pub fn backup_file_name(date: &str) -> (s: String)
    ensures
        s@ == backup_file_spec(date@),
{
    let mut s = String::from_str("rlist_");
    push_str(&mut s, date);
    push_str(&mut s, ".db");
    s
}

pub fn backup_date(name: &str) -> (r: Option<String>)
    ensures
        match backup_date_spec(name@) {
            Some(d) => r matches Some(s) && s@ == d,
            None => r is None,
        },
{
    proof {
        reveal_strlit("rlist_");
        reveal_strlit(".db");
    }
    let cs = str_chars(name);
    let n = cs.len();
    if n < 6 || !(cs[0] == 'r' && cs[1] == 'l' && cs[2] == 'i' && cs[3] == 's' && cs[4] == 't'
        && cs[5] == '_') {
        proof {
            if n >= 6 {
                assert(cs@.take(6)[0] == cs@[0]);
                assert(cs@.take(6)[1] == cs@[1]);
                assert(cs@.take(6)[2] == cs@[2]);
                assert(cs@.take(6)[3] == cs@[3]);
                assert(cs@.take(6)[4] == cs@[4]);
                assert(cs@.take(6)[5] == cs@[5]);
            }
        }
        return None;
    }
    assert(cs@.take(6) =~= backup_prefix());
    let ghost rest = cs@.skip(6);
    if n < 9 || !(cs[n - 3] == '.' && cs[n - 2] == 'd' && cs[n - 1] == 'b') {
        proof {
            if n >= 9 {
                assert(rest.skip(rest.len() - 3)[0] == cs@[n - 3]);
                assert(rest.skip(rest.len() - 3)[1] == cs@[n - 2]);
                assert(rest.skip(rest.len() - 3)[2] == cs@[n - 1]);
            }
        }
        return None;
    }
    assert(rest.skip(rest.len() - 3) =~= backup_suffix());
    let mut d: Vec<char> = Vec::new();
    let mut i: usize = 6;
    while i < n - 3
        invariant
            n == cs@.len(),
            9 <= n,
            6 <= i <= n - 3,
            d@ == cs@.subrange(6, i as int),
        decreases n - 3 - i,
    {
        d.push(cs[i]);
        i = i + 1;
        assert(d@ =~= cs@.subrange(6, i as int));
    }
    assert(d@ =~= rest.take(rest.len() - 3));
    Some(string_from_chars(d.as_slice()))
}

/// A backup file's name gives back the date it was made for.
pub proof fn lemma_backup_name_roundtrip(date: Seq<char>)
    ensures
        backup_date_spec(backup_file_spec(date)) == Some(date),
{
    let name = backup_file_spec(date);
    let rest = name.skip(6);
    reveal_strlit("rlist_");
    reveal_strlit(".db");
    assert(name.take(6) =~= backup_prefix());
    assert(rest =~= date + backup_suffix());
    assert(rest.skip(rest.len() - 3) =~= backup_suffix());
    assert(rest.take(rest.len() - 3) =~= date);
}

/// A file name may be deleted only if it cannot leave the backups directory:
/// no "..", '/' or '\'.
pub open spec fn backup_name_allowed(filename: Seq<char>) -> bool {
    !contains_text(filename, ".."@) && !contains_text(filename, "/"@) && !contains_text(
        filename,
        "\\"@,
    )
}

/// Sanitize filename to prevent path traversal: `Err("Invalid filename")`
/// exactly for a name that is not allowed.
pub fn check_backup_name(filename: &str) -> (r: Result<(), String>)
    ensures
        backup_name_allowed(filename@) ==> r is Ok,
        !backup_name_allowed(filename@) ==> (r matches Err(e) && e@ == "Invalid filename"@),
{
    if contains_str(filename, "..") || contains_str(filename, "/") || contains_str(filename, "\\") {
        Err(String::from_str("Invalid filename"))
    } else {
        Ok(())
    }
}

// ── Dates ───────────────────────────────────────────────────────────────────

/// `a < b` for strings: lexicographic by character from position `i` on.
pub open spec fn text_lt_from(a: Seq<char>, b: Seq<char>, i: int) -> bool
    decreases a.len() - i,
{
    if i < 0 || i >= b.len() {
        false
    } else if i >= a.len() {
        true
    } else if a[i] != b[i] {
        a[i] < b[i]
    } else {
        text_lt_from(a, b, i + 1)
    }
}

/// `a < b` for strings (`str`'s order: byte-wise on UTF-8, which orders as
/// the characters do).
pub open spec fn text_lt(a: Seq<char>, b: Seq<char>) -> bool {
    text_lt_from(a, b, 0)
}

proof fn lemma_text_lt_from_transitive(a: Seq<char>, b: Seq<char>, c: Seq<char>, i: int)
    requires
        0 <= i,
        text_lt_from(a, b, i),
        text_lt_from(b, c, i),
    ensures
        text_lt_from(a, c, i),
    decreases a.len() - i,
{
    if i < a.len() && i < b.len() && i < c.len() && a[i] == b[i] && b[i] == c[i] {
        lemma_text_lt_from_transitive(a, b, c, i + 1);
    }
}

pub proof fn lemma_text_lt_transitive(a: Seq<char>, b: Seq<char>, c: Seq<char>)
    requires
        text_lt(a, b),
        text_lt(b, c),
    ensures
        text_lt(a, c),
{
    lemma_text_lt_from_transitive(a, b, c, 0);
}

proof fn lemma_text_lt_from_asymmetric(a: Seq<char>, b: Seq<char>, i: int)
    requires
        0 <= i,
        text_lt_from(a, b, i),
    ensures
        !text_lt_from(b, a, i),
    decreases a.len() - i,
{
    if i < a.len() && i < b.len() && a[i] == b[i] {
        lemma_text_lt_from_asymmetric(a, b, i + 1);
    }
}

pub fn text_less(a: &[char], b: &[char]) -> (r: bool)
    ensures
        r == text_lt(a@, b@),
{
    let mut i: usize = 0;
    while i < a.len() && i < b.len() && a[i] == b[i]
        invariant
            i <= a@.len(),
            i <= b@.len(),
            text_lt(a@, b@) == text_lt_from(a@, b@, i as int),
        decreases a@.len() - i,
    {
        i = i + 1;
    }
    if i >= b.len() {
        false
    } else if i >= a.len() {
        true
    } else {
        a[i] < b[i]
    }
}

/// Whether a file is a backup made before `cutoff` (a `%Y-%m-%d` date).
pub open spec fn is_stale_backup(name: Seq<char>, cutoff: Seq<char>) -> bool {
    backup_date_spec(name) matches Some(d) && text_lt(d, cutoff)
}

/// The names among `names` of backups made before `cutoff`, in order.
pub open spec fn stale_backups_spec(names: Seq<Seq<char>>, cutoff: Seq<char>) -> Seq<Seq<char>>
    decreases names.len(),
{
    if names.len() == 0 {
        Seq::empty()
    } else {
        let init = stale_backups_spec(names.drop_last(), cutoff);
        if is_stale_backup(names.last(), cutoff) {
            init.push(names.last())
        } else {
            init
        }
    }
}

pub open spec fn names_view(names: Seq<String>) -> Seq<Seq<char>> {
    names.map_values(|s: String| s@)
}

/// The backups to remove when backups before `cutoff` expire.
pub fn stale_backups(names: &[String], cutoff: &str) -> (r: Vec<String>)
    ensures
        names_view(r@) == stale_backups_spec(names_view(names@), cutoff@),
{
    let cut = str_chars(cutoff);
    let mut r: Vec<String> = Vec::new();
    let mut i: usize = 0;
    while i < names.len()
        invariant
            i <= names@.len(),
            cut@ == cutoff@,
            names_view(r@) == stale_backups_spec(names_view(names@).take(i as int), cutoff@),
        decreases names@.len() - i,
    {
        let ghost before = names_view(names@).take(i as int);
        assert(names_view(names@).take(i + 1).drop_last() =~= before);
        let stale = match backup_date(names[i].as_str()) {
            Some(d) => {
                let dc = str_chars(d.as_str());
                text_less(dc.as_slice(), cut.as_slice())
            },
            None => false,
        };
        if stale {
            r.push(names[i].clone());
            assert(names_view(r@) =~= stale_backups_spec(before, cutoff@).push(names[i as int]@));
        }
        i = i + 1;
    }
    assert(names_view(names@).take(names@.len() as int) =~= names_view(names@));
    r
}

// ── Listing ─────────────────────────────────────────────────────────────────

pub open spec fn infos_view(s: Seq<BackupInfo>) -> Seq<BackupInfoModel> {
    s.map_values(|b: BackupInfo| b@)
}

/// The backups among the directory's files: those named like a backup
/// whose size could be read.
pub open spec fn backup_files_spec(entries: Seq<BackupEntry>) -> Seq<BackupInfoModel>
    decreases entries.len(),
{
    if entries.len() == 0 {
        Seq::empty()
    } else {
        let init = backup_files_spec(entries.drop_last());
        let e = entries.last();
        match (backup_date_spec(e.name@), e.size) {
            (Some(d), Some(size)) => init.push(
                BackupInfoModel { filename: e.name@, date: d, size_bytes: size },
            ),
            _ => init,
        }
    }
}

/// The first position in `s` whose date is before `date` (`s.len()` if none).
pub open spec fn first_older(s: Seq<BackupInfoModel>, date: Seq<char>) -> int
    decreases s.len(),
{
    if s.len() == 0 {
        0
    } else if text_lt(s[0].date, date) {
        0
    } else {
        1 + first_older(s.skip(1), date)
    }
}

/// Inserts `x` after every entry not older than it.
pub open spec fn insert_newest_first(s: Seq<BackupInfoModel>, x: BackupInfoModel) -> Seq<
    BackupInfoModel,
> {
    let k = first_older(s, x.date);
    s.take(k) + seq![x] + s.skip(k)
}

/// Newest first by date; backups of the same date keep their order (a
/// stable sort, as `sort_by` is).
pub open spec fn newest_first(s: Seq<BackupInfoModel>) -> Seq<BackupInfoModel>
    decreases s.len(),
{
    if s.len() == 0 {
        s
    } else {
        insert_newest_first(newest_first(s.drop_last()), s.last())
    }
}

proof fn lemma_first_older(s: Seq<BackupInfoModel>, date: Seq<char>)
    ensures
        0 <= first_older(s, date) <= s.len(),
        forall|i: int| 0 <= i < first_older(s, date) ==> !text_lt(#[trigger] s[i].date, date),
        first_older(s, date) < s.len() ==> text_lt(s[first_older(s, date)].date, date),
    decreases s.len(),
{
    if s.len() > 0 && !text_lt(s[0].date, date) {
        lemma_first_older(s.skip(1), date);
        assert forall|i: int| 0 <= i < first_older(s, date) implies !text_lt(#[trigger] s[i].date, date) by {
            if i > 0 {
                assert(s[i] == s.skip(1)[i - 1]);
            }
        }
    }
}

fn first_older_exec(s: &Vec<BackupInfo>, date: &[char]) -> (k: usize)
    ensures
        k as int == first_older(infos_view(s@), date@),
        k <= s@.len(),
{
    let ghost v = infos_view(s@);
    proof {
        lemma_first_older(v, date@);
    }
    assert(v.skip(0) =~= v);
    let mut k: usize = 0;
    while k < s.len()
        invariant
            k <= s@.len(),
            v == infos_view(s@),
            first_older(v, date@) == k + first_older(v.skip(k as int), date@),
        decreases s@.len() - k,
    {
        let dc = str_chars(s[k].date.as_str());
        assert(v.skip(k as int)[0] == v[k as int]);
        if text_less(dc.as_slice(), date) {
            return k;
        }
        assert(v.skip(k as int).skip(1) =~= v.skip(k + 1));
        k = k + 1;
    }
    k
}

/// Whether backups are listed newest first.
pub open spec fn is_newest_first(s: Seq<BackupInfoModel>) -> bool {
    forall|i: int, j: int| 0 <= i < j < s.len() ==> !text_lt(#[trigger] s[i].date, #[trigger] s[j].date)
}

proof fn lemma_insert_keeps_order(s: Seq<BackupInfoModel>, x: BackupInfoModel)
    requires
        is_newest_first(s),
    ensures
        is_newest_first(insert_newest_first(s, x)),
        insert_newest_first(s, x).to_multiset() == s.to_multiset().insert(x),
{
    lemma_first_older(s, x.date);
    let k = first_older(s, x.date);
    let r = insert_newest_first(s, x);
    assert forall|i: int, j: int| 0 <= i < j < r.len() implies !text_lt(
        #[trigger] r[i].date,
        #[trigger] r[j].date,
    ) by {
        if j < k {
            assert(r[i] == s[i] && r[j] == s[j]);
        } else if j == k {
            assert(r[i] == s[i]);
        } else if i < k {
            assert(r[i] == s[i] && r[j] == s[j - 1]);
        } else if i == k {
            // x before an entry at or after the first older one
            assert(r[j] == s[j - 1]);
            assert(text_lt(s[k].date, x.date));
            if text_lt(x.date, s[j - 1].date) {
                if j - 1 > k {
                    lemma_text_lt_transitive(s[k].date, x.date, s[j - 1].date);
                    assert(!text_lt(s[k].date, s[j - 1].date));
                } else {
                    lemma_text_lt_from_asymmetric(s[k].date, x.date, 0);
                }
            }
        } else {
            assert(r[i] == s[i - 1] && r[j] == s[j - 1]);
        }
    }
    assert(r =~= s.insert(k, x));
    vstd::seq_lib::to_multiset_insert(s, k, x);
}

/// Backups listed newest first are in date order (no backup comes before a
/// newer one), and the listing holds exactly the backups it was given.
pub proof fn lemma_newest_first(s: Seq<BackupInfoModel>)
    ensures
        is_newest_first(newest_first(s)),
        newest_first(s).to_multiset() == s.to_multiset(),
    decreases s.len(),
{
    if s.len() > 0 {
        lemma_newest_first(s.drop_last());
        lemma_insert_keeps_order(newest_first(s.drop_last()), s.last());
        assert(s.drop_last().push(s.last()) =~= s);
        vstd::seq_lib::to_multiset_build(s.drop_last(), s.last());
    }
}

/// The backups in a directory listing, newest first.
pub fn list_backups(entries: &[BackupEntry]) -> (r: Vec<BackupInfo>)
    ensures
        infos_view(r@) == newest_first(backup_files_spec(entries@)),
{
    let mut r: Vec<BackupInfo> = Vec::new();
    let mut i: usize = 0;
    while i < entries.len()
        invariant
            i <= entries@.len(),
            infos_view(r@) == newest_first(backup_files_spec(entries@.take(i as int))),
        decreases entries@.len() - i,
    {
        let ghost before = entries@.take(i as int);
        assert(entries@.take(i + 1).drop_last() =~= before);
        let e = &entries[i];
        match (backup_date(e.name.as_str()), e.size) {
            (Some(d), Some(size)) => {
                let dc = str_chars(d.as_str());
                let k = first_older_exec(&r, dc.as_slice());
                let ghost old_r = r@;
                let info = BackupInfo { filename: e.name.clone(), date: d, size_bytes: size };
                r.insert(k, info);
                assert(infos_view(r@) =~= insert_newest_first(infos_view(old_r), info@));
                assert(backup_files_spec(entries@.take(i + 1)) == backup_files_spec(before).push(
                    info@,
                ));
                assert(backup_files_spec(entries@.take(i + 1)).drop_last() =~= backup_files_spec(
                    before,
                ));
            },
            _ => {},
        }
        i = i + 1;
    }
    assert(entries@.take(entries@.len() as int) =~= entries@);
    r
}

} // verus!
