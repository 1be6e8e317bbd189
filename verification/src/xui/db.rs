//! The backups of the panel's database.

use vstd::prelude::*;

use crate::constants::RETAINED_XUI_DBNUM;
use crate::text::{
    chars_of, ends_with, is_alnum, starts_with, str_ends_with, str_starts_with, texts,
};
use crate::types::proper;

verus! {

// ---------------------------------------------------------------- names

pub open spec fn xui_backup_text(server: Seq<char>, time: Seq<char>) -> Seq<char> {
    server + "-"@ + time + "-xui-backup.db"@
}

/// The name of a backup that is made at the time.
pub fn xui_backup_name(server: &str, time: &str) -> (r: String)
    ensures
        r@ == xui_backup_text(server@, time@),
{
    let mut s = server.to_owned();
    s.append("-");
    s.append(time);
    s.append("-xui-backup.db");
    s
}

/// The file is a backup of the server's database.
pub open spec fn is_backup_of(name: Seq<char>, server: Seq<char>) -> bool {
    starts_with(name, server + "-"@) && ends_with(name, "backup.db"@)
}

/// Is the file a backup of the server's database?
pub fn backup_of(name: &str, server: &str) -> (r: bool)
    ensures
        r == is_backup_of(name@, server@),
{
    let mut prefix = server.to_owned();
    prefix.append("-");
    str_starts_with(name, prefix.as_str()) && str_ends_with(name, "backup.db")
}

// ---------------------------------------------------------------- order

/// The first text comes before the second, from this position on, in the order of
/// their characters.
pub open spec fn less_from(a: Seq<char>, b: Seq<char>, i: int) -> bool
    decreases a.len() - i,
{
    if i >= b.len() {
        false
    } else if i >= a.len() {
        true
    } else if a[i] != b[i] {
        (a[i] as int) < (b[i] as int)
    } else {
        less_from(a, b, i + 1)
    }
}

/// The first text comes before the second in the order of their characters.
pub open spec fn text_less(a: Seq<char>, b: Seq<char>) -> bool {
    less_from(a, b, 0)
}

fn code_point(c: char) -> (r: u32)
    ensures
        r == c as int,
{
    c as u32
}

fn str_less(a: &str, b: &str) -> (r: bool)
    ensures
        r == text_less(a@, b@),
{
    let x = chars_of(a);
    let y = chars_of(b);
    let mut i: usize = 0;
    while i < x.len() && i < y.len()
        invariant
            i <= x@.len(),
            i <= y@.len(),
            x@ == a@,
            y@ == b@,
            text_less(a@, b@) == less_from(a@, b@, i as int),
        decreases x@.len() - i,
    {
        if x[i] != y[i] {
            return code_point(x[i]) < code_point(y[i]);
        }
        i += 1;
    }
    i < y.len()
}

// ---------------------------------------------------------------- the latest

/// The name is that of a backup of the server, and none of the others comes after
/// it.
pub open spec fn is_latest(names: Seq<Seq<char>>, server: Seq<char>, name: Seq<char>) -> bool {
    &&& names.contains(name)
    &&& is_backup_of(name, server)
    &&& forall|i: int|
        0 <= i < names.len() && is_backup_of(#[trigger] names[i], server) ==> !text_less(
            name,
            names[i],
        )
}

proof fn lemma_less_irreflexive(a: Seq<char>, i: int)
    requires
        0 <= i,
    ensures
        !less_from(a, a, i),
    decreases a.len() - i,
{
    if i < a.len() {
        lemma_less_irreflexive(a, i + 1);
    }
}

proof fn lemma_less_transitive(a: Seq<char>, b: Seq<char>, c: Seq<char>, i: int)
    requires
        0 <= i,
        !less_from(b, a, i),
        !less_from(c, b, i),
    ensures
        !less_from(c, a, i),
    decreases a.len() - i,
{
    if i < a.len() {
        assert(i < b.len());
        assert(i < c.len());
        if a[i] == b[i] && b[i] == c[i] {
            lemma_less_transitive(a, b, c, i + 1);
        } else {
            assert(a[i] as int <= b[i] as int);
            assert(b[i] as int <= c[i] as int);
            assert(a[i] != c[i]);
        }
    }
}

/// Finds the latest backup of a server's database among the files of the backup
/// folder.
pub fn last_xui_db(names: &Vec<String>, server: &str) -> (r: Result<String, String>)
    ensures
        match r {
            Ok(n) => is_latest(texts(names@), server@, n@),
            Err(e) => e@ == "Couldn't find any DB to choose from."@ && forall|i: int|
                0 <= i < names@.len() ==> !is_backup_of(#[trigger] texts(names@)[i], server@),
        },
{
    let ghost all = texts(names@);
    let mut best: Option<usize> = None;
    let mut i: usize = 0;
    while i < names.len()
        invariant
            i <= names@.len(),
            all == texts(names@),
            match best {
                Some(b) => {
                    &&& b < i
                    &&& is_backup_of(all[b as int], server@)
                    &&& forall|j: int|
                        0 <= j < i && is_backup_of(#[trigger] all[j], server@) ==> !text_less(
                            all[b as int],
                            all[j],
                        )
                },
                None => forall|j: int| 0 <= j < i ==> !is_backup_of(#[trigger] all[j], server@),
            },
        decreases names@.len() - i,
    {
        assert(all[i as int] == names@[i as int]@);
        if backup_of(names[i].as_str(), server) {
            match best {
                Some(b) => {
                    assert(all[b as int] == names@[b as int]@);
                    if !str_less(names[i].as_str(), names[b].as_str()) {
                        proof {
                            lemma_less_irreflexive(all[i as int], 0);
                            assert forall|j: int|
                                0 <= j < i && is_backup_of(
                                    #[trigger] all[j],
                                    server@,
                                ) implies !text_less(all[i as int], all[j]) by {
                                lemma_less_transitive(all[j], all[b as int], all[i as int], 0);
                            }
                        }
                        best = Some(i);
                    } else {
                        proof {
                            lemma_less_asymmetric(all[i as int], all[b as int], 0);
                        }
                    }
                },
                None => {
                    proof {
                        lemma_less_irreflexive(all[i as int], 0);
                    }
                    best = Some(i);
                },
            }
        }
        i += 1;
    }
    match best {
        Some(b) => {
            assert(all[b as int] == names@[b as int]@);
            Ok(names[b].clone())
        },
        None => Err("Couldn't find any DB to choose from.".to_owned()),
    }
}

proof fn lemma_less_asymmetric(a: Seq<char>, b: Seq<char>, i: int)
    requires
        0 <= i,
        less_from(a, b, i),
    ensures
        !less_from(b, a, i),
    decreases a.len() - i,
{
    if i < a.len() && i < b.len() && a[i] == b[i] {
        lemma_less_asymmetric(a, b, i + 1);
    }
}

// ---------------------------------------------------------------- pruning

/// A backup, and when it was made, in nanoseconds.
pub struct BackupFile {
    pub name: String,
    pub created: i128,
}

pub open spec fn times(s: Seq<BackupFile>) -> Seq<i128> {
    s.map_values(|f: BackupFile| f.created)
}

/// The one at `j` comes before the one at `i` when the newest come first: it is
/// newer, or as old and listed before it.
pub open spec fn comes_first(t: Seq<i128>, j: int, i: int) -> bool {
    t[j] > t[i] || (t[j] == t[i] && j < i)
}

/// How many of the first `k` come before the one at `i`.
pub open spec fn ahead_upto(t: Seq<i128>, i: int, k: int) -> nat
    decreases k,
{
    if k <= 0 {
        0
    } else if comes_first(t, k - 1, i) {
        ahead_upto(t, i, k - 1) + 1
    } else {
        ahead_upto(t, i, k - 1)
    }
}

/// The place of the one at `i` when the newest come first.
pub open spec fn place(t: Seq<i128>, i: int) -> nat {
    ahead_upto(t, i, t.len() as int)
}

/// The first `k` ones that are too old to be kept, where `keep` are kept.
pub open spec fn stale_upto(s: Seq<BackupFile>, keep: nat, k: int) -> Seq<Seq<char>>
    decreases k,
{
    if k <= 0 {
        Seq::empty()
    } else if place(times(s), k - 1) >= keep {
        stale_upto(s, keep, k - 1).push(s[k - 1].name@)
    } else {
        stale_upto(s, keep, k - 1)
    }
}

fn place_of(s: &Vec<BackupFile>, i: usize) -> (r: usize)
    requires
        i < s@.len(),
    ensures
        r == place(times(s@), i as int),
{
    let ghost t = times(s@);
    let mut n: usize = 0;
    let mut k: usize = 0;
    while k < s.len()
        invariant
            k <= s@.len(),
            i < s@.len(),
            t == times(s@),
            n <= k,
            n == ahead_upto(t, i as int, k as int),
        decreases s@.len() - k,
    {
        assert(t[k as int] == s@[k as int].created);
        assert(t[i as int] == s@[i as int].created);
        if s[k].created > s[i].created || (s[k].created == s[i].created && k < i) {
            n += 1;
        }
        k += 1;
    }
    n
}

/// Lists the backups of a server that are too old to be kept: all but the newest
/// ones.
pub fn prune_xui_backups(files: &Vec<BackupFile>) -> (r: Vec<String>)
    ensures
        texts(r@) == stale_upto(files@, RETAINED_XUI_DBNUM as nat, files@.len() as int),
{
    let mut r: Vec<String> = Vec::new();
    assert(texts(r@) =~= Seq::empty());
    let mut i: usize = 0;
    while i < files.len()
        invariant
            i <= files@.len(),
            texts(r@) == stale_upto(files@, RETAINED_XUI_DBNUM as nat, i as int),
        decreases files@.len() - i,
    {
        if place_of(files, i) >= RETAINED_XUI_DBNUM {
            let ghost before = r@;
            let n = files[i].name.clone();
            r.push(n);
            assert(texts(r@) =~= texts(before).push(n@));
        }
        i += 1;
    }
    r
}

/// The backups of the server among the first `k` files.
pub open spec fn backups_upto(names: Seq<Seq<char>>, server: Seq<char>, k: int) -> Seq<Seq<char>>
    decreases k,
{
    if k <= 0 {
        Seq::empty()
    } else if is_backup_of(names[k - 1], server) {
        backups_upto(names, server, k - 1).push(names[k - 1])
    } else {
        backups_upto(names, server, k - 1)
    }
}

/// Lists the backups of a server among the files of the backup folder, all of
/// which are deleted when the server is provisioned anew.
pub fn delete_xui_backups(names: &Vec<String>, server: &str) -> (r: Vec<String>)
    ensures
        texts(r@) == backups_upto(texts(names@), server@, names@.len() as int),
{
    let ghost all = texts(names@);
    let mut r: Vec<String> = Vec::new();
    assert(texts(r@) =~= Seq::empty());
    let mut i: usize = 0;
    while i < names.len()
        invariant
            i <= names@.len(),
            all == texts(names@),
            texts(r@) == backups_upto(all, server@, i as int),
        decreases names@.len() - i,
    {
        assert(all[i as int] == names@[i as int]@);
        if backup_of(names[i].as_str(), server) {
            let ghost before = r@;
            let n = names[i].clone();
            r.push(n);
            assert(texts(r@) =~= texts(before).push(n@));
        }
        i += 1;
    }
    r
}

// ---------------------------------------------------------------- the laws

/// A backup belongs to one server: no file counts as a backup of two servers with
/// proper names.
pub proof fn law_backups_belong_to_one_server(name: Seq<char>, a: Seq<char>, b: Seq<char>)
    requires
        proper(a),
        proper(b),
        is_backup_of(name, a),
        is_backup_of(name, b),
    ensures
        a == b,
{
    reveal_strlit("-");
    let pa = a + "-"@;
    let pb = b + "-"@;
    assert(name.subrange(0, pa.len() as int) == pa);
    assert(name.subrange(0, pb.len() as int) == pb);
    assert(forall|i: int| 0 <= i < pa.len() ==> #[trigger] name[i] == pa[i]) by {
        assert forall|i: int| 0 <= i < pa.len() implies #[trigger] name[i] == pa[i] by {
            assert(name.subrange(0, pa.len() as int)[i] == name[i]);
        }
    }
    assert(forall|i: int| 0 <= i < pb.len() ==> #[trigger] name[i] == pb[i]) by {
        assert forall|i: int| 0 <= i < pb.len() implies #[trigger] name[i] == pb[i] by {
            assert(name.subrange(0, pb.len() as int)[i] == name[i]);
        }
    }
    assert(name[a.len() as int] == pa[a.len() as int]);
    assert(name[b.len() as int] == pb[b.len() as int]);
    if a.len() < b.len() {
        assert(name[a.len() as int] == b[a.len() as int]);
        assert(!is_alnum('-'));
        assert(false);
    }
    if b.len() < a.len() {
        assert(name[b.len() as int] == a[b.len() as int]);
        assert(!is_alnum('-'));
        assert(false);
    }
    assert forall|i: int| 0 <= i < a.len() implies a[i] == b[i] by {
        assert(name[i] == pa[i]);
        assert(name[i] == pb[i]);
    }
    assert(a =~= b);
}

/// The names that are given to backups are recognized as backups of their server.
pub proof fn law_backup_names_are_recognized(server: Seq<char>, time: Seq<char>)
    ensures
        is_backup_of(xui_backup_text(server, time), server),
{
    reveal_strlit("-xui-backup.db");
    reveal_strlit("backup.db");
    let name = xui_backup_text(server, time);
    let p = server + "-"@;
    assert(name.subrange(0, p.len() as int) =~= p);
    let e = "backup.db"@;
    let tail = "-xui-backup.db"@;
    assert(tail.subrange(5, 14) =~= e);
    assert(name.subrange(name.len() - e.len(), name.len() as int) =~= e) by {
        assert forall|i: int| 0 <= i < e.len() implies name.subrange(
            name.len() - e.len(),
            name.len() as int,
        )[i] == e[i] by {
            assert(e[i] == tail.subrange(5, 14)[i]);
        }
    }
}

/// Of two backups of a server the one that was made later has the later name, as
/// long as the times are written at the same width: the latest name is that of
/// the newest backup.
pub proof fn law_later_backups_have_later_names(server: Seq<char>, t: Seq<char>, u: Seq<char>)
    requires
        t.len() == u.len(),
    ensures
        text_less(xui_backup_text(server, t), xui_backup_text(server, u)) <==> text_less(t, u),
{
    reveal_strlit("-");
    let x = xui_backup_text(server, t);
    let y = xui_backup_text(server, u);
    let n = server.len() + 1;
    lemma_less_shared_prefix(x, y, 0, n as int);
    lemma_less_shift(x, y, t, u, n as int, 0);
}

proof fn lemma_less_shared_prefix(x: Seq<char>, y: Seq<char>, i: int, n: int)
    requires
        0 <= i <= n,
        n <= x.len(),
        n <= y.len(),
        forall|k: int| 0 <= k < n ==> #[trigger] x[k] == y[k],
    ensures
        less_from(x, y, i) == less_from(x, y, n),
    decreases n - i,
{
    if i < n {
        assert(x[i] == y[i]);
        lemma_less_shared_prefix(x, y, i + 1, n);
    }
}

proof fn lemma_less_shift(
    x: Seq<char>,
    y: Seq<char>,
    t: Seq<char>,
    u: Seq<char>,
    n: int,
    i: int,
)
    requires
        0 <= n,
        0 <= i <= t.len(),
        t.len() == u.len(),
        x.len() == y.len(),
        n + t.len() <= x.len(),
        forall|k: int| 0 <= k < t.len() ==> #[trigger] t[k] == x[n + k],
        forall|k: int| 0 <= k < u.len() ==> #[trigger] u[k] == y[n + k],
        forall|k: int| n + t.len() <= k < x.len() ==> #[trigger] x[k] == y[k],
    ensures
        less_from(x, y, n + i) == less_from(t, u, i),
    decreases t.len() - i,
{
    if i < t.len() {
        assert(t[i] == x[n + i] && u[i] == y[n + i]);
        lemma_less_shift(x, y, t, u, n, i + 1);
    } else {
        lemma_less_same_tail(x, y, n + i);
    }
}

proof fn lemma_less_same_tail(x: Seq<char>, y: Seq<char>, i: int)
    requires
        0 <= i,
        x.len() == y.len(),
        forall|k: int| i <= k < x.len() ==> #[trigger] x[k] == y[k],
    ensures
        !less_from(x, y, i),
    decreases x.len() - i,
{
    if i < x.len() {
        lemma_less_same_tail(x, y, i + 1);
    }
}

/// A backup that is kept is never older than one that is removed.
pub proof fn law_newest_backups_are_kept(t: Seq<i128>, keep: nat, i: int, j: int)
    requires
        0 <= i < t.len(),
        0 <= j < t.len(),
        place(t, i) < keep,
        place(t, j) >= keep,
    ensures
        t[i] >= t[j],
{
    if t[j] > t[i] {
        lemma_ahead_grows(t, j, i, t.len() as int);
    }
}

/// What comes before `a` also comes before `b`, where `a` comes before `b`; and `a`
/// itself does.
proof fn lemma_ahead_grows(t: Seq<i128>, a: int, b: int, k: int)
    requires
        0 <= a < t.len(),
        0 <= b < t.len(),
        comes_first(t, a, b),
        0 <= k <= t.len(),
    ensures
        ahead_upto(t, a, k) + (if a < k {
            1nat
        } else {
            0
        }) <= ahead_upto(t, b, k),
    decreases k,
{
    if k > 0 {
        lemma_ahead_grows(t, a, b, k - 1);
    }
}

proof fn lemma_ahead_bound(t: Seq<i128>, i: int, k: int)
    requires
        0 <= i < t.len(),
        0 <= k <= t.len(),
    ensures
        ahead_upto(t, i, k) <= k,
        i < k ==> ahead_upto(t, i, k) < k,
    decreases k,
{
    if k > 0 {
        lemma_ahead_bound(t, i, k - 1);
    }
}

/// How many of the first `k` are kept.
pub open spec fn kept_upto(t: Seq<i128>, keep: nat, k: int) -> nat
    decreases k,
{
    if k <= 0 {
        0
    } else if place(t, k - 1) < keep {
        kept_upto(t, keep, k - 1) + 1
    } else {
        kept_upto(t, keep, k - 1)
    }
}

/// The places below `keep` that are taken by the first `k`.
spec fn taken(t: Seq<i128>, keep: nat, k: int) -> Set<int>
    decreases k,
{
    if k <= 0 {
        Set::empty()
    } else if place(t, k - 1) < keep {
        taken(t, keep, k - 1).insert(place(t, k - 1) as int)
    } else {
        taken(t, keep, k - 1)
    }
}

proof fn lemma_places_differ(t: Seq<i128>, a: int, b: int)
    requires
        0 <= a < t.len(),
        0 <= b < t.len(),
        a != b,
    ensures
        place(t, a) != place(t, b),
{
    if comes_first(t, a, b) {
        lemma_ahead_grows(t, a, b, t.len() as int);
    } else {
        lemma_ahead_grows(t, b, a, t.len() as int);
    }
}

proof fn lemma_taken(t: Seq<i128>, keep: nat, k: int)
    requires
        0 <= k <= t.len(),
    ensures
        taken(t, keep, k).finite(),
        taken(t, keep, k).len() == kept_upto(t, keep, k),
        forall|p: int| #[trigger] taken(t, keep, k).contains(p) <==> exists|i: int|
            0 <= i < k && #[trigger] place(t, i) == p && p < keep,
    decreases k,
{
    if k > 0 {
        lemma_taken(t, keep, k - 1);
        let before = taken(t, keep, k - 1);
        let p = place(t, k - 1) as int;
        if p < keep {
            if before.contains(p) {
                let i = choose|i: int| 0 <= i < k - 1 && #[trigger] place(t, i) == p && p < keep;
                lemma_places_differ(t, i, k - 1);
            }
            assert(!before.contains(p));
        }
        assert forall|q: int| #[trigger] taken(t, keep, k).contains(q) <==> exists|i: int|
            0 <= i < k && #[trigger] place(t, i) == q && q < keep by {
            if before.contains(q) {
                let i = choose|i: int| 0 <= i < k - 1 && #[trigger] place(t, i) == q && q < keep;
                assert(place(t, i) == q);
            }
            if exists|i: int| 0 <= i < k && #[trigger] place(t, i) == q && q < keep {
                let i = choose|i: int| 0 <= i < k && #[trigger] place(t, i) == q && q < keep;
                if i < k - 1 {
                    assert(before.contains(q));
                }
            }
        }
    }
}

/// Exactly as many backups are kept as are to be kept, or all where there are
/// fewer: the others are removed.
pub proof fn law_prune_keeps_the_number(s: Seq<BackupFile>, keep: nat)
    ensures
        stale_upto(s, keep, s.len() as int).len() == (if keep <= s.len() {
            s.len() - keep
        } else {
            0
        }),
{
    lemma_kept_number(times(s), keep);
    lemma_stale_or_kept(s, keep, s.len() as int);
}

proof fn lemma_stale_or_kept(s: Seq<BackupFile>, keep: nat, k: int)
    requires
        0 <= k <= s.len(),
    ensures
        stale_upto(s, keep, k).len() + kept_upto(times(s), keep, k) == k,
    decreases k,
{
    if k > 0 {
        lemma_stale_or_kept(s, keep, k - 1);
    }
}

/// There is one latest backup.
pub proof fn law_latest_is_unique(
    names: Seq<Seq<char>>,
    server: Seq<char>,
    a: Seq<char>,
    b: Seq<char>,
)
    requires
        is_latest(names, server, a),
        is_latest(names, server, b),
    ensures
        a == b,
{
    let i = choose|i: int| 0 <= i < names.len() && names[i] == a;
    let j = choose|j: int| 0 <= j < names.len() && names[j] == b;
    assert(!text_less(a, names[j]));
    assert(!text_less(b, names[i]));
    lemma_less_total(a, b, 0);
}

proof fn lemma_less_total(a: Seq<char>, b: Seq<char>, i: int)
    requires
        0 <= i,
        i <= a.len(),
        i <= b.len(),
        !less_from(a, b, i),
        !less_from(b, a, i),
        forall|k: int| 0 <= k < i ==> #[trigger] a[k] == b[k],
    ensures
        a == b,
    decreases a.len() - i,
{
    if i < a.len() && i < b.len() {
        lemma_less_total(a, b, i + 1);
    } else {
        assert(a =~= b);
    }
}

proof fn lemma_kept_number(t: Seq<i128>, keep: nat)
    ensures
        kept_upto(t, keep, t.len() as int) == (if keep <= t.len() {
            keep
        } else {
            t.len()
        }),
{
    let n = t.len();
    lemma_taken(t, n, n as int);
    lemma_taken(t, keep, n as int);
    // All places below the number of backups are taken.
    let all = taken(t, n, n as int);
    lemma_kept_all(t, n as int);
    let range = vstd::set_lib::set_int_range(0, n as int);
    vstd::set_lib::lemma_int_range(0, n as int);
    assert(all.subset_of(range)) by {
        assert forall|p: int| all.contains(p) implies range.contains(p) by {
            let i = choose|i: int| 0 <= i < n && #[trigger] place(t, i) == p && p < n;
        }
    }
    vstd::set_lib::lemma_subset_equality(all, range);
    let m = if keep <= n {
        keep
    } else {
        n
    };
    let some = taken(t, keep, n as int);
    let low = vstd::set_lib::set_int_range(0, m as int);
    vstd::set_lib::lemma_int_range(0, m as int);
    assert(some =~= low) by {
        assert forall|p: int| some.contains(p) <==> low.contains(p) by {
            if some.contains(p) {
                let i = choose|i: int| 0 <= i < n && #[trigger] place(t, i) == p && p < keep;
                lemma_ahead_bound(t, i, n as int);
            }
            if low.contains(p) {
                assert(all.contains(p));
                let i = choose|i: int| 0 <= i < n && #[trigger] place(t, i) == p && p < n;
                assert(place(t, i) == p);
            }
        }
    }
}

proof fn lemma_kept_all(t: Seq<i128>, k: int)
    requires
        0 <= k <= t.len(),
    ensures
        kept_upto(t, t.len(), k) == k,
    decreases k,
{
    if k > 0 {
        lemma_kept_all(t, k - 1);
        lemma_ahead_bound(t, k - 1, t.len() as int);
    }
}

/// A file counts as a backup of a server where its name begins with the server's and a
/// dash, and ends as backups do.
pub proof fn law_backups_are_told_by_name(name: Seq<char>, server: Seq<char>)
    ensures
        is_backup_of(name, server) <==> (server + "-"@).is_prefix_of(name)
            && "backup.db"@.is_suffix_of(name),
{
    let p = server + "-"@;
    let e = "backup.db"@;
    if is_backup_of(name, server) {
        assert(name.subrange(0, p.len() as int) =~= p);
        assert(name.subrange(name.len() - e.len(), name.len() as int) =~= e);
    }
    if p.is_prefix_of(name) && e.is_suffix_of(name) {
        assert(name.subrange(0, p.len() as int) =~= p);
        assert(name.subrange(name.len() - e.len(), name.len() as int) =~= e);
    }
}

/// All backups of a server are deleted, and no other file.
pub proof fn law_all_backups_are_deleted(names: Seq<Seq<char>>, server: Seq<char>, x: Seq<char>)
    ensures
        backups_upto(names, server, names.len() as int).contains(x) <==> names.contains(x)
            && is_backup_of(x, server),
{
    lemma_backups(names, server, names.len() as int, x);
    if names.contains(x) {
        let i = choose|i: int| 0 <= i < names.len() && names[i] == x;
        assert(0 <= i < names.len() && names[i] == x);
    }
}

proof fn lemma_backups(names: Seq<Seq<char>>, server: Seq<char>, k: int, x: Seq<char>)
    requires
        0 <= k <= names.len(),
    ensures
        backups_upto(names, server, k).contains(x) <==> is_backup_of(x, server) && exists|i: int|
            0 <= i < k && #[trigger] names[i] == x,
    decreases k,
{
    if k > 0 {
        lemma_backups(names, server, k - 1, x);
        let before = backups_upto(names, server, k - 1);
        let now = backups_upto(names, server, k);
        if before.contains(x) {
            let i = choose|i: int| 0 <= i < before.len() && before[i] == x;
            assert(now[i] == x);
        }
        if names[k - 1] == x && is_backup_of(x, server) {
            assert(now[before.len() as int] == x);
        }
        if now.contains(x) {
            let i = choose|i: int| 0 <= i < now.len() && now[i] == x;
            if i < before.len() {
                assert(before[i] == x);
            }
        }
    }
}

/// What is pruned are the backups with as many newer ones beside them as are kept, and no
/// others.
pub proof fn law_stale_backups_are_pruned(s: Seq<BackupFile>, keep: nat, x: Seq<char>)
    ensures
        stale_upto(s, keep, s.len() as int).contains(x) <==> exists|i: int|
            0 <= i < s.len() && (#[trigger] s[i]).name@ == x && place(times(s), i) >= keep,
{
    lemma_stale(s, keep, s.len() as int, x);
}

proof fn lemma_stale(s: Seq<BackupFile>, keep: nat, k: int, x: Seq<char>)
    requires
        0 <= k <= s.len(),
    ensures
        stale_upto(s, keep, k).contains(x) <==> exists|i: int|
            0 <= i < k && (#[trigger] s[i]).name@ == x && place(times(s), i) >= keep,
    decreases k,
{
    if k > 0 {
        lemma_stale(s, keep, k - 1, x);
        let before = stale_upto(s, keep, k - 1);
        let now = stale_upto(s, keep, k);
        if before.contains(x) {
            let i = choose|i: int| 0 <= i < before.len() && before[i] == x;
            assert(now[i] == x);
        }
        if s[k - 1].name@ == x && place(times(s), k - 1) >= keep {
            assert(now[before.len() as int] == x);
        }
        if now.contains(x) {
            let i = choose|i: int| 0 <= i < now.len() && now[i] == x;
            if i < before.len() {
                assert(before[i] == x);
            } else {
                assert(s[k - 1].name@ == x);
            }
        }
    }
}

/// One text comes before another where they agree up to a place at which the first one
/// ends or has the smaller character.
pub proof fn law_order_of_texts(p: Seq<char>, a: char, b: char, x: Seq<char>, y: Seq<char>)
    ensures
        (a as int) < (b as int) ==> text_less(p + seq![a] + x, p + seq![b] + y) && !text_less(
            p + seq![b] + y,
            p + seq![a] + x,
        ),
        text_less(p, p + seq![b] + y),
        !text_less(p, p),
{
    let n = p.len() as int;
    let s = p + seq![a] + x;
    let t = p + seq![b] + y;
    assert(s[n] == a && t[n] == b);
    lemma_less_shared_prefix(s, t, 0, n);
    lemma_less_shared_prefix(t, s, 0, n);
    lemma_less_shared_prefix(p, t, 0, n);
    lemma_less_irreflexive(p, 0);
}

} // verus!
