//! The rotation of the backups of one file: which backups are deleted and
//! renamed, in which order, before the file is copied to its newest backup.

use crate::bak::names::{bak_file_name, bak_index, spec_bak_index, spec_bak_name, BakSlot};
use crate::bak::{Error, ErrorView};
use crate::text::str_eq;
use vstd::prelude::*;

verus! {

/// Whether every number of `s` is smaller than those behind it.
pub open spec fn strictly_ascending(s: Seq<u64>) -> bool {
    forall|i: int, j: int| 0 <= i < j < s.len() ==> s[i] < s[j]
}

/// The backups of one file that a directory holds: whether it holds the
/// plain backup, and the numbers of the numbered backups, ascending.
#[derive(Debug)]
pub struct Backups {
    pub plain: bool,
    pub numbered: Vec<u64>,
}

/// The backups that a directory holds, as mathematical data.
pub struct BackupsView {
    pub plain: bool,
    pub numbered: Seq<u64>,
}

impl View for Backups {
    type V = BackupsView;

    open spec fn view(&self) -> BackupsView {
        BackupsView { plain: self.plain, numbered: self.numbered@ }
    }
}

impl BackupsView {
    /// Whether the numbers are listed ascending, none twice.
    pub open spec fn wf(self) -> bool {
        strictly_ascending(self.numbered)
    }

    /// The last backup that was made: the plain backup where there is one,
    /// else the numbered backup 0 where there is one.
    pub open spec fn last(self) -> Option<BakSlot> {
        if self.plain {
            Some(BakSlot::Plain)
        } else if self.numbered.len() > 0 && self.numbered[0] == 0 {
            Some(BakSlot::Numbered(0))
        } else {
            None
        }
    }
}

/// One change of the backups of a file.
#[derive(Clone, Copy, Debug, PartialEq, Eq, Structural)]
pub enum BakOp {
    /// Delete the backup at `slot`.
    Remove { slot: BakSlot },
    /// Rename the backup at `from` so that it stands at `to`.
    Rename { from: BakSlot, to: BakSlot },
}

/// The changes to make before the file is copied, in order, and where to
/// copy the file.
#[derive(Debug)]
pub struct Rotation {
    pub ops: Vec<BakOp>,
    pub target: BakSlot,
}

/// The texts of a list of strings.
pub open spec fn entry_names(entries: Seq<String>) -> Seq<Seq<char>> {
    entries.map_values(|s: String| s@)
}

/// Whether one of `entries` names the numbered backup `n` of `source`.
pub open spec fn lists_number(source: Seq<char>, entries: Seq<Seq<char>>, n: u64) -> bool {
    exists|i: int| 0 <= i < entries.len() && #[trigger] spec_bak_index(source, entries[i]) == Some(n)
}

/// Puts `x` at its place in the ascending list `v`, unless `v` holds it.
pub fn insert_unique(v: &mut Vec<u64>, x: u64)
    requires
        strictly_ascending(old(v)@),
    ensures
        strictly_ascending(final(v)@),
        forall|n: u64| final(v)@.contains(n) <==> (old(v)@.contains(n) || n == x),
{
    let mut i: usize = 0;
    while i < v.len() && v[i] < x
        invariant
            i <= v.len(),
            v@ == old(v)@,
            forall|k: int| 0 <= k < i ==> v@[k] < x,
        decreases v.len() - i,
    {
        i += 1;
    }
    if i < v.len() && v[i] == x {
        assert(v@.contains(x));
        return ;
    }
    let ghost before = v@;
    v.insert(i, x);
    proof {
        assert forall|a: int, b: int| 0 <= a < b < v@.len() implies v@[a] < v@[b] by {
            if a < i && b < i {
                assert(v@[a] == before[a] && v@[b] == before[b]);
            } else if a < i && b == i {
            } else if a < i && b > i {
                assert(v@[a] == before[a] && v@[b] == before[b - 1]);
            } else if a == i {
                assert(v@[b] == before[b - 1]);
                assert(before[i as int] <= before[b - 1]);
            } else {
                assert(v@[a] == before[a - 1] && v@[b] == before[b - 1]);
            }
        }
        assert(before == old(v)@);
        assert forall|n: u64| v@.contains(n) <==> (old(v)@.contains(n) || n == x) by {
            if v@.contains(n) {
                let k = choose|k: int| 0 <= k < v@.len() && v@[k] == n;
                if k < i {
                    assert(before[k] == n);
                } else if k > i {
                    assert(before[k - 1] == n);
                }
            }
            if before.contains(n) {
                let k = choose|k: int| 0 <= k < before.len() && before[k] == n;
                if k < i {
                    assert(v@[k] == n);
                } else {
                    assert(v@[k + 1] == n);
                }
            }
            if n == x {
                assert(v@[i as int] == x);
            }
        }
    }
}

/// The numbers of the numbered backups of `source_filename` among the
/// names `entries`, ascending, each once.
pub fn list_bak_n_files(source_filename: &str, entries: &Vec<String>) -> (r: Vec<u64>)
    ensures
        strictly_ascending(r@),
        forall|n: u64|
            r@.contains(n) <==> lists_number(source_filename@, entry_names(entries@), n),
{
    let ghost names = entry_names(entries@);
    let mut numbers: Vec<u64> = Vec::new();
    let mut i: usize = 0;
    while i < entries.len()
        invariant
            i <= entries.len(),
            names == entry_names(entries@),
            strictly_ascending(numbers@),
            forall|n: u64|
                numbers@.contains(n) <==> lists_number(
                    source_filename@,
                    names.take(i as int),
                    n,
                ),
        decreases entries.len() - i,
    {
        let ghost front = names.take(i as int);
        let ghost next = names.take(i + 1);
        let found = bak_index(source_filename, entries[i].as_str());
        match found {
            Some(x) => {
                insert_unique(&mut numbers, x);
            },
            None => {},
        }
        proof {
            assert(next[i as int] == entries@[i as int]@);
            assert forall|n: u64| numbers@.contains(n) <==> lists_number(
                source_filename@,
                next,
                n,
            ) by {
                if lists_number(source_filename@, next, n) {
                    let k = choose|k: int|
                        0 <= k < next.len() && #[trigger] spec_bak_index(
                            source_filename@,
                            next[k],
                        ) == Some(n);
                    if k < i {
                        assert(front[k] == next[k]);
                        assert(lists_number(source_filename@, front, n));
                    }
                }
                if lists_number(source_filename@, front, n) {
                    let k = choose|k: int|
                        0 <= k < front.len() && #[trigger] spec_bak_index(
                            source_filename@,
                            front[k],
                        ) == Some(n);
                    assert(front[k] == next[k]);
                }
                if found == Some(n) {
                    assert(spec_bak_index(source_filename@, next[i as int]) == Some(n));
                }
            }
        }
        i += 1;
    }
    assert(names.take(entries.len() as int) == names);
    numbers
}

/// Whether one of the names `entries` is the name of the plain backup of
/// `source_filename`.
pub fn has_plain_bak(source_filename: &str, entries: &Vec<String>) -> (r: bool)
    ensures
        r == entry_names(entries@).contains(spec_bak_name(source_filename@, BakSlot::Plain)),
{
    let ghost names = entry_names(entries@);
    let name = bak_file_name(source_filename, BakSlot::Plain);
    let mut i: usize = 0;
    while i < entries.len()
        invariant
            i <= entries.len(),
            names == entry_names(entries@),
            name@ == spec_bak_name(source_filename@, BakSlot::Plain),
            forall|k: int| 0 <= k < i ==> names[k] != name@,
        decreases entries.len() - i,
    {
        if str_eq(entries[i].as_str(), name.as_str()) {
            assert(names[i as int] == name@);
            return true;
        }
        i += 1;
    }
    false
}

/// Whether `backups` is the list of the backups of `source` among the
/// names `names`: it tells whether the plain backup is there, and lists
/// the numbers of the numbered backups that are there, ascending, each
/// once.
pub open spec fn lists(source: Seq<char>, names: Seq<Seq<char>>, backups: BackupsView) -> bool {
    &&& backups.wf()
    &&& backups.plain == names.contains(spec_bak_name(source, BakSlot::Plain))
    &&& forall|n: u64| backups.numbered.contains(n) <==> lists_number(source, names, n)
}

/// Two ascending lists of the same numbers are the same list.
pub proof fn lemma_ascending_unique(a: Seq<u64>, b: Seq<u64>)
    requires
        strictly_ascending(a),
        strictly_ascending(b),
        forall|n: u64| a.contains(n) <==> b.contains(n),
    ensures
        a == b,
    decreases a.len(),
{
    if a.len() == 0 {
        if b.len() > 0 {
            assert(b.contains(b[0]));
        }
        assert(a =~= b);
    } else {
        let top = a.last();
        assert(a.contains(a[a.len() - 1]));
        assert(b.contains(top));
        let j = choose|j: int| 0 <= j < b.len() && b[j] == top;
        assert(a.contains(b[b.len() - 1]));
        let k = choose|k: int| 0 <= k < a.len() && a[k] == b.last();
        // the last of b is in a, so it is not above the last of a; and the
        // last of a is in b, so it is not above the last of b
        assert(b.last() <= top) by {
            if k < a.len() - 1 {
                assert(a[k] < a[a.len() - 1]);
            }
        }
        assert(j == b.len() - 1) by {
            if j < b.len() - 1 {
                assert(b[j] < b[b.len() - 1]);
            }
        }
        let a1 = a.drop_last();
        let b1 = b.drop_last();
        assert forall|n: u64| a1.contains(n) <==> b1.contains(n) by {
            if a1.contains(n) {
                let i = choose|i: int| 0 <= i < a1.len() && a1[i] == n;
                assert(a[i] == n && a[i] < a[a.len() - 1]);
                assert(a.contains(n));
                let m = choose|m: int| 0 <= m < b.len() && b[m] == n;
                assert(b1[m] == n);
            }
            if b1.contains(n) {
                let i = choose|i: int| 0 <= i < b1.len() && b1[i] == n;
                assert(b[i] == n && b[i] < b[b.len() - 1]);
                assert(b.contains(n));
                let m = choose|m: int| 0 <= m < a.len() && a[m] == n;
                assert(a1[m] == n);
            }
        }
        assert(strictly_ascending(a1)) by {
            assert forall|x: int, y: int| 0 <= x < y < a1.len() implies a1[x] < a1[y] by {
                assert(a1[x] == a[x] && a1[y] == a[y]);
            }
        }
        assert(strictly_ascending(b1)) by {
            assert forall|x: int, y: int| 0 <= x < y < b1.len() implies b1[x] < b1[y] by {
                assert(b1[x] == b[x] && b1[y] == b[y]);
            }
        }
        lemma_ascending_unique(a1, b1);
        assert(a =~= a1.push(top));
        assert(b =~= b1.push(top));
    }
}

/// A directory has one list of backups.
pub proof fn lemma_lists_unique(
    source: Seq<char>,
    names: Seq<Seq<char>>,
    a: BackupsView,
    b: BackupsView,
)
    requires
        lists(source, names, a),
        lists(source, names, b),
    ensures
        a == b,
{
    lemma_ascending_unique(a.numbered, b.numbered);
}

/// The backups of `source_filename` among the names `entries` of a
/// directory.
pub fn scan(source_filename: &str, entries: &Vec<String>) -> (r: Backups)
    ensures
        lists(source_filename@, entry_names(entries@), r@),
{
    Backups {
        plain: has_plain_bak(source_filename, entries),
        numbered: list_bak_n_files(source_filename, entries),
    }
}

/// The last backup that was made, if there is one.
pub fn find_last_bak(backups: &Backups) -> (r: Option<BakSlot>)
    ensures
        r == backups@.last(),
{
    if backups.plain {
        Some(BakSlot::Plain)
    } else if backups.numbered.len() > 0 && backups.numbered[0] == 0 {
        Some(BakSlot::Numbered(0))
    } else {
        None
    }
}

/// The backup with the index `index`, counted from the newest: the plain
/// backup has the index 0 where there is one, else the numbered backups
/// have their places in the ascending list.
pub open spec fn spec_backup_at(backups: BackupsView, index: u8) -> Option<BakSlot> {
    if backups.plain {
        if index == 0 {
            Some(BakSlot::Plain)
        } else {
            None
        }
    } else if index < backups.numbered.len() {
        Some(BakSlot::Numbered(backups.numbered[index as int]))
    } else {
        None
    }
}

/// The backup of `source_file` to compare the file with: the backup with
/// the index `index`. It is an error where there is no such backup.
pub fn run_diff(backups: &Backups, source_file: &str, index: u8) -> (r: Result<BakSlot, Error>)
    ensures
        match r {
            Ok(slot) => spec_backup_at(backups@, index) == Some(slot),
            Err(e) => spec_backup_at(backups@, index) is None && e@ == (ErrorView::Index {
                src: source_file@,
                index,
            }),
        },
{
    if backups.plain {
        if index > 0 {
            Err(Error::index(source_file, index))
        } else {
            Ok(BakSlot::Plain)
        }
    } else if (index as usize) < backups.numbered.len() {
        Ok(BakSlot::Numbered(backups.numbered[index as usize]))
    } else {
        Err(Error::index(source_file, index))
    }
}

/// The names of the backups of `source`, the plain backup first, then the
/// numbered backups from the newest to the oldest.
pub open spec fn spec_backup_files(source: Seq<char>, backups: BackupsView) -> Seq<Seq<char>> {
    (if backups.plain {
        seq![spec_bak_name(source, BakSlot::Plain)]
    } else {
        Seq::empty()
    }) + backups.numbered.map_values(|n: u64| spec_bak_name(source, BakSlot::Numbered(n)))
}

/// The names of the backups of `source_filename`, in the order in which
/// they are listed.
pub fn run_list(source_filename: &str, backups: &Backups) -> (r: Vec<String>)
    ensures
        entry_names(r@) == spec_backup_files(source_filename@, backups@),
{
    let mut names: Vec<String> = Vec::new();
    if backups.plain {
        names.push(bak_file_name(source_filename, BakSlot::Plain));
    }
    let ghost head = entry_names(names@);
    let mut i: usize = 0;
    while i < backups.numbered.len()
        invariant
            i <= backups.numbered.len(),
            head == (if backups.plain {
                seq![spec_bak_name(source_filename@, BakSlot::Plain)]
            } else {
                Seq::<Seq<char>>::empty()
            }),
            entry_names(names@) == head + backups.numbered@.take(i as int).map_values(
                |n: u64| spec_bak_name(source_filename@, BakSlot::Numbered(n)),
            ),
        decreases backups.numbered.len() - i,
    {
        let ghost before = entry_names(names@);
        names.push(bak_file_name(source_filename, BakSlot::Numbered(backups.numbered[i])));
        proof {
            let name = spec_bak_name(source_filename@, BakSlot::Numbered(backups.numbered@[i as int]));
            assert(entry_names(names@) =~= before.push(name));
            assert(backups.numbered@.take(i + 1) =~= backups.numbered@.take(i as int).push(
                backups.numbered@[i as int],
            ));
            assert(entry_names(names@) =~= head + backups.numbered@.take(i + 1).map_values(
                |n: u64| spec_bak_name(source_filename@, BakSlot::Numbered(n)),
            ));
        }
        i += 1;
    }
    assert(backups.numbered@.take(backups.numbered.len() as int) == backups.numbered@);
    names
}

// ---------------------------------------------------------------------------
// The changes of a rotation
// ---------------------------------------------------------------------------

/// The deletion of the numbered backup `n`.
pub open spec fn remove_numbered(n: u64) -> BakOp {
    BakOp::Remove { slot: BakSlot::Numbered(n) }
}

/// The renaming of the numbered backup `n` to the next number.
pub open spec fn rename_up(n: u64) -> BakOp {
    BakOp::Rename { from: BakSlot::Numbered(n), to: BakSlot::Numbered((n + 1) as u64) }
}

/// How many of `count` numbered backups stay when room is made for one
/// more among at most `max`: all of them where they are fewer than `max`,
/// else `max - 1`.
pub open spec fn spec_keep(count: nat, max: nat) -> nat {
    if count >= max {
        if max >= 1 {
            (max - 1) as nat
        } else {
            0
        }
    } else {
        count
    }
}

/// The deletions of all but the first `keep` of `numbered`, the greatest
/// number first.
pub open spec fn removals(numbered: Seq<u64>, keep: nat) -> Seq<BakOp>
    decreases numbered.len(),
{
    if numbered.len() <= keep {
        Seq::empty()
    } else {
        seq![remove_numbered(numbered.last())] + removals(numbered.drop_last(), keep)
    }
}

/// The renamings of each of `kept` to the next number, the greatest number
/// first, so that no renaming meets a backup that has yet to move.
pub open spec fn renames(kept: Seq<u64>) -> Seq<BakOp>
    decreases kept.len(),
{
    if kept.len() == 0 {
        Seq::empty()
    } else {
        seq![rename_up(kept.last())] + renames(kept.drop_last())
    }
}

/// The changes that make room for a new backup 0 among at most `max`
/// numbered backups: delete the oldest so that one less than `max` stay,
/// then rename each that stays to the next number.
pub open spec fn spec_shift(numbered: Seq<u64>, max: nat) -> Seq<BakOp> {
    let keep = spec_keep(numbered.len(), max);
    removals(numbered, keep) + renames(numbered.take(keep as int))
}

/// The deletions of all backups: the numbered ones, the greatest number
/// first, then the plain one.
pub open spec fn spec_wipe(backups: BackupsView) -> Seq<BakOp> {
    removals(backups.numbered, 0) + (if backups.plain {
        seq![BakOp::Remove { slot: BakSlot::Plain }]
    } else {
        Seq::empty()
    })
}

/// What a backup run does to the backups `backups` of a file, where
/// `differs` says whether the file differs from its last backup and `max`
/// is the number of backups to keep:
/// - nothing at all, where `max` is 0, or where there is a last backup and
///   the file does not differ from it;
/// - where there is no last backup, the file becomes the plain backup;
/// - where `max` is 1, all backups are deleted and the file becomes the
///   plain backup;
/// - where the last backup is the plain one, room is made among the
///   numbered backups, the plain backup becomes backup 1 and the file
///   becomes backup 0;
/// - else room is made among the numbered backups and the file becomes
///   backup 0.
pub open spec fn spec_rotation(backups: BackupsView, differs: bool, max: nat) -> Option<
    (Seq<BakOp>, BakSlot),
> {
    if max == 0 {
        None
    } else {
        match backups.last() {
            None => Some((Seq::empty(), BakSlot::Plain)),
            Some(last) => if !differs {
                None
            } else if max == 1 {
                Some((spec_wipe(backups), BakSlot::Plain))
            } else if last == BakSlot::Plain {
                Some(
                    (
                        spec_shift(backups.numbered, max) + seq![
                            BakOp::Rename { from: BakSlot::Plain, to: BakSlot::Numbered(1) },
                        ],
                        BakSlot::Numbered(0),
                    ),
                )
            } else {
                Some((spec_shift(backups.numbered, max), BakSlot::Numbered(0)))
            },
        }
    }
}

/// Appends the deletions of all but the first `keep` of `numbered`.
fn push_removals(ops: &mut Vec<BakOp>, numbered: &Vec<u64>, keep: usize)
    ensures
        final(ops)@ == old(ops)@ + removals(numbered@, keep as nat),
{
    let ghost before = ops@;
    let mut end: usize = numbered.len();
    assert(numbered@.take(end as int) == numbered@);
    while end > keep
        invariant
            end <= numbered.len(),
            before + removals(numbered@, keep as nat) == ops@ + removals(
                numbered@.take(end as int),
                keep as nat,
            ),
        decreases end,
    {
        ops.push(BakOp::Remove { slot: BakSlot::Numbered(numbered[end - 1]) });
        proof {
            let cur = numbered@.take(end as int);
            assert(cur.drop_last() == numbered@.take(end - 1));
            assert(cur.last() == numbered@[end - 1]);
            assert(ops@ + removals(numbered@.take(end - 1), keep as nat) =~= ops@.drop_last()
                + removals(cur, keep as nat));
        }
        end -= 1;
    }
    assert(ops@ + removals(numbered@.take(end as int), keep as nat) =~= ops@);
}

/// Appends the renamings of the first `keep` of `numbered` to the next
/// number.
fn push_renames(ops: &mut Vec<BakOp>, numbered: &Vec<u64>, keep: usize)
    requires
        keep <= numbered.len(),
        forall|i: int| 0 <= i < numbered.len() ==> numbered@[i] < u64::MAX,
    ensures
        final(ops)@ == old(ops)@ + renames(numbered@.take(keep as int)),
{
    let ghost before = ops@;
    let mut end: usize = keep;
    while end > 0
        invariant
            end <= keep <= numbered.len(),
            forall|i: int| 0 <= i < numbered.len() ==> numbered@[i] < u64::MAX,
            before + renames(numbered@.take(keep as int)) == ops@ + renames(
                numbered@.take(end as int),
            ),
        decreases end,
    {
        let n = numbered[end - 1];
        ops.push(BakOp::Rename { from: BakSlot::Numbered(n), to: BakSlot::Numbered(n + 1) });
        proof {
            let cur = numbered@.take(end as int);
            assert(cur.drop_last() == numbered@.take(end - 1));
            assert(cur.last() == numbered@[end - 1]);
            assert(ops@ + renames(numbered@.take(end - 1)) =~= ops@.drop_last() + renames(cur));
        }
        end -= 1;
    }
    assert(ops@ + renames(numbered@.take(0)) =~= ops@);
}

/// The changes that make room for a new backup 0 among at most `num`
/// numbered backups.
pub fn shift_bak_files(numbered: &Vec<u64>, num: u8) -> (ops: Vec<BakOp>)
    requires
        forall|i: int| 0 <= i < numbered.len() ==> numbered@[i] < u64::MAX,
    ensures
        ops@ == spec_shift(numbered@, num as nat),
{
    let keep: usize = if numbered.len() >= num as usize {
        if num >= 1 {
            (num - 1) as usize
        } else {
            0
        }
    } else {
        numbered.len()
    };
    let mut ops: Vec<BakOp> = Vec::new();
    push_removals(&mut ops, numbered, keep);
    push_renames(&mut ops, numbered, keep);
    ops
}

/// The deletions of all backups.
pub fn wipe(backups: &Backups) -> (ops: Vec<BakOp>)
    ensures
        ops@ == spec_wipe(backups@),
{
    let mut ops: Vec<BakOp> = Vec::new();
    push_removals(&mut ops, &backups.numbered, 0);
    if backups.plain {
        ops.push(BakOp::Remove { slot: BakSlot::Plain });
    }
    assert(ops@ =~= spec_wipe(backups@));
    ops
}

/// Decides what a backup run does to the backups of a file: the changes to
/// make and where to copy the file, or `None` where no backup is to be
/// made. `differs` says whether the file differs from its last backup; it
/// is not looked at where there is no last backup.
pub fn determine_destination(backups: &Backups, differs: bool, max: u8) -> (r: Option<Rotation>)
    requires
        forall|i: int| 0 <= i < backups.numbered.len() ==> backups.numbered@[i] < u64::MAX,
    ensures
        match r {
            Some(rotation) => spec_rotation(backups@, differs, max as nat) == Some(
                (rotation.ops@, rotation.target),
            ),
            None => spec_rotation(backups@, differs, max as nat) is None,
        },
{
    if max == 0 {
        return None;
    }
    let last = match find_last_bak(backups) {
        None => {
            return Some(Rotation { ops: Vec::new(), target: BakSlot::Plain });
        },
        Some(last) => last,
    };
    if !differs {
        return None;
    }
    if max == 1 {
        return Some(Rotation { ops: wipe(backups), target: BakSlot::Plain });
    }
    let mut ops = shift_bak_files(&backups.numbered, max);
    match last {
        BakSlot::Plain => {
            ops.push(BakOp::Rename { from: BakSlot::Plain, to: BakSlot::Numbered(1) });
        },
        BakSlot::Numbered(_) => {},
    }
    Some(Rotation { ops, target: BakSlot::Numbered(0) })
}

/// Decides what a backup run does to the backups of `source_filename`
/// among the names `entries` of a directory.
pub fn rotate(source_filename: &str, entries: &Vec<String>, differs: bool, max: u8) -> (r: Option<
    Rotation,
>)
    ensures
        forall|backups: BackupsView|
            #![trigger lists(source_filename@, entry_names(entries@), backups)]
            lists(source_filename@, entry_names(entries@), backups) ==> match r {
                Some(rotation) => spec_rotation(backups, differs, max as nat) == Some(
                    (rotation.ops@, rotation.target),
                ),
                None => spec_rotation(backups, differs, max as nat) is None,
            },
{
    let backups = scan(source_filename, entries);
    proof {
        assert forall|other: BackupsView|
            #![trigger lists(source_filename@, entry_names(entries@), other)]
            lists(source_filename@, entry_names(entries@), other) implies other == backups@ by {
            lemma_lists_unique(source_filename@, entry_names(entries@), other, backups@);
        }
        assert forall|i: int| 0 <= i < backups.numbered.len() implies backups.numbered@[i]
            < u64::MAX by {
            let n = backups.numbered@[i];
            assert(backups.numbered@.contains(n));
            let k = choose|k: int|
                0 <= k < entries.len() && #[trigger] spec_bak_index(
                    source_filename@,
                    entry_names(entries@)[k],
                ) == Some(n);
            crate::bak::names::lemma_name_of_bak_index(
                source_filename@,
                entry_names(entries@)[k],
            );
        }
    }
    determine_destination(&backups, differs, max)
}

} // verus!
