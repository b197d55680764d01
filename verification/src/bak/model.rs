//! What a rotation does to the contents of the backups: a model of the
//! backups of one file in a directory, the effect of the changes of a
//! rotation on it, and the laws of backup runs.

use crate::bak::names::BakSlot;
use crate::bak::rotation::{
    removals, rename_up, renames, spec_keep, spec_rotation, spec_shift, spec_wipe,
    strictly_ascending, BackupsView, BakOp,
};
use vstd::prelude::*;

verus! {

/// The backups of one file in a directory, each with what it holds.
pub struct BakDir {
    pub plain: Option<Seq<u8>>,
    pub numbered: Map<u64, Seq<u8>>,
}

impl BakDir {
    /// The directory without backups.
    pub open spec fn empty() -> BakDir {
        BakDir { plain: None, numbered: Map::empty() }
    }

    /// What the backup at `slot` holds, if there is one.
    pub open spec fn get(self, slot: BakSlot) -> Option<Seq<u8>> {
        match slot {
            BakSlot::Plain => self.plain,
            BakSlot::Numbered(n) => if self.numbered.dom().contains(n) {
                Some(self.numbered[n])
            } else {
                None
            },
        }
    }

    /// The directory without the backup at `slot`.
    pub open spec fn remove(self, slot: BakSlot) -> BakDir {
        match slot {
            BakSlot::Plain => BakDir { plain: None, numbered: self.numbered },
            BakSlot::Numbered(n) => BakDir {
                plain: self.plain,
                numbered: self.numbered.remove(n),
            },
        }
    }

    /// The directory with `content` as the backup at `slot`.
    pub open spec fn put(self, slot: BakSlot, content: Seq<u8>) -> BakDir {
        match slot {
            BakSlot::Plain => BakDir { plain: Some(content), numbered: self.numbered },
            BakSlot::Numbered(n) => BakDir {
                plain: self.plain,
                numbered: self.numbered.insert(n, content),
            },
        }
    }

    /// The directory after one change. Renaming a backup onto another one
    /// replaces that one; renaming what is not there changes nothing.
    pub open spec fn apply(self, op: BakOp) -> BakDir {
        match op {
            BakOp::Remove { slot } => self.remove(slot),
            BakOp::Rename { from, to } => match self.get(from) {
                Some(content) => self.remove(from).put(to, content),
                None => self,
            },
        }
    }

    /// The directory after the changes `ops`, made in order.
    pub open spec fn apply_all(self, ops: Seq<BakOp>) -> BakDir
        decreases ops.len(),
    {
        if ops.len() == 0 {
            self
        } else {
            self.apply(ops[0]).apply_all(ops.drop_first())
        }
    }

    /// Whether `backups` lists the backups of the directory.
    pub open spec fn listed_by(self, backups: BackupsView) -> bool {
        &&& backups.plain == self.plain is Some
        &&& forall|n: u64| self.numbered.dom().contains(n) <==> backups.numbered.contains(n)
    }

    /// What the last backup that was made holds.
    pub open spec fn last_content(self) -> Option<Seq<u8>> {
        match self.plain {
            Some(content) => Some(content),
            None => self.get(BakSlot::Numbered(0)),
        }
    }

    /// The directory after a backup run of a file that holds `source`,
    /// `backups` being the list of the backups and `max` the number of
    /// backups to keep: the changes of the rotation are made and the file
    /// is copied to its place, or nothing happens.
    pub open spec fn backup(self, backups: BackupsView, source: Seq<u8>, max: nat) -> BakDir {
        match spec_rotation(backups, self.last_content() != Some(source), max) {
            None => self,
            Some((ops, target)) => self.apply_all(ops).put(target, source),
        }
    }

    /// Whether the directory holds exactly the numbered backups below
    /// `count`, and the plain backup only where it holds no numbered one.
    pub open spec fn at_rest(self, count: nat) -> bool {
        &&& forall|n: u64| self.numbered.dom().contains(n) <==> n < count
        &&& (self.plain is Some ==> count == 0)
    }
}

/// Changes made one after the other are the changes of the first list and
/// then those of the second.
pub proof fn lemma_apply_all_concat(dir: BakDir, a: Seq<BakOp>, b: Seq<BakOp>)
    ensures
        dir.apply_all(a + b) == dir.apply_all(a).apply_all(b),
    decreases a.len(),
{
    if a.len() == 0 {
        assert(a + b =~= b);
    } else {
        assert((a + b)[0] == a[0]);
        assert((a + b).drop_first() =~= a.drop_first() + b);
        lemma_apply_all_concat(dir.apply(a[0]), a.drop_first(), b);
    }
}

/// One change after a list of changes.
pub proof fn lemma_apply_all_push(dir: BakDir, a: Seq<BakOp>, op: BakOp)
    ensures
        dir.apply_all(a + seq![op]) == dir.apply_all(a).apply(op),
{
    lemma_apply_all_concat(dir, a, seq![op]);
    let d = dir.apply_all(a);
    assert(seq![op].drop_first() =~= Seq::<BakOp>::empty());
    assert(d.apply_all(seq![op]) == d.apply(op).apply_all(seq![op].drop_first()));
}

/// Whether `k` is one of `numbered` behind the first `keep`.
pub open spec fn in_tail(numbered: Seq<u64>, keep: nat, k: u64) -> bool {
    exists|i: int| keep <= i < numbered.len() && #[trigger] numbered[i] == k
}

/// Deleting all but the first `keep` of the listed numbers leaves the
/// plain backup and the other numbered backups as they were.
pub proof fn lemma_removals(dir: BakDir, numbered: Seq<u64>, keep: nat)
    ensures
        dir.apply_all(removals(numbered, keep)).plain == dir.plain,
        forall|k: u64|
            #![trigger dir.apply_all(removals(numbered, keep)).numbered.dom().contains(k)]
            dir.apply_all(removals(numbered, keep)).numbered.dom().contains(k) <==> (
            dir.numbered.dom().contains(k) && !in_tail(numbered, keep, k)),
        forall|k: u64|
            #![trigger dir.apply_all(removals(numbered, keep)).numbered[k]]
            dir.apply_all(removals(numbered, keep)).numbered.dom().contains(k) ==> dir.apply_all(
                removals(numbered, keep),
            ).numbered[k] == dir.numbered[k],
    decreases numbered.len(),
{
    let ops = removals(numbered, keep);
    if numbered.len() <= keep {
    } else {
        let last = numbered.last();
        let d1 = dir.remove(BakSlot::Numbered(last));
        let front = numbered.drop_last();
        let rest = removals(front, keep);
        assert(ops[0] == BakOp::Remove { slot: BakSlot::Numbered(last) });
        assert(ops.drop_first() =~= rest);
        lemma_removals(d1, front, keep);
        let r = d1.apply_all(rest);
        assert(dir.apply_all(ops) == r);
        assert forall|k: u64| r.numbered.dom().contains(k) <==> (dir.numbered.dom().contains(k)
            && !in_tail(numbered, keep, k)) by {
            if in_tail(numbered, keep, k) {
                let i = choose|i: int| keep <= i < numbered.len() && #[trigger] numbered[i] == k;
                if i < front.len() {
                    assert(front[i] == k);
                    assert(in_tail(front, keep, k));
                }
            }
            if in_tail(front, keep, k) {
                let i = choose|i: int| keep <= i < front.len() && #[trigger] front[i] == k;
                assert(numbered[i] == k);
            }
            assert(numbered[numbered.len() - 1] == last);
        }
    }
}

/// Renaming each of `kept` to the next number, the greatest first, moves
/// what each holds to the next number and loses nothing, where `kept` is
/// ascending and the directory holds nothing between a number of `kept` and
/// the next number.
pub proof fn lemma_renames(dir: BakDir, kept: Seq<u64>)
    requires
        strictly_ascending(kept),
        forall|i: int| 0 <= i < kept.len() ==> #[trigger] kept[i] < u64::MAX,
        forall|i: int| 0 <= i < kept.len() ==> dir.numbered.dom().contains(#[trigger] kept[i]),
        forall|k: u64|
            #![trigger dir.numbered.dom().contains(k)]
            dir.numbered.dom().contains(k) && !kept.contains(k) && kept.len() > 0 ==> k
                > kept.last() + 1,
    ensures
        dir.apply_all(renames(kept)).plain == dir.plain,
        forall|i: int|
            #![trigger kept[i]]
            0 <= i < kept.len() ==> dir.apply_all(renames(kept)).numbered.dom().contains(
                (kept[i] + 1) as u64,
            ) && dir.apply_all(renames(kept)).numbered[(kept[i] + 1) as u64]
                == dir.numbered[kept[i]],
        forall|k: u64|
            #![trigger dir.numbered.dom().contains(k)]
            dir.numbered.dom().contains(k) && !kept.contains(k) ==> dir.apply_all(
                renames(kept),
            ).numbered.dom().contains(k) && dir.apply_all(renames(kept)).numbered[k]
                == dir.numbered[k],
        forall|k: u64|
            #![trigger dir.apply_all(renames(kept)).numbered.dom().contains(k)]
            dir.apply_all(renames(kept)).numbered.dom().contains(k) ==> (exists|i: int|
                0 <= i < kept.len() && #[trigger] kept[i] + 1 == k) || (
            dir.numbered.dom().contains(k) && !kept.contains(k)),
    decreases kept.len(),
{
    let ops = renames(kept);
    if kept.len() > 0 {
        let last = kept.last();
        let next = (last + 1) as u64;
        let front = kept.drop_last();
        assert(kept[kept.len() - 1] == last);
        assert(dir.numbered.dom().contains(last));
        let content = dir.numbered[last];
        let d1 = dir.apply(rename_up(last));
        assert(d1 == dir.remove(BakSlot::Numbered(last)).put(BakSlot::Numbered(next), content));
        assert(ops[0] == rename_up(last));
        assert(ops.drop_first() =~= renames(front));
        assert(dir.apply_all(ops) == d1.apply_all(renames(front)));
        // the front is ascending, held by d1, and what d1 holds besides lies above it
        assert(strictly_ascending(front)) by {
            assert forall|i: int, j: int| 0 <= i < j < front.len() implies front[i] < front[j] by {
                assert(front[i] == kept[i] && front[j] == kept[j]);
            }
        }
        assert forall|i: int| 0 <= i < front.len() implies #[trigger] front[i] < u64::MAX
            && d1.numbered.dom().contains(front[i]) && front[i] < last by {
            assert(front[i] == kept[i]);
            assert(kept[i] < kept[kept.len() - 1]);
        }
        assert forall|k: u64|
            #![trigger d1.numbered.dom().contains(k)]
            d1.numbered.dom().contains(k) && !front.contains(k) && front.len() > 0 implies k
            > front.last() + 1 by {
            assert(front.last() == kept[kept.len() - 2]);
            assert(kept[kept.len() - 2] < kept[kept.len() - 1]);
            if k != next {
                assert(dir.numbered.dom().contains(k));
                assert(k != last);
                if kept.contains(k) {
                    let i = choose|i: int| 0 <= i < kept.len() && kept[i] == k;
                    assert(front[i] == k);
                    assert(front.contains(k));
                }
            }
        }
        lemma_renames(d1, front);
        let r = d1.apply_all(renames(front));
        assert forall|i: int| #![trigger kept[i]] 0 <= i < kept.len() implies r.numbered.dom().contains(
            (kept[i] + 1) as u64,
        ) && r.numbered[(kept[i] + 1) as u64] == dir.numbered[kept[i]] by {
            if i < kept.len() - 1 {
                assert(front[i] == kept[i]);
                assert(kept[i] < kept[kept.len() - 1]);
                assert(d1.numbered[front[i]] == dir.numbered[kept[i]]);
            } else {
                assert(d1.numbered.dom().contains(next));
                assert(!front.contains(next)) by {
                    if front.contains(next) {
                        let j = choose|j: int| 0 <= j < front.len() && front[j] == next;
                        assert(front[j] == kept[j]);
                        assert(kept[j] < kept[kept.len() - 1]);
                    }
                }
            }
        }
        assert forall|k: u64|
            #![trigger dir.numbered.dom().contains(k)]
            dir.numbered.dom().contains(k) && !kept.contains(k) implies r.numbered.dom().contains(
            k,
        ) && r.numbered[k] == dir.numbered[k] by {
            assert(k != last);
            assert(k > last + 1);
            assert(d1.numbered.dom().contains(k));
            assert(!front.contains(k)) by {
                if front.contains(k) {
                    let j = choose|j: int| 0 <= j < front.len() && front[j] == k;
                    assert(kept[j] == k);
                }
            }
        }
        assert forall|k: u64|
            #![trigger r.numbered.dom().contains(k)]
            r.numbered.dom().contains(k) implies (exists|i: int|
            0 <= i < kept.len() && #[trigger] kept[i] + 1 == k) || (dir.numbered.dom().contains(k)
            && !kept.contains(k)) by {
            if exists|i: int| 0 <= i < front.len() && #[trigger] front[i] + 1 == k {
                let i = choose|i: int| 0 <= i < front.len() && #[trigger] front[i] + 1 == k;
                assert(kept[i] + 1 == k);
            } else {
                assert(d1.numbered.dom().contains(k) && !front.contains(k));
                if k == next {
                    assert(kept[kept.len() - 1] + 1 == k);
                } else {
                    assert(dir.numbered.dom().contains(k));
                    assert(k != last);
                    if kept.contains(k) {
                        let j = choose|j: int| 0 <= j < kept.len() && kept[j] == k;
                        assert(front[j] == k);
                    }
                }
            }
        }
    }
}

/// Whether no listed number is the greatest number there is, so that each
/// has a next number.
pub open spec fn has_room(numbered: Seq<u64>) -> bool {
    forall|i: int| 0 <= i < numbered.len() ==> #[trigger] numbered[i] < u64::MAX
}

/// Making room moves what each backup that stays holds to the next number,
/// keeps nothing else, and leaves the plain backup alone.
pub proof fn lemma_shift(dir: BakDir, backups: BackupsView, max: nat)
    requires
        backups.wf(),
        dir.listed_by(backups),
        has_room(backups.numbered),
    ensures
        ({
            let after = dir.apply_all(spec_shift(backups.numbered, max));
            let keep = spec_keep(backups.numbered.len(), max);
            &&& after.plain == dir.plain
            &&& forall|i: int|
                #![trigger backups.numbered[i]]
                0 <= i < keep ==> after.get(BakSlot::Numbered((backups.numbered[i] + 1) as u64))
                    == Some(dir.numbered[backups.numbered[i]])
            &&& forall|k: u64|
                #![trigger after.numbered.dom().contains(k)]
                after.numbered.dom().contains(k) ==> exists|i: int|
                    0 <= i < keep && #[trigger] backups.numbered[i] + 1 == k
        }),
{
    let numbered = backups.numbered;
    let keep = spec_keep(numbered.len(), max);
    let kept = numbered.take(keep as int);
    let d1 = dir.apply_all(removals(numbered, keep));
    lemma_removals(dir, numbered, keep);
    lemma_apply_all_concat(dir, removals(numbered, keep), renames(kept));
    assert(strictly_ascending(kept)) by {
        assert forall|i: int, j: int| 0 <= i < j < kept.len() implies kept[i] < kept[j] by {
            assert(kept[i] == numbered[i] && kept[j] == numbered[j]);
        }
    }
    assert forall|i: int| 0 <= i < kept.len() implies #[trigger] kept[i] < u64::MAX
        && d1.numbered.dom().contains(kept[i]) by {
        assert(kept[i] == numbered[i]);
        assert(numbered.contains(numbered[i]));
        if in_tail(numbered, keep, kept[i]) {
            let j = choose|j: int| keep <= j < numbered.len() && #[trigger] numbered[j] == kept[i];
            assert(numbered[i] < numbered[j]);
        }
    }
    assert forall|k: u64|
        #![trigger d1.numbered.dom().contains(k)]
        d1.numbered.dom().contains(k) implies kept.contains(k) by {
        assert(numbered.contains(k));
        let j = choose|j: int| 0 <= j < numbered.len() && numbered[j] == k;
        if j >= keep {
            assert(in_tail(numbered, keep, k));
        }
        assert(kept[j] == k);
    }
    lemma_renames(d1, kept);
    let after = d1.apply_all(renames(kept));
    assert forall|i: int| #![trigger numbered[i]] 0 <= i < keep implies after.get(
        BakSlot::Numbered((numbered[i] + 1) as u64),
    ) == Some(dir.numbered[numbered[i]]) by {
        assert(kept[i] == numbered[i]);
    }
    assert forall|k: u64|
        #![trigger after.numbered.dom().contains(k)]
        after.numbered.dom().contains(k) implies exists|i: int|
        0 <= i < keep && #[trigger] numbered[i] + 1 == k by {
        if exists|i: int| 0 <= i < kept.len() && #[trigger] kept[i] + 1 == k {
            let i = choose|i: int| 0 <= i < kept.len() && #[trigger] kept[i] + 1 == k;
            assert(numbered[i] + 1 == k);
        } else {
            assert(d1.numbered.dom().contains(k));
        }
    }
}

/// Deleting all backups leaves none.
pub proof fn lemma_wipe(dir: BakDir, backups: BackupsView)
    requires
        dir.listed_by(backups),
    ensures
        dir.apply_all(spec_wipe(backups)) == BakDir::empty(),
{
    let a = removals(backups.numbered, 0);
    lemma_removals(dir, backups.numbered, 0);
    let d1 = dir.apply_all(a);
    assert forall|k: u64| !d1.numbered.dom().contains(k) by {
        if dir.numbered.dom().contains(k) {
            assert(backups.numbered.contains(k));
            let j = choose|j: int| 0 <= j < backups.numbered.len() && backups.numbered[j] == k;
            assert(in_tail(backups.numbered, 0, k));
        }
    }
    assert(d1.numbered =~= Map::<u64, Seq<u8>>::empty());
    if backups.plain {
        lemma_apply_all_push(dir, a, BakOp::Remove { slot: BakSlot::Plain });
    } else {
        assert(spec_wipe(backups) =~= a);
    }
}

/// The list of a directory that holds the backup 0 begins with 0.
pub proof fn lemma_listing_starts_at_zero(dir: BakDir, backups: BackupsView)
    requires
        backups.wf(),
        dir.listed_by(backups),
        dir.numbered.dom().contains(0),
    ensures
        backups.numbered.len() > 0,
        backups.numbered[0] == 0,
{
    assert(backups.numbered.contains(0));
    let j = choose|j: int| 0 <= j < backups.numbered.len() && backups.numbered[j] == 0;
    if j > 0 {
        assert(backups.numbered[0] < backups.numbered[j]);
    }
}

/// After a rotation that makes numbered backups, backup 0 holds what the
/// file held, backup 1 holds what the last backup before held, every older
/// backup that was kept stands one number higher than before, and there is
/// no plain backup.
pub proof fn lemma_newest_is_zero(dir: BakDir, backups: BackupsView, source: Seq<u8>, max: nat)
    requires
        backups.wf(),
        dir.listed_by(backups),
        has_room(backups.numbered),
        max >= 2,
        dir.last_content() is Some,
        dir.last_content() != Some(source),
    ensures
        ({
            let after = dir.backup(backups, source, max);
            let keep = spec_keep(backups.numbered.len(), max);
            &&& after.plain is None
            &&& after.get(BakSlot::Numbered(0)) == Some(source)
            &&& after.get(BakSlot::Numbered(1)) == dir.last_content()
            &&& forall|i: int|
                #![trigger backups.numbered[i]]
                0 <= i < keep && (backups.plain ==> backups.numbered[i] != 0) ==> after.get(
                    BakSlot::Numbered((backups.numbered[i] + 1) as u64),
                ) == Some(dir.numbered[backups.numbered[i]])
        }),
{
    let shift = spec_shift(backups.numbered, max);
    let keep = spec_keep(backups.numbered.len(), max);
    lemma_shift(dir, backups, max);
    let shifted = dir.apply_all(shift);
    if backups.plain {
        let op = BakOp::Rename { from: BakSlot::Plain, to: BakSlot::Numbered(1) };
        lemma_apply_all_push(dir, shift, op);
        assert(backups.last() == Some(BakSlot::Plain));
        assert(!shifted.numbered.dom().contains(0)) by {
            if shifted.numbered.dom().contains(0) {
                let i = choose|i: int| 0 <= i < keep && #[trigger] backups.numbered[i] + 1 == 0;
            }
        }
    } else {
        lemma_listing_starts_at_zero(dir, backups);
        assert(backups.last() == Some(BakSlot::Numbered(0)));
        assert(keep >= 1);
        let first = backups.numbered[0];
        assert(shifted.get(BakSlot::Numbered((first + 1) as u64)) == Some(dir.numbered[first]));
    }
}

/// A backup run of a file that has not changed since the last run changes
/// nothing: after any run, a second run with the same contents of the file
/// leaves every backup as it is.
pub proof fn lemma_backup_idempotent(
    dir: BakDir,
    backups: BackupsView,
    source: Seq<u8>,
    max: nat,
    again: BackupsView,
)
    requires
        backups.wf(),
        dir.listed_by(backups),
        has_room(backups.numbered),
        again.wf(),
        dir.backup(backups, source, max).listed_by(again),
    ensures
        dir.backup(backups, source, max).backup(again, source, max) == dir.backup(
            backups,
            source,
            max,
        ),
{
    let after = dir.backup(backups, source, max);
    let differs = dir.last_content() != Some(source);
    if max == 0 {
    } else {
        match spec_rotation(backups, differs, max) {
            None => {
                // there is a last backup and it holds what the file holds
                assert(backups.last() is Some);
                if !backups.plain {
                    lemma_listing_starts_at_zero(dir, again);
                }
            },
            Some((ops, target)) => {
                if backups.last() is None {
                } else if max == 1 {
                    lemma_wipe(dir, backups);
                } else {
                    lemma_shift(dir, backups, max);
                    let shift = spec_shift(backups.numbered, max);
                    if backups.plain {
                        lemma_apply_all_push(
                            dir,
                            shift,
                            BakOp::Rename { from: BakSlot::Plain, to: BakSlot::Numbered(1) },
                        );
                    }
                    assert(after.plain is None);
                    assert(after.numbered.dom().contains(0));
                    lemma_listing_starts_at_zero(after, again);
                }
                assert(after.last_content() == Some(source));
                assert(again.last() is Some);
            },
        }
    }
}

/// The list of a directory at rest: the numbers below `count`, ascending.
pub open spec fn rest_listing(plain: bool, count: nat) -> BackupsView {
    BackupsView { plain, numbered: Seq::new(count, |i: int| i as u64) }
}

/// An ascending list of a directory at rest is the list of the numbers
/// below the count.
pub proof fn lemma_listing_at_rest(dir: BakDir, count: nat, backups: BackupsView)
    requires
        backups.wf(),
        dir.listed_by(backups),
        dir.at_rest(count),
        count < u64::MAX,
    ensures
        backups == rest_listing(dir.plain is Some, count),
        has_room(backups.numbered),
{
    let s = backups.numbered;
    // each listed number is at least its place
    assert forall|i: int| 0 <= i < s.len() implies s[i] >= i by {
        lemma_ascending_at_least_place(s, i);
    }
    // each number below the count stands at its own place
    assert forall|n: int| 0 <= n < count implies n < s.len() && s[n] == n by {
        lemma_number_at_its_place(dir, count, s, n);
    }
    assert(s.len() == count) by {
        if s.len() > count {
            lemma_ascending_at_least_place(s, count as int);
            assert(s.contains(s[count as int]));
            assert(dir.numbered.dom().contains(s[count as int]));
        }
        if s.len() < count {
            lemma_number_at_its_place(dir, count, s, s.len() as int);
        }
    }
    assert(s =~= rest_listing(dir.plain is Some, count).numbered);
}

proof fn lemma_ascending_at_least_place(s: Seq<u64>, i: int)
    requires
        strictly_ascending(s),
        0 <= i < s.len(),
    ensures
        s[i] >= i,
    decreases i,
{
    if i > 0 {
        lemma_ascending_at_least_place(s, i - 1);
        assert(s[i - 1] < s[i]);
    }
}

proof fn lemma_number_at_its_place(dir: BakDir, count: nat, s: Seq<u64>, n: int)
    requires
        strictly_ascending(s),
        forall|k: u64| dir.numbered.dom().contains(k) <==> s.contains(k),
        dir.at_rest(count),
        0 <= n < count,
        count < u64::MAX,
    ensures
        n < s.len(),
        s[n] == n,
    decreases n,
{
    assert(dir.numbered.dom().contains(n as u64));
    assert(s.contains(n as u64));
    let j = choose|j: int| 0 <= j < s.len() && s[j] == n as u64;
    lemma_ascending_at_least_place(s, j);
    // j <= n; and j >= n, since the places below n hold the numbers below n
    if j < n {
        lemma_number_at_its_place(dir, count, s, j);
        assert(s[j] == j);
    }
}

/// The number of numbered backups of a directory at rest after a backup
/// run.
pub open spec fn count_after(dir: BakDir, count: nat, source: Seq<u8>, max: nat) -> nat {
    if max == 0 {
        count
    } else {
        match dir.last_content() {
            None => 0,
            Some(content) => if content == source {
                count
            } else if max == 1 {
                0
            } else if dir.plain is Some {
                2
            } else {
                spec_keep(count, max) + 1
            },
        }
    }
}

/// A backup run keeps a directory at rest and never leaves more numbered
/// backups than `max`; and after a run that `max` let make a backup, the
/// last backup holds what the file held.
pub proof fn lemma_backup_bounded(
    dir: BakDir,
    count: nat,
    backups: BackupsView,
    source: Seq<u8>,
    max: nat,
)
    requires
        backups.wf(),
        dir.listed_by(backups),
        dir.at_rest(count),
        count <= max < u64::MAX,
    ensures
        dir.backup(backups, source, max).at_rest(count_after(dir, count, source, max)),
        count_after(dir, count, source, max) <= max,
        max >= 1 ==> dir.backup(backups, source, max).last_content() == Some(source),
        max >= 2 && dir.last_content() is Some && dir.last_content() != Some(source)
            ==> dir.backup(backups, source, max).plain is None,
        max == 1 && count == 0 ==> dir.backup(backups, source, max).plain is Some,
{
    lemma_listing_at_rest(dir, count, backups);
    let after = dir.backup(backups, source, max);
    let next = count_after(dir, count, source, max);
    let differs = dir.last_content() != Some(source);
    if max == 0 {
    } else if dir.last_content() is None {
        assert(backups.last() is None) by {
            if count > 0 {
                assert(dir.numbered.dom().contains(0));
            }
        }
        assert(count == 0) by {
            if count > 0 {
                assert(dir.numbered.dom().contains(0));
            }
        }
        assert(Seq::<BakOp>::empty().len() == 0);
    } else {
        assert(backups.last() is Some) by {
            if dir.plain is None {
                lemma_listing_starts_at_zero(dir, backups);
            }
        }
        if !differs {
            if max == 1 && count == 0 {
                // without numbered backups the last backup is the plain one
                assert(dir.plain is Some) by {
                    if dir.plain is None {
                        assert(dir.numbered.dom().contains(0));
                    }
                }
            }
        } else if max == 1 {
            lemma_wipe(dir, backups);
        } else {
            lemma_shift(dir, backups, max);
            lemma_newest_is_zero(dir, backups, source, max);
            let shift = spec_shift(backups.numbered, max);
            let shifted = dir.apply_all(shift);
            let keep = spec_keep(backups.numbered.len(), max);
            if backups.plain {
                lemma_apply_all_push(
                    dir,
                    shift,
                    BakOp::Rename { from: BakSlot::Plain, to: BakSlot::Numbered(1) },
                );
                assert(keep == 0);
                assert forall|n: u64| after.numbered.dom().contains(n) <==> n < 2 by {
                    if shifted.numbered.dom().contains(n) {
                        let i = choose|i: int|
                            0 <= i < keep && #[trigger] backups.numbered[i] + 1 == n;
                    }
                }
            } else {
                assert forall|n: u64| after.numbered.dom().contains(n) <==> n < keep + 1 by {
                    if shifted.numbered.dom().contains(n) {
                        let i = choose|i: int|
                            0 <= i < keep && #[trigger] backups.numbered[i] + 1 == n;
                        assert(backups.numbered[i] == i);
                    }
                    if 1 <= n < keep + 1 {
                        let i = n - 1;
                        assert(backups.numbered[i] == i);
                        assert(shifted.get(BakSlot::Numbered((backups.numbered[i] + 1) as u64))
                            is Some);
                    }
                }
            }
        }
    }
}

/// The directory, and the number of its numbered backups, after backup
/// runs of a file that held `sources` one after the other, begun without
/// backups.
pub open spec fn after_runs(sources: Seq<Seq<u8>>, max: nat) -> (BakDir, nat)
    decreases sources.len(),
{
    if sources.len() == 0 {
        (BakDir::empty(), 0)
    } else {
        let (dir, count) = after_runs(sources.drop_last(), max);
        (
            dir.backup(rest_listing(dir.plain is Some, count), sources.last(), max),
            count_after(dir, count, sources.last(), max),
        )
    }
}

/// Whether each of `sources` differs from the one before it.
pub open spec fn each_differs(sources: Seq<Seq<u8>>) -> bool {
    forall|i: int| 0 < i < sources.len() ==> #[trigger] sources[i] != sources[i - 1]
}

/// After any number of backup runs with the same `max`, begun without
/// backups, the directory is at rest with no more numbered backups than
/// `max`. The plain backup exists after runs with `max` 1; with a greater
/// `max` it does not outlast the second of runs that each found the file
/// changed.
pub proof fn lemma_bounded_count(sources: Seq<Seq<u8>>, max: nat)
    requires
        max < u64::MAX,
    ensures
        after_runs(sources, max).0.at_rest(after_runs(sources, max).1),
        after_runs(sources, max).1 <= max,
        max >= 1 && sources.len() >= 1 ==> after_runs(sources, max).0.last_content() == Some(
            sources.last(),
        ),
        max == 1 ==> after_runs(sources, max).1 == 0,
        max == 1 && sources.len() >= 1 ==> after_runs(sources, max).0.plain is Some,
        max >= 2 && sources.len() >= 2 && each_differs(sources) ==> after_runs(
            sources,
            max,
        ).0.plain is None,
    decreases sources.len(),
{
    if sources.len() > 0 {
        let front = sources.drop_last();
        lemma_bounded_count(front, max);
        let (dir, count) = after_runs(front, max);
        let listing = rest_listing(dir.plain is Some, count);
        assert(listing.wf() && dir.listed_by(listing)) by {
            assert forall|n: u64| dir.numbered.dom().contains(n) <==> listing.numbered.contains(
                n,
            ) by {
                if n < count {
                    assert(listing.numbered[n as int] == n);
                }
            }
        }
        lemma_backup_bounded(dir, count, listing, sources.last(), max);
        if max >= 2 && sources.len() >= 2 && each_differs(sources) {
            assert(front.last() == sources[sources.len() - 2]);
            assert(sources[sources.len() - 1] != sources[sources.len() - 2]);
            assert(each_differs(front)) by {
                assert forall|i: int| 0 < i < front.len() implies #[trigger] front[i] != front[i
                    - 1] by {
                    assert(front[i] == sources[i] && front[i - 1] == sources[i - 1]);
                }
            }
        }
    }
}

} // verus!
