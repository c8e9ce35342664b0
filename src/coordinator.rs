//! Coordination of a reconciliation run: the work units, the serialization
//! of mutations per fingerprint, and the run report.
use vstd::prelude::*;
use vstd::arithmetic::div_mod::lemma_fundamental_div_mod_converse;
use vstd::arithmetic::mul::lemma_mul_inequality;
use crate::cross_seed::{CrossSeedAction, FailureKind, SkipReason};

verus! {

/// The work units of a run over `nt` local torrents and `ni` indexers: every
/// pair `(torrent, indexer)` once, torrent-major.
pub open spec fn units(nt: nat, ni: nat) -> Seq<(usize, usize)> {
    Seq::new(nt * ni, |k: int| ((k / ni as int) as usize, (k % ni as int) as usize))
}

/// Lists one work unit per pair of local torrent and indexer, the full
/// cross product, torrent-major.
pub fn work_units(n_torrents: usize, n_indexers: usize) -> (r: Vec<(usize, usize)>)
    requires
        n_torrents * n_indexers <= usize::MAX,
    ensures
        r@ == units(n_torrents as nat, n_indexers as nat),
        forall|t: usize, i: usize|
            t < n_torrents && i < n_indexers ==> r@.contains((t, i)),
{
    let mut r: Vec<(usize, usize)> = Vec::new();
    let mut t: usize = 0;
    let ghost ni = n_indexers as int;
    while t < n_torrents
        invariant
            t <= n_torrents,
            n_torrents * n_indexers <= usize::MAX,
            ni == n_indexers as int,
            r@.len() == t * ni,
            forall|k: int| 0 <= k < r@.len() ==> #[trigger] r@[k] == ((k / ni) as usize, (k % ni) as usize),
        decreases n_torrents - t,
    {
        let mut i: usize = 0;
        while i < n_indexers
            invariant
                t < n_torrents,
                i <= n_indexers,
                ni == n_indexers as int,
                r@.len() == t * ni + i,
                forall|k: int| 0 <= k < r@.len() ==> #[trigger] r@[k] == ((k / ni) as usize, (k % ni) as usize),
            decreases n_indexers - i,
        {
            proof {
                lemma_fundamental_div_mod_converse(t * ni + i, ni, t as int, i as int);
            }
            r.push((t, i));
            i += 1;
        }
        assert(r@.len() == (t + 1) * ni) by (nonlinear_arith)
            requires r@.len() == t * ni + ni;
        t += 1;
    }
    assert(r@ =~= units(n_torrents as nat, n_indexers as nat));
    assert forall|a: usize, b: usize| a < n_torrents && b < n_indexers implies r@.contains((a, b)) by {
        let k = a * ni + b;
        lemma_mul_inequality(a as int, n_torrents as int - 1, ni);
        assert((n_torrents as int - 1) * ni == n_torrents * ni - ni) by (nonlinear_arith);
        lemma_fundamental_div_mod_converse(k, ni, a as int, b as int);
        assert(r@[k] == (a, b));
    }
    r
}

/// The fingerprints whose client torrent is being mutated: at most one
/// mutation at a time per fingerprint.
pub struct MutationLocks {
    held: Vec<String>,
}

impl View for MutationLocks {
    type V = Set<Seq<char>>;

    closed spec fn view(&self) -> Set<Seq<char>> {
        Set::new(|x: Seq<char>| self.held.deep_view().contains(x))
    }
}

impl MutationLocks {
    /// Each fingerprint is held at most once.
    pub closed spec fn wf(&self) -> bool {
        self.held.deep_view().no_duplicates()
    }

    pub fn new() -> (r: MutationLocks)
        ensures
            r.wf(),
            r@ == Set::<Seq<char>>::empty(),
    {
        let r = MutationLocks { held: Vec::new() };
        assert(r.held.deep_view() =~= Seq::<Seq<char>>::empty());
        assert(r@ =~= Set::<Seq<char>>::empty());
        r
    }

    fn position(&self, fp: &String) -> (r: Option<usize>)
        ensures
            match r {
                Some(i) => i < self.held.len() && self.held.deep_view()[i as int] == fp@,
                None => !self.held.deep_view().contains(fp@),
            },
    {
        let mut i: usize = 0;
        while i < self.held.len()
            invariant
                i <= self.held.len(),
                forall|k: int| 0 <= k < i ==> self.held.deep_view()[k] != fp@,
            decreases self.held.len() - i,
        {
            if self.held[i] == *fp {
                return Some(i);
            }
            i += 1;
        }
        None
    }

    /// Returns whether a mutation of `fp` is in flight.
    pub fn is_held(&self, fp: &String) -> (r: bool)
        ensures
            r == self@.contains(fp@),
    {
        self.position(fp).is_some()
    }

    /// Takes the lock of `fp` if it is free; returns whether it was taken.
    pub fn try_acquire(&mut self, fp: &String) -> (r: bool)
        requires
            old(self).wf(),
        ensures
            final(self).wf(),
            r == !old(self)@.contains(fp@),
            final(self)@ == old(self)@.insert(fp@),
    {
        match self.position(fp) {
            Some(_) => {
                assert(self@ =~= self@.insert(fp@));
                false
            },
            None => {
                let ghost before = self.held.deep_view();
                self.held.push(fp.clone());
                assert(self.held.deep_view() =~= before.push(fp@));
                proof {
                    let s = self.held.deep_view();
                    assert forall|i: int, j: int| 0 <= i < s.len() && 0 <= j < s.len() && i != j implies s[i] != s[j] by {
                        if i == before.len() {
                            assert(before.contains(s[j]) || j == before.len());
                        } else if j == before.len() {
                            assert(before.contains(s[i]));
                        }
                    }
                    assert forall|x: Seq<char>| s.contains(x) <==> (before.contains(x) || x == fp@) by {
                        if s.contains(x) && x != fp@ {
                            let k = choose|k: int| 0 <= k < s.len() && s[k] == x;
                            assert(before[k] == x);
                        }
                        if before.contains(x) {
                            let k = choose|k: int| 0 <= k < before.len() && before[k] == x;
                            assert(s[k] == x);
                        }
                        if x == fp@ {
                            assert(s[before.len() as int] == x);
                        }
                    }
                    assert(self@ =~= old(self)@.insert(fp@));
                }
                true
            },
        }
    }

    /// Gives back the lock of `fp`.
    pub fn release(&mut self, fp: &String)
        requires
            old(self).wf(),
        ensures
            final(self).wf(),
            final(self)@ == old(self)@.remove(fp@),
    {
        match self.position(fp) {
            None => {
                assert(self@ =~= self@.remove(fp@));
            },
            Some(i) => {
                let ghost before = self.held.deep_view();
                self.held.remove(i);
                assert(self.held.deep_view() =~= before.remove(i as int));
                proof {
                    let s = self.held.deep_view();
                    assert forall|a: int, b: int| 0 <= a < s.len() && 0 <= b < s.len() && a != b implies s[a] != s[b] by {
                        let a2 = if a < i { a } else { a + 1 };
                        let b2 = if b < i { b } else { b + 1 };
                        assert(s[a] == before[a2] && s[b] == before[b2]);
                    }
                    assert forall|x: Seq<char>| s.contains(x) <==> (before.contains(x) && x != fp@) by {
                        if s.contains(x) {
                            let k = choose|k: int| 0 <= k < s.len() && s[k] == x;
                            let k2 = if k < i { k } else { k + 1 };
                            assert(before[k2] == x);
                            assert(k2 != i);
                        }
                        if before.contains(x) && x != fp@ {
                            let k = choose|k: int| 0 <= k < before.len() && before[k] == x;
                            assert(k != i);
                            if k < i {
                                assert(s[k] == x);
                            } else {
                                assert(s[k - 1] == x);
                            }
                        }
                    }
                    assert(self@ =~= old(self)@.remove(fp@));
                }
            },
        }
    }
}

/// The mutation a work unit performed.
#[derive(Clone, Copy, Debug, PartialEq, Eq, Structural)]
pub enum ActionKind {
    AddTrackers,
    Replace,
    UploadSecondary,
    Materialize,
}

/// How one work unit ended.
#[derive(Clone, Copy, Debug, PartialEq, Eq, Structural)]
pub enum UnitOutcome {
    Acted(ActionKind),
    Skipped(SkipReason),
    Failed(FailureKind),
}

/// The outcome recorded for a unit whose decided action ran to completion.
pub fn outcome_of(action: &CrossSeedAction) -> (r: UnitOutcome)
    ensures
        r == match *action {
            CrossSeedAction::Skip(reason) => UnitOutcome::Skipped(reason),
            CrossSeedAction::AddTrackers { .. } => UnitOutcome::Acted(ActionKind::AddTrackers),
            CrossSeedAction::Replace { .. } => UnitOutcome::Acted(ActionKind::Replace),
            CrossSeedAction::UploadSecondary { .. } => UnitOutcome::Acted(
                ActionKind::UploadSecondary,
            ),
            CrossSeedAction::Materialize { .. } => UnitOutcome::Acted(ActionKind::Materialize),
        },
{
    match action {
        CrossSeedAction::Skip(reason) => UnitOutcome::Skipped(*reason),
        CrossSeedAction::AddTrackers { .. } => UnitOutcome::Acted(ActionKind::AddTrackers),
        CrossSeedAction::Replace { .. } => UnitOutcome::Acted(ActionKind::Replace),
        CrossSeedAction::UploadSecondary { .. } => UnitOutcome::Acted(ActionKind::UploadSecondary),
        CrossSeedAction::Materialize { .. } => UnitOutcome::Acted(ActionKind::Materialize),
    }
}

/// The report entry of one work unit.
#[derive(Debug)]
pub struct UnitReport {
    pub torrent: String,
    pub indexer: String,
    pub outcome: UnitOutcome,
}

/// 0 for an action taken, 1 for a skip, 2 for a failure.
pub open spec fn outcome_class(o: UnitOutcome) -> int {
    match o {
        UnitOutcome::Acted(_) => 0,
        UnitOutcome::Skipped(_) => 1,
        UnitOutcome::Failed(_) => 2,
    }
}

/// How many of `s` fall in `class`.
pub open spec fn tally(s: Seq<UnitOutcome>, class: int) -> nat
    decreases s.len(),
{
    if s.len() == 0 {
        0
    } else {
        tally(s.drop_last(), class) + if outcome_class(s.last()) == class {
            1nat
        } else {
            0nat
        }
    }
}

/// The per-unit results of a run.
pub struct RunReport {
    pub entries: Vec<UnitReport>,
}

impl RunReport {
    /// The outcomes, in the order they were recorded.
    pub open spec fn outcomes(&self) -> Seq<UnitOutcome> {
        Seq::new(self.entries@.len(), |i: int| self.entries@[i].outcome)
    }

    pub fn new() -> (r: RunReport)
        ensures
            r.outcomes() == Seq::<UnitOutcome>::empty(),
    {
        let r = RunReport { entries: Vec::new() };
        assert(r.outcomes() =~= Seq::<UnitOutcome>::empty());
        r
    }

    /// Records how one work unit ended.
    pub fn record(&mut self, torrent: String, indexer: String, outcome: UnitOutcome)
        ensures
            final(self).outcomes() == old(self).outcomes().push(outcome),
            final(self).entries@.last().torrent == torrent,
            final(self).entries@.last().indexer == indexer,
    {
        self.entries.push(UnitReport { torrent, indexer, outcome });
        assert(self.outcomes() =~= old(self).outcomes().push(outcome));
    }

    /// Counts of actions taken, skips and failures.
    pub fn summary(&self) -> (r: (usize, usize, usize))
        ensures
            r.0 == tally(self.outcomes(), 0),
            r.1 == tally(self.outcomes(), 1),
            r.2 == tally(self.outcomes(), 2),
            r.0 + r.1 + r.2 == self.entries@.len(),
    {
        let mut acted: usize = 0;
        let mut skipped: usize = 0;
        let mut failed: usize = 0;
        let mut i: usize = 0;
        while i < self.entries.len()
            invariant
                i <= self.entries.len(),
                acted == tally(self.outcomes().take(i as int), 0),
                skipped == tally(self.outcomes().take(i as int), 1),
                failed == tally(self.outcomes().take(i as int), 2),
                acted + skipped + failed == i,
            decreases self.entries.len() - i,
        {
            let ghost next = self.outcomes().take(i as int + 1);
            assert(next.drop_last() =~= self.outcomes().take(i as int));
            assert(next.last() == self.entries@[i as int].outcome);
            match self.entries[i].outcome {
                UnitOutcome::Acted(_) => acted += 1,
                UnitOutcome::Skipped(_) => skipped += 1,
                UnitOutcome::Failed(_) => failed += 1,
            }
            i += 1;
        }
        assert(self.outcomes().take(self.entries.len() as int) =~= self.outcomes());
        (acted, skipped, failed)
    }
}

/// Whether `s` ends with `suffix`.
pub open spec fn ends_with(s: Seq<char>, suffix: Seq<char>) -> bool {
    suffix.len() <= s.len() && s.subrange(s.len() - suffix.len(), s.len() as int) == suffix
}

fn has_suffix(s: &String, suffix: &str) -> (r: bool)
    ensures
        r == ends_with(s@, suffix@),
{
    let n = s.as_str().unicode_len();
    let m = suffix.unicode_len();
    if m > n {
        return false;
    }
    let mut j: usize = 0;
    while j < m
        invariant
            m == suffix@.len(),
            n == s@.len(),
            m <= n,
            j <= m,
            forall|k: int| 0 <= k < j ==> s@[n - m + k] == suffix@[k],
        decreases m - j,
    {
        if s.as_str().get_char(n - m + j) != suffix.get_char(j) {
            assert(s@.subrange(n - m, n as int)[j as int] != suffix@[j as int]);
            return false;
        }
        j += 1;
    }
    assert(s@.subrange(n - m, n as int) =~= suffix@);
    true
}

/// An entry of a recursive directory listing.
pub struct ListedEntry {
    pub path: String,
    pub is_file: bool,
}

/// The paths of the torrent files among `entries`: files whose name ends in
/// `.torrent`, in listing order.
pub open spec fn torrent_paths(entries: Seq<ListedEntry>) -> Seq<Seq<char>>
    decreases entries.len(),
{
    if entries.len() == 0 {
        Seq::empty()
    } else {
        let e = entries.last();
        let rest = torrent_paths(entries.drop_last());
        if e.is_file && ends_with(e.path@, ".torrent"@) {
            rest.push(e.path@)
        } else {
            rest
        }
    }
}

/// Picks the torrent files out of a recursive directory listing.
pub fn read_torrents(entries: &Vec<ListedEntry>) -> (r: Vec<String>)
    ensures
        r.deep_view() == torrent_paths(entries@),
{
    let mut r: Vec<String> = Vec::new();
    let mut i: usize = 0;
    assert(r.deep_view() =~= torrent_paths(entries@.take(0)));
    while i < entries.len()
        invariant
            i <= entries.len(),
            r.deep_view() == torrent_paths(entries@.take(i as int)),
        decreases entries.len() - i,
    {
        let e = &entries[i];
        let ghost next = entries@.take(i as int + 1);
        assert(next.drop_last() =~= entries@.take(i as int));
        assert(next.last() == entries@[i as int]);
        if e.is_file && has_suffix(&e.path, ".torrent") {
            let ghost before = r.deep_view();
            r.push(e.path.clone());
            assert(r.deep_view() =~= before.push(e.path@));
        }
        i += 1;
    }
    assert(entries@.take(entries.len() as int) =~= entries@);
    r
}

} // verus!
