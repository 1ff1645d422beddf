use vstd::prelude::*;

use crate::behavior::Behavior;
use crate::score::{lemma_below_after_not_above, Score};

verus! {

/// A scored candidate behavior, proposed for one tick.
#[derive(Clone, Copy, Debug, PartialEq, Eq, Structural)]
pub struct Suggestion {
    pub score: Score,
    pub behavior: Behavior,
}

impl Suggestion {
    pub open spec fn wf(self) -> bool {
        self.score.wf() && self.behavior.wf()
    }
}

pub open spec fn all_wf(s: Seq<Suggestion>) -> bool {
    forall|i: int| 0 <= i < s.len() ==> #[trigger] s[i].wf()
}

/// The index of the first suggestion whose score no other suggestion beats.
pub open spec fn best_index(s: Seq<Suggestion>) -> int
    decreases s.len(),
{
    if s.len() <= 1 {
        0
    } else {
        let b = best_index(s.drop_last());
        if s[b].score.below(s.last().score) {
            s.len() - 1
        } else {
            b
        }
    }
}

/// `w` wins: every earlier suggestion scores strictly lower, no later one higher.
pub open spec fn is_winner(s: Seq<Suggestion>, w: int) -> bool {
    &&& 0 <= w < s.len()
    &&& forall|j: int| 0 <= j < w ==> #[trigger] s[j].score.below(s[w].score)
    &&& forall|j: int| w < j < s.len() ==> !s[w].score.below(#[trigger] s[j].score)
}

/// The behavior committed after arbitrating `s` with `prev` committed before.
pub open spec fn committed_after(prev: Behavior, s: Seq<Suggestion>) -> Behavior {
    if s.len() == 0 {
        prev
    } else {
        let w = s[best_index(s)].behavior;
        if w.key_of() == prev.key_of() {
            prev
        } else {
            w
        }
    }
}

/// Arbitration has exactly one winner whenever there is at least one suggestion,
/// however many there are and however their scores tie; with none, the previous
/// behavior stays committed. The committed behavior has the winner's identity.
pub proof fn law_single_winner(prev: Behavior, s: Seq<Suggestion>)
    requires
        all_wf(s),
    ensures
        s.len() == 0 ==> committed_after(prev, s) == prev,
        s.len() > 0 ==> is_winner(s, best_index(s)),
        forall|v: int| #[trigger] is_winner(s, v) ==> v == best_index(s),
        s.len() > 0 ==> committed_after(prev, s).key_of() == s[best_index(s)].behavior.key_of(),
    decreases s.len(),
{
    if s.len() > 0 {
        lemma_best_is_winner(s);
        assert forall|v: int| #[trigger] is_winner(s, v) implies v == best_index(s) by {
            let b = best_index(s);
            if v < b {
                assert(s[v].score.below(s[b].score));
            } else if b < v {
                assert(s[b].score.below(s[v].score));
            }
        }
    }
}

proof fn lemma_best_is_winner(s: Seq<Suggestion>)
    requires
        all_wf(s),
        s.len() > 0,
    ensures
        is_winner(s, best_index(s)),
    decreases s.len(),
{
    if s.len() > 1 {
        let t = s.drop_last();
        let n = s.len() - 1;
        lemma_best_is_winner(t);
        let b = best_index(t);
        assert(t[b] == s[b]);
        if s[b].score.below(s[n].score) {
            assert forall|j: int| 0 <= j < n implies #[trigger] s[j].score.below(s[n].score) by {
                assert(t[j] == s[j]);
                assert(s[j].wf() && s[b].wf() && s[n].wf());
                if j < b {
                    assert(t[j].score.below(t[b].score));
                    lemma_below_after_not_above(s[j].score, s[b].score, s[n].score);
                } else if j > b {
                    lemma_below_after_not_above(s[j].score, s[b].score, s[n].score);
                }
            }
        } else {
            assert forall|j: int| 0 <= j < b implies #[trigger] s[j].score.below(s[b].score) by {
                assert(t[j] == s[j]);
            }
            assert forall|j: int| b < j < s.len() implies !s[b].score.below(
                #[trigger] s[j].score,
            ) by {
                if j < n {
                    assert(t[j] == s[j]);
                }
            }
        }
    }
}

/// When the winner has the identity of the committed behavior, that behavior stays,
/// state included, value for value; otherwise the winner is committed with the
/// state it was proposed with.
pub proof fn law_continuity(prev: Behavior, s: Seq<Suggestion>)
    requires
        s.len() > 0,
    ensures
        s[best_index(s)].behavior.key_of() == prev.key_of() ==> committed_after(prev, s) == prev,
        s[best_index(s)].behavior.key_of() != prev.key_of() ==> committed_after(prev, s)
            == s[best_index(s)].behavior,
{
}

/// Per-dweeb arbitration: the committed behavior and this tick's suggestions.
pub struct Advisor {
    committed: Behavior,
    pending: Vec<Suggestion>,
    smoothing: u32,
}

impl Advisor {
    /// The committed behavior.
    pub closed spec fn current(self) -> Behavior {
        self.committed
    }

    /// The suggestions made since the last commit, in the order they came.
    pub closed spec fn queued(self) -> Seq<Suggestion> {
        self.pending@
    }

    /// The configuration value the advisor was made with.
    pub closed spec fn setting(self) -> u32 {
        self.smoothing
    }

    pub open spec fn wf(self) -> bool {
        self.current().wf() && all_wf(self.queued())
    }

    /// A fresh advisor: `Idle` committed, nothing suggested. `smoothing` is kept as
    /// a configuration value; arbitration does not consult it.
    pub fn new(smoothing: u32) -> (r: Advisor)
        ensures
            r.current() == Behavior::Idle,
            r.queued() == Seq::<Suggestion>::empty(),
            r.setting() == smoothing,
            r.wf(),
    {
        Advisor { committed: Behavior::Idle, pending: Vec::new(), smoothing }
    }

    /// The committed behavior.
    pub fn committed(&self) -> (r: Behavior)
        ensures
            r == self.current(),
    {
        self.committed
    }

    /// The configuration value the advisor was made with.
    pub fn smoothing(&self) -> (r: u32)
        ensures
            r == self.setting(),
    {
        self.smoothing
    }

    /// Adds a candidate for this tick.
    pub fn suggest(&mut self, score: Score, behavior: Behavior)
        requires
            old(self).wf(),
            score.wf(),
            behavior.wf(),
        ensures
            final(self).queued() == old(self).queued().push(Suggestion { score, behavior }),
            final(self).current() == old(self).current(),
            final(self).setting() == old(self).setting(),
            final(self).wf(),
    {
        self.pending.push(Suggestion { score, behavior });
    }

    /// Commits the winner of this tick's suggestions and clears them. A winner with
    /// the committed identity keeps the committed state; with no suggestion the
    /// committed behavior stays.
    pub fn commit(&mut self)
        requires
            old(self).wf(),
        ensures
            final(self).current() == committed_after(old(self).current(), old(self).queued()),
            final(self).queued() == Seq::<Suggestion>::empty(),
            final(self).setting() == old(self).setting(),
            final(self).wf(),
    {
        let n = self.pending.len();
        if n > 0 {
            let mut best: usize = 0;
            let mut i: usize = 1;
            assert(self.pending@.subrange(0, 1).len() == 1);
            while i < n
                invariant
                    1 <= i <= n,
                    n == self.pending@.len(),
                    0 <= best < i,
                    best == best_index(self.pending@.subrange(0, i as int)),
                    all_wf(self.pending@),
                decreases n - i,
            {
                let ghost s = self.pending@.subrange(0, i + 1);
                assert(s.drop_last() =~= self.pending@.subrange(0, i as int));
                assert(s[best as int] == self.pending@[best as int]);
                assert(self.pending@[best as int].wf() && self.pending@[i as int].wf());
                if self.pending[best].score.is_below(&self.pending[i].score) {
                    best = i;
                }
                i += 1;
            }
            assert(self.pending@.subrange(0, n as int) =~= self.pending@);
            let w = self.pending[best].behavior;
            assert(self.pending@[best as int].wf());
            if w.key() != self.committed.key() {
                self.committed = w;
            }
        }
        self.pending = Vec::new();
    }

    /// Takes this tick's suggestions, in order, and commits the winner.
    pub fn deliberate(&mut self, suggestions: &Vec<Suggestion>)
        requires
            old(self).wf(),
            all_wf(suggestions@),
        ensures
            final(self).current() == committed_after(
                old(self).current(),
                old(self).queued() + suggestions@,
            ),
            final(self).queued() == Seq::<Suggestion>::empty(),
            final(self).setting() == old(self).setting(),
            final(self).wf(),
    {
        let ghost start = self.queued();
        let mut i: usize = 0;
        while i < suggestions.len()
            invariant
                i <= suggestions@.len(),
                self.wf(),
                all_wf(suggestions@),
                self.current() == old(self).current(),
                self.setting() == old(self).setting(),
                self.queued() == start + suggestions@.subrange(0, i as int),
            decreases suggestions@.len() - i,
        {
            let s = suggestions[i];
            assert(suggestions@[i as int].wf());
            self.suggest(s.score, s.behavior);
            i += 1;
            assert(self.queued() =~= start + suggestions@.subrange(0, i as int));
        }
        assert(suggestions@.subrange(0, suggestions@.len() as int) =~= suggestions@);
        self.commit();
    }

    /// Replaces the committed behavior's state; its identity stays.
    pub fn update_state(&mut self, behavior: Behavior)
        requires
            old(self).wf(),
            behavior.wf(),
            behavior.key_of() == old(self).current().key_of(),
        ensures
            final(self).current() == behavior,
            final(self).queued() == old(self).queued(),
            final(self).setting() == old(self).setting(),
            final(self).wf(),
    {
        self.committed = behavior;
    }
}

} // verus!
