//! The windows tiled on the current workspace, in tiling order: the first
//! one is the master window.
use vstd::prelude::*;

verus! {

/// The handles of the tiled windows, in tiling order.
pub struct Workspace {
    pub handles: Vec<isize>,
}

impl View for Workspace {
    type V = Seq<isize>;

    open spec fn view(&self) -> Seq<isize> {
        self.handles@
    }
}

/// The handles of `s` whose flag in `alive` is set, in order.
pub open spec fn keep_alive(s: Seq<isize>, alive: Seq<bool>) -> Seq<isize>
    decreases s.len(),
{
    if s.len() == 0 || alive.len() == 0 {
        Seq::empty()
    } else {
        keep_alive(s.drop_last(), alive.drop_last()) + if alive.last() {
            seq![s.last()]
        } else {
            Seq::empty()
        }
    }
}

/// `s` without the first occurrence of `h` (unchanged when `h` is absent).
pub open spec fn without_first(s: Seq<isize>, h: isize) -> Seq<isize>
    decreases s.len(),
{
    if s.len() == 0 {
        s
    } else if s[0] == h {
        s.drop_first()
    } else {
        seq![s[0]] + without_first(s.drop_first(), h)
    }
}

/// `s` with `h` appended unless it occurs already.
pub open spec fn with_tracked(s: Seq<isize>, h: isize) -> Seq<isize> {
    if s.contains(h) {
        s
    } else {
        s.push(h)
    }
}

/// No handle occurs twice.
pub open spec fn no_duplicates(s: Seq<isize>) -> bool {
    forall|i: int, j: int| 0 <= i < j < s.len() ==> s[i] != s[j]
}

/// Removing the first occurrence, found at `idx`, is removing at `idx`.
proof fn lemma_without_first_at(s: Seq<isize>, h: isize, idx: int)
    requires
        0 <= idx < s.len(),
        s[idx] == h,
        forall|k: int| 0 <= k < idx ==> s[k] != h,
    ensures
        without_first(s, h) == s.remove(idx),
    decreases s.len(),
{
    if idx > 0 {
        lemma_without_first_at(s.drop_first(), h, idx - 1);
        assert(seq![s[0]] + s.drop_first().remove(idx - 1) =~= s.remove(idx));
    } else {
        assert(s.drop_first() =~= s.remove(0));
    }
}

/// Removing an absent handle changes nothing.
proof fn lemma_without_absent(s: Seq<isize>, h: isize)
    requires
        !s.contains(h),
    ensures
        without_first(s, h) == s,
    decreases s.len(),
{
    if s.len() > 0 {
        assert(!s.drop_first().contains(h)) by {
            if s.drop_first().contains(h) {
                let k = choose|k: int| 0 <= k < s.drop_first().len() && s.drop_first()[k] == h;
                assert(s[k + 1] == h);
            }
        }
        assert(s[0] != h) by {
            assert(s[0] == s[0]);
        }
        lemma_without_absent(s.drop_first(), h);
        assert(seq![s[0]] + s.drop_first() =~= s);
    }
}

impl Workspace {
    /// An empty workspace.
    pub fn new() -> (ws: Workspace)
        ensures
            ws@ == Seq::<isize>::empty(),
    {
        Workspace { handles: Vec::new() }
    }

    /// The number of tiled windows.
    pub fn len(&self) -> (r: usize)
        ensures
            r == self@.len(),
    {
        self.handles.len()
    }

    /// Whether no window is tiled.
    pub fn is_empty(&self) -> (r: bool)
        ensures
            r == (self@.len() == 0),
    {
        self.handles.len() == 0
    }

    /// The window count as the layouts take it: the length converted to
    /// `i32`, keeping its low 32 bits.
    pub fn tile_count(&self) -> (r: i32)
        ensures
            r == self@.len() as i32,
    {
        #[verifier::truncate]
        (self.handles.len() as i32)
    }

    /// Whether window `h` is tiled.
    pub fn contains(&self, h: isize) -> (r: bool)
        ensures
            r == self@.contains(h),
    {
        let mut i: usize = 0;
        while i < self.handles.len()
            invariant
                0 <= i <= self@.len(),
                forall|k: int| 0 <= k < i ==> self@[k] != h,
            decreases self@.len() - i,
        {
            if self.handles[i] == h {
                return true;
            }
            i = i + 1;
        }
        false
    }

    /// Drops the windows that no longer exist: `alive[i]` tells whether the
    /// `i`-th tiled window still exists. The order of the rest is kept.
    pub fn prune(&mut self, alive: &Vec<bool>)
        requires
            alive@.len() == old(self)@.len(),
        ensures
            final(self)@ == keep_alive(old(self)@, alive@),
    {
        let ghost s = self@;
        let mut kept: Vec<isize> = Vec::new();
        let mut i: usize = 0;
        while i < self.handles.len()
            invariant
                s == self@,
                alive@.len() == s.len(),
                0 <= i <= s.len(),
                kept@ == keep_alive(s.take(i as int), alive@.take(i as int)),
            decreases s.len() - i,
        {
            proof {
                assert(s.take(i + 1).drop_last() =~= s.take(i as int));
                assert(alive@.take(i + 1).drop_last() =~= alive@.take(i as int));
            }
            if alive[i] {
                kept.push(self.handles[i]);
            }
            proof {
                let nk = keep_alive(s.take(i + 1), alive@.take(i + 1));
                assert(kept@ =~= nk);
            }
            i = i + 1;
        }
        proof {
            assert(s.take(s.len() as int) =~= s);
            assert(alive@.take(s.len() as int) =~= alive@);
        }
        self.handles = kept;
    }

    /// Tiles window `h` at the end unless it is tiled already; tells whether
    /// it was added.
    pub fn track(&mut self, h: isize) -> (added: bool)
        ensures
            added == !old(self)@.contains(h),
            final(self)@ == with_tracked(old(self)@, h),
    {
        if self.contains(h) {
            false
        } else {
            self.handles.push(h);
            true
        }
    }

    /// Tiles window `h` at the end, found among the windows that exist at
    /// start-up.
    pub fn adopt(&mut self, h: isize)
        ensures
            final(self)@ == old(self)@.push(h),
    {
        self.handles.push(h);
    }

    /// Stops tiling window `h`: removes its first occurrence; tells whether
    /// it was tiled.
    pub fn untrack(&mut self, h: isize) -> (removed: bool)
        ensures
            removed == old(self)@.contains(h),
            final(self)@ == without_first(old(self)@, h),
    {
        let ghost s = self@;
        let mut i: usize = 0;
        while i < self.handles.len()
            invariant
                s == self@,
                s == old(self)@,
                0 <= i <= s.len(),
                forall|k: int| 0 <= k < i ==> s[k] != h,
            decreases s.len() - i,
        {
            if self.handles[i] == h {
                proof {
                    lemma_without_first_at(s, h, i as int);
                }
                self.handles.remove(i);
                assert(s[i as int] == h);
                return true;
            }
            i = i + 1;
        }
        proof {
            lemma_without_absent(s, h);
        }
        false
    }
}

/// A handle survives pruning exactly when it stands at a position whose flag
/// is set.
pub proof fn lemma_keep_alive_contains(s: Seq<isize>, alive: Seq<bool>, x: isize)
    requires
        alive.len() == s.len(),
    ensures
        keep_alive(s, alive).contains(x) <==> exists|i: int| 0 <= i < s.len() && s[i] == x && alive[i],
    decreases s.len(),
{
    if s.len() > 0 {
        let (s0, a0) = (s.drop_last(), alive.drop_last());
        lemma_keep_alive_contains(s0, a0, x);
        let k0 = keep_alive(s0, a0);
        let tail = if alive.last() { seq![s.last()] } else { Seq::<isize>::empty() };
        assert(keep_alive(s, alive) == k0 + tail);
        if keep_alive(s, alive).contains(x) {
            let k = choose|k: int| 0 <= k < (k0 + tail).len() && (k0 + tail)[k] == x;
            if k < k0.len() {
                assert(k0[k] == x);
                assert(k0.contains(x));
                let i = choose|i: int| 0 <= i < s0.len() && s0[i] == x && a0[i];
                assert(s[i] == x && alive[i]);
            } else {
                assert(s[s.len() - 1] == x && alive[s.len() - 1]);
            }
        }
        if exists|i: int| 0 <= i < s.len() && s[i] == x && alive[i] {
            let i = choose|i: int| 0 <= i < s.len() && s[i] == x && alive[i];
            if i < s.len() - 1 {
                assert(s0[i] == x && a0[i]);
                let k = choose|k: int| 0 <= k < k0.len() && k0[k] == x;
                assert((k0 + tail)[k] == x);
            } else {
                assert((k0 + tail)[k0.len() as int] == x);
            }
        }
    }
}

/// Law: pruning never makes a handle occur twice.
pub proof fn law_prune_keeps_distinct(s: Seq<isize>, alive: Seq<bool>)
    requires
        alive.len() == s.len(),
        no_duplicates(s),
    ensures
        no_duplicates(keep_alive(s, alive)),
    decreases s.len(),
{
    if s.len() > 0 {
        let (s0, a0) = (s.drop_last(), alive.drop_last());
        law_prune_keeps_distinct(s0, a0);
        let k0 = keep_alive(s0, a0);
        let tail = if alive.last() { seq![s.last()] } else { Seq::<isize>::empty() };
        assert(keep_alive(s, alive) == k0 + tail);
        if alive.last() {
            lemma_keep_alive_contains(s0, a0, s.last());
            assert(!k0.contains(s.last())) by {
                if k0.contains(s.last()) {
                    let i = choose|i: int| 0 <= i < s0.len() && s0[i] == s.last() && a0[i];
                    assert(s[i] == s[s.len() - 1]);
                }
            }
            assert forall|i: int, j: int| 0 <= i < j < (k0 + tail).len() implies (k0 + tail)[i] != (k0 + tail)[j] by {
                if j == k0.len() {
                    assert(k0[i] == (k0 + tail)[i]);
                }
            }
        } else {
            assert(k0 + tail =~= k0);
        }
    }
}

/// Law: pruning keeps exactly the handles whose flag is set.
pub proof fn law_prune_keeps_alive(s: Seq<isize>, alive: Seq<bool>)
    requires
        alive.len() == s.len(),
    ensures
        forall|x: isize| #[trigger] keep_alive(s, alive).contains(x)
            <==> exists|i: int| 0 <= i < s.len() && s[i] == x && alive[i],
{
    assert forall|x: isize| #[trigger] keep_alive(s, alive).contains(x)
        <==> exists|i: int| 0 <= i < s.len() && s[i] == x && alive[i] by {
        lemma_keep_alive_contains(s, alive, x);
    }
}

/// Law: a window is tiled after it is tracked, and tracking it again
/// changes nothing.
pub proof fn law_track_idempotent(s: Seq<isize>, h: isize)
    ensures
        with_tracked(s, h).contains(h),
        with_tracked(with_tracked(s, h), h) == with_tracked(s, h),
{
    if !s.contains(h) {
        assert(s.push(h)[s.len() as int] == h);
    }
}

/// Law: tracking never makes a handle occur twice.
pub proof fn law_track_keeps_distinct(s: Seq<isize>, h: isize)
    requires
        no_duplicates(s),
    ensures
        no_duplicates(with_tracked(s, h)),
{
    if !s.contains(h) {
        let t = s.push(h);
        assert forall|i: int, j: int| 0 <= i < j < t.len() implies t[i] != t[j] by {
            if j == s.len() {
                assert(s[i] == t[i]);
            }
        }
    }
}

/// Law: untracking a window that was just tracked, when it was not tiled
/// before, gives back the workspace as it was.
pub proof fn law_untrack_undoes_track(s: Seq<isize>, h: isize)
    requires
        !s.contains(h),
    ensures
        without_first(with_tracked(s, h), h) == s,
{
    let t = s.push(h);
    lemma_without_first_at(t, h, s.len() as int);
    assert(t.remove(s.len() as int) =~= s);
}

/// Law: when no handle occurs twice, a window is no longer tiled after it
/// is untracked, every other window stays, in the same order, and still no
/// handle occurs twice.
pub proof fn law_untrack_removes(s: Seq<isize>, h: isize)
    requires
        no_duplicates(s),
    ensures
        !without_first(s, h).contains(h),
        forall|x: isize| x != h ==> (#[trigger] without_first(s, h).contains(x) <==> s.contains(x)),
        no_duplicates(without_first(s, h)),
{
    if s.contains(h) {
        let idx = choose|k: int| 0 <= k < s.len() && s[k] == h;
        assert forall|k: int| 0 <= k < idx implies s[k] != h by {}
        lemma_without_first_at(s, h, idx);
        let r = s.remove(idx);
        assert forall|k: int| 0 <= k < r.len() implies r[k] == (if k < idx { s[k] } else { s[k + 1] }) by {}
        assert(!r.contains(h)) by {
            if r.contains(h) {
                let k = choose|k: int| 0 <= k < r.len() && r[k] == h;
                if k < idx {
                    assert(s[k] == s[idx]);
                } else {
                    assert(s[k + 1] == s[idx]);
                }
            }
        }
        assert forall|x: isize| x != h implies (#[trigger] r.contains(x) <==> s.contains(x)) by {
            if s.contains(x) {
                let k = choose|k: int| 0 <= k < s.len() && s[k] == x;
                if k < idx {
                    assert(r[k] == x);
                } else {
                    assert(k != idx);
                    assert(r[k - 1] == x);
                }
            }
            if r.contains(x) {
                let k = choose|k: int| 0 <= k < r.len() && r[k] == x;
                if k < idx {
                    assert(s[k] == x);
                } else {
                    assert(s[k + 1] == x);
                }
            }
        }
        assert forall|i: int, j: int| 0 <= i < j < r.len() implies r[i] != r[j] by {
            let si = if i < idx { i } else { i + 1 };
            let sj = if j < idx { j } else { j + 1 };
            assert(r[i] == s[si] && r[j] == s[sj]);
        }
    } else {
        lemma_without_absent(s, h);
    }
}

/// Law: pruning works window by window and keeps the order: a window with
/// its flag set stays, one without goes, and pruning two lists one after the
/// other is pruning the first then the second.
pub proof fn law_prune_piecewise(s1: Seq<isize>, a1: Seq<bool>, s2: Seq<isize>, a2: Seq<bool>, x: isize)
    requires
        a1.len() == s1.len(),
        a2.len() == s2.len(),
    ensures
        keep_alive(s1 + s2, a1 + a2) == keep_alive(s1, a1) + keep_alive(s2, a2),
        keep_alive(seq![x], seq![true]) == seq![x],
        keep_alive(seq![x], seq![false]) == Seq::<isize>::empty(),
    decreases s2.len(),
{
    assert(seq![x].drop_last() =~= Seq::<isize>::empty());
    assert(seq![true].drop_last() =~= Seq::<bool>::empty());
    assert(seq![false].drop_last() =~= Seq::<bool>::empty());
    assert(keep_alive(Seq::<isize>::empty(), Seq::<bool>::empty()) == Seq::<isize>::empty());
    assert(Seq::<isize>::empty() + seq![x] =~= seq![x]);
    assert(Seq::<isize>::empty() + Seq::<isize>::empty() =~= Seq::<isize>::empty());
    if s2.len() == 0 {
        assert(s1 + s2 =~= s1);
        assert(a1 + a2 =~= a1);
        assert(keep_alive(s2, a2) == Seq::<isize>::empty());
        assert(keep_alive(s1, a1) + Seq::<isize>::empty() =~= keep_alive(s1, a1));
    } else {
        law_prune_piecewise(s1, a1, s2.drop_last(), a2.drop_last(), x);
        assert((s1 + s2).drop_last() =~= s1 + s2.drop_last());
        assert((a1 + a2).drop_last() =~= a1 + a2.drop_last());
        assert((s1 + s2).last() == s2.last());
        assert((a1 + a2).last() == a2.last());
        let tail = if a2.last() { seq![s2.last()] } else { Seq::<isize>::empty() };
        assert(keep_alive(s1, a1) + keep_alive(s2.drop_last(), a2.drop_last()) + tail
            =~= keep_alive(s1, a1) + (keep_alive(s2.drop_last(), a2.drop_last()) + tail));
    }
}

/// Law: tracking keeps the windows already tiled, in place, and adds the
/// window at the end when it was missing.
pub proof fn law_track_appends(s: Seq<isize>, h: isize)
    ensures
        s.contains(h) ==> with_tracked(s, h) == s,
        !s.contains(h) ==> with_tracked(s, h).len() == s.len() + 1 && with_tracked(s, h).subrange(0, s.len() as int) == s
            && with_tracked(s, h)[s.len() as int] == h,
{
    if !s.contains(h) {
        assert(s.push(h).subrange(0, s.len() as int) =~= s);
    }
}

/// Law: untracking removes exactly the first occurrence of the window: the
/// windows before it and after it stay, in order.
pub proof fn law_untrack_first_occurrence(s: Seq<isize>, h: isize, idx: int)
    requires
        0 <= idx < s.len(),
        s[idx] == h,
        forall|k: int| 0 <= k < idx ==> s[k] != h,
    ensures
        without_first(s, h) == s.subrange(0, idx) + s.subrange(idx + 1, s.len() as int),
{
    lemma_without_first_at(s, h, idx);
    assert(s.remove(idx) =~= s.subrange(0, idx) + s.subrange(idx + 1, s.len() as int));
}

} // verus!
