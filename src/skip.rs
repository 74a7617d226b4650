use vstd::prelude::*;

verus! {

/// Whether a sequence is strictly increasing (so sorted and without repeats).
pub open spec fn strictly_sorted(s: Seq<u32>) -> bool {
    forall|i: int, j: int| 0 <= i < j < s.len() ==> s[i] < s[j]
}

/// The parachain ids an operator elects not to check, kept sorted and unique.
pub struct SkipSet {
    ids: Vec<u32>,
}

impl View for SkipSet {
    type V = Set<u32>;

    closed spec fn view(&self) -> Set<u32> {
        self.ids@.to_set()
    }
}

impl SkipSet {
    /// The ids are sorted and unique.
    pub closed spec fn wf(&self) -> bool {
        strictly_sorted(self.ids@)
    }

    /// Builds the set from operator input, in any order and with repeats.
    pub fn new(input: Vec<u32>) -> (r: SkipSet)
        ensures
            r.wf(),
            r@ == input@.to_set(),
    {
        let mut ids: Vec<u32> = Vec::new();
        let mut k: usize = 0;
        while k < input.len()
            invariant
                k <= input@.len(),
                strictly_sorted(ids@),
                ids@.to_set() == input@.subrange(0, k as int).to_set(),
            decreases input@.len() - k,
        {
            let x = input[k];
            let mut pos: usize = 0;
            while pos < ids.len() && ids[pos] < x
                invariant
                    pos <= ids@.len(),
                    forall|i: int| 0 <= i < pos ==> ids@[i] < x,
                decreases ids@.len() - pos,
            {
                pos = pos + 1;
            }
            let old_ids = Ghost(ids@);
            if pos < ids.len() && ids[pos] == x {
            } else {
                ids.insert(pos, x);
                assert(ids@ == old_ids@.insert(pos as int, x));
                assert forall|i: int, j: int| 0 <= i < j < ids@.len() implies ids@[i] < ids@[j] by {
                    if j < pos {
                    } else if j == pos {
                    } else if i < pos {
                        assert(ids@[j] == old_ids@[j - 1]);
                        assert(old_ids@[pos as int] >= x);
                    } else if i == pos {
                        assert(ids@[j] == old_ids@[j - 1]);
                        assert(old_ids@[pos as int] >= x);
                        if j - 1 > pos {
                            assert(old_ids@[pos as int] < old_ids@[j - 1]);
                        }
                        assert(old_ids@[pos as int] != x);
                    } else {
                    }
                };
                assert(ids@.to_set() =~= old_ids@.to_set().insert(x)) by {
                    assert forall|y: u32| #[trigger] ids@.to_set().contains(y) == old_ids@.to_set().insert(x).contains(y) by {
                        if ids@.contains(y) {
                            let t = choose|t: int| 0 <= t < ids@.len() && ids@[t] == y;
                            if t < pos {
                                assert(old_ids@[t] == y);
                            } else if t > pos {
                                assert(old_ids@[t - 1] == y);
                            }
                        }
                        if old_ids@.contains(y) {
                            let t = choose|t: int| 0 <= t < old_ids@.len() && old_ids@[t] == y;
                            if t < pos {
                                assert(ids@[t] == y);
                            } else {
                                assert(ids@[t + 1] == y);
                            }
                        }
                        if y == x {
                            assert(ids@[pos as int] == x);
                        }
                    };
                };
            }
            assert(input@.subrange(0, k + 1) == input@.subrange(0, k as int).push(x));
            assert(input@.subrange(0, k as int).push(x).to_set() =~= input@.subrange(0, k as int).to_set().insert(x)) by {
                input@.subrange(0, k as int).lemma_push_to_set_commute(x);
            };
            if pos < ids.len() && ids[pos] == x {
                assert(ids@.to_set() =~= ids@.to_set().insert(x)) by {
                    assert(ids@.contains(x)) by {
                        assert(ids@[pos as int] == x);
                    };
                };
            }
            k = k + 1;
        }
        assert(input@.subrange(0, input@.len() as int) == input@);
        SkipSet { ids }
    }

    /// Whether `id` is to be skipped.
    pub fn contains(&self, id: u32) -> (r: bool)
        requires
            self.wf(),
        ensures
            r == self@.contains(id),
    {
        let mut lo: usize = 0;
        let mut hi: usize = self.ids.len();
        while lo < hi
            invariant
                lo <= hi <= self.ids@.len(),
                strictly_sorted(self.ids@),
                forall|i: int| 0 <= i < lo ==> self.ids@[i] < id,
                forall|i: int| hi <= i < self.ids@.len() ==> self.ids@[i] > id,
            decreases hi - lo,
        {
            let mid = lo + (hi - lo) / 2;
            let v = self.ids[mid];
            if v == id {
                assert(self.ids@.contains(id) ) by {
                    assert(self.ids@[mid as int] == id);
                };
                return true;
            } else if v < id {
                lo = mid + 1;
            } else {
                hi = mid;
            }
        }
        assert(!self.ids@.contains(id));
        false
    }

    /// The number of distinct ids.
    pub fn len(&self) -> (r: usize)
        requires
            self.wf(),
        ensures
            r == self@.len(),
    {
        proof {
            assert(self.ids@.no_duplicates()) by {
                assert forall|i: int, j: int| 0 <= i < self.ids@.len() && 0 <= j < self.ids@.len() && i != j implies self.ids@[i] != self.ids@[j] by {
                    if i < j {
                        assert(self.ids@[i] < self.ids@[j]);
                    } else {
                        assert(self.ids@[j] < self.ids@[i]);
                    }
                };
            };
            self.ids@.unique_seq_to_set();
        }
        self.ids.len()
    }
}

} // verus!
