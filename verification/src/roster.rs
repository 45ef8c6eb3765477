use crate::keys::same_key;
use solana_program::pubkey::Pubkey;
use vstd::prelude::*;

verus! {

/// What a ballot records of one enrolled identity.
#[derive(Clone, Copy, Debug)]
pub struct VoterInfo {
    /// Casting rights the identity still holds.
    pub votes_left: u32,
    /// The identity that last received a right from this one, if any.
    pub delegate: Option<Pubkey>,
}

/// The model of a [`VoterInfo`]: the allowance as a natural number.
pub struct VoterEntry {
    pub remaining: nat,
    pub delegate: Option<Pubkey>,
}

impl View for VoterInfo {
    type V = VoterEntry;

    open spec fn view(&self) -> VoterEntry {
        VoterEntry { remaining: self.votes_left as nat, delegate: self.delegate }
    }
}

/// One line of a roster.
pub(crate) struct Enrolled {
    pub voter: Pubkey,
    pub info: VoterInfo,
}

/// The enrolled identities of one ballot with their records: a finite map
/// keyed by public key, kept as a list in which no key occurs twice.
pub struct Roster {
    entries: Vec<Enrolled>,
}

impl Roster {
    /// Whether the line at `i` belongs to `voter`.
    spec fn holds_at(&self, i: int, voter: Pubkey) -> bool {
        0 <= i < self.entries@.len() && self.entries@[i].voter == voter
    }

    /// The line of `voter`, where there is one.
    spec fn line_of(&self, voter: Pubkey) -> int {
        choose|i: int| self.holds_at(i, voter)
    }

    /// No key occurs on two lines.
    pub closed spec fn wf(&self) -> bool {
        forall|i: int, j: int|
            0 <= i < self.entries@.len() && 0 <= j < self.entries@.len()
                && self.entries@[i].voter == self.entries@[j].voter ==> i == j
    }

    /// The roster as a map from identity to record.
    pub closed spec fn view(&self) -> Map<Pubkey, VoterInfo> {
        Map::new(
            |voter: Pubkey| exists|i: int| self.holds_at(i, voter),
            |voter: Pubkey| self.entries@[self.line_of(voter)].info,
        )
    }

    /// The empty roster.
    pub fn new() -> (roster: Roster)
        ensures
            roster.wf(),
            roster@ == Map::<Pubkey, VoterInfo>::empty(),
    {
        Roster { entries: Vec::new() }
    }

    /// The line on which `voter` stands.
    fn position(&self, voter: &Pubkey) -> (found: Option<usize>)
        requires
            self.wf(),
        ensures
            match found {
                Some(i) => self.holds_at(i as int, *voter) && self@.contains_key(*voter) && self@[*voter]
                    == self.entries@[i as int].info,
                None => !self@.contains_key(*voter) && forall|i: int| !self.holds_at(i, *voter),
            },
    {
        let mut i: usize = 0;
        while i < self.entries.len()
            invariant
                self.wf(),
                i <= self.entries@.len(),
                forall|j: int| 0 <= j < i ==> self.entries@[j].voter != *voter,
            decreases self.entries@.len() - i,
        {
            if same_key(&self.entries[i].voter, voter) {
                proof {
                    self.lemma_line(i as int);
                }
                return Some(i);
            }
            i += 1;
        }
        None
    }

    /// Whether `voter` is on the roster.
    pub fn contains_key(&self, voter: &Pubkey) -> (present: bool)
        requires
            self.wf(),
        ensures
            present == self@.contains_key(*voter),
    {
        self.position(voter).is_some()
    }

    /// The record of `voter`, if the identity is on the roster.
    pub fn get(&self, voter: &Pubkey) -> (record: Option<VoterInfo>)
        requires
            self.wf(),
        ensures
            record == self@.get(*voter),
    {
        match self.position(voter) {
            Some(i) => Some(self.entries[i].info),
            None => None,
        }
    }

    /// Every line of a well-formed roster shows in its map.
    proof fn lemma_line(&self, i: int)
        requires
            self.wf(),
            0 <= i < self.entries@.len(),
        ensures
            self@.contains_key(self.entries@[i].voter),
            self@[self.entries@[i].voter] == self.entries@[i].info,
    {
        let voter = self.entries@[i].voter;
        assert(self.holds_at(i, voter));
    }

    /// A map that agrees with every line, and holds no other key, is the
    /// roster's map.
    proof fn lemma_view_is(&self, m: Map<Pubkey, VoterInfo>)
        requires
            self.wf(),
            forall|i: int|
                0 <= i < self.entries@.len() ==> m.contains_key(#[trigger] self.entries@[i].voter)
                    && m[self.entries@[i].voter] == self.entries@[i].info,
            forall|voter: Pubkey| #[trigger]
                m.contains_key(voter) ==> exists|i: int| self.holds_at(i, voter),
        ensures
            self@ == m,
    {
        assert forall|voter: Pubkey| self@.contains_key(voter) implies m.contains_key(voter) by {
            let i = choose|i: int| self.holds_at(i, voter);
            assert(m.contains_key(self.entries@[i].voter));
        }
        assert forall|voter: Pubkey| m.contains_key(voter) implies self@.contains_key(voter)
            && self@[voter] == m[voter] by {
            let i = choose|i: int| self.holds_at(i, voter);
            self.lemma_line(i);
        }
    }

    /// Puts `voter` on the roster with `info`, in place of any earlier record.
    pub fn insert(&mut self, voter: Pubkey, info: VoterInfo)
        requires
            old(self).wf(),
        ensures
            final(self).wf(),
            final(self)@ == old(self)@.insert(voter, info),
    {
        let ghost before = *self;
        match self.position(&voter) {
            Some(i) => {
                self.entries[i].info = info;
                proof {
                    assert forall|j: int| 0 <= j < self.entries@.len() implies self.entries@[j].voter
                        == before.entries@[j].voter by {}
                    let m = before@.insert(voter, info);
                    assert forall|j: int| 0 <= j < self.entries@.len() implies m.contains_key(
                        #[trigger] self.entries@[j].voter,
                    ) && m[self.entries@[j].voter] == self.entries@[j].info by {
                        before.lemma_line(j);
                    }
                    assert forall|k: Pubkey| #[trigger] m.contains_key(k) implies exists|j: int|
                        self.holds_at(j, k) by {
                        if k == voter {
                            assert(self.holds_at(i as int, k));
                        } else {
                            let j = choose|j: int| before.holds_at(j, k);
                            assert(self.holds_at(j, k));
                        }
                    }
                    self.lemma_view_is(m);
                }
            },
            None => {
                self.entries.push(Enrolled { voter, info });
                proof {
                    let last = self.entries@.len() - 1;
                    assert forall|j: int| 0 <= j < last implies self.entries@[j]
                        == before.entries@[j] && !before.holds_at(j, voter) by {}
                    assert(self.wf()) by {
                        assert forall|a: int, b: int|
                            0 <= a <= last && 0 <= b <= last && self.entries@[a].voter
                                == self.entries@[b].voter implies a == b by {
                            if a < last && b == last {
                                assert(before.holds_at(a, voter));
                            } else if b < last && a == last {
                                assert(before.holds_at(b, voter));
                            }
                        }
                    }
                    let m = before@.insert(voter, info);
                    assert forall|j: int| 0 <= j < self.entries@.len() implies m.contains_key(
                        #[trigger] self.entries@[j].voter,
                    ) && m[self.entries@[j].voter] == self.entries@[j].info by {
                        if j < last {
                            before.lemma_line(j);
                        }
                    }
                    assert forall|k: Pubkey| #[trigger] m.contains_key(k) implies exists|j: int|
                        self.holds_at(j, k) by {
                        if k == voter {
                            assert(self.holds_at(last, k));
                        } else {
                            let j = choose|j: int| before.holds_at(j, k);
                            assert(self.holds_at(j, k));
                        }
                    }
                    self.lemma_view_is(m);
                }
            },
        }
    }

    /// Takes `voter` off the roster; says whether the identity was on it.
    pub fn remove(&mut self, voter: &Pubkey) -> (removed: bool)
        requires
            old(self).wf(),
        ensures
            final(self).wf(),
            removed == old(self)@.contains_key(*voter),
            final(self)@ == old(self)@.remove(*voter),
    {
        let ghost before = *self;
        match self.position(voter) {
            Some(i) => {
                self.entries.swap_remove(i);
                proof {
                    let n = self.entries@.len() as int;
                    // Where each remaining line stood before.
                    let from = |j: int| if j == i as int { n } else { j };
                    assert forall|j: int| 0 <= j < n implies self.entries@[j]
                        == before.entries@[from(j)] by {}
                    assert(self.wf());
                    let m = before@.remove(*voter);
                    assert forall|j: int| 0 <= j < n implies m.contains_key(
                        #[trigger] self.entries@[j].voter,
                    ) && m[self.entries@[j].voter] == self.entries@[j].info by {
                        before.lemma_line(from(j));
                    }
                    assert forall|k: Pubkey| #[trigger] m.contains_key(k) implies exists|j: int|
                        self.holds_at(j, k) by {
                        let b = choose|b: int| before.holds_at(b, k);
                        if b == n {
                            assert(self.holds_at(i as int, k));
                        } else {
                            assert(self.holds_at(b, k));
                        }
                    }
                    self.lemma_view_is(m);
                }
                true
            },
            None => false,
        }
    }
}

} // verus!
