//! Outcome tags and the ordered set of outcomes a market is declared over.
//!
//! A market pays out on exactly one of a fixed list of mutually exclusive
//! outcomes. The list is fixed when the market is made; the place of a tag in
//! it is the index under which the market keeps that outcome's share count.

use vstd::prelude::*;
use vstd::laws_eq::obeys_concrete_eq;
use vstd::std_specs::cmp::PartialEqSpecImpl;
use vstd::std_specs::convert::FromSpecImpl;

verus! {

/// The two outcomes of a yes/no question.
#[derive(Debug, Clone, Copy)]
pub enum BinaryOutcome {
    Yes,
    No,
}

impl PartialEq for BinaryOutcome {
    fn eq(&self, other: &Self) -> (r: bool) {
        match (self, other) {
            (BinaryOutcome::Yes, BinaryOutcome::Yes) => true,
            (BinaryOutcome::No, BinaryOutcome::No) => true,
            _ => false,
        }
    }
}

impl Eq for BinaryOutcome {

}

impl PartialEqSpecImpl for BinaryOutcome {
    open spec fn obeys_eq_spec() -> bool {
        true
    }

    open spec fn eq_spec(&self, other: &Self) -> bool {
        *self == *other
    }
}

impl From<bool> for BinaryOutcome {
    /// `true` is `Yes`, `false` is `No`.
    fn from(value: bool) -> (r: Self) {
        if value {
            BinaryOutcome::Yes
        } else {
            BinaryOutcome::No
        }
    }
}

impl FromSpecImpl<bool> for BinaryOutcome {
    open spec fn obeys_from_spec() -> bool {
        true
    }

    open spec fn from_spec(value: bool) -> Self {
        if value {
            BinaryOutcome::Yes
        } else {
            BinaryOutcome::No
        }
    }
}

impl From<BinaryOutcome> for bool {
    /// `Yes` is `true`, `No` is `false`.
    fn from(value: BinaryOutcome) -> (r: bool) {
        value == BinaryOutcome::Yes
    }
}

impl FromSpecImpl<BinaryOutcome> for bool {
    open spec fn obeys_from_spec() -> bool {
        true
    }

    open spec fn from_spec(value: BinaryOutcome) -> bool {
        value == BinaryOutcome::Yes
    }
}

/// Why a list of tags was refused as an outcome set.
#[derive(Debug, Clone, Copy, PartialEq, Eq, Structural)]
pub enum OutcomeSetError {
    /// The list names fewer than two outcomes.
    TooFewOutcomes,
    /// Some tag stands in the list more than once.
    DuplicateOutcome,
}

/// What a list of tags must satisfy to serve as an outcome set: at least two
/// tags, and none of them twice.
pub open spec fn valid_outcomes<T>(tags: Seq<T>) -> bool {
    tags.len() >= 2 && tags.no_duplicates()
}

/// A fixed, ordered list of at least two distinct outcome tags.
///
/// The view is the list itself; a tag's index is its position in the view.
pub struct OutcomeSet<T> {
    tags: Vec<T>,
}

impl<T> View for OutcomeSet<T> {
    type V = Seq<T>;

    closed spec fn view(&self) -> Seq<T> {
        self.tags@
    }
}

/// The first place before `end` at which `needle` stands in `tags`, if any.
fn find_before<T: Copy + Eq>(tags: &Vec<T>, end: usize, needle: T) -> (r: Option<usize>)
    requires
        obeys_concrete_eq::<T>(),
        end <= tags@.len(),
    ensures
        match r {
            Some(k) => k < end && tags@[k as int] == needle,
            None => forall|k: int| 0 <= k < end ==> tags@[k] != needle,
        },
{
    let mut k: usize = 0;
    while k < end
        invariant
            k <= end <= tags@.len(),
            obeys_concrete_eq::<T>(),
            forall|m: int| 0 <= m < k ==> tags@[m] != needle,
        decreases end - k,
    {
        proof {
            reveal(obeys_concrete_eq);
        }
        if tags[k] == needle {
            return Some(k);
        }
        k = k + 1;
    }
    None
}

impl<T: Copy + Eq> OutcomeSet<T> {
    /// Well-formedness: the tags form a valid outcome set, and `==` on tags
    /// decides whether two tags are the same.
    pub open spec fn wf(&self) -> bool {
        obeys_concrete_eq::<T>() && valid_outcomes(self@)
    }

    /// Makes the outcome set that lists `tags` in the given order.
    ///
    /// The list is accepted exactly if it is a valid outcome set. A list that
    /// is too short is refused as such, whatever it repeats. The set compares
    /// tags with `==`, which must tell whether two tags are the same.
    pub fn new(tags: Vec<T>) -> (r: Result<Self, OutcomeSetError>)
        requires
            obeys_concrete_eq::<T>(),
        ensures
            match r {
                Ok(set) => set.wf() && set@ == tags@,
                Err(OutcomeSetError::TooFewOutcomes) => tags@.len() < 2,
                Err(OutcomeSetError::DuplicateOutcome) => tags@.len() >= 2
                    && !tags@.no_duplicates(),
            },
    {
        let n: usize = tags.len();
        if n < 2 {
            return Err(OutcomeSetError::TooFewOutcomes);
        }
        let mut i: usize = 1;
        while i < n
            invariant
                1 <= i <= n,
                n == tags@.len(),
                obeys_concrete_eq::<T>(),
                forall|a: int, b: int| 0 <= a < b < i ==> tags@[a] != tags@[b],
            decreases n - i,
        {
            match find_before(&tags, i, tags[i]) {
                Some(_) => {
                    return Err(OutcomeSetError::DuplicateOutcome);
                },
                None => {},
            }
            i = i + 1;
        }
        Ok(OutcomeSet { tags })
    }

    /// The number of outcomes.
    pub fn len(&self) -> (n: usize)
        ensures
            n == self@.len(),
    {
        self.tags.len()
    }

    /// The index of `outcome`, or `None` where the set does not hold it.
    pub fn position(&self, outcome: T) -> (r: Option<usize>)
        requires
            self.wf(),
        ensures
            match r {
                Some(i) => self@.contains(outcome) && i == self@.index_of(outcome),
                None => !self@.contains(outcome),
            },
    {
        let r: Option<usize> = find_before(&self.tags, self.tags.len(), outcome);
        proof {
            match r {
                Some(i) => {
                    lemma_index_of_unique(self@, outcome, i as int);
                },
                None => {},
            }
        }
        r
    }

    /// The index of a member of the set.
    pub fn index_of(&self, outcome: T) -> (i: usize)
        requires
            self.wf(),
            self@.contains(outcome),
        ensures
            i == self@.index_of(outcome),
            i < self@.len(),
            self@[i as int] == outcome,
    {
        self.position(outcome).unwrap()
    }

    /// The outcome that stands at `index`.
    pub fn outcome(&self, index: usize) -> (tag: T)
        requires
            index < self@.len(),
        ensures
            tag == self@[index as int],
    {
        self.tags[index]
    }
}

impl BinaryOutcome {
    /// The outcome set of a yes/no question: `Yes` at index 0, `No` at index 1.
    pub fn outcomes() -> (set: OutcomeSet<BinaryOutcome>)
        ensures
            set.wf(),
            set@ == seq![BinaryOutcome::Yes, BinaryOutcome::No],
            set@.contains(BinaryOutcome::Yes) && set@.index_of(BinaryOutcome::Yes) == 0,
            set@.contains(BinaryOutcome::No) && set@.index_of(BinaryOutcome::No) == 1,
    {
        let mut tags: Vec<BinaryOutcome> = Vec::new();
        tags.push(BinaryOutcome::Yes);
        tags.push(BinaryOutcome::No);
        proof {
            reveal(obeys_concrete_eq);
            assert(tags@ =~= seq![BinaryOutcome::Yes, BinaryOutcome::No]);
            lemma_index_of_unique(tags@, BinaryOutcome::Yes, 0);
            lemma_index_of_unique(tags@, BinaryOutcome::No, 1);
        }
        OutcomeSet { tags }
    }
}

/// In a list without repeats, the place where a tag stands is its index.
pub proof fn lemma_index_of_unique<T>(tags: Seq<T>, outcome: T, i: int)
    requires
        tags.no_duplicates(),
        0 <= i < tags.len(),
        tags[i] == outcome,
    ensures
        tags.contains(outcome),
        tags.index_of(outcome) == i,
{
    let j = tags.index_of(outcome);
    assert(0 <= j < tags.len() && tags[j] == outcome);
}

} // verus!
