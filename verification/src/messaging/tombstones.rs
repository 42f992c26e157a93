//! The subjects of requests that once waited for a reply.
use vstd::prelude::*;

use crate::text::same_text;
use crate::text::texts;

verus! {

/// How many subjects are remembered.
pub const MAX_TOMBSTONES: usize = 1024;

/// The latest subjects of requests, oldest first, each of them once.
pub struct Tombstones {
    order: Vec<String>,
}

impl View for Tombstones {
    type V = Seq<Seq<char>>;

    closed spec fn view(&self) -> Seq<Seq<char>> {
        texts(self.order@)
    }
}

/// The remembered subjects after `subject` came: one that is remembered already stays where it
/// is; a new one comes last, and the oldest leave until no more than the limit are left.
pub open spec fn remembered(subjects: Seq<Seq<char>>, subject: Seq<char>) -> Seq<Seq<char>> {
    if subjects.contains(subject) {
        subjects
    } else if subjects.len() < MAX_TOMBSTONES {
        subjects.push(subject)
    } else {
        subjects.push(subject).skip(subjects.len() + 1 - MAX_TOMBSTONES)
    }
}

impl Tombstones {
    /// Nothing is remembered twice, and no more than the limit is.
    pub open spec fn wf(&self) -> bool {
        self@.no_duplicates() && self@.len() <= MAX_TOMBSTONES
    }

    /// Nothing remembered.
    pub fn new() -> (tombstones: Tombstones)
        ensures
            tombstones.wf(),
            tombstones@ == Seq::<Seq<char>>::empty(),
    {
        let tombstones = Tombstones { order: Vec::new() };
        assert(tombstones@ =~= Seq::<Seq<char>>::empty());
        tombstones
    }

    /// How many subjects are remembered.
    pub fn len(&self) -> (n: usize)
        ensures
            n == self@.len(),
    {
        self.order.len()
    }

    /// Whether `subject` is remembered.
    pub fn contains(&self, subject: &str) -> (found: bool)
        ensures
            found == self@.contains(subject@),
    {
        let n: usize = self.order.len();
        for i in 0..n
            invariant
                n == self.order@.len(),
                forall|j: int| 0 <= j < i ==> #[trigger] self@[j] != subject@,
        {
            assert(self@[i as int] == self.order@[i as int]@);
            if same_text(self.order[i].as_str(), subject) {
                return true;
            }
        }
        false
    }

    /// Remembers `subject`.
    pub fn insert(&mut self, subject: String)
        requires
            old(self).wf(),
        ensures
            final(self).wf(),
            final(self)@ == remembered(old(self)@, subject@),
    {
        if self.contains(subject.as_str()) {
            return;
        }
        let ghost before = self@;
        let ghost text = subject@;
        self.order.push(subject);
        assert(self@ =~= before.push(text));
        assert(self@.no_duplicates()) by {
            assert forall|i: int, j: int|
                0 <= i < self@.len() && 0 <= j < self@.len() && i != j implies self@[i]
                != self@[j] by {
                if i == before.len() {
                    assert(before.contains(before[j]));
                }
                if j == before.len() {
                    assert(before.contains(before[i]));
                }
            }
        }
        while self.order.len() > MAX_TOMBSTONES
            invariant
                self@.no_duplicates(),
                self@.len() <= MAX_TOMBSTONES + 1,
                before.len() <= MAX_TOMBSTONES,
                self@ == before.push(text) || (before.len() == MAX_TOMBSTONES && self@
                    == before.push(text).skip(1)),
            decreases self.order@.len(),
        {
            let ghost full = self@;
            self.order.remove(0);
            assert(self@ =~= full.skip(1));
        }
    }
}

/// What was just remembered is remembered.
pub proof fn law_remembering_remembers(subjects: Seq<Seq<char>>, subject: Seq<char>)
    ensures
        remembered(subjects, subject).contains(subject),
{
    let all = subjects.push(subject);
    if !subjects.contains(subject) {
        let kept = remembered(subjects, subject);
        assert(kept[kept.len() - 1] == subject);
    }
}

/// At the limit a new subject drives out the oldest and no other.
pub proof fn law_the_oldest_is_forgotten(subjects: Seq<Seq<char>>, subject: Seq<char>)
    requires
        subjects.no_duplicates(),
        subjects.len() == MAX_TOMBSTONES,
        !subjects.contains(subject),
    ensures
        remembered(subjects, subject).len() == MAX_TOMBSTONES,
        !remembered(subjects, subject).contains(subjects[0]),
        forall|i: int|
            0 < i < subjects.len() ==> remembered(subjects, subject).contains(
                #[trigger] subjects[i],
            ),
{
    let kept = remembered(subjects, subject);
    assert(kept =~= subjects.skip(1).push(subject));
    assert forall|i: int| 0 <= i < kept.len() implies kept[i] != subjects[0] by {
        if i == MAX_TOMBSTONES - 1 {
            assert(subjects.contains(subjects[0]));
        }
    }
    assert forall|i: int| 0 < i < subjects.len() implies kept.contains(#[trigger] subjects[i]) by {
        assert(kept[i - 1] == subjects[i]);
    }
}

/// A subject that is remembered already changes nothing. A new one comes behind all others, which
/// keep their order; where 1024 were remembered, the oldest goes.
pub proof fn law_subjects_are_remembered_in_order(subjects: Seq<Seq<char>>, subject: Seq<char>)
    requires
        subjects.len() <= 1024,
    ensures
        subjects.contains(subject) ==> remembered(subjects, subject) == subjects,
        !subjects.contains(subject) && subjects.len() < 1024 ==> remembered(subjects, subject)
            == subjects + seq![subject],
        !subjects.contains(subject) && subjects.len() == 1024 ==> remembered(subjects, subject)
            == subjects.skip(1) + seq![subject],
        remembered(subjects, subject).len() <= 1024,
{
    if !subjects.contains(subject) {
        if subjects.len() < 1024 {
            assert(subjects.push(subject) =~= subjects + seq![subject]);
        } else {
            assert(subjects.push(subject).skip(1) =~= subjects.skip(1) + seq![subject]);
        }
    }
}

} // verus!
