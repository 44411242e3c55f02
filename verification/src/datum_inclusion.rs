//! Which account datums are recorded, by owning program.

use crate::pubkey::Pubkey;
use vstd::prelude::*;

verus! {

/// Whether a datum is taken before or after the transaction ran.
#[derive(Clone, Copy, Debug, PartialEq, Eq, Structural)]
pub enum PreOrPostDatum {
    PreDatum,
    PostDatum,
}

/// Which datums of one program's accounts are recorded.
#[derive(Debug)]
pub struct DatumInclusion {
    /// Whether datums from before the transaction are recorded.
    pub pre: bool,
    /// Whether datums from after the transaction are recorded.
    pub post: bool,
    /// Datums of these lengths are not recorded.
    pub length_exclusions: Vec<usize>,
}

/// The model of a [`DatumInclusion`].
#[verifier::ext_equal]
pub struct DatumInclusionView {
    pub pre: bool,
    pub post: bool,
    pub length_exclusions: Seq<usize>,
}

impl DatumInclusionView {
    /// A datum of `length` bytes from this side of the transaction is recorded.
    pub open spec fn includes(self, pre_or_post: PreOrPostDatum, length: nat) -> bool {
        &&& match pre_or_post {
            PreOrPostDatum::PreDatum => self.pre,
            PreOrPostDatum::PostDatum => self.post,
        }
        &&& forall|i: int|
            0 <= i < self.length_exclusions.len() ==> self.length_exclusions[i] != length
    }
}

impl DeepView for DatumInclusion {
    type V = DatumInclusionView;

    open spec fn deep_view(&self) -> DatumInclusionView {
        DatumInclusionView {
            pre: self.pre,
            post: self.post,
            length_exclusions: self.length_exclusions@,
        }
    }
}

impl Clone for DatumInclusion {
    fn clone(&self) -> (copy: Self)
        ensures
            copy.deep_view() == self.deep_view(),
    {
        let length_exclusions = self.length_exclusions.clone();
        assert(length_exclusions@ =~= self.length_exclusions@);
        DatumInclusion { pre: self.pre, post: self.post, length_exclusions }
    }
}

impl Default for DatumInclusion {
    /// Records nothing.
    fn default() -> (inclusion: Self)
        ensures
            inclusion.deep_view() == (DatumInclusionView {
                pre: false,
                post: false,
                length_exclusions: Seq::empty(),
            }),
    {
        DatumInclusion { pre: false, post: false, length_exclusions: Vec::new() }
    }
}

impl DatumInclusion {
    /// Whether a datum is recorded: its side of the transaction is, and its length is not
    /// excluded.
    pub fn can_include_datum(&self, pre_or_post: &PreOrPostDatum, data: &[u8]) -> (included: bool)
        ensures
            included == self.deep_view().includes(*pre_or_post, data@.len()),
    {
        let allow_pre_post = match pre_or_post {
            PreOrPostDatum::PreDatum => self.pre,
            PreOrPostDatum::PostDatum => self.post,
        };
        if !allow_pre_post {
            return false;
        }
        let length: usize = data.len();
        let mut i: usize = 0;
        while i < self.length_exclusions.len()
            invariant
                i <= self.length_exclusions.len(),
                length == data@.len(),
                forall|j: int| 0 <= j < i ==> self.length_exclusions@[j] != length,
            decreases self.length_exclusions.len() - i,
        {
            if self.length_exclusions[i] == length {
                assert(self.deep_view().length_exclusions[i as int] == length);
                return false;
            }
            i = i + 1;
        }
        true
    }
}

/// The datum inclusions of the programs that have one. No program occurs twice.
#[derive(Debug)]
pub struct ProgramDatumInclusions {
    entries: Vec<(Pubkey, DatumInclusion)>,
}

impl View for ProgramDatumInclusions {
    type V = Map<Seq<u8>, DatumInclusionView>;

    closed spec fn view(&self) -> Map<Seq<u8>, DatumInclusionView> {
        entries_map(self.entries.deep_view())
    }
}

/// The map with the given entries, a later one in place of an earlier one with the same key.
spec fn entries_map(entries: Seq<(Seq<u8>, DatumInclusionView)>) -> Map<
    Seq<u8>,
    DatumInclusionView,
>
    decreases entries.len(),
{
    if entries.len() == 0 {
        Map::empty()
    } else {
        entries_map(entries.drop_last()).insert(entries.last().0, entries.last().1)
    }
}

spec fn distinct_keys(entries: Seq<(Seq<u8>, DatumInclusionView)>) -> bool {
    forall|i: int, j: int| 0 <= i < j < entries.len() ==> entries[i].0 != entries[j].0
}

/// Each entry of a list without repeated keys is in its map, and nothing else is.
proof fn lemma_entries_map(entries: Seq<(Seq<u8>, DatumInclusionView)>)
    requires
        distinct_keys(entries),
    ensures
        forall|i: int|
            0 <= i < entries.len() ==> entries_map(entries).contains_key(#[trigger] entries[i].0)
                && entries_map(entries)[entries[i].0] == entries[i].1,
        forall|key: Seq<u8>| #[trigger]
            entries_map(entries).contains_key(key) ==> exists|i: int|
                0 <= i < entries.len() && #[trigger] entries[i].0 == key,
    decreases entries.len(),
{
    if entries.len() > 0 {
        let rest = entries.drop_last();
        lemma_entries_map(rest);
        assert forall|i: int| 0 <= i < entries.len() implies entries_map(entries).contains_key(
            #[trigger] entries[i].0,
        ) && entries_map(entries)[entries[i].0] == entries[i].1 by {
            if i < rest.len() {
                assert(rest[i] == entries[i]);
            }
        }
        assert forall|key: Seq<u8>| #[trigger]
            entries_map(entries).contains_key(key) implies exists|i: int|
            0 <= i < entries.len() && #[trigger] entries[i].0 == key by {
            if key == entries.last().0 {
                assert(entries[entries.len() - 1].0 == key);
            } else {
                assert(entries_map(rest).contains_key(key));
                let i = choose|i: int| 0 <= i < rest.len() && #[trigger] rest[i].0 == key;
                assert(entries[i].0 == key);
            }
        }
    }
}

/// Replacing the value of one entry replaces its value in the map.
proof fn lemma_entries_map_update(
    entries: Seq<(Seq<u8>, DatumInclusionView)>,
    at: int,
    value: DatumInclusionView,
)
    requires
        distinct_keys(entries),
        0 <= at < entries.len(),
    ensures
        entries_map(entries.update(at, (entries[at].0, value))) == entries_map(entries).insert(
            entries[at].0,
            value,
        ),
    decreases entries.len(),
{
    let updated = entries.update(at, (entries[at].0, value));
    let rest = entries.drop_last();
    if at == entries.len() - 1 {
        assert(updated.drop_last() =~= rest);
    } else {
        lemma_entries_map_update(rest, at, value);
        assert(updated.drop_last() =~= rest.update(at, (rest[at].0, value)));
        assert(entries[at].0 != entries[entries.len() - 1].0);
    }
    assert(entries_map(updated) =~= entries_map(entries).insert(entries[at].0, value));
}

impl ProgramDatumInclusions {
    /// No program occurs twice.
    pub closed spec fn wf(&self) -> bool {
        distinct_keys(self.entries.deep_view())
    }

    /// No inclusions.
    pub fn new() -> (inclusions: Self)
        ensures
            inclusions.wf(),
            inclusions@ == Map::<Seq<u8>, DatumInclusionView>::empty(),
    {
        ProgramDatumInclusions { entries: Vec::new() }
    }

    /// The position of a program's entry, if it has one.
    fn position(&self, program: &Pubkey) -> (at: Option<usize>)
        ensures
            match at {
                Some(i) => i < self.entries.len() && self.entries[i as int].0@ == program@,
                None => forall|i: int|
                    0 <= i < self.entries.len() ==> (#[trigger] self.entries[i]).0@ != program@,
            },
    {
        let mut i: usize = 0;
        while i < self.entries.len()
            invariant
                i <= self.entries.len(),
                forall|j: int|
                    0 <= j < i ==> (#[trigger] self.entries[j]).0@ != program@,
            decreases self.entries.len() - i,
        {
            if self.entries[i].0 == *program {
                return Some(i);
            }
            i = i + 1;
        }
        None
    }

    /// Sets a program's inclusion, in place of the one that it had.
    pub fn insert(&mut self, program: Pubkey, inclusion: DatumInclusion)
        requires
            old(self).wf(),
        ensures
            final(self).wf(),
            final(self)@ == old(self)@.insert(program@, inclusion.deep_view()),
    {
        let ghost before = self.entries.deep_view();
        match self.position(&program) {
            Some(i) => {
                proof {
                    assert(before[i as int].0 == program@);
                    lemma_entries_map_update(before, i as int, inclusion.deep_view());
                }
                self.entries.set(i, (program, inclusion));
                assert(self.entries.deep_view() =~= before.update(
                    i as int,
                    (before[i as int].0, inclusion.deep_view()),
                ));
            },
            None => {
                assert forall|j: int| 0 <= j < before.len() implies before[j].0 != program@ by {
                    assert(self.entries[j].0@ != program@);
                }
                self.entries.push((program, inclusion));
                let ghost after = self.entries.deep_view();
                assert(after =~= before.push((program@, inclusion.deep_view())));
                assert(after.drop_last() =~= before);
            },
        }
    }

    /// A program's inclusion, if it has one.
    pub fn get(&self, program: &Pubkey) -> (inclusion: Option<&DatumInclusion>)
        requires
            self.wf(),
        ensures
            match inclusion {
                Some(found) => self@.contains_key(program@) && self@[program@]
                    == found.deep_view(),
                None => !self@.contains_key(program@),
            },
    {
        let ghost entries = self.entries.deep_view();
        proof {
            lemma_entries_map(entries);
        }
        match self.position(program) {
            Some(i) => {
                assert(entries[i as int].0 == program@);
                Some(&self.entries[i].1)
            },
            None => {
                assert forall|j: int| 0 <= j < entries.len() implies #[trigger] entries[j].0
                    != program@ by {
                    assert(self.entries[j].0@ != program@);
                }
                None
            },
        }
    }
}

/// The model of an inclusion is all that stands in it.
pub proof fn inclusion_models_are_faithful(inclusion: DatumInclusion)
    ensures
        inclusion.deep_view().pre == inclusion.pre,
        inclusion.deep_view().post == inclusion.post,
        inclusion.deep_view().length_exclusions == inclusion.length_exclusions@,
{
}

/// A datum is taken exactly where its side is recorded and its length is not an excluded one,
/// whatever else it is.
pub proof fn datums_are_taken_by_side_and_length(inclusion: DatumInclusionView, length: nat)
    ensures
        inclusion.includes(PreOrPostDatum::PreDatum, length) <==> inclusion.pre && !(exists|i: int|
            0 <= i < inclusion.length_exclusions.len() && #[trigger] inclusion.length_exclusions[i]
                == length),
        inclusion.includes(PreOrPostDatum::PostDatum, length) <==> inclusion.post && !(exists|
            i: int,
        |
            0 <= i < inclusion.length_exclusions.len() && #[trigger] inclusion.length_exclusions[i]
                == length),
{
}

} // verus!
