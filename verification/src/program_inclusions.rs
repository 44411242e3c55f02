//! Datum inclusions as they stand in configuration files.

use crate::datum_inclusion::DatumInclusionView;
use crate::pubkey::{base58_pubkey, Pubkey};
use vstd::prelude::*;

pub use crate::datum_inclusion::{DatumInclusion, PreOrPostDatum, ProgramDatumInclusions};

verus! {

/// The inclusions of one configuration file, each with the base58 text of its program's key.
pub type InclusionsFromConfig = Vec<(String, DatumInclusion)>;

/// The model of [`InclusionsFromConfig`].
pub type InclusionsFromConfigView = Seq<(Seq<char>, DatumInclusionView)>;

/// The first text, in the file and the entry with these positions, that stands for no key.
#[derive(Clone, Copy, Debug, PartialEq, Eq, Structural)]
pub struct BadPubkey {
    pub file: usize,
    pub entry: usize,
}

/// Every text stands for a key.
pub open spec fn all_keys_valid(entries: InclusionsFromConfigView) -> bool {
    forall|i: int| 0 <= i < entries.len() ==> base58_pubkey(#[trigger] entries[i].0) is Some
}

/// The entry at `at` is the first whose text stands for no key.
pub open spec fn first_invalid(entries: InclusionsFromConfigView, at: int) -> bool {
    &&& 0 <= at < entries.len()
    &&& base58_pubkey(entries[at].0) is None
    &&& forall|i: int| 0 <= i < at ==> base58_pubkey(#[trigger] entries[i].0) is Some
}

/// No text occurs twice.
pub open spec fn distinct_texts(entries: InclusionsFromConfigView) -> bool {
    forall|i: int, j: int| 0 <= i < j < entries.len() ==> entries[i].0 != entries[j].0
}

/// No two entries are for the same program.
pub open spec fn distinct_programs(entries: InclusionsFromConfigView) -> bool {
    forall|i: int, j: int|
        0 <= i < j < entries.len() ==> base58_pubkey(#[trigger] entries[i].0) != base58_pubkey(
            #[trigger] entries[j].0,
        )
}

/// `inclusions` with the given entries set, one after the other.
pub open spec fn merged(
    inclusions: Map<Seq<u8>, DatumInclusionView>,
    entries: InclusionsFromConfigView,
) -> Map<Seq<u8>, DatumInclusionView>
    decreases entries.len(),
{
    if entries.len() == 0 {
        inclusions
    } else {
        merged(inclusions, entries.drop_last()).insert(
            base58_pubkey(entries.last().0)->0,
            entries.last().1,
        )
    }
}

/// Sets the inclusions of one file. Fails at the first text that stands for no key, with its
/// position; the inclusions before it are set then.
///
/// Where no text occurs twice, no two entries are for the same program, so that it does not
/// matter in which order they come (see [`order_of_entries_does_not_matter`]).
pub fn merge_inclusions(
    inclusions: &mut ProgramDatumInclusions,
    entries: &InclusionsFromConfig,
) -> (result: Result<(), usize>)
    requires
        old(inclusions).wf(),
    ensures
        final(inclusions).wf(),
        match result {
            Ok(()) => {
                &&& all_keys_valid(entries.deep_view())
                &&& final(inclusions)@ == merged(old(inclusions)@, entries.deep_view())
                &&& distinct_texts(entries.deep_view()) ==> distinct_programs(entries.deep_view())
            },
            Err(bad) => {
                &&& first_invalid(entries.deep_view(), bad as int)
                &&& final(inclusions)@ == merged(
                    old(inclusions)@,
                    entries.deep_view().take(bad as int),
                )
            },
        },
{
    let ghost before = inclusions@;
    let ghost all = entries.deep_view();
    let mut i: usize = 0;
    assert(all.take(0) =~= Seq::empty());
    while i < entries.len()
        invariant
            i <= entries.len(),
            before == old(inclusions)@,
            all == entries.deep_view(),
            inclusions.wf(),
            all_keys_valid(all.take(i as int)),
            inclusions@ == merged(before, all.take(i as int)),
            distinct_texts(all) ==> distinct_programs(all.take(i as int)),
        decreases entries.len() - i,
    {
        assert(all[i as int] == (entries[i as int].0@, entries[i as int].1.deep_view()));
        let parsed = Pubkey::from_base58(entries[i].0.as_str());
        assert(parsed.deep_view() == base58_pubkey(all[i as int].0));
        let program = match parsed {
            Some(program) => program,
            None => {
                assert forall|j: int| 0 <= j < i implies base58_pubkey(
                    #[trigger] all[j].0,
                ) is Some by {
                    assert(base58_pubkey(all.take(i as int)[j].0) is Some);
                }
                return Err(i);
            },
        };
        inclusions.insert(program, entries[i].1.clone());
        proof {
            let longer = all.take(i + 1);
            assert(longer.drop_last() =~= all.take(i as int));
            assert forall|j: int| 0 <= j < longer.len() implies base58_pubkey(
                #[trigger] longer[j].0,
            ) is Some by {
                if j < i {
                    assert(longer[j] == all.take(i as int)[j]);
                }
            }
            if distinct_texts(all) {
                assert forall|j: int, k: int| 0 <= j < k < longer.len() implies base58_pubkey(
                    #[trigger] longer[j].0,
                ) != base58_pubkey(#[trigger] longer[k].0) by {
                    assert(longer[j] == all.take(i as int)[j]);
                    if k < i {
                        assert(longer[k] == all.take(i as int)[k]);
                    } else {
                        assert(all[j].0 != all[k].0);
                        assert(base58_pubkey(all[j].0) != Some(program@));
                    }
                }
            }
        }
        i = i + 1;
    }
    assert(all.take(i as int) =~= all);
    Ok(())
}

/// `read` can be asked for any path.
pub open spec fn reads_any_path<P, F: Fn(&P) -> Option<InclusionsFromConfig>>(read: &F) -> bool {
    forall|path: &P| #[trigger] call_requires(read, (path,))
}

/// `file` is what `read` may answer when it is asked for `path`: the inclusions of the file, or
/// nothing where it cannot be read or understood.
pub open spec fn reads_as<P, F: Fn(&P) -> Option<InclusionsFromConfig>>(
    read: &F,
    path: P,
    file: Option<InclusionsFromConfigView>,
) -> bool {
    exists|answer: Option<InclusionsFromConfig>| #[trigger]
        call_ensures(read, (&path,), answer) && answer.deep_view() == file
}

/// A path that was asked for, and the answer.
pub struct ConfigRead<P> {
    pub path: P,
    pub file: Option<InclusionsFromConfigView>,
}

/// Reads configuration files through a function. It keeps account of what the function was asked,
/// which only [`ConfigReader::read_file`] does.
pub struct ConfigReader<P, F> {
    read: F,
    asked: Ghost<Seq<ConfigRead<P>>>,
}

impl<P, F: Fn(&P) -> Option<InclusionsFromConfig>> ConfigReader<P, F> {
    /// The function that files are read through.
    pub closed spec fn function(&self) -> F {
        self.read
    }

    /// What the function was asked, in order, and what it answered.
    pub closed spec fn asked(&self) -> Seq<ConfigRead<P>> {
        self.asked@
    }

    /// The function can be asked for any path, and what it was asked it has answered.
    pub open spec fn wf(&self) -> bool {
        &&& reads_any_path(&self.function())
        &&& forall|i: int|
            0 <= i < self.asked().len() ==> reads_as(
                &self.function(),
                (#[trigger] self.asked()[i]).path,
                self.asked()[i].file,
            )
    }

    /// `earlier` became this one by asking the same function for more.
    pub open spec fn continues(&self, earlier: &Self) -> bool {
        &&& self.wf()
        &&& self.function() == earlier.function()
        &&& earlier.asked().is_prefix_of(self.asked())
    }

    /// What was asked since `earlier`.
    pub open spec fn asked_since(&self, earlier: &Self) -> Seq<ConfigRead<P>> {
        self.asked().skip(earlier.asked().len() as int)
    }

    /// A reader that has not been asked for anything.
    pub fn new(read: F) -> (reader: Self)
        requires
            reads_any_path(&read),
        ensures
            reader.wf(),
            reader.function() == read,
            reader.asked() == Seq::<ConfigRead<P>>::empty(),
    {
        ConfigReader { read, asked: Ghost(Seq::empty()) }
    }

    /// Asks for one path, once.
    pub fn read_file(&mut self, path: &P) -> (file: Option<InclusionsFromConfig>)
        requires
            old(self).wf(),
        ensures
            final(self).wf(),
            final(self).function() == old(self).function(),
            final(self).asked() == old(self).asked().push(
                ConfigRead { path: *path, file: file.deep_view() },
            ),
    {
        let read = &self.read;
        let file = read(path);
        assert(reads_as(&self.read, *path, file.deep_view()));
        self.asked = Ghost(self.asked@.push(ConfigRead { path: *path, file: file.deep_view() }));
        file
    }
}

/// What the files were read as.
pub open spec fn files_of<P>(asked: Seq<ConfigRead<P>>) -> Seq<Option<InclusionsFromConfigView>> {
    asked.map_values(|read: ConfigRead<P>| read.file)
}

/// `asked` is for the first paths, each once and in order.
pub open spec fn asked_in_order<P>(asked: Seq<ConfigRead<P>>, paths: Seq<P>) -> bool {
    &&& asked.len() <= paths.len()
    &&& forall|i: int| 0 <= i < asked.len() ==> (#[trigger] asked[i]).path == paths[i]
}

/// In a file in which no text occurs twice, no two entries are for the same program.
pub open spec fn file_keys_distinct(file: Option<InclusionsFromConfigView>) -> bool {
    file matches Some(entries) ==> distinct_texts(entries) ==> distinct_programs(entries)
}

/// Every text of a file that was read stands for a key.
pub open spec fn file_valid(file: Option<InclusionsFromConfigView>) -> bool {
    file matches Some(entries) ==> all_keys_valid(entries)
}

/// The inclusions of the given files: those of each that was read are set, one file after the
/// other; the rest are skipped.
pub open spec fn inclusions_of_files(files: Seq<Option<InclusionsFromConfigView>>) -> Map<
    Seq<u8>,
    DatumInclusionView,
>
    decreases files.len(),
{
    if files.len() == 0 {
        Map::empty()
    } else {
        let earlier = inclusions_of_files(files.drop_last());
        match files.last() {
            Some(entries) => merged(earlier, entries),
            None => earlier,
        }
    }
}

/// The inclusions in the configuration files at the given paths, each of which is read in turn.
/// A file that cannot be read or understood is skipped. Fails at the first text that stands for
/// no key; the files behind it are not read.
pub fn load_datum_program_inclusions<P, F: Fn(&P) -> Option<InclusionsFromConfig>>(
    paths: &Option<Vec<P>>,
    reader: &mut ConfigReader<P, F>,
) -> (result: Result<ProgramDatumInclusions, BadPubkey>)
    requires
        old(reader).wf(),
    ensures
        final(reader).continues(old(reader)),
        match (paths, result) {
            (None, Ok(inclusions)) => {
                &&& final(reader).asked() == old(reader).asked()
                &&& inclusions.wf()
                &&& inclusions@ == Map::<Seq<u8>, DatumInclusionView>::empty()
            },
            (None, Err(_)) => false,
            (Some(paths), Ok(inclusions)) => {
                let asked = final(reader).asked_since(old(reader));
                &&& asked.len() == paths.len()
                &&& asked_in_order(asked, paths@)
                &&& forall|i: int| 0 <= i < asked.len() ==> file_valid((#[trigger] asked[i]).file)
                &&& forall|i: int|
                    0 <= i < asked.len() ==> file_keys_distinct((#[trigger] asked[i]).file)
                &&& inclusions.wf()
                &&& inclusions@ == inclusions_of_files(files_of(asked))
            },
            (Some(paths), Err(bad)) => {
                let asked = final(reader).asked_since(old(reader));
                &&& asked.len() == bad.file + 1
                &&& asked_in_order(asked, paths@)
                &&& forall|i: int| 0 <= i < bad.file ==> file_valid((#[trigger] asked[i]).file)
                &&& asked[bad.file as int].file matches Some(entries) && first_invalid(
                    entries,
                    bad.entry as int,
                )
            },
        },
{
    let mut inclusions = ProgramDatumInclusions::new();
    let ghost start = reader.asked();
    assert(reader.asked().subrange(0, start.len() as int) =~= start);
    if let Some(listed) = paths {
        let ghost mut asked: Seq<ConfigRead<P>> = Seq::empty();
        let mut file: usize = 0;
        assert(start + asked =~= start);
        assert(files_of(asked) =~= Seq::empty());
        while file < listed.len()
            invariant
                file <= listed.len(),
                paths matches Some(p) && p == listed,
                reader.wf(),
                reader.function() == old(reader).function(),
                start == old(reader).asked(),
                reader.asked() == start + asked,
                inclusions.wf(),
                asked.len() == file,
                asked_in_order(asked, listed@),
                forall|i: int| 0 <= i < asked.len() ==> file_valid((#[trigger] asked[i]).file),
                forall|i: int|
                    0 <= i < asked.len() ==> file_keys_distinct((#[trigger] asked[i]).file),
                inclusions@ == inclusions_of_files(files_of(asked)),
            decreases listed.len() - file,
        {
            let answer = reader.read_file(&listed[file]);
            let ghost next = ConfigRead { path: listed@[file as int], file: answer.deep_view() };
            let ghost longer = asked.push(next);
            proof {
                assert(reader.asked() =~= start + longer);
                assert(reader.asked().subrange(0, start.len() as int) =~= start);
                assert(reader.asked_since(old(reader)) =~= longer);
                assert(files_of(longer).drop_last() =~= files_of(asked));
            }
            if let Some(entries) = answer {
                match merge_inclusions(&mut inclusions, &entries) {
                    Ok(()) => {},
                    Err(entry) => {
                        return Err(BadPubkey { file, entry });
                    },
                }
            }
            proof {
                asked = longer;
            }
            file = file + 1;
        }
        assert(reader.asked().subrange(0, start.len() as int) =~= start);
        assert(reader.asked_since(old(reader)) =~= asked);
    }
    Ok(inclusions)
}

/// The entry at `at` is the last one for the key `program`.
pub open spec fn last_entry_for(
    entries: InclusionsFromConfigView,
    program: Seq<u8>,
    at: int,
) -> bool {
    &&& 0 <= at < entries.len()
    &&& base58_pubkey(entries[at].0) == Some(program)
    &&& forall|i: int|
        at < i < entries.len() ==> base58_pubkey(#[trigger] entries[i].0) != Some(program)
}

/// A program for which there are entries has the inclusion of the last of them.
pub proof fn last_entry_wins(
    inclusions: Map<Seq<u8>, DatumInclusionView>,
    entries: InclusionsFromConfigView,
    program: Seq<u8>,
    at: int,
)
    requires
        all_keys_valid(entries),
        last_entry_for(entries, program, at),
    ensures
        merged(inclusions, entries).contains_pair(program, entries[at].1),
    decreases entries.len(),
{
    let earlier = entries.drop_last();
    assert(all_keys_valid(earlier)) by {
        assert forall|i: int| 0 <= i < earlier.len() implies base58_pubkey(
            #[trigger] earlier[i].0,
        ) is Some by {
            assert(earlier[i] == entries[i]);
        }
    }
    if at < earlier.len() {
        assert(base58_pubkey(entries[entries.len() - 1].0) is Some);
        assert(base58_pubkey(entries[entries.len() - 1].0) != Some(program));
        assert forall|i: int| at < i < earlier.len() implies base58_pubkey(
            #[trigger] earlier[i].0,
        ) != Some(program) by {
            assert(earlier[i] == entries[i]);
        }
        last_entry_wins(inclusions, earlier, program, at);
    }
}

/// A program for which there is no entry keeps the inclusion that it had, or has none still.
pub proof fn other_programs_are_untouched(
    inclusions: Map<Seq<u8>, DatumInclusionView>,
    entries: InclusionsFromConfigView,
    program: Seq<u8>,
)
    requires
        all_keys_valid(entries),
        forall|i: int|
            0 <= i < entries.len() ==> base58_pubkey(#[trigger] entries[i].0) != Some(program),
    ensures
        merged(inclusions, entries).contains_key(program) == inclusions.contains_key(program),
        inclusions.contains_key(program) ==> merged(inclusions, entries)[program]
            == inclusions[program],
    decreases entries.len(),
{
    if entries.len() > 0 {
        let earlier = entries.drop_last();
        assert forall|i: int| 0 <= i < earlier.len() implies base58_pubkey(
            #[trigger] earlier[i].0,
        ) is Some && base58_pubkey(earlier[i].0) != Some(program) by {
            assert(earlier[i] == entries[i]);
        }
        assert(base58_pubkey(entries[entries.len() - 1].0) is Some);
        assert(base58_pubkey(entries[entries.len() - 1].0) != Some(program));
        other_programs_are_untouched(inclusions, earlier, program);
    }
}

/// The entries of a file may come in any order, where no two are for the same program.
pub proof fn order_of_entries_does_not_matter(
    inclusions: Map<Seq<u8>, DatumInclusionView>,
    entries: InclusionsFromConfigView,
    reordered: InclusionsFromConfigView,
)
    requires
        all_keys_valid(entries),
        distinct_programs(entries),
        distinct_programs(reordered),
        entries.to_set() == reordered.to_set(),
    ensures
        merged(inclusions, entries) == merged(inclusions, reordered),
{
    assert forall|i: int| 0 <= i < reordered.len() implies base58_pubkey(
        #[trigger] reordered[i].0,
    ) is Some by {
        assert(reordered.to_set().contains(reordered[i]));
        assert(entries.contains(reordered[i]));
        let at = choose|at: int| 0 <= at < entries.len() && entries[at] == reordered[i];
        assert(base58_pubkey(entries[at].0) is Some);
    }
    let left = merged(inclusions, entries);
    let right = merged(inclusions, reordered);
    assert forall|program: Seq<u8>|
        #![trigger left.contains_key(program)]
        #![trigger right.contains_key(program)]
        left.contains_key(program) == right.contains_key(program) && (left.contains_key(program)
            ==> left[program] == right[program]) by {
        if exists|i: int|
            0 <= i < entries.len() && base58_pubkey(#[trigger] entries[i].0) == Some(program) {
            let at = choose|i: int|
                0 <= i < entries.len() && base58_pubkey(#[trigger] entries[i].0) == Some(program);
            assert(entries.to_set().contains(entries[at]));
            assert(reordered.contains(entries[at]));
            let other = choose|other: int|
                0 <= other < reordered.len() && reordered[other] == entries[at];
            assert(last_entry_for(entries, program, at));
            assert(last_entry_for(reordered, program, other));
            last_entry_wins(inclusions, entries, program, at);
            last_entry_wins(inclusions, reordered, program, other);
        } else {
            assert forall|i: int| 0 <= i < reordered.len() implies base58_pubkey(
                #[trigger] reordered[i].0,
            ) != Some(program) by {
                assert(reordered.to_set().contains(reordered[i]));
                assert(entries.contains(reordered[i]));
                let at = choose|at: int| 0 <= at < entries.len() && entries[at] == reordered[i];
                assert(base58_pubkey(entries[at].0) != Some(program));
            }
            other_programs_are_untouched(inclusions, entries, program);
            other_programs_are_untouched(inclusions, reordered, program);
        }
    }
    assert(left =~= right);
}

/// A program for which the last file has entries has the inclusion of the last of them; one for
/// which it has none keeps that of the earlier files.
pub proof fn later_files_win(
    earlier: Seq<Option<InclusionsFromConfigView>>,
    entries: InclusionsFromConfigView,
    program: Seq<u8>,
)
    requires
        all_keys_valid(entries),
    ensures
        forall|at: int| #[trigger]
            last_entry_for(entries, program, at) ==> inclusions_of_files(
                earlier.push(Some(entries)),
            ).contains_pair(program, entries[at].1),
        (forall|at: int|
            0 <= at < entries.len() ==> base58_pubkey(#[trigger] entries[at].0) != Some(program))
            ==> {
            let all = inclusions_of_files(earlier.push(Some(entries)));
            let before = inclusions_of_files(earlier);
            &&& all.contains_key(program) == before.contains_key(program)
            &&& before.contains_key(program) ==> all[program] == before[program]
        },
{
    let before = inclusions_of_files(earlier);
    assert(earlier.push(Some(entries)).drop_last() =~= earlier);
    assert forall|at: int| #[trigger] last_entry_for(
        entries,
        program,
        at,
    ) implies inclusions_of_files(earlier.push(Some(entries))).contains_pair(
        program,
        entries[at].1,
    ) by {
        last_entry_wins(before, entries, program, at);
    }
    if forall|at: int|
        0 <= at < entries.len() ==> base58_pubkey(#[trigger] entries[at].0) != Some(program) {
        other_programs_are_untouched(before, entries, program);
    }
}

/// A file that cannot be read or understood changes nothing, wherever it stands in the list.
pub proof fn skipped_file_changes_nothing(
    before: Seq<Option<InclusionsFromConfigView>>,
    behind: Seq<Option<InclusionsFromConfigView>>,
)
    ensures
        inclusions_of_files(before.push(None) + behind) == inclusions_of_files(before + behind),
    decreases behind.len(),
{
    if behind.len() == 0 {
        assert(before.push(None) + behind =~= before.push(None));
        assert(before + behind =~= before);
        assert(before.push(None::<InclusionsFromConfigView>).drop_last() =~= before);
    } else {
        skipped_file_changes_nothing(before, behind.drop_last());
        assert((before.push(None) + behind).drop_last() =~= before.push(None) + behind.drop_last());
        assert((before + behind).drop_last() =~= before + behind.drop_last());
    }
}

/// Entry `entry` of file `file` is for `program`.
pub open spec fn names_program<P>(
    asked: Seq<ConfigRead<P>>,
    file: int,
    entry: int,
    program: Seq<u8>,
) -> bool {
    &&& 0 <= file < asked.len()
    &&& asked[file].file is Some
    &&& 0 <= entry < asked[file].file->0.len()
    &&& base58_pubkey(asked[file].file->0[entry].0) == Some(program)
}

/// Each text of each file that was read stands for a key.
pub open spec fn texts_are_keys<P>(asked: Seq<ConfigRead<P>>) -> bool {
    forall|file: int, entry: int|
        0 <= file < asked.len() && asked[file].file is Some && 0 <= entry
            < asked[file].file->0.len() ==> base58_pubkey(
            #[trigger] asked[file].file->0[entry].0,
        ) is Some
}

proof fn lemma_files_push<P>(asked: Seq<ConfigRead<P>>)
    requires
        asked.len() > 0,
    ensures
        inclusions_of_files(files_of(asked)) == match asked.last().file {
            Some(entries) => merged(inclusions_of_files(files_of(asked.drop_last())), entries),
            None => inclusions_of_files(files_of(asked.drop_last())),
        },
{
    assert(files_of(asked).drop_last() =~= files_of(asked.drop_last()));
}

proof fn lemma_texts_are_keys_earlier<P>(asked: Seq<ConfigRead<P>>)
    requires
        asked.len() > 0,
        texts_are_keys(asked),
    ensures
        texts_are_keys(asked.drop_last()),
        asked.last().file matches Some(entries) ==> all_keys_valid(entries),
{
    let earlier = asked.drop_last();
    assert forall|file: int, entry: int|
        0 <= file < earlier.len() && earlier[file].file is Some && 0 <= entry
            < earlier[file].file->0.len() implies base58_pubkey(
        #[trigger] earlier[file].file->0[entry].0,
    ) is Some by {
        assert(earlier[file] == asked[file]);
        assert(base58_pubkey(asked[file].file->0[entry].0) is Some);
    }
    if let Some(entries) = asked.last().file {
        assert forall|i: int| 0 <= i < entries.len() implies base58_pubkey(
            #[trigger] entries[i].0,
        ) is Some by {
            assert(base58_pubkey(asked[asked.len() - 1].file->0[i].0) is Some);
        }
    }
}

/// Only a program that some file that was read names has an inclusion.
pub proof fn only_named_programs_have_an_inclusion<P>(
    asked: Seq<ConfigRead<P>>,
    program: Seq<u8>,
)
    requires
        texts_are_keys(asked),
        inclusions_of_files(files_of(asked)).contains_key(program),
    ensures
        exists|file: int, entry: int| names_program(asked, file, entry, program),
    decreases asked.len(),
{
    if asked.len() > 0 {
        let earlier = asked.drop_last();
        lemma_files_push(asked);
        lemma_texts_are_keys_earlier(asked);
        let before = inclusions_of_files(files_of(earlier));
        if before.contains_key(program) {
            only_named_programs_have_an_inclusion(earlier, program);
            let (file, entry) = choose|file: int, entry: int|
                names_program(earlier, file, entry, program);
            assert(earlier[file] == asked[file]);
            assert(names_program(asked, file, entry, program));
        } else {
            let entries = asked.last().file->0;
            if forall|i: int|
                0 <= i < entries.len() ==> base58_pubkey(#[trigger] entries[i].0) != Some(
                    program,
                ) {
                other_programs_are_untouched(before, entries, program);
                assert(false);
            }
            let entry = choose|i: int|
                0 <= i < entries.len() && base58_pubkey(#[trigger] entries[i].0) == Some(program);
            assert(names_program(asked, asked.len() - 1, entry, program));
        }
    } else {
        assert(files_of(asked).len() == 0);
    }
}

/// A program that some file names has the inclusion of the last entry for it, in the last file
/// that names it.
pub proof fn named_program_has_its_last_inclusion<P>(
    asked: Seq<ConfigRead<P>>,
    program: Seq<u8>,
    file: int,
    entry: int,
)
    requires
        texts_are_keys(asked),
        names_program(asked, file, entry, program),
        forall|other: int, later: int| #[trigger]
            names_program(asked, other, later, program) ==> other < file || (other == file && later
                <= entry),
    ensures
        inclusions_of_files(files_of(asked)).contains_key(program),
        inclusions_of_files(files_of(asked))[program] == asked[file].file->0[entry].1,
    decreases asked.len(),
{
    let earlier = asked.drop_last();
    lemma_files_push(asked);
    lemma_texts_are_keys_earlier(asked);
    let before = inclusions_of_files(files_of(earlier));
    let last = asked.len() - 1;
    if file == last {
        let entries = asked[last].file->0;
        assert forall|i: int| entry < i < entries.len() implies base58_pubkey(
            #[trigger] entries[i].0,
        ) != Some(program) by {
            if base58_pubkey(entries[i].0) == Some(program) {
                assert(names_program(asked, last, i, program));
            }
        }
        assert(last_entry_for(entries, program, entry));
        last_entry_wins(before, entries, program, entry);
    } else {
        assert(earlier[file] == asked[file]);
        assert(names_program(earlier, file, entry, program));
        assert forall|other: int, later: int| #[trigger]
            names_program(earlier, other, later, program) implies other < file || (other == file
            && later <= entry) by {
            assert(earlier[other] == asked[other]);
            assert(names_program(asked, other, later, program));
        }
        named_program_has_its_last_inclusion(earlier, program, file, entry);
        if let Some(entries) = asked[last].file {
            assert forall|i: int| 0 <= i < entries.len() implies base58_pubkey(
                #[trigger] entries[i].0,
            ) != Some(program) by {
                if base58_pubkey(entries[i].0) == Some(program) {
                    assert(names_program(asked, last, i, program));
                }
            }
            other_programs_are_untouched(before, entries, program);
        }
    }
}

/// Files without entries, or none at all, give no inclusions.
pub proof fn no_entries_give_no_inclusions<P>(asked: Seq<ConfigRead<P>>)
    requires
        forall|file: int|
            0 <= file < asked.len() ==> ((#[trigger] asked[file]).file matches Some(entries) ==>
                entries.len() == 0),
    ensures
        inclusions_of_files(files_of(asked)) == Map::<Seq<u8>, DatumInclusionView>::empty(),
{
    assert forall|program: Seq<u8>| !#[trigger] inclusions_of_files(files_of(asked)).contains_key(
        program,
    ) by {
        if inclusions_of_files(files_of(asked)).contains_key(program) {
            only_named_programs_have_an_inclusion(asked, program);
        }
    }
    assert(inclusions_of_files(files_of(asked)) =~= Map::empty());
}

/// Loading succeeds where each text of each file stands for a key, and the first text that stands
/// for none is what makes it fail.
pub proof fn bad_keys_are_texts_that_stand_for_none(entries: InclusionsFromConfigView, at: int)
    ensures
        file_valid(Some(entries)) <==> !(exists|i: int|
            0 <= i < entries.len() && base58_pubkey(#[trigger] entries[i].0) is None),
        all_keys_valid(entries) <==> file_valid(Some(entries)),
        file_valid(None),
        first_invalid(entries, at) <==> {
            &&& 0 <= at < entries.len()
            &&& base58_pubkey(entries[at].0) is None
            &&& !(exists|i: int|
                0 <= i < at && base58_pubkey(#[trigger] entries[i].0) is None)
        },
{
}

/// In a file that was loaded, two entries are for the same program only where their texts are the
/// same.
pub proof fn distinct_texts_are_distinct_programs(
    entries: InclusionsFromConfigView,
    i: int,
    j: int,
)
    requires
        file_keys_distinct(Some(entries)),
        forall|a: int, b: int|
            0 <= a < b < entries.len() ==> (#[trigger] entries[a]).0 != (#[trigger] entries[b]).0,
        0 <= i < j < entries.len(),
    ensures
        base58_pubkey(entries[i].0) != base58_pubkey(entries[j].0),
{
    assert(distinct_texts(entries));
}

/// Paths are asked for from the first on, each once, and the files are what was answered.
pub proof fn paths_are_asked_for_in_order<P>(asked: Seq<ConfigRead<P>>, paths: Seq<P>)
    ensures
        asked_in_order(asked, paths) <==> asked.len() <= paths.len() && (forall|i: int|
            0 <= i < asked.len() ==> (#[trigger] asked[i]).path == paths[i]),
        files_of(asked).len() == asked.len(),
        forall|i: int| 0 <= i < asked.len() ==> (#[trigger] files_of(asked)[i]) == asked[i].file,
{
}

/// Each answer that a reader got is one that its function gave when it was asked for that path,
/// unchanged, and what it was asked is what it had been asked earlier and what it was asked since.
pub proof fn files_are_those_of_the_function<P, F: Fn(&P) -> Option<InclusionsFromConfig>>(
    earlier: &ConfigReader<P, F>,
    reader: &ConfigReader<P, F>,
    i: int,
)
    requires
        reader.continues(earlier),
        0 <= i < reader.asked().len(),
    ensures
        reader.asked() == earlier.asked() + reader.asked_since(earlier),
        reader.function() == earlier.function(),
        exists|answer: Option<InclusionsFromConfig>| #[trigger]
            call_ensures(&reader.function(), (&reader.asked()[i].path,), answer) && match answer {
                Some(entries) => reader.asked()[i].file matches Some(file) && file.len()
                    == entries@.len() && (forall|k: int|
                    0 <= k < file.len() ==> (#[trigger] file[k]).0 == entries@[k].0@
                        && file[k].1.pre == entries@[k].1.pre && file[k].1.post
                        == entries@[k].1.post && file[k].1.length_exclusions
                        == entries@[k].1.length_exclusions@),
                None => reader.asked()[i].file is None,
            },
{
    assert(reader.asked() =~= earlier.asked() + reader.asked_since(earlier));
    let read = reader.asked()[i];
    assert(reads_as(&reader.function(), read.path, read.file));
    let answer = choose|answer: Option<InclusionsFromConfig>| #[trigger]
        call_ensures(&reader.function(), (&read.path,), answer) && answer.deep_view()
            == read.file;
    assert(call_ensures(&reader.function(), (&reader.asked()[i].path,), answer));
}

} // verus!
