//! The worklist: which source goes to which path inside the archive.

use vstd::prelude::*;
use vstd::string::*;
use crate::error::PackError;
use crate::search::{first_index, lemma_first_index, lemma_first_index_absent, lemma_first_index_unique};
use crate::token::{split_add, token_destination, token_source};

verus! {

/// One binding of the worklist: the file or directory `source` is to appear in
/// the archive under the path `destination`.
#[derive(Debug, Clone, PartialEq, Eq)]
pub struct WorklistEntry {
    pub source: String,
    pub destination: String,
}

/// What a `WorklistEntry` stands for.
pub ghost struct EntryView {
    pub source: Seq<char>,
    pub destination: Seq<char>,
}

impl View for WorklistEntry {
    type V = EntryView;

    open spec fn view(&self) -> EntryView {
        EntryView { source: self.source@, destination: self.destination@ }
    }
}

/// A `src=dst` token together with what the file system said of its source.
#[derive(Debug, Clone, PartialEq, Eq)]
pub struct AddRequest {
    pub token: String,
    pub source_exists: bool,
}

/// Path of the metadata file inside every archive.
pub open spec fn sfo_destination() -> Seq<char> {
    "sce_sys/param.sfo"@
}

/// Path of the executable inside every archive.
pub open spec fn eboot_destination() -> Seq<char> {
    "eboot.bin"@
}

/// The entries of a list, each by its view.
pub open spec fn worklist_view(list: Seq<WorklistEntry>) -> Seq<EntryView> {
    list.map_values(|e: WorklistEntry| e@)
}

/// The binding that a token asks for.
pub open spec fn token_entry(token: Seq<char>) -> EntryView {
    EntryView { source: token_source(token), destination: token_destination(token) }
}

/// The worklist that the inputs ask for: the metadata file, the executable,
/// then one entry for each request, in their order.
pub open spec fn planned_list(sfo: Seq<char>, eboot: Seq<char>, adds: Seq<AddRequest>) -> Seq<
    EntryView,
> {
    seq![
        EntryView { source: sfo, destination: sfo_destination() },
        EntryView { source: eboot, destination: eboot_destination() },
    ] + adds.map_values(|a: AddRequest| token_entry(a.token@))
}

/// Whether each source of the planned list exists, in the list's order.
pub open spec fn planned_exists(sfo_exists: bool, eboot_exists: bool, adds: Seq<AddRequest>) -> Seq<
    bool,
> {
    seq![sfo_exists, eboot_exists] + adds.map_values(|a: AddRequest| a.source_exists)
}

/// Every source that the inputs name exists.
pub open spec fn all_sources_exist(
    sfo_exists: bool,
    eboot_exists: bool,
    adds: Seq<AddRequest>,
) -> bool {
    &&& sfo_exists
    &&& eboot_exists
    &&& forall|i: int| 0 <= i < adds.len() ==> (#[trigger] adds[i]).source_exists
}

/// All sources exist exactly when no flag of `planned_exists` is false.
pub proof fn lemma_all_sources_exist(sfo_exists: bool, eboot_exists: bool, adds: Seq<AddRequest>)
    ensures
        all_sources_exist(sfo_exists, eboot_exists, adds) <==> first_index(
            planned_exists(sfo_exists, eboot_exists, adds),
            false,
        ) == adds.len() + 2,
{
    let flags = planned_exists(sfo_exists, eboot_exists, adds);
    lemma_first_index(flags, false);
    if all_sources_exist(sfo_exists, eboot_exists, adds) {
        assert forall|j: int| 0 <= j < flags.len() implies flags[j] != false by {
            if j >= 2 {
                assert(flags[j] == adds[j - 2].source_exists);
            }
        }
        lemma_first_index_absent(flags, false);
    } else if first_index(flags, false) == flags.len() {
        assert(flags[0] == sfo_exists);
        assert(flags[1] == eboot_exists);
        assert forall|i: int| 0 <= i < adds.len() implies (#[trigger] adds[i]).source_exists by {
            assert(flags[i + 2] == adds[i].source_exists);
        }
    }
}

/// What `check_file` answers for a path that does not exist.
pub open spec fn file_missing_text() -> Seq<char> {
    "File doesn't exist!"@
}

/// What `check_file` answers for a path that is no regular file.
pub open spec fn not_a_file_text() -> Seq<char> {
    "Given path is not a valid file!"@
}

/// Judges a path that must name a regular file, from what the file system
/// said of it.
pub fn check_file(exists: bool, is_file: bool) -> (r: Result<(), String>)
    ensures
        r is Ok <==> exists && is_file,
        !exists ==> r.is_err() && r.unwrap_err()@ == file_missing_text(),
        exists && !is_file ==> r.is_err() && r.unwrap_err()@ == not_a_file_text(),
{
    if !exists {
        Err(String::from_str("File doesn't exist!"))
    } else if !is_file {
        Err(String::from_str("Given path is not a valid file!"))
    } else {
        Ok(())
    }
}

/// Binds `source` to `destination`, provided that the source exists.
pub fn make_add_list(source: &str, destination: String, exists: bool) -> (r: Result<
    WorklistEntry,
    PackError,
>)
    ensures
        match r {
            Ok(entry) => exists && entry@ == (EntryView {
                source: source@,
                destination: destination@,
            }),
            Err(PackError::MissingInput { path }) => !exists && path@ == source@,
            Err(_) => false,
        },
{
    if !exists {
        return Err(PackError::MissingInput { path: String::from_str(source) });
    }
    Ok(WorklistEntry { source: String::from_str(source), destination })
}

/// Turns one `src=dst` token into an entry, provided that its source exists.
/// The token is split at its first `=`.
pub fn parse_add(token: &str, source_exists: bool) -> (r: Result<WorklistEntry, PackError>)
    requires
        token@.contains('='),
    ensures
        match r {
            Ok(entry) => source_exists && entry@ == token_entry(token@),
            Err(PackError::MissingInput { path }) => !source_exists && path@ == token_source(
                token@,
            ),
            Err(_) => false,
        },
{
    let (source, destination) = split_add(token);
    make_add_list(source.as_str(), destination, source_exists)
}

/// Every request's token holds a `=`.
pub open spec fn requests_well_formed(adds: Seq<AddRequest>) -> bool {
    forall|i: int| 0 <= i < adds.len() ==> (#[trigger] adds[i]).token@.contains('=')
}

/// Builds the worklist: the metadata file at `sce_sys/param.sfo`, the
/// executable at `eboot.bin`, then the requests in their order. The first
/// source that does not exist ends the build with `MissingInput`; no partial
/// list is returned.
pub fn build_list(
    sfo: &str,
    sfo_exists: bool,
    eboot: &str,
    eboot_exists: bool,
    adds: &Vec<AddRequest>,
) -> (r: Result<Vec<WorklistEntry>, PackError>)
    requires
        requests_well_formed(adds@),
    ensures
        r is Ok <==> all_sources_exist(sfo_exists, eboot_exists, adds@),
        ({
            let plan = planned_list(sfo@, eboot@, adds@);
            let flags = planned_exists(sfo_exists, eboot_exists, adds@);
            let k = first_index(flags, false);
            match r {
                Ok(list) => k == flags.len() && worklist_view(list@) == plan,
                Err(PackError::MissingInput { path }) => k < flags.len() && path@
                    == plan[k].source,
                Err(_) => false,
            }
        }),
{
    let ghost plan = planned_list(sfo@, eboot@, adds@);
    let ghost flags = planned_exists(sfo_exists, eboot_exists, adds@);
    proof {
        lemma_all_sources_exist(sfo_exists, eboot_exists, adds@);
    }
    let mut list: Vec<WorklistEntry> = Vec::new();
    match make_add_list(sfo, String::from_str("sce_sys/param.sfo"), sfo_exists) {
        Ok(entry) => list.push(entry),
        Err(e) => {
            proof {
                lemma_first_index_unique(flags, false, 0);
            }
            return Err(e);
        },
    }
    match make_add_list(eboot, String::from_str("eboot.bin"), eboot_exists) {
        Ok(entry) => list.push(entry),
        Err(e) => {
            proof {
                lemma_first_index_unique(flags, false, 1);
            }
            return Err(e);
        },
    }
    let n: usize = adds.len();
    let mut i: usize = 0;
    while i < n
        invariant
            n == adds@.len(),
            i <= n,
            requests_well_formed(adds@),
            plan == planned_list(sfo@, eboot@, adds@),
            flags == planned_exists(sfo_exists, eboot_exists, adds@),
            list@.len() == i + 2,
            worklist_view(list@) == plan.take(i + 2),
            forall|j: int| 0 <= j < i + 2 ==> flags[j],
        decreases n - i,
    {
        let request = &adds[i];
        match parse_add(request.token.as_str(), request.source_exists) {
            Ok(entry) => {
                proof {
                    assert(plan[i + 2] == token_entry(adds@[i as int].token@));
                    assert(flags[i + 2] == adds@[i as int].source_exists);
                    assert(worklist_view(list@.push(entry)) =~= plan.take(i + 3));
                }
                list.push(entry);
            },
            Err(e) => {
                proof {
                    assert(plan[i + 2] == token_entry(adds@[i as int].token@));
                    assert(flags[i + 2] == adds@[i as int].source_exists);
                    lemma_first_index_unique(flags, false, i + 2);
                }
                return Err(e);
            },
        }
        i = i + 1;
    }
    proof {
        lemma_first_index_absent(flags, false);
        assert(plan.take(n + 2) =~= plan);
    }
    Ok(list)
}

/// The entry for what lies at `child` below a directory entry: the same
/// relative path on both sides.
pub open spec fn child_entry(dir: EntryView, child: Seq<char>) -> EntryView {
    EntryView {
        source: dir.source + seq!['/'] + child,
        destination: dir.destination + seq!['/'] + child,
    }
}

/// Replaces an entry whose source is a directory by one entry for each file
/// below it. `children` holds the files' paths relative to the directory, and
/// the entries come in their order.
pub fn expand_directory(entry: &WorklistEntry, children: &Vec<String>) -> (list: Vec<
    WorklistEntry,
>)
    ensures
        list@.len() == children@.len(),
        forall|i: int|
            0 <= i < children@.len() ==> (#[trigger] list@[i])@ == child_entry(
                entry@,
                children@[i]@,
            ),
{
    proof {
        reveal_strlit("/");
        assert("/"@ =~= seq!['/']);
    }
    let n: usize = children.len();
    let mut list: Vec<WorklistEntry> = Vec::new();
    let mut i: usize = 0;
    while i < n
        invariant
            n == children@.len(),
            i <= n,
            "/"@ == seq!['/'],
            list@.len() == i,
            forall|j: int|
                0 <= j < i ==> (#[trigger] list@[j])@ == child_entry(entry@, children@[j]@),
        decreases n - i,
    {
        let child = children[i].as_str();
        let source = entry.source.clone().concat("/").concat(child);
        let destination = entry.destination.clone().concat("/").concat(child);
        list.push(WorklistEntry { source, destination });
        i = i + 1;
    }
    list
}

/// The first two entries of every planned list bind the metadata file to
/// `sce_sys/param.sfo` and the executable to `eboot.bin`, in that order,
/// whatever requests follow.
pub proof fn lemma_mandatory_entries_first(sfo: Seq<char>, eboot: Seq<char>, adds: Seq<AddRequest>)
    ensures
        planned_list(sfo, eboot, adds).len() >= 2,
        planned_list(sfo, eboot, adds)[0] == (EntryView {
            source: sfo,
            destination: sfo_destination(),
        }),
        planned_list(sfo, eboot, adds)[1] == (EntryView {
            source: eboot,
            destination: eboot_destination(),
        }),
{
}

/// A planned list of N requests has N + 2 entries, and the entry at 2 + i is
/// the one that request i asks for.
pub proof fn lemma_requests_keep_order(sfo: Seq<char>, eboot: Seq<char>, adds: Seq<AddRequest>)
    ensures
        planned_list(sfo, eboot, adds).len() == adds.len() + 2,
        forall|i: int|
            0 <= i < adds.len() ==> #[trigger] planned_list(sfo, eboot, adds)[i + 2] == token_entry(
                adds[i].token@,
            ),
{
}

} // verus!
