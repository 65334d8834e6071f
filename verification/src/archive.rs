//! Archive extractor: turns the embedded archive bytes into a plan of
//! filesystem steps for the working directory.
//!
//! The archive itself is decoded by the `zip` crate behind a few trusted
//! wrappers; everything around them — the per-entry directory/file
//! decision, the order of steps, and the idempotence of a full extraction —
//! is verified.  The embedding application clears the working directory and
//! then performs the returned steps in order; it never applies a partial
//! plan, since any corrupt entry turns the whole plan into an error.

use vstd::prelude::*;
use vstd::string::StrSliceExecFns;

verus! {

#[verifier::external_type_specification]
#[verifier::external_body]
#[verifier::reject_recursive_types(R)]
pub struct ExZipArchive<R>(zip::ZipArchive<R>);

#[verifier::external_type_specification]
#[verifier::external_body]
#[verifier::reject_recursive_types(T)]
pub struct ExCursor<T>(std::io::Cursor<T>);

/// The bytes an in-memory archive handle was opened from.
pub uninterp spec fn archive_data(a: zip::ZipArchive<std::io::Cursor<Vec<u8>>>) -> Seq<u8>;

/// The entry names of an archive's central directory, in archive order, or
/// `None` when the bytes are not a readable archive.
pub uninterp spec fn zip_names_of(data: Seq<u8>) -> Option<Seq<Seq<char>>>;

/// The decompressed bytes of entry `i` of an archive, or `None` when that
/// entry cannot be decoded from the bytes.
pub uninterp spec fn zip_entry_of(data: Seq<u8>, i: int) -> Option<Seq<u8>>;

/// Relies on zip::ZipArchive::new: reading the central directory of an
/// in-memory archive succeeds or fails on the bytes alone.
#[verifier::external_body]
fn zip_open(data: &Vec<u8>) -> (r: Result<zip::ZipArchive<std::io::Cursor<Vec<u8>>>, String>)
    ensures
        (r is Ok) == (zip_names_of(data@) is Some),
        r matches Ok(a) ==> archive_data(a) == data@,
{
    zip::ZipArchive::new(std::io::Cursor::new(data.clone())).map_err(|e| e.to_string())
}

/// Relies on zip::ZipArchive::len: the count of central-directory entries.
#[verifier::external_body]
fn zip_len(a: &zip::ZipArchive<std::io::Cursor<Vec<u8>>>) -> (n: usize)
    ensures
        zip_names_of(archive_data(*a)) matches Some(names) ==> n == names.len(),
{
    a.len()
}

/// Relies on zip::ZipArchive::by_index and std::io::Read::read_to_end on
/// the entry it yields: the entry's name stands in the central directory,
/// and its bytes decompress from the archive bytes alone or fail on them
/// alone.
#[verifier::external_body]
fn zip_entry(a: &mut zip::ZipArchive<std::io::Cursor<Vec<u8>>>, i: usize) -> (r: Result<
    (String, Vec<u8>),
    String,
>)
    ensures
        archive_data(*final(a)) == archive_data(*old(a)),
        ({
            let d = archive_data(*old(a));
            zip_names_of(d) matches Some(names) ==> i < names.len() ==> {
                &&& (r is Ok) == (zip_entry_of(d, i as int) is Some)
                &&& (r matches Ok(p) ==> p.0@ == names[i as int] && Some(p.1@) == zip_entry_of(
                    d,
                    i as int,
                ))
            }
        }),
{
    let mut f = a.by_index(i).map_err(|e| e.to_string())?;
    let name = f.name().to_string();
    let mut buf = Vec::new();
    std::io::Read::read_to_end(&mut f, &mut buf).map_err(|e| e.to_string())?;
    Ok((name, buf))
}

/// One filesystem step of an extraction, relative to the working directory.
#[derive(Debug, PartialEq, Eq)]
pub enum ExtractAction {
    /// Create this directory and any missing parents.
    MakeDir(String),
    /// Create any missing parents of this path and write these bytes to it.
    WriteFile(String, Vec<u8>),
}

/// The mathematical value of one extraction step.
pub enum ActionV {
    MakeDir(Seq<char>),
    WriteFile(Seq<char>, Seq<u8>),
}

impl View for ExtractAction {
    type V = ActionV;

    open spec fn view(&self) -> ActionV {
        match self {
            ExtractAction::MakeDir(p) => ActionV::MakeDir(p@),
            ExtractAction::WriteFile(p, b) => ActionV::WriteFile(p@, b@),
        }
    }
}

/// The step one archive entry dictates: an entry whose name ends in a path
/// separator is a directory, every other entry is a file.
pub open spec fn action_of(name: Seq<char>, bytes: Seq<u8>) -> ActionV {
    if name.len() > 0 && name.last() == '/' {
        ActionV::MakeDir(name)
    } else {
        ActionV::WriteFile(name, bytes)
    }
}

/// The extraction plan an archive dictates: one step per entry, in archive
/// order, or `None` when the bytes are not a readable archive or any single
/// entry is corrupt — a half-extracted project is worse than none.
pub open spec fn plan_of(data: Seq<u8>) -> Option<Seq<ActionV>> {
    match zip_names_of(data) {
        Some(names) => if forall|i: int| 0 <= i < names.len() ==> zip_entry_of(data, i) is Some {
            Some(Seq::new(names.len(), |i: int| action_of(names[i], zip_entry_of(data, i)->0)))
        } else {
            None
        },
        None => None,
    }
}

/// The plan a vector of steps carries.
pub open spec fn plan_view(v: Seq<ExtractAction>) -> Seq<ActionV> {
    Seq::new(v.len(), |i: int| v[i]@)
}

/// Turns embedded archive bytes into the full extraction plan for the
/// working directory, or the first failing entry's error.
pub fn extract_entries(data: &Vec<u8>) -> (r: Result<Vec<ExtractAction>, String>)
    ensures
        (r is Ok) == (plan_of(data@) is Some),
        r matches Ok(v) ==> Some(plan_view(v@)) == plan_of(data@),
{
    let mut archive = match zip_open(data) {
        Ok(a) => a,
        Err(e) => { return Err(e) },
    };
    let n = zip_len(&archive);
    let mut out: Vec<ExtractAction> = Vec::new();
    let mut i: usize = 0;
    while i < n
        invariant
            archive_data(archive) == data@,
            zip_names_of(data@) is Some,
            n == zip_names_of(data@)->0.len(),
            i <= n,
            out@.len() == i,
            forall|j: int|
                0 <= j < i ==> zip_entry_of(data@, j) is Some && out@[j]@ == action_of(
                    zip_names_of(data@)->0[j],
                    zip_entry_of(data@, j)->0,
                ),
        decreases n - i,
    {
        match zip_entry(&mut archive, i) {
            Err(e) => { return Err(e) },
            Ok((name, bytes)) => {
                let l = name.as_str().unicode_len();
                if l > 0 && name.as_str().get_char(l - 1) == '/' {
                    proof {
                        assert(name@.last() == '/');
                    }
                    out.push(ExtractAction::MakeDir(name));
                } else {
                    out.push(ExtractAction::WriteFile(name, bytes));
                }
            },
        }
        i = i + 1;
    }
    proof {
        assert(plan_of(data@) is Some);
        assert(plan_view(out@) =~= plan_of(data@)->0);
    }
    Ok(out)
}

/// A node of the modelled working directory.
pub enum FsNodeV {
    Dir,
    File(Seq<u8>),
}

/// The path one extraction step touches.
pub open spec fn action_path(a: ActionV) -> Seq<char> {
    match a {
        ActionV::MakeDir(p) => p,
        ActionV::WriteFile(p, _) => p,
    }
}

/// The modelled directory after a plan's steps run in order.
pub open spec fn apply_actions(
    tree: Map<Seq<char>, FsNodeV>,
    plan: Seq<ActionV>,
) -> Map<Seq<char>, FsNodeV>
    decreases plan.len(),
{
    if plan.len() == 0 {
        tree
    } else {
        let rest = apply_actions(tree, plan.drop_last());
        match plan.last() {
            ActionV::MakeDir(p) => rest.insert(p, FsNodeV::Dir),
            ActionV::WriteFile(p, b) => rest.insert(p, FsNodeV::File(b)),
        }
    }
}

/// One full extraction run against a working directory holding `prior`:
/// the directory is removed and recreated empty, then the plan runs.
pub open spec fn run_extraction(
    prior: Map<Seq<char>, FsNodeV>,
    plan: Seq<ActionV>,
) -> Map<Seq<char>, FsNodeV> {
    apply_actions(Map::empty(), plan)
}

/// Extraction is idempotent: because the working directory is cleared
/// before a plan runs, the contents after a successful extraction are a
/// function of the plan alone — running the same plan again, or over any
/// stale contents, leaves byte-identical contents.
pub proof fn lemma_extraction_idempotent(
    prior1: Map<Seq<char>, FsNodeV>,
    prior2: Map<Seq<char>, FsNodeV>,
    plan: Seq<ActionV>,
)
    ensures
        run_extraction(prior1, plan) == run_extraction(prior2, plan),
        run_extraction(run_extraction(prior1, plan), plan) == run_extraction(prior1, plan),
{
}

proof fn lemma_apply_dom(tree: Map<Seq<char>, FsNodeV>, plan: Seq<ActionV>, p: Seq<char>)
    requires
        apply_actions(tree, plan).dom().contains(p),
    ensures
        tree.dom().contains(p) || exists|i: int|
            0 <= i < plan.len() && action_path(#[trigger] plan[i]) == p,
    decreases plan.len(),
{
    if plan.len() == 0 {
    } else {
        if action_path(plan.last()) == p {
            assert(action_path(plan[plan.len() - 1]) == p);
        } else {
            assert(apply_actions(tree, plan.drop_last()).dom().contains(p));
            lemma_apply_dom(tree, plan.drop_last(), p);
            if !tree.dom().contains(p) {
                let i = choose|i: int|
                    0 <= i < plan.drop_last().len() && action_path(
                        #[trigger] plan.drop_last()[i],
                    ) == p;
                assert(plan.drop_last()[i] == plan[i]);
                assert(action_path(plan[i]) == p);
            }
        }
    }
}

/// No stale entry survives an extraction: every path present after a run
/// was written by some step of the plan that ran.
pub proof fn lemma_no_stale_entries(
    prior: Map<Seq<char>, FsNodeV>,
    plan: Seq<ActionV>,
    p: Seq<char>,
)
    requires
        run_extraction(prior, plan).dom().contains(p),
    ensures
        exists|i: int| 0 <= i < plan.len() && action_path(#[trigger] plan[i]) == p,
{
    lemma_apply_dom(Map::empty(), plan, p);
}

} // verus!
