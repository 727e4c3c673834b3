//! Turning the dropped files and folders into decode jobs.
//!
//! The file system is read elsewhere; what it showed is handed in as a tree of
//! [`Node`]s, one per dropped path. Each dropped item writes into a new
//! `dexor-decoded/` folder created next to it, and every output file name is
//! prefixed with `dexor_`:
//!
//! * a file `/a/b/foo.bin` gives `/a/b/dexor-decoded/dexor_foo.bin`;
//! * a folder `/a/b/in/` is walked recursively and reproduced under
//!   `/a/b/dexor-decoded/in/...`, with each leaf file prefixed and sub-folder
//!   names kept as they are.

use vstd::prelude::*;

use crate::xor::{xor_bytes, xor_in_place};
use crate::paths::{
    copy_bytes, copy_path, current_dir_path, Component, ComponentView, fallback_dir_name,
    fallback_dir_name_bytes, fallback_file_name, fallback_file_name_bytes, file_name, join,
    output_dir_name, output_dir_name_bytes, parent, path_view, prefixed, prefixed_name,
    spec_file_name, spec_parent,
};

verus! {

/// What the file system showed at a path.
///
/// For a dropped path this is what its metadata says, following symlinks; for
/// an entry found while walking a folder it is the entry's own type, so a
/// symlink there is `Other` and is skipped.
#[derive(Debug, PartialEq, Eq)]
pub enum Node {
    /// A regular file.
    File,
    /// A folder, with its entries in the order the listing gave them.
    Dir(Vec<DirEntry>),
    /// Anything else (symlinks inside folders, sockets, devices, ...).
    Other,
}

/// One entry of a folder listing.
#[derive(Debug, PartialEq, Eq)]
pub struct DirEntry {
    /// The entry's file name.
    pub name: Vec<u8>,
    /// What the entry is.
    pub node: Node,
}

/// One dropped path and what the file system showed there.
#[derive(Debug, PartialEq, Eq)]
pub struct Input {
    /// The path as dropped, as components.
    pub path: Vec<Component>,
    /// What is at that path.
    pub node: Node,
}

/// A single unit of work: read `source`, transform it, write to `dest`.
#[derive(Debug, Clone, PartialEq, Eq)]
pub struct Job {
    /// Path of the file to read.
    pub source: Vec<Component>,
    /// Path to write the decoded file to.
    pub dest: Vec<Component>,
}

/// A job as two paths of byte components.
pub struct JobView {
    pub source: Seq<ComponentView>,
    pub dest: Seq<ComponentView>,
}

impl View for Job {
    type V = JobView;

    open spec fn view(&self) -> JobView {
        JobView { source: path_view(self.source@), dest: path_view(self.dest@) }
    }
}

/// The jobs of a sequence of jobs.
pub open spec fn jobs_view(jobs: Seq<Job>) -> Seq<JobView> {
    jobs.map_values(|j: Job| j@)
}

/// The jobs that walking the folder `dir`, whose entries are `entries`, adds
/// under the output folder `dest`: one per regular file, found depth first in
/// listing order, with sub-folders reproduced under their own names.
pub open spec fn dir_jobs(dir: Seq<ComponentView>, dest: Seq<ComponentView>, entries: Seq<DirEntry>) -> Seq<
    JobView,
>
    decreases entries,
{
    if entries.len() == 0 {
        seq![]
    } else {
        let e = entries.last();
        let earlier = dir_jobs(dir, dest, entries.drop_last());
        match e.node {
            Node::File => earlier.push(
                JobView { source: dir.push(ComponentView::Normal(e.name@)), dest: dest.push(ComponentView::Normal(prefixed_name(e.name@))) },
            ),
            Node::Dir(children) => {
                proof {
                    assert(decreases_to!(entries => entries[entries.len() - 1]));
                }
                earlier + dir_jobs(dir.push(ComponentView::Normal(e.name@)), dest.push(ComponentView::Normal(e.name@)), children@)
            },
            Node::Other => earlier,
        }
    }
}


/// Walk the folder `dir` (whose entries are `entries`), adding a job for each
/// regular file found, with its output under `dest_dir`.
fn walk_dir(
    dir: &Vec<Component>,
    dest_dir: &Vec<Component>,
    entries: &Vec<DirEntry>,
    jobs: &mut Vec<Job>,
)
    ensures
        jobs_view(final(jobs)@) == jobs_view(old(jobs)@) + dir_jobs(
            path_view(dir@),
            path_view(dest_dir@),
            entries@,
        ),
    decreases entries@,
{
    let ghost d = path_view(dir@);
    let ghost dd = path_view(dest_dir@);
    let n = entries.len();
    let mut i: usize = 0;
    assert(entries@.take(0) =~= Seq::<DirEntry>::empty());
    assert(jobs_view(jobs@) =~= jobs_view(old(jobs)@) + dir_jobs(d, dd, entries@.take(0)));
    while i < n
        invariant
            n == entries@.len(),
            0 <= i <= n,
            d == path_view(dir@),
            dd == path_view(dest_dir@),
            jobs_view(jobs@) == jobs_view(old(jobs)@) + dir_jobs(d, dd, entries@.take(i as int)),
        decreases n - i,
    {
        let e = &entries[i];
        let ghost before = jobs_view(jobs@);
        assert(entries@.take(i + 1).drop_last() =~= entries@.take(i as int));
        assert(entries@.take(i + 1).last() == entries@[i as int]);
        match &e.node {
            Node::File => {
                let source = join(dir, copy_bytes(e.name.as_slice()));
                let dest = join(dest_dir, prefixed(e.name.as_slice()));
                let job = Job { source, dest };
                jobs.push(job);
                assert(jobs_view(jobs@) =~= before.push(job@));
            },
            Node::Dir(children) => {
                let sub = join(dir, copy_bytes(e.name.as_slice()));
                let sub_dest = join(dest_dir, copy_bytes(e.name.as_slice()));
                proof {
                    assert(decreases_to!(entries@ => entries@[i as int]));
                }
                walk_dir(&sub, &sub_dest, children, jobs);
                assert(jobs_view(jobs@) =~= before + dir_jobs(d.push(ComponentView::Normal(e.name@)), dd.push(ComponentView::Normal(e.name@)), children@));
            },
            Node::Other => {},
        }
        i += 1;
    }
    assert(entries@.take(n as int) =~= entries@);
}

/// Where the output of a dropped path goes: a `dexor-decoded` folder in the
/// directory that holds it (its parent, or `.` when it has none).
pub open spec fn output_base(path: Seq<ComponentView>) -> Seq<ComponentView> {
    let parent = match spec_parent(path) {
        Some(q) => q,
        None => seq![ComponentView::CurDir],
    };
    parent.push(ComponentView::Normal(output_dir_name()))
}

/// The file name of `path`, or `fallback` when it has none.
pub open spec fn name_or(path: Seq<ComponentView>, fallback: Seq<u8>) -> Seq<u8> {
    match spec_file_name(path) {
        Some(n) => n,
        None => fallback,
    }
}

/// The jobs one dropped path gives: a file gives one job writing
/// `dexor_<name>` into the sibling output folder; a folder is walked and
/// reproduced under `<output folder>/<folder name>`; anything else gives none.
pub open spec fn input_jobs(path: Seq<ComponentView>, node: Node) -> Seq<JobView> {
    match node {
        Node::File => seq![
            JobView {
                source: path,
                dest: output_base(path).push(
                    ComponentView::Normal(prefixed_name(name_or(path, fallback_file_name()))),
                ),
            },
        ],
        Node::Dir(children) => dir_jobs(
            path,
            output_base(path).push(ComponentView::Normal(name_or(path, fallback_dir_name()))),
            children@,
        ),
        Node::Other => seq![],
    }
}

/// The jobs of all dropped paths, in the order they were dropped.
pub open spec fn inputs_jobs(inputs: Seq<Input>) -> Seq<JobView>
    decreases inputs.len(),
{
    if inputs.len() == 0 {
        seq![]
    } else {
        inputs_jobs(inputs.drop_last()) + input_jobs(
            path_view(inputs.last().path@),
            inputs.last().node,
        )
    }
}

/// The output folder of the dropped path `path`.
fn output_base_of(path: &Vec<Component>) -> (p: Vec<Component>)
    ensures
        path_view(p@) == output_base(path_view(path@)),
{
    let base = match parent(path) {
        Some(q) => q,
        None => current_dir_path(),
    };
    join(&base, output_dir_name_bytes())
}

/// Expand the dropped paths (files and/or folders, as the file system showed
/// them) into a flat list of [`Job`]s.
///
/// There's no separate output folder: each input writes into a new
/// `dexor-decoded/` folder created right next to it, and every output file
/// name is prefixed with `dexor_`.
pub fn collect_jobs(inputs: &[Input]) -> (jobs: Vec<Job>)
    ensures
        jobs_view(jobs@) == inputs_jobs(inputs@),
{
    let mut jobs: Vec<Job> = Vec::new();
    let n = inputs.len();
    let mut i: usize = 0;
    assert(inputs@.take(0) =~= Seq::<Input>::empty());
    assert(jobs_view(jobs@) =~= inputs_jobs(inputs@.take(0)));
    while i < n
        invariant
            n == inputs@.len(),
            0 <= i <= n,
            jobs_view(jobs@) == inputs_jobs(inputs@.take(i as int)),
        decreases n - i,
    {
        let input = &inputs[i];
        let ghost before = jobs_view(jobs@);
        let ghost p = path_view(input.path@);
        assert(inputs@.take(i + 1).drop_last() =~= inputs@.take(i as int));
        assert(inputs@.take(i + 1).last() == inputs@[i as int]);
        let out_base = output_base_of(&input.path);
        match &input.node {
            Node::File => {
                let name = match file_name(&input.path) {
                    Some(n) => n,
                    None => fallback_file_name_bytes(),
                };
                let dest = join(&out_base, prefixed(name.as_slice()));
                let job = Job { source: copy_path(&input.path), dest };
                jobs.push(job);
                assert(jobs_view(jobs@) =~= before + input_jobs(p, input.node));
            },
            Node::Dir(children) => {
                let name = match file_name(&input.path) {
                    Some(n) => n,
                    None => fallback_dir_name_bytes(),
                };
                let dest_dir = join(&out_base, name);
                walk_dir(&input.path, &dest_dir, children, &mut jobs);
            },
            Node::Other => {
                assert(jobs_view(jobs@) =~= before + input_jobs(p, input.node));
            },
        }
        i += 1;
    }
    assert(inputs@.take(n as int) =~= inputs@);
    jobs
}


/// What running a job writes, once the source's bytes have been read.
pub struct WritePlan {
    /// Folder to create first (with its ancestors), if the destination has a
    /// parent.
    pub dir: Option<Vec<Component>>,
    /// Where to write; also the path reported back.
    pub dest: Vec<Component>,
    /// The decoded bytes to write.
    pub data: Vec<u8>,
}

/// Run a single job on the `contents` read from `job.source`: XOR them with
/// `key`, and say where the result goes, creating parent folders as needed.
pub fn run_job(job: &Job, contents: Vec<u8>, key: u8) -> (plan: WritePlan)
    ensures
        plan.data@ == xor_bytes(contents@, key),
        path_view(plan.dest@) == job@.dest,
        match plan.dir {
            Some(d) => spec_parent(job@.dest) == Some(path_view(d@)),
            None => spec_parent(job@.dest) is None,
        },
{
    let mut data = contents;
    xor_in_place(data.as_mut_slice(), key);
    let dir = parent(&job.dest);
    WritePlan { dir, dest: copy_path(&job.dest), data }
}

/// `job` copies the tree below `src_root` into `dest_root`: its source lies
/// strictly below `src_root`, its destination lies as deep below `dest_root`,
/// the folders in between keep their names, and the file name is the source's
/// own name prefixed with `dexor_`.
pub open spec fn mirrors(job: JobView, src_root: Seq<ComponentView>, dest_root: Seq<ComponentView>) -> bool {
    let depth = job.source.len() - src_root.len();
    &&& job.source.len() > src_root.len()
    &&& job.source.subrange(0, src_root.len() as int) == src_root
    &&& job.dest.len() == dest_root.len() + depth
    &&& job.dest.subrange(0, dest_root.len() as int) == dest_root
    &&& forall|m: int|
        0 <= m < depth - 1 ==> #[trigger] job.dest[dest_root.len() + m] == job.source[src_root.len()
            + m]
    &&& match job.source.last() {
        ComponentView::Normal(n) => job.dest.last() == ComponentView::Normal(prefixed_name(n)),
        _ => false,
    }
}

proof fn lemma_mirrors_lift(job: JobView, src_root: Seq<ComponentView>, dest_root: Seq<ComponentView>, name: Seq<u8>)
    requires
        mirrors(job, src_root.push(ComponentView::Normal(name)), dest_root.push(ComponentView::Normal(name))),
    ensures
        mirrors(job, src_root, dest_root),
{
    let s = src_root.push(ComponentView::Normal(name));
    let t = dest_root.push(ComponentView::Normal(name));
    assert(job.source[src_root.len() as int] == job.source.subrange(0, s.len() as int)[src_root.len() as int]);
    assert(job.dest[dest_root.len() as int] == job.dest.subrange(0, t.len() as int)[dest_root.len() as int]);
    assert(job.source.subrange(0, src_root.len() as int) =~= job.source.subrange(0, s.len() as int).drop_last());
    assert(job.dest.subrange(0, dest_root.len() as int) =~= job.dest.subrange(0, t.len() as int).drop_last());
    assert(s.drop_last() =~= src_root);
    assert(t.drop_last() =~= dest_root);
    let depth = job.source.len() - src_root.len();
    assert forall|m: int| 0 <= m < depth - 1 implies #[trigger] job.dest[dest_root.len() + m]
        == job.source[src_root.len() + m] by {
        if m > 0 {
            assert(job.dest[t.len() + (m - 1)] == job.source[s.len() + (m - 1)]);
        }
    }
}

/// Walking a folder reproduces it: every job found below `dir` mirrors the
/// tree below `dir` into `dest`.
pub proof fn lemma_dir_jobs_mirror(dir: Seq<ComponentView>, dest: Seq<ComponentView>, entries: Seq<DirEntry>)
    ensures
        forall|k: int|
            0 <= k < dir_jobs(dir, dest, entries).len() ==> mirrors(
                #[trigger] dir_jobs(dir, dest, entries)[k],
                dir,
                dest,
            ),
    decreases entries,
{
    if entries.len() > 0 {
        let e = entries.last();
        let earlier = dir_jobs(dir, dest, entries.drop_last());
        lemma_dir_jobs_mirror(dir, dest, entries.drop_last());
        match e.node {
            Node::File => {
                let j = JobView { source: dir.push(ComponentView::Normal(e.name@)), dest: dest.push(ComponentView::Normal(prefixed_name(e.name@))) };
                assert(j.source.subrange(0, dir.len() as int) =~= dir);
                assert(j.dest.subrange(0, dest.len() as int) =~= dest);
                assert(mirrors(j, dir, dest));
                assert(dir_jobs(dir, dest, entries) == earlier.push(j));
                assert forall|k: int| 0 <= k < earlier.len() + 1 implies mirrors(
                    #[trigger] earlier.push(j)[k],
                    dir,
                    dest,
                ) by {
                    if k < earlier.len() {
                        assert(earlier.push(j)[k] == earlier[k]);
                    }
                }
            },
            Node::Dir(children) => {
                assert(decreases_to!(entries => entries[entries.len() - 1]));
                let sub = dir_jobs(dir.push(ComponentView::Normal(e.name@)), dest.push(ComponentView::Normal(e.name@)), children@);
                lemma_dir_jobs_mirror(dir.push(ComponentView::Normal(e.name@)), dest.push(ComponentView::Normal(e.name@)), children@);
                assert(dir_jobs(dir, dest, entries) == earlier + sub);
                assert forall|k: int| 0 <= k < earlier.len() + sub.len() implies mirrors(
                    #[trigger] (earlier + sub)[k],
                    dir,
                    dest,
                ) by {
                    if k < earlier.len() {
                        assert((earlier + sub)[k] == earlier[k]);
                    } else {
                        assert((earlier + sub)[k] == sub[k - earlier.len()]);
                        lemma_mirrors_lift(sub[k - earlier.len()], dir, dest, e.name@);
                    }
                }
            },
            Node::Other => {},
        }
    }
}

/// The number of regular files in a folder tree (symlinks and other special
/// entries do not count).
pub open spec fn count_files(entries: Seq<DirEntry>) -> nat
    decreases entries,
{
    if entries.len() == 0 {
        0
    } else {
        let e = entries.last();
        let earlier = count_files(entries.drop_last());
        match e.node {
            Node::File => earlier + 1,
            Node::Dir(children) => {
                proof {
                    assert(decreases_to!(entries => entries[entries.len() - 1]));
                }
                earlier + count_files(children@)
            },
            Node::Other => earlier,
        }
    }
}

/// Walking a folder gives exactly one job per regular file in it, at any
/// depth, and none for anything else.
pub proof fn lemma_dir_jobs_count(dir: Seq<ComponentView>, dest: Seq<ComponentView>, entries: Seq<DirEntry>)
    ensures
        dir_jobs(dir, dest, entries).len() == count_files(entries),
    decreases entries,
{
    if entries.len() > 0 {
        let e = entries.last();
        lemma_dir_jobs_count(dir, dest, entries.drop_last());
        match e.node {
            Node::Dir(children) => {
                assert(decreases_to!(entries => entries[entries.len() - 1]));
                lemma_dir_jobs_count(dir.push(ComponentView::Normal(e.name@)), dest.push(ComponentView::Normal(e.name@)), children@);
            },
            _ => {},
        }
    }
}

/// Every job of a dropped path lands in the `dexor-decoded` folder next to
/// it: a dropped file gives one job that reads the file itself and writes
/// `dexor_<its name>` there; a dropped folder is reproduced below
/// `dexor-decoded/<its name>`, leaf names prefixed and sub-folder names kept;
/// anything else gives no job.
pub proof fn lemma_input_jobs_layout(path: Seq<ComponentView>, node: Node)
    ensures
        node is File ==> input_jobs(path, node).len() == 1 && input_jobs(path, node)[0].source
            == path && input_jobs(path, node)[0].dest == output_base(path).push(
            ComponentView::Normal(prefixed_name(name_or(path, fallback_file_name()))),
        ),
        node is Dir ==> forall|k: int|
            0 <= k < input_jobs(path, node).len() ==> mirrors(
                #[trigger] input_jobs(path, node)[k],
                path,
                output_base(path).push(ComponentView::Normal(name_or(path, fallback_dir_name()))),
            ),
        node is Other ==> input_jobs(path, node).len() == 0,
        forall|k: int|
            0 <= k < input_jobs(path, node).len() ==> {
                let d = (#[trigger] input_jobs(path, node)[k]).dest;
                &&& d.len() > output_base(path).len()
                &&& d.subrange(0, output_base(path).len() as int) == output_base(path)
            },
{
    let base = output_base(path);
    match node {
        Node::File => {
            let d = input_jobs(path, node)[0].dest;
            assert(d.subrange(0, base.len() as int) =~= base);
        },
        Node::Dir(children) => {
            let root = base.push(ComponentView::Normal(name_or(path, fallback_dir_name())));
            lemma_dir_jobs_mirror(path, root, children@);
            assert forall|k: int| 0 <= k < input_jobs(path, node).len() implies {
                let d = (#[trigger] input_jobs(path, node)[k]).dest;
                &&& d.len() > base.len()
                &&& d.subrange(0, base.len() as int) == base
            } by {
                let d = input_jobs(path, node)[k].dest;
                assert(mirrors(input_jobs(path, node)[k], path, root));
                assert(d.subrange(0, root.len() as int) == root);
                assert(d.subrange(0, base.len() as int) =~= d.subrange(0, root.len() as int).drop_last());
                assert(root.drop_last() =~= base);
            }
        },
        Node::Other => {},
    }
}


/// The path `d` lies strictly inside the folder `root`.
pub open spec fn lies_in(d: Seq<ComponentView>, root: Seq<ComponentView>) -> bool {
    d.len() > root.len() && d.subrange(0, root.len() as int) == root
}

/// Whatever is dropped, every job writes inside the `dexor-decoded` folder
/// next to one of the dropped paths, never anywhere else.
pub proof fn lemma_jobs_land_next_to_inputs(inputs: Seq<Input>)
    ensures
        forall|k: int|
            0 <= k < inputs_jobs(inputs).len() ==> exists|i: int|
                0 <= i < inputs.len() && lies_in(
                    #[trigger] inputs_jobs(inputs)[k].dest,
                    output_base(path_view(inputs[i].path@)),
                ),
    decreases inputs.len(),
{
    if inputs.len() > 0 {
        let init = inputs.drop_last();
        let last = inputs.last();
        let p = path_view(last.path@);
        lemma_jobs_land_next_to_inputs(init);
        lemma_input_jobs_layout(p, last.node);
        let a = inputs_jobs(init);
        let b = input_jobs(p, last.node);
        assert(inputs_jobs(inputs) == a + b);
        assert forall|k: int| 0 <= k < inputs_jobs(inputs).len() implies exists|i: int|
            0 <= i < inputs.len() && lies_in(
                #[trigger] inputs_jobs(inputs)[k].dest,
                output_base(path_view(inputs[i].path@)),
            ) by {
            if k < a.len() {
                assert((a + b)[k] == a[k]);
                let i = choose|i: int|
                    0 <= i < init.len() && lies_in(
                        #[trigger] a[k].dest,
                        output_base(path_view(init[i].path@)),
                    );
                assert(init[i] == inputs[i]);
            } else {
                assert((a + b)[k] == b[k - a.len()]);
                assert(lies_in(b[k - a.len()].dest, output_base(p)));
                assert(inputs[inputs.len() - 1] == last);
            }
        }
    }
}


proof fn lemma_prefixed_name_differs(n: Seq<u8>)
    ensures
        ComponentView::Normal(prefixed_name(n)) != ComponentView::Normal(n),
{
    assert(prefixed_name(n).len() == n.len() + 6);
}

/// A dropped path's jobs never write over what they read: each job's
/// destination differs from its source.
pub proof fn lemma_input_jobs_keep_sources(path: Seq<ComponentView>, node: Node)
    ensures
        forall|k: int|
            0 <= k < input_jobs(path, node).len() ==> (#[trigger] input_jobs(path, node)[k]).dest
                != input_jobs(path, node)[k].source,
{
    lemma_input_jobs_layout(path, node);
    match node {
        Node::File => {
            let j = input_jobs(path, node)[0];
            let d = j.dest;
            assert(d.last() == ComponentView::Normal(
                prefixed_name(name_or(path, fallback_file_name())),
            ));
            if path.len() > 0 {
                match path.last() {
                    ComponentView::Normal(n) => {
                        lemma_prefixed_name_differs(n);
                    },
                    _ => {},
                }
                assert(d.last() != path.last());
            } else {
                assert(d.len() != path.len());
            }
        },
        Node::Dir(children) => {
            assert forall|k: int| 0 <= k < input_jobs(path, node).len() implies (
            #[trigger] input_jobs(path, node)[k]).dest != input_jobs(path, node)[k].source by {
                let j = input_jobs(path, node)[k];
                match j.source.last() {
                    ComponentView::Normal(n) => {
                        lemma_prefixed_name_differs(n);
                        assert(j.dest.last() != j.source.last());
                    },
                    _ => {},
                }
            }
        },
        Node::Other => {},
    }
}

/// Whatever is dropped, no job writes over the file it reads.
pub proof fn lemma_jobs_keep_sources(inputs: Seq<Input>)
    ensures
        forall|k: int|
            0 <= k < inputs_jobs(inputs).len() ==> (#[trigger] inputs_jobs(inputs)[k]).dest
                != inputs_jobs(inputs)[k].source,
    decreases inputs.len(),
{
    if inputs.len() > 0 {
        let init = inputs.drop_last();
        let last = inputs.last();
        let p = path_view(last.path@);
        lemma_jobs_keep_sources(init);
        lemma_input_jobs_keep_sources(p, last.node);
        let a = inputs_jobs(init);
        let b = input_jobs(p, last.node);
        assert(inputs_jobs(inputs) == a + b);
        assert forall|k: int| 0 <= k < inputs_jobs(inputs).len() implies (
        #[trigger] inputs_jobs(inputs)[k]).dest != inputs_jobs(inputs)[k].source by {
            if k < a.len() {
                assert((a + b)[k] == a[k]);
            } else {
                assert((a + b)[k] == b[k - a.len()]);
            }
        }
    }
}

} // verus!
