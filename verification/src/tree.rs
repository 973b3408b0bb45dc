//! A model of the file tree a bundle is written into, and what making a
//! bundle twice does to it.
use vstd::prelude::*;

use crate::bundle::{
    step_path, BundleFailure, BundleOptions, ExistingOutput, OutputRemoval, PlanSpec, StepSpec,
};
use crate::paths::within;

verus! {

/// What a path of the tree holds.
pub enum Entry {
    Dir,
    Text(Seq<char>),
    Library,
}

/// A file tree: the entries by their paths.
pub type FileTree = Map<Seq<char>, Entry>;

/// `p` is `d` or lies below it: removing the directory `d` removes `p`.
pub open spec fn under(p: Seq<char>, d: Seq<char>) -> bool {
    &&& within(p, d)
    &&& (p.len() == d.len() || (d.len() > 0 && d.last() == '/') || p[d.len() as int] == '/')
}

/// The paths at or below `d`.
pub open spec fn below(d: Seq<char>) -> Set<Seq<char>> {
    Set::new(|k: Seq<char>| under(k, d))
}

/// What is at `p` in the tree.
pub open spec fn existing_in(tree: FileTree, p: Seq<char>) -> ExistingOutput {
    if !tree.contains_key(p) {
        ExistingOutput::Absent
    } else if tree[p] is Dir {
        ExistingOutput::Directory
    } else {
        ExistingOutput::File
    }
}

/// Only a directory has entries below it.
pub open spec fn nothing_below_unless_dir(tree: FileTree, p: Seq<char>) -> bool {
    (!tree.contains_key(p) || !(tree[p] is Dir)) ==> forall|k: Seq<char>|
        #![trigger tree.contains_key(k), under(k, p)]
        tree.contains_key(k) && under(k, p) ==> k == p
}

/// The tree after a removal at `p`: a file alone, or a directory with all
/// that lies below it.
pub open spec fn apply_removal(tree: FileTree, p: Seq<char>, r: OutputRemoval) -> FileTree {
    match r {
        OutputRemoval::Nothing => tree,
        OutputRemoval::RemoveFile => tree.remove(p),
        OutputRemoval::RemoveDirectory => tree.remove_keys(below(p)),
    }
}

/// What a step leaves at its path.
pub open spec fn step_entry(s: StepSpec) -> Entry {
    match s {
        StepSpec::CreateDir(_) => Entry::Dir,
        StepSpec::WriteFile(_, t) => Entry::Text(t),
        StepSpec::CopyLibrary(_) => Entry::Library,
    }
}

/// The tree after the steps, in order.
pub open spec fn apply_steps(tree: FileTree, steps: Seq<StepSpec>) -> FileTree
    decreases steps.len(),
{
    if steps.len() == 0 {
        tree
    } else {
        apply_steps(tree, steps.drop_last()).insert(step_path(steps.last()), step_entry(steps.last()))
    }
}

/// What carrying out a plan at the output path `out` does to the tree: its
/// removal, then its steps in order; the work ends with the plan's error.
pub open spec fn carry_out(tree: FileTree, out: Seq<char>, plan: PlanSpec) -> (FileTree, Option<BundleFailure>) {
    (apply_steps(apply_removal(tree, out, plan.removal), plan.steps), plan.error)
}

/// What making the bundle does to the tree: the plan made for what is at the
/// output path, carried out there.
pub open spec fn spec_make_bundle<'a>(opts: BundleOptions<'a>, tree: FileTree) -> (
    FileTree,
    Option<BundleFailure>,
) {
    let out = opts.spec_output_path();
    carry_out(tree, out, opts.spec_bundle(existing_in(tree, out)))
}

/// What the last step that works on `k` leaves there, if any step does.
pub open spec fn written(steps: Seq<StepSpec>, k: Seq<char>) -> Option<Entry>
    decreases steps.len(),
{
    if steps.len() == 0 {
        None
    } else if step_path(steps.last()) == k {
        Some(step_entry(steps.last()))
    } else {
        written(steps.drop_last(), k)
    }
}

proof fn lemma_apply_steps_at(m: FileTree, steps: Seq<StepSpec>, k: Seq<char>)
    ensures
        apply_steps(m, steps).contains_key(k) == (written(steps, k) is Some || m.contains_key(k)),
        apply_steps(m, steps).contains_key(k) ==> apply_steps(m, steps)[k] == match written(steps, k) {
            Some(e) => e,
            None => m[k],
        },
    decreases steps.len(),
{
    if steps.len() > 0 {
        lemma_apply_steps_at(m, steps.drop_last(), k);
    }
}

proof fn lemma_removal_clears(tree: FileTree, p: Seq<char>, r: OutputRemoval)
    requires
        nothing_below_unless_dir(tree, p),
        r == (match existing_in(tree, p) {
            ExistingOutput::Absent => OutputRemoval::Nothing,
            ExistingOutput::File => OutputRemoval::RemoveFile,
            ExistingOutput::Directory => OutputRemoval::RemoveDirectory,
        }),
    ensures
        apply_removal(tree, p, r) =~= tree.remove_keys(below(p)),
{
    assert(under(p, p)) by {
        assert(p.take(p.len() as int) =~= p);
    }
    assert forall|k: Seq<char>| #[trigger] tree.contains_key(k) && below(p).contains(k) && existing_in(
        tree,
        p,
    ) != ExistingOutput::Directory implies k == p by {
        assert(under(k, p));
    }
}

/// Any removal at `p` removes only what lies at or below `p`.
proof fn lemma_removal_within(tree: FileTree, p: Seq<char>, r: OutputRemoval, k: Seq<char>)
    ensures
        apply_removal(tree, p, r).contains_key(k) ==> tree.contains_key(k) && apply_removal(tree, p, r)[k]
            == tree[k],
        tree.contains_key(k) && !apply_removal(tree, p, r).contains_key(k) ==> below(p).contains(k),
{
    assert(under(p, p)) by {
        assert(p.take(p.len() as int) =~= p);
    }
}

/// With overwriting allowed, making a bundle a second time leaves the tree as
/// the first time left it, when the first time succeeded: the second time
/// removes what the first made at the output path and makes it again by the
/// same steps, which depend on the options alone, and a step that writes
/// outside the output path writes what it wrote before. (The tree is one where
/// only directories have entries below them.)
pub proof fn law_bundle_twice_is_once<'a>(opts: BundleOptions<'a>, tree: FileTree)
    requires
        opts.overwrite_existing,
        nothing_below_unless_dir(tree, opts.spec_output_path()),
    ensures
        spec_make_bundle(opts, tree).1 is None ==> spec_make_bundle(opts, spec_make_bundle(opts, tree).0)
            == spec_make_bundle(opts, tree),
{
    let out = opts.spec_output_path();
    let (t1, err) = spec_make_bundle(opts, tree);
    if err is None {
        let plan1 = opts.spec_bundle(existing_in(tree, out));
        let plan2 = opts.spec_bundle(existing_in(t1, out));
        assert(opts.library_problem() is None);
        let steps = plan1.steps;
        assert(plan2.steps == steps && plan2.error == plan1.error);
        lemma_removal_clears(tree, out, plan1.removal);
        let c = apply_removal(tree, out, plan1.removal);
        assert(t1 == apply_steps(c, steps));
        let c2 = apply_removal(t1, out, plan2.removal);
        let t2 = apply_steps(c2, steps);
        assert forall|k: Seq<char>| #[trigger] t2.contains_key(k) == t1.contains_key(k) && (t1.contains_key(
            k,
        ) ==> t2[k] == t1[k]) by {
            lemma_apply_steps_at(c, steps, k);
            lemma_apply_steps_at(c2, steps, k);
            lemma_removal_within(t1, out, plan2.removal, k);
        }
        assert(t2 =~= t1);
    }
}

} // verus!
