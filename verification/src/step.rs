//! The steps of a plan: what is to be done to the file system, as data.
//!
//! Nothing here touches a file system. A plan is a list of steps, and the
//! caller carries them out in order.

use crate::path::{PathModel, RelPath};
use vstd::prelude::*;
use vstd::string::*;

verus! {

/// A step, as plain data.
pub ghost enum StepModel {
    /// The directory is created, with the directories above it, unless it is there.
    EnsureDir { path: PathModel },
    /// The file is created or emptied, and the content, if any, is written.
    WriteFile { path: PathModel, content: Option<Seq<char>> },
    /// The file is removed.
    RemoveFile { path: PathModel },
}

/// One thing to do to the file system.
#[derive(Debug, PartialEq, Eq)]
pub enum Step {
    /// Create the directory, with the directories above it, unless it is there.
    EnsureDir { path: RelPath },
    /// Create or empty the file, and write the content, if any.
    WriteFile { path: RelPath, content: Option<String> },
    /// Remove the file.
    RemoveFile { path: RelPath },
}

/// The characters of an optional text.
pub open spec fn text_view(text: Option<String>) -> Option<Seq<char>> {
    match text {
        Some(t) => Some(t@),
        None => None,
    }
}

/// The characters of an optional borrowed text.
pub open spec fn str_view(text: Option<&str>) -> Option<Seq<char>> {
    match text {
        Some(t) => Some(t@),
        None => None,
    }
}

impl View for Step {
    type V = StepModel;

    open spec fn view(&self) -> StepModel {
        match *self {
            Step::EnsureDir { path } => StepModel::EnsureDir { path: path@ },
            Step::WriteFile { path, content } => StepModel::WriteFile {
                path: path@,
                content: text_view(content),
            },
            Step::RemoveFile { path } => StepModel::RemoveFile { path: path@ },
        }
    }
}

impl DeepView for Step {
    type V = StepModel;

    open spec fn deep_view(&self) -> StepModel {
        self.view()
    }
}

/// The step that makes sure of the directory `dir`.
pub open spec fn dir_step(dir: PathModel) -> StepModel {
    StepModel::EnsureDir { path: dir }
}

/// The step that writes the file `name` of the directory `dir`.
pub open spec fn file_step(
    dir: PathModel,
    name: Seq<char>,
    content: Option<Seq<char>>,
) -> StepModel {
    StepModel::WriteFile { path: dir.push(name), content }
}

/// The step that removes the file `name` of the directory `dir`.
pub open spec fn removal_step(dir: PathModel, name: Seq<char>) -> StepModel {
    StepModel::RemoveFile { path: dir.push(name) }
}

/// The step that creates the folder `path`.
pub fn create_folder(path: &RelPath) -> (step: Step)
    ensures
        step@ == dir_step(path@),
{
    Step::EnsureDir { path: path.duplicate() }
}

/// The step that creates the file `name` in the folder `path` and writes
/// `data` into it; without data the file is left empty.
pub fn create_file(path: &RelPath, name: &str, data: Option<String>) -> (step: Step)
    ensures
        step@ == file_step(path@, name@, text_view(data)),
{
    Step::WriteFile { path: path.join(name), content: data }
}

/// The step that removes the file `name` of the folder `path`.
pub fn remove_file(path: &RelPath, name: &str) -> (step: Step)
    ensures
        step@ == removal_step(path@, name@),
{
    Step::RemoveFile { path: path.join(name) }
}

/// Adds the steps of `more` at the end of `steps`.
pub fn extend(steps: &mut Vec<Step>, more: Vec<Step>)
    ensures
        final(steps).deep_view() == old(steps).deep_view() + more.deep_view(),
{
    let ghost before = steps.deep_view();
    let ghost added = more.deep_view();
    let mut more = more;
    steps.append(&mut more);
    proof {
        assert(steps.deep_view() =~= before + added);
    }
}

/// The paths that a step puts there: a file, or a directory with the
/// directories above it.
pub open spec fn step_paths(step: StepModel) -> Set<PathModel> {
    match step {
        StepModel::EnsureDir { path } => Set::new(
            |dir: PathModel| dir.len() > 0 && dir.is_prefix_of(path),
        ),
        StepModel::WriteFile { path, content } => set![path],
        StepModel::RemoveFile { path } => Set::empty(),
    }
}

/// What is there after a step, given what was there before: the paths of
/// the directories and files, each as the list of its segments.
pub open spec fn present_after_step(present: Set<PathModel>, step: StepModel) -> Set<PathModel> {
    match step {
        StepModel::RemoveFile { path } => present.remove(path),
        _ => present.union(step_paths(step)),
    }
}

/// What is there after the steps of a plan, carried out in order.
pub open spec fn present_after(present: Set<PathModel>, plan: Seq<StepModel>) -> Set<PathModel>
    decreases plan.len(),
{
    if plan.len() == 0 {
        present
    } else {
        present_after_step(present_after(present, plan.drop_last()), plan.last())
    }
}

/// No step of the plan removes anything.
pub open spec fn additive(plan: Seq<StepModel>) -> bool {
    forall|i: int| 0 <= i < plan.len() ==> !(#[trigger] plan[i] is RemoveFile)
}

/// Two plans that remove nothing make one that removes nothing.
pub proof fn lemma_additive_concat(first: Seq<StepModel>, second: Seq<StepModel>)
    requires
        additive(first),
        additive(second),
    ensures
        additive(first + second),
{
    assert forall|i: int| 0 <= i < (first + second).len() implies !(#[trigger] (first
        + second)[i] is RemoveFile) by {
        if i < first.len() {
            assert((first + second)[i] == first[i]);
        } else {
            assert((first + second)[i] == second[i - first.len()]);
        }
    }
}

/// Carrying out two plans one after the other is carrying out the plan made
/// of both.
pub proof fn lemma_present_after_concat(
    present: Set<PathModel>,
    first: Seq<StepModel>,
    second: Seq<StepModel>,
)
    ensures
        present_after(present, first + second) == present_after(
            present_after(present, first),
            second,
        ),
    decreases second.len(),
{
    if second.len() == 0 {
        assert(first + second =~= first);
    } else {
        assert((first + second).drop_last() =~= first + second.drop_last());
        assert((first + second).last() == second.last());
        lemma_present_after_concat(present, first, second.drop_last());
    }
}

/// After a plan that removes nothing, every directory that one of its steps
/// makes sure of is there.
pub proof fn lemma_additive_plan_ensures(
    present: Set<PathModel>,
    plan: Seq<StepModel>,
    dir: PathModel,
)
    requires
        additive(plan),
        plan.contains(dir_step(dir)),
        dir.len() > 0,
    ensures
        present_after(present, plan).contains(dir),
    decreases plan.len(),
{
    let i = choose|i: int| 0 <= i < plan.len() && plan[i] == dir_step(dir);
    let init = plan.drop_last();
    assert forall|j: int| 0 <= j < init.len() implies !(#[trigger] init[j] is RemoveFile) by {
        assert(init[j] == plan[j]);
    }
    assert(!(plan[plan.len() - 1] is RemoveFile));
    if i == plan.len() - 1 {
        assert(dir.is_prefix_of(dir));
    } else {
        assert(init[i] == dir_step(dir));
        lemma_additive_plan_ensures(present, init, dir);
    }
}

/// The step at `at` is no file, or its file goes into the root or into a
/// directory that an earlier step of the plan made sure of.
pub open spec fn has_parent(plan: Seq<StepModel>, at: int) -> bool {
    plan[at] matches StepModel::WriteFile { path, .. } ==> path.len() <= 1 || exists|before: int|
        0 <= before < at && #[trigger] plan[before] == dir_step(path.drop_last())
}

/// Directories come before their files: every file of the plan goes into
/// the root or into a directory that an earlier step made sure of.
pub open spec fn orderly(plan: Seq<StepModel>) -> bool {
    forall|at: int| 0 <= at < plan.len() ==> has_parent(plan, at)
}

/// Two orderly plans, one after the other, make an orderly plan.
pub proof fn lemma_orderly_concat(first: Seq<StepModel>, second: Seq<StepModel>)
    requires
        orderly(first),
        orderly(second),
    ensures
        orderly(first + second),
{
    let plan = first + second;
    assert forall|at: int| 0 <= at < plan.len() implies has_parent(plan, at) by {
        if at < first.len() {
            assert(has_parent(first, at));
            if let StepModel::WriteFile { path, content } = first[at] {
                if path.len() > 1 {
                    let before = choose|before: int|
                        0 <= before < at && #[trigger] first[before] == dir_step(path.drop_last());
                    assert(plan[before] == first[before]);
                }
            }
        } else {
            let inner = at - first.len();
            assert(has_parent(second, inner));
            if let StepModel::WriteFile { path, content } = second[inner] {
                if path.len() > 1 {
                    let before = choose|before: int|
                        0 <= before < inner && #[trigger] second[before] == dir_step(
                            path.drop_last(),
                        );
                    assert(plan[before + first.len()] == second[before]);
                }
            }
        }
    }
}

/// The paths that the steps of a plan put there.
pub open spec fn plan_paths(plan: Seq<StepModel>) -> Set<PathModel> {
    Set::new(
        |path: PathModel|
            exists|at: int| 0 <= at < plan.len() && step_paths(#[trigger] plan[at]).contains(path),
    )
}

/// A plan that removes nothing adds the paths of its steps to what was
/// there, and nothing else.
pub proof fn lemma_additive_plan_adds(present: Set<PathModel>, plan: Seq<StepModel>)
    requires
        additive(plan),
    ensures
        present_after(present, plan) == present.union(plan_paths(plan)),
    decreases plan.len(),
{
    let after = present_after(present, plan);
    let expected = present.union(plan_paths(plan));
    if plan.len() == 0 {
        assert(after =~= expected);
    } else {
        let init = plan.drop_last();
        let last = plan.last();
        assert forall|j: int| 0 <= j < init.len() implies !(#[trigger] init[j] is RemoveFile) by {
            assert(init[j] == plan[j]);
        }
        assert(!(plan[plan.len() - 1] is RemoveFile));
        lemma_additive_plan_adds(present, init);
        assert forall|path: PathModel| after.contains(path) == expected.contains(path) by {
            if plan_paths(plan).contains(path) {
                let at = choose|at: int|
                    0 <= at < plan.len() && step_paths(#[trigger] plan[at]).contains(path);
                if at < init.len() {
                    assert(init[at] == plan[at]);
                    assert(plan_paths(init).contains(path));
                }
            }
            if plan_paths(init).contains(path) {
                let at = choose|at: int|
                    0 <= at < init.len() && step_paths(#[trigger] init[at]).contains(path);
                assert(plan[at] == init[at]);
            }
            if step_paths(last).contains(path) {
                assert(step_paths(plan[plan.len() - 1]).contains(path));
            }
        }
        assert(after =~= expected);
    }
}

/// The files that the steps of a plan write.
pub open spec fn plan_files(plan: Seq<StepModel>) -> Set<PathModel> {
    Set::new(
        |path: PathModel|
            exists|at: int|
                0 <= at < plan.len() && (#[trigger] plan[at] matches StepModel::WriteFile {
                    path: written,
                    ..
                } && written == path),
    )
}

/// The files of two plans, one after the other, are the files of both.
pub proof fn lemma_plan_files_concat(first: Seq<StepModel>, second: Seq<StepModel>)
    ensures
        plan_files(first + second) == plan_files(first).union(plan_files(second)),
{
    let plan = first + second;
    assert forall|path: PathModel|
        plan_files(plan).contains(path) == plan_files(first).union(plan_files(second)).contains(
            path,
        ) by {
        if plan_files(plan).contains(path) {
            let at = choose|at: int|
                0 <= at < plan.len() && (#[trigger] plan[at] matches StepModel::WriteFile {
                    path: written,
                    ..
                } && written == path);
            if at < first.len() {
                assert(first[at] == plan[at]);
            } else {
                assert(second[at - first.len()] == plan[at]);
            }
        }
        if plan_files(first).contains(path) {
            let at = choose|at: int|
                0 <= at < first.len() && (#[trigger] first[at] matches StepModel::WriteFile {
                    path: written,
                    ..
                } && written == path);
            assert(plan[at] == first[at]);
        }
        if plan_files(second).contains(path) {
            let at = choose|at: int|
                0 <= at < second.len() && (#[trigger] second[at] matches StepModel::WriteFile {
                    path: written,
                    ..
                } && written == path);
            assert(plan[at + first.len()] == second[at]);
        }
    }
    assert(plan_files(plan) =~= plan_files(first).union(plan_files(second)));
}

} // verus!
