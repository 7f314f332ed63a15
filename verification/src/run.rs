//! Carrying out the work, one task after the other: where to start, and
//! where to go on after a task that was done or that failed.
//!
//! A task that fails ends what it belongs to. In a list of features the
//! rest of the plan of that feature is left out and the next feature is
//! taken up. For a project everything ends there: a step that fails leaves
//! what was written before it and nothing is installed, and a command that
//! cannot be run keeps the commands after it from being run.

use crate::cli::{Work, WorkModel};
use crate::deps::{CommandModel, ShellCommand};
use crate::step::{Step, StepModel};
use vstd::prelude::*;

verus! {

/// A place in the work, as plain numbers.
pub ghost enum PlaceModel {
    /// The step `item` of the plan `group`.
    Step { group: int, item: int },
    /// The command `item`.
    Command { item: int },
}

/// A place in the work: a step of a plan, or a command. The plan of a
/// project is the plan 0; in a list, the plan of the name `n` is the plan
/// `n`.
#[derive(Clone, Copy, Debug, PartialEq, Eq, Structural)]
pub enum Place {
    /// The step `item` of the plan `group`.
    Step { group: usize, item: usize },
    /// The command `item`.
    Command { item: usize },
}

impl View for Place {
    type V = PlaceModel;

    open spec fn view(&self) -> PlaceModel {
        match *self {
            Place::Step { group, item } => PlaceModel::Step {
                group: group as int,
                item: item as int,
            },
            Place::Command { item } => PlaceModel::Command { item: item as int },
        }
    }
}

/// A place or none, as plain numbers.
pub open spec fn place_view(place: Option<Place>) -> Option<PlaceModel> {
    match place {
        Some(at) => Some(at@),
        None => None,
    }
}

/// One task: a step of a plan, or a command to run.
#[derive(Debug, PartialEq, Eq)]
pub enum Task<'a> {
    /// A step to carry out.
    Step(&'a Step),
    /// A command to run.
    Command(&'a ShellCommand),
}

/// One task, as plain data.
pub ghost enum TaskModel {
    /// A step to carry out.
    Step(StepModel),
    /// A command to run.
    Command(CommandModel),
}

/// A task or none, as plain data.
pub open spec fn task_view(task: Option<Task>) -> Option<TaskModel> {
    match task {
        Some(Task::Step(step)) => Some(TaskModel::Step(step@)),
        Some(Task::Command(command)) => Some(TaskModel::Command(command@)),
        None => None,
    }
}

/// The plan `group` of the work: empty where there is none.
pub open spec fn plan_of(work: WorkModel, group: int) -> Seq<StepModel> {
    match work {
        WorkModel::Project { outcome, installs } => match outcome {
            Ok(steps) => if group == 0 {
                steps
            } else {
                Seq::empty()
            },
            Err(error) => Seq::empty(),
        },
        WorkModel::Features { reports } => if 0 <= group < reports.len() {
            match reports[group].outcome {
                Ok(steps) => steps,
                Err(error) => Seq::empty(),
            }
        } else {
            Seq::empty()
        },
    }
}

/// The commands of the work: none for a list, and none for a project that
/// was refused.
pub open spec fn commands_of(work: WorkModel) -> Seq<CommandModel> {
    match work {
        WorkModel::Project { outcome, installs } => if outcome is Ok {
            installs
        } else {
            Seq::empty()
        },
        WorkModel::Features { reports } => Seq::empty(),
    }
}

/// The number of plans of the work, refused ones counted.
pub open spec fn plan_count(work: WorkModel) -> nat {
    match work {
        WorkModel::Project { outcome, installs } => 1,
        WorkModel::Features { reports } => reports.len(),
    }
}

/// The task at a place of the work, or none where the work has no task.
pub open spec fn task_of(work: WorkModel, at: PlaceModel) -> Option<TaskModel> {
    match at {
        PlaceModel::Step { group, item } => if 0 <= item < plan_of(work, group).len() {
            Some(TaskModel::Step(plan_of(work, group)[item]))
        } else {
            None
        },
        PlaceModel::Command { item } => if 0 <= item < commands_of(work).len() {
            Some(TaskModel::Command(commands_of(work)[item]))
        } else {
            None
        },
    }
}

/// The first step of the first plan, from the plan `from` on, that has a
/// step; after the plans, the first command, if there is one.
pub open spec fn seek(work: WorkModel, from: int) -> Option<PlaceModel>
    decreases plan_count(work) - from,
{
    if from < 0 || from >= plan_count(work) {
        if commands_of(work).len() > 0 {
            Some(PlaceModel::Command { item: 0 })
        } else {
            None
        }
    } else if plan_of(work, from).len() > 0 {
        Some(PlaceModel::Step { group: from, item: 0 })
    } else {
        seek(work, from + 1)
    }
}

/// Where the work starts.
pub open spec fn first_place(work: WorkModel) -> Option<PlaceModel> {
    seek(work, 0)
}

/// Where the work goes on after the task at `at`, which was done or failed.
/// After a place where the work has no task nothing follows. After a task
/// that was done comes the next step of its plan, then the next plan, then
/// the commands in their order. After a task that failed, a list goes on
/// with the next plan, and a project ends.
pub open spec fn next_place(work: WorkModel, at: PlaceModel, done: bool) -> Option<PlaceModel> {
    if task_of(work, at) is None {
        None
    } else if !done && work is Project {
        None
    } else {
        match at {
            PlaceModel::Step { group, item } => if done && item + 1 < plan_of(work, group).len() {
                Some(PlaceModel::Step { group, item: item + 1 })
            } else {
                seek(work, group + 1)
            },
            PlaceModel::Command { item } => if item + 1 < commands_of(work).len() {
                Some(PlaceModel::Command { item: item + 1 })
            } else {
                None
            },
        }
    }
}

/// The plan `group` of the work, if the work has such a plan.
fn plan_at(work: &Work, group: usize) -> (plan: Option<&Vec<Step>>)
    ensures
        match plan {
            Some(steps) => steps.deep_view() == plan_of(work@, group as int),
            None => plan_of(work@, group as int).len() == 0,
        },
{
    match work {
        Work::Project { outcome, installs } => match outcome {
            Ok(steps) => if group == 0 {
                Some(steps)
            } else {
                None
            },
            Err(error) => None,
        },
        Work::Features { reports } => if group < reports.len() {
            match &reports[group].outcome {
                Ok(steps) => Some(steps),
                Err(error) => None,
            }
        } else {
            None
        },
    }
}

/// The commands of the work, if it has any.
fn commands(work: &Work) -> (list: Option<&Vec<ShellCommand>>)
    ensures
        match list {
            Some(installs) => installs.deep_view() == commands_of(work@),
            None => commands_of(work@).len() == 0,
        },
{
    match work {
        Work::Project { outcome, installs } => if outcome.is_ok() {
            Some(installs)
        } else {
            None
        },
        Work::Features { reports } => None,
    }
}

/// The number of plans of the work.
fn plans(work: &Work) -> (count: usize)
    ensures
        count == plan_count(work@),
{
    match work {
        Work::Project { outcome, installs } => 1,
        Work::Features { reports } => reports.len(),
    }
}

/// The task at the place `at` of the work, or none where the work has no task.
pub fn task_at<'a>(work: &'a Work, at: Place) -> (task: Option<Task<'a>>)
    ensures
        task_view(task) == task_of(work@, at@),
{
    match at {
        Place::Step { group, item } => match plan_at(work, group) {
            Some(steps) => if item < steps.len() {
                Some(Task::Step(&steps[item]))
            } else {
                None
            },
            None => None,
        },
        Place::Command { item } => match commands(work) {
            Some(installs) => if item < installs.len() {
                Some(Task::Command(&installs[item]))
            } else {
                None
            },
            None => None,
        },
    }
}

/// The first step of the first plan, from the plan `from` on, that has a
/// step; after the plans, the first command, if there is one.
fn seek_from(work: &Work, from: usize) -> (place: Option<Place>)
    ensures
        place_view(place) == seek(work@, from as int),
{
    let count = plans(work);
    let mut group: usize = from;
    while group < count
        invariant
            count == plan_count(work@),
            from <= group,
            seek(work@, from as int) == seek(work@, group as int),
        decreases count - group,
    {
        match plan_at(work, group) {
            Some(steps) => {
                if steps.len() > 0 {
                    return Some(Place::Step { group, item: 0 });
                }
            },
            None => {},
        }
        group += 1;
    }
    match commands(work) {
        Some(installs) => if installs.len() > 0 {
            Some(Place::Command { item: 0 })
        } else {
            None
        },
        None => None,
    }
}

/// Where the work starts: at the first step of the first plan that has one,
/// or at the first command, or nowhere when there is nothing to do.
pub fn first(work: &Work) -> (place: Option<Place>)
    ensures
        place_view(place) == first_place(work@),
{
    seek_from(work, 0)
}

/// Where the work goes on after the task at `at`: `done` says whether the
/// task was carried out or failed.
pub fn next(work: &Work, at: Place, done: bool) -> (place: Option<Place>)
    ensures
        place_view(place) == next_place(work@, at@, done),
{
    if task_at(work, at).is_none() {
        return None;
    }
    let project = match work {
        Work::Project { outcome, installs } => true,
        Work::Features { reports } => false,
    };
    if !done && project {
        return None;
    }
    match at {
        Place::Step { group, item } => {
            let more = match plan_at(work, group) {
                Some(steps) => done && item < steps.len() - 1,
                None => false,
            };
            if more {
                Some(Place::Step { group, item: item + 1 })
            } else {
                let count = plans(work);
                assert(group < count);
                seek_from(work, group + 1)
            }
        },
        Place::Command { item } => {
            let more = match commands(work) {
                Some(installs) => item < installs.len() - 1,
                None => false,
            };
            if more {
                Some(Place::Command { item: item + 1 })
            } else {
                None
            }
        },
    }
}

/// A project ends with the first task that fails: the steps after a step
/// that failed are left out and nothing is installed, and after a command
/// that could not be run no other command is run.
pub proof fn lemma_project_ends_at_a_failure(work: WorkModel, at: PlaceModel)
    requires
        work is Project,
    ensures
        next_place(work, at, false) is None,
{
}

/// A list goes on after a failure: what follows a step that failed is what
/// would have followed the last step of its plan, had all of the plan been
/// carried out.
pub proof fn lemma_list_goes_on_after_a_failure(work: WorkModel, group: int, item: int)
    requires
        work is Features,
        0 <= item < plan_of(work, group).len(),
    ensures
        next_place(work, PlaceModel::Step { group, item }, false) == next_place(
            work,
            PlaceModel::Step { group, item: plan_of(work, group).len() - 1 },
            true,
        ),
        next_place(work, PlaceModel::Step { group, item }, false) == seek(work, group + 1),
{
}

/// The commands come after the plan: while a step of the plan of a project
/// is still to be carried out, no command is run, and every step follows
/// the one before it.
pub proof fn lemma_steps_come_in_order(work: WorkModel, group: int, item: int)
    requires
        0 <= item,
        item + 1 < plan_of(work, group).len(),
    ensures
        next_place(work, PlaceModel::Step { group, item }, true) == Some(
            PlaceModel::Step { group, item: item + 1 },
        ),
{
}

} // verus!
