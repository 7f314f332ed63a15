//! From a command to the work it asks for.
//!
//! The caller looks up which of the paths of `probes` are there, hands that
//! list to `plan`, and carries out what comes back.

use crate::args::{RudderArgs, RudderCommand};
use crate::batch::{
    add_features, batch_reports, lemma_batch_needs_only_bases, FeatureReport, ReportModel,
};
use crate::deps::{add_dependencies, install_line, shell_invocation, CommandModel, ShellCommand};
use crate::error::ScaffoldError;
use crate::feature::{feature_base, names_accepted, plan_view, resolve_base_path, LIB, SRC};
use crate::path::{PathModel, RelPath};
use crate::project::{
    create_project_structure, env_file, main_file, marker_dir, project_outcome, ENV_FILE,
    MAIN_FILE,
};
use crate::step::{str_view, text_view, Step, StepModel};
use crate::text::{split, split_on};
use vstd::prelude::*;
use vstd::string::*;

verus! {

/// The paths that decide what becomes of the names of a list: for every
/// name that is accepted, the directory of its feature.
pub open spec fn feature_probes(names: Seq<Seq<char>>, sub_feature: Option<Seq<char>>) -> Seq<
    PathModel,
>
    decreases names.len(),
{
    if names.len() == 0 {
        Seq::empty()
    } else {
        feature_probes(names.drop_last(), sub_feature) + (if names_accepted(
            names.last(),
            sub_feature,
        ) {
            seq![feature_base(names.last(), sub_feature)]
        } else {
            Seq::empty()
        })
    }
}

/// The paths that decide what becomes of a command. For `create`: `.env`,
/// `lib/src` and `lib/main.dart`.
pub open spec fn probe_paths(command: RudderCommand) -> Seq<PathModel> {
    match command {
        RudderCommand::Create => seq![env_file(), marker_dir(), main_file()],
        RudderCommand::Add(add) => feature_probes(
            split_on(add.feature@, ','),
            text_view(add.sub_feature),
        ),
    }
}

/// The work that a command asks for, as plain data.
pub ghost enum WorkModel {
    /// For `create`: the plan of the project, or why there is none, and the
    /// commands that install the dependencies once the plan is carried out.
    Project { outcome: Result<Seq<StepModel>, ScaffoldError>, installs: Seq<CommandModel> },
    /// For `add`: one report for each listed name.
    Features { reports: Seq<ReportModel> },
}

/// The work that a command asks for.
#[derive(Debug, PartialEq, Eq)]
pub enum Work {
    /// For `create`: the plan of the project, or why there is none, and the
    /// commands that install the dependencies once the plan is carried out.
    Project { outcome: Result<Vec<Step>, ScaffoldError>, installs: Vec<ShellCommand> },
    /// For `add`: one report for each listed name.
    Features { reports: Vec<FeatureReport> },
}

impl View for Work {
    type V = WorkModel;

    open spec fn view(&self) -> WorkModel {
        match *self {
            Work::Project { outcome, installs } => WorkModel::Project {
                outcome: plan_view(outcome),
                installs: installs.deep_view(),
            },
            Work::Features { reports } => WorkModel::Features { reports: reports.deep_view() },
        }
    }
}

/// The work that a command asks for, given the paths that are there and the
/// kind of shell that the host has. A project that is refused installs
/// nothing.
pub open spec fn work_for(
    command: RudderCommand,
    present: Set<PathModel>,
    windows: bool,
) -> WorkModel {
    match command {
        RudderCommand::Create => WorkModel::Project {
            outcome: project_outcome(present),
            installs: if project_outcome(present) is Ok {
                seq![
                    shell_invocation(windows, install_line(false)),
                    shell_invocation(windows, install_line(true)),
                ]
            } else {
                Seq::empty()
            },
        },
        RudderCommand::Add(add) => WorkModel::Features {
            reports: batch_reports(
                split_on(add.feature@, ','),
                text_view(add.sub_feature),
                present,
            ),
        },
    }
}

/// The paths whose presence the caller has to look up before `plan`.
pub fn probes(args: &RudderArgs) -> (paths: Vec<RelPath>)
    ensures
        paths.deep_view() == probe_paths(args.command),
{
    let mut paths: Vec<RelPath> = Vec::new();
    match &args.command {
        RudderCommand::Create => {
            let root = RelPath::root();
            let lib = root.join(LIB);
            paths.push(root.join(ENV_FILE));
            paths.push(lib.join(SRC));
            paths.push(lib.join(MAIN_FILE));
            proof {
                assert(paths.deep_view()[0] =~= env_file());
                assert(paths.deep_view()[1] =~= marker_dir());
                assert(paths.deep_view()[2] =~= main_file());
                assert(paths.deep_view() =~= probe_paths(args.command));
            }
        },
        RudderCommand::Add(add) => {
            let names = split(add.feature.as_str(), ',');
            let sub_feature: Option<&str> = match &add.sub_feature {
                Some(sub) => Some(sub.as_str()),
                None => None,
            };
            let ghost all = names.deep_view();
            let ghost sub = text_view(add.sub_feature);
            let mut i: usize = 0;
            proof {
                assert(paths.deep_view() =~= Seq::<PathModel>::empty());
            }
            while i < names.len()
                invariant
                    i <= names.len(),
                    all == names.deep_view(),
                    sub == str_view(sub_feature),
                    paths.deep_view() == feature_probes(all.take(i as int), sub),
                decreases names.len() - i,
            {
                let ghost before = paths.deep_view();
                proof {
                    assert(all.take(i + 1).drop_last() =~= all.take(i as int));
                    assert(all.take(i + 1).last() == names[i as int]@);
                }
                match resolve_base_path(names[i].as_str(), sub_feature) {
                    Ok(base) => {
                        paths.push(base.path);
                        proof {
                            assert(paths.deep_view() =~= before + seq![base.path@]);
                        }
                    },
                    Err(_) => {
                        proof {
                            assert(before + Seq::<PathModel>::empty() =~= before);
                        }
                    },
                }
                i += 1;
            }
            proof {
                assert(all.take(all.len() as int) =~= all);
            }
        },
    }
    paths
}

/// The work that the command asks for. `present` lists the paths that are
/// there already, and `windows` says which shell the host has.
pub fn plan(args: &RudderArgs, present: &Vec<RelPath>, windows: bool) -> (work: Work)
    ensures
        work@ == work_for(args.command, present.deep_view().to_set(), windows),
{
    match &args.command {
        RudderCommand::Create => {
            let outcome = create_project_structure(present);
            let installs = if outcome.is_ok() {
                add_dependencies(windows)
            } else {
                let none: Vec<ShellCommand> = Vec::new();
                proof {
                    assert(none.deep_view() =~= Seq::<CommandModel>::empty());
                }
                none
            };
            Work::Project { outcome, installs }
        },
        RudderCommand::Add(add) => Work::Features { reports: add_features(add, present) },
    }
}

/// One of the reports refuses its name as not accepted.
pub open spec fn any_rejected(reports: Seq<ReportModel>) -> bool {
    exists|i: int|
        0 <= i < reports.len() && (#[trigger] reports[i]).outcome == Err::<
            Seq<StepModel>,
            ScaffoldError,
        >(ScaffoldError::InvalidName)
}

/// Whether the work went well: `failed` says that a step or a command could
/// not be carried out. A project that is refused did not go well, nor did a
/// list with a name that is not accepted; a feature that is skipped because
/// it is there already is no failure.
pub open spec fn went_well(work: WorkModel, failed: bool) -> bool {
    !failed && match work {
        WorkModel::Project { outcome, installs } => outcome is Ok,
        WorkModel::Features { reports } => !any_rejected(reports),
    }
}

/// The exit code of the program: 0 when the work went well, 1 when it did not.
pub fn exit_code(work: &Work, failed: bool) -> (code: i32)
    ensures
        code == if went_well(work@, failed) {
            0i32
        } else {
            1i32
        },
{
    if failed {
        return 1;
    }
    match work {
        Work::Project { outcome, installs } => {
            if outcome.is_ok() {
                0
            } else {
                1
            }
        },
        Work::Features { reports } => {
            let mut i: usize = 0;
            while i < reports.len()
                invariant
                    i <= reports.len(),
                    !failed,
                    work@ == (WorkModel::Features { reports: reports.deep_view() }),
                    !any_rejected(reports.deep_view().take(i as int)),
                decreases reports.len() - i,
            {
                let rejected = match &reports[i].outcome {
                    Err(ScaffoldError::InvalidName) => true,
                    _ => false,
                };
                if rejected {
                    proof {
                        assert(reports.deep_view()[i as int].outcome == Err::<
                            Seq<StepModel>,
                            ScaffoldError,
                        >(ScaffoldError::InvalidName));
                    }
                    return 1;
                }
                proof {
                    let upto = reports.deep_view().take(i + 1);
                    if any_rejected(upto) {
                        let k = choose|k: int|
                            0 <= k < upto.len() && (#[trigger] upto[k]).outcome == Err::<
                                Seq<StepModel>,
                                ScaffoldError,
                            >(ScaffoldError::InvalidName);
                        if k < i {
                            assert(reports.deep_view().take(i as int)[k] == upto[k]);
                        }
                    }
                }
                i += 1;
            }
            proof {
                assert(reports.deep_view().take(reports.len() as int) =~= reports.deep_view());
            }
            0
        },
    }
}

/// The directory of every accepted name of a list is among the probes.
pub proof fn lemma_probes_cover_the_list(
    names: Seq<Seq<char>>,
    sub_feature: Option<Seq<char>>,
    i: int,
)
    requires
        0 <= i < names.len(),
        names_accepted(names[i], sub_feature),
    ensures
        feature_probes(names, sub_feature).contains(feature_base(names[i], sub_feature)),
    decreases names.len(),
{
    let init = feature_probes(names.drop_last(), sub_feature);
    let all = feature_probes(names, sub_feature);
    if i == names.len() - 1 {
        assert(all[init.len() as int] == feature_base(names[i], sub_feature));
    } else {
        lemma_probes_cover_the_list(names.drop_last(), sub_feature, i);
        assert(names.drop_last()[i] == names[i]);
        let k = choose|k: int|
            0 <= k < init.len() && init[k] == feature_base(names[i], sub_feature);
        assert(all[k] == init[k]);
    }
}

/// The work depends on what is there only through the probes: a caller who
/// looks up the probes and nothing else gets the work that full knowledge of
/// what is there would give.
pub proof fn lemma_plan_needs_only_probes(
    command: RudderCommand,
    present: Set<PathModel>,
    reported: Set<PathModel>,
    windows: bool,
)
    requires
        forall|path: PathModel| #[trigger]
            probe_paths(command).contains(path) ==> (present.contains(path)
                <==> reported.contains(path)),
    ensures
        work_for(command, present, windows) == work_for(command, reported, windows),
{
    let paths = probe_paths(command);
    match command {
        RudderCommand::Create => {
            assert(paths[0] == env_file());
            assert(paths[1] == marker_dir());
            assert(paths[2] == main_file());
            assert(paths.contains(env_file()));
            assert(paths.contains(marker_dir()));
            assert(paths.contains(main_file()));
        },
        RudderCommand::Add(add) => {
            let names = split_on(add.feature@, ',');
            let sub = text_view(add.sub_feature);
            assert forall|i: int|
                0 <= i < names.len() && names_accepted(#[trigger] names[i], sub) implies (
            present.contains(feature_base(names[i], sub)) <==> reported.contains(
                feature_base(names[i], sub),
            )) by {
                lemma_probes_cover_the_list(names, sub, i);
            }
            lemma_batch_needs_only_bases(names, sub, present, reported);
        },
    }
}

} // verus!
