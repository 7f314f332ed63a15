//! Lists of features: one report for every listed name, whatever became
//! of the names before it.

use crate::args::AddCommand;
use crate::error::ScaffoldError;
use crate::feature::{
    feature_base, feature_outcome, feature_plan, materialize_layers, names_accepted, plan_view,
    resolve_base_path,
};
use crate::path::{is_listed, PathModel, RelPath};
use crate::step::{extend, str_view, text_view, Step, StepModel};
use crate::text::{split, split_on, trim, trimmed};
use vstd::prelude::*;
use vstd::string::*;

verus! {

/// What became of one name of a list, as plain data.
pub ghost struct ReportModel {
    /// The trimmed name.
    pub feature: Seq<char>,
    /// The plan for it, or why there is none.
    pub outcome: Result<Seq<StepModel>, ScaffoldError>,
}

/// What became of one name of a list.
#[derive(Debug, PartialEq, Eq)]
pub struct FeatureReport {
    /// The trimmed name.
    pub feature: String,
    /// The plan for it, or why there is none.
    pub outcome: Result<Vec<Step>, ScaffoldError>,
}

impl View for FeatureReport {
    type V = ReportModel;

    open spec fn view(&self) -> ReportModel {
        ReportModel { feature: self.feature@, outcome: plan_view(self.outcome) }
    }
}

impl DeepView for FeatureReport {
    type V = ReportModel;

    open spec fn deep_view(&self) -> ReportModel {
        self.view()
    }
}

/// What is known to be there once a request has been answered: a planned
/// feature counts as present for the requests that follow it.
pub open spec fn present_then(
    feature: Seq<char>,
    sub_feature: Option<Seq<char>>,
    present: Set<PathModel>,
) -> Set<PathModel> {
    if feature_outcome(feature, sub_feature, present) is Ok {
        present.insert(feature_base(feature, sub_feature))
    } else {
        present
    }
}

/// The reports for a list of names, in the order of the list. Every name is
/// answered, whatever became of the names before it.
pub open spec fn batch_reports(
    names: Seq<Seq<char>>,
    sub_feature: Option<Seq<char>>,
    present: Set<PathModel>,
) -> Seq<ReportModel>
    decreases names.len(),
{
    if names.len() == 0 {
        Seq::empty()
    } else {
        seq![
            ReportModel {
                feature: trimmed(names[0]),
                outcome: feature_outcome(names[0], sub_feature, present),
            },
        ] + batch_reports(names.skip(1), sub_feature, present_then(names[0], sub_feature, present))
    }
}

/// A copy of the listed paths.
fn copy_paths(paths: &Vec<RelPath>) -> (copy: Vec<RelPath>)
    ensures
        copy.deep_view() == paths.deep_view(),
{
    let mut copy: Vec<RelPath> = Vec::new();
    let mut i: usize = 0;
    while i < paths.len()
        invariant
            i <= paths.len(),
            copy.deep_view() == paths.deep_view().take(i as int),
        decreases paths.len() - i,
    {
        let ghost before = copy.deep_view();
        let path = paths[i].duplicate();
        copy.push(path);
        proof {
            assert(copy.deep_view() =~= before.push(path@));
            assert(paths.deep_view().take(i + 1) =~= before.push(paths.deep_view()[i as int]));
        }
        i += 1;
    }
    proof {
        assert(paths.deep_view().take(paths.len() as int) =~= paths.deep_view());
    }
    copy
}

/// The borrowed form of an optional text.
fn as_option_str(text: &Option<String>) -> (borrowed: Option<&str>)
    ensures
        str_view(borrowed) == text_view(*text),
{
    match text {
        Some(t) => Some(t.as_str()),
        None => None,
    }
}

/// The reports for the features that `command` lists, with commas between
/// their names, in the order of the list. `present` lists the paths that are
/// there already. Each name gets the plan or the refusal that `add_feature`
/// owes it; a refusal does not stop the list, and a feature that was planned
/// counts as present for the names after it.
pub fn add_features(command: &AddCommand, present: &Vec<RelPath>) -> (reports: Vec<FeatureReport>)
    ensures
        reports.deep_view() == batch_reports(
            split_on(command.feature@, ','),
            text_view(command.sub_feature),
            present.deep_view().to_set(),
        ),
{
    let names = split(command.feature.as_str(), ',');
    let sub_feature = as_option_str(&command.sub_feature);
    let ghost all = names.deep_view();
    let ghost sub = text_view(command.sub_feature);
    let mut known = copy_paths(present);
    let mut reports: Vec<FeatureReport> = Vec::new();
    let mut i: usize = 0;
    proof {
        assert(all.skip(0) =~= all);
        assert(reports.deep_view() =~= Seq::<ReportModel>::empty());
        assert(Seq::<ReportModel>::empty() + batch_reports(all, sub, present.deep_view().to_set())
            =~= batch_reports(all, sub, present.deep_view().to_set()));
    }
    while i < names.len()
        invariant
            i <= names.len(),
            all == names.deep_view(),
            sub == str_view(sub_feature),
            batch_reports(all, sub, present.deep_view().to_set()) == reports.deep_view()
                + batch_reports(all.skip(i as int), sub, known.deep_view().to_set()),
        decreases names.len() - i,
    {
        let name = names[i].as_str();
        let ghost rest = all.skip(i as int);
        let ghost before = reports.deep_view();
        let ghost known_before = known.deep_view();
        proof {
            assert(rest[0] == name@);
            assert(rest.skip(1) =~= all.skip(i + 1));
        }
        let outcome = match resolve_base_path(name, sub_feature) {
            Err(error) => Err(error),
            Ok(base) => {
                if is_listed(&known, &base.path) {
                    Err(ScaffoldError::AlreadyExists)
                } else {
                    let mut steps = base.steps;
                    extend(&mut steps, materialize_layers(&base.path, &base.name));
                    known.push(base.path);
                    proof {
                        let added = feature_base(name@, sub);
                        assert(known.deep_view() =~= known_before.push(added));
                        assert forall|p: PathModel|
                            known.deep_view().to_set().contains(p) == known_before.to_set().insert(
                                added,
                            ).contains(p) by {
                            if known_before.contains(p) {
                                let k = choose|k: int|
                                    0 <= k < known_before.len() && known_before[k] == p;
                                assert(known.deep_view()[k] == p);
                            }
                            if p == added {
                                assert(known.deep_view()[known_before.len() as int] == p);
                            }
                        }
                        assert(known.deep_view().to_set() =~= known_before.to_set().insert(added));
                    }
                    Ok(steps)
                }
            },
        };
        let report = FeatureReport { feature: trim(name), outcome };
        proof {
            assert(report@.outcome == feature_outcome(name@, sub, known_before.to_set()));
            assert(known.deep_view().to_set() == present_then(name@, sub, known_before.to_set()));
        }
        reports.push(report);
        proof {
            let tail = batch_reports(rest.skip(1), sub, known.deep_view().to_set());
            assert(reports.deep_view() =~= before.push(report@));
            assert(before + (seq![report@] + tail) =~= before.push(report@) + tail);
        }
        i += 1;
    }
    proof {
        assert(reports.deep_view() + Seq::<ReportModel>::empty() =~= reports.deep_view());
    }
    reports
}

/// Every name of a list gets its report, in the order of the list.
pub proof fn lemma_batch_answers_every_name(
    names: Seq<Seq<char>>,
    sub_feature: Option<Seq<char>>,
    present: Set<PathModel>,
)
    ensures
        batch_reports(names, sub_feature, present).len() == names.len(),
        forall|i: int|
            0 <= i < names.len() ==> (#[trigger] batch_reports(
                names,
                sub_feature,
                present,
            )[i]).feature == trimmed(names[i]),
    decreases names.len(),
{
    if names.len() > 0 {
        let rest = names.skip(1);
        let known = present_then(names[0], sub_feature, present);
        lemma_batch_answers_every_name(rest, sub_feature, known);
        assert forall|i: int| 0 <= i < names.len() implies (#[trigger] batch_reports(
            names,
            sub_feature,
            present,
        )[i]).feature == trimmed(names[i]) by {
            if i > 0 {
                assert(batch_reports(names, sub_feature, present)[i] == batch_reports(
                    rest,
                    sub_feature,
                    known,
                )[i - 1]);
                assert(rest[i - 1] == names[i]);
            }
        }
    }
}

/// What is known to be there when the name at `upto` of a list is reached.
pub open spec fn present_at(
    names: Seq<Seq<char>>,
    sub_feature: Option<Seq<char>>,
    present: Set<PathModel>,
    upto: int,
) -> Set<PathModel>
    decreases upto,
{
    if upto <= 0 {
        present
    } else {
        present_then(
            names[upto - 1],
            sub_feature,
            present_at(names, sub_feature, present, upto - 1),
        )
    }
}

/// The report of a name is what `add_feature` owes it, given what was there
/// at first and the features that were planned for the names before it.
/// What was refused before it changes nothing.
pub proof fn lemma_batch_report(
    names: Seq<Seq<char>>,
    sub_feature: Option<Seq<char>>,
    present: Set<PathModel>,
    i: int,
)
    requires
        0 <= i < names.len(),
    ensures
        batch_reports(names, sub_feature, present).len() == names.len(),
        batch_reports(names, sub_feature, present)[i].outcome == feature_outcome(
            names[i],
            sub_feature,
            present_at(names, sub_feature, present, i),
        ),
    decreases names.len(),
{
    lemma_batch_answers_every_name(names, sub_feature, present);
    if i > 0 {
        let rest = names.skip(1);
        let known = present_then(names[0], sub_feature, present);
        lemma_batch_report(rest, sub_feature, known, i - 1);
        lemma_batch_answers_every_name(rest, sub_feature, known);
        assert(batch_reports(names, sub_feature, present)[i] == batch_reports(
            rest,
            sub_feature,
            known,
        )[i - 1]);
        lemma_present_at_shift(names, sub_feature, present, i);
    }
}

/// What is known at a name does not depend on how the list is cut.
proof fn lemma_present_at_shift(
    names: Seq<Seq<char>>,
    sub_feature: Option<Seq<char>>,
    present: Set<PathModel>,
    upto: int,
)
    requires
        1 <= upto <= names.len(),
    ensures
        present_at(names, sub_feature, present, upto) == present_at(
            names.skip(1),
            sub_feature,
            present_then(names[0], sub_feature, present),
            upto - 1,
        ),
    decreases upto,
{
    let known = present_then(names[0], sub_feature, present);
    if upto > 1 {
        lemma_present_at_shift(names, sub_feature, present, upto - 1);
        assert(names.skip(1)[upto - 2] == names[upto - 1]);
    } else {
        assert(present_at(names, sub_feature, present, 0) == present);
        assert(present_at(names.skip(1), sub_feature, known, 0) == known);
    }
}

/// What is known at a name is what was there at first, and the directories
/// of names before it.
pub proof fn lemma_present_at_bounds(
    names: Seq<Seq<char>>,
    sub_feature: Option<Seq<char>>,
    present: Set<PathModel>,
    upto: int,
    path: PathModel,
)
    requires
        0 <= upto <= names.len(),
        present_at(names, sub_feature, present, upto).contains(path),
    ensures
        present.contains(path) || exists|j: int|
            0 <= j < upto && path == feature_base(#[trigger] names[j], sub_feature),
    decreases upto,
{
    if upto > 0 {
        let before = present_at(names, sub_feature, present, upto - 1);
        if before.contains(path) {
            lemma_present_at_bounds(names, sub_feature, present, upto - 1, path);
        } else {
            assert(path == feature_base(names[upto - 1], sub_feature));
        }
    }
}

/// A name of a list whose feature is new gets its plan, whatever became of
/// the other names: it is enough that the name is accepted, that its
/// directory was not there at first, and that no name before it has the same
/// directory.
pub proof fn lemma_batch_plans_the_new(
    names: Seq<Seq<char>>,
    sub_feature: Option<Seq<char>>,
    present: Set<PathModel>,
    i: int,
)
    requires
        0 <= i < names.len(),
        names_accepted(names[i], sub_feature),
        !present.contains(feature_base(names[i], sub_feature)),
        forall|j: int|
            0 <= j < i ==> feature_base(#[trigger] names[j], sub_feature) != feature_base(
                names[i],
                sub_feature,
            ),
    ensures
        batch_reports(names, sub_feature, present).len() == names.len(),
        batch_reports(names, sub_feature, present)[i].outcome == Ok::<
            Seq<StepModel>,
            ScaffoldError,
        >(feature_plan(names[i], sub_feature)),
{
    lemma_batch_report(names, sub_feature, present, i);
    let known = present_at(names, sub_feature, present, i);
    let base = feature_base(names[i], sub_feature);
    if known.contains(base) {
        lemma_present_at_bounds(names, sub_feature, present, i, base);
    }
}

/// The reports of a list depend on what is there only through the
/// directories of the listed features: two accounts of what is there that
/// agree on those directories give the same reports.
pub proof fn lemma_batch_needs_only_bases(
    names: Seq<Seq<char>>,
    sub_feature: Option<Seq<char>>,
    present: Set<PathModel>,
    reported: Set<PathModel>,
)
    requires
        forall|i: int|
            0 <= i < names.len() && names_accepted(#[trigger] names[i], sub_feature)
                ==> (present.contains(feature_base(names[i], sub_feature))
                <==> reported.contains(feature_base(names[i], sub_feature))),
    ensures
        batch_reports(names, sub_feature, present) == batch_reports(names, sub_feature, reported),
    decreases names.len(),
{
    if names.len() > 0 {
        let rest = names.skip(1);
        assert(names_accepted(names[0], sub_feature) ==> (present.contains(
            feature_base(names[0], sub_feature),
        ) <==> reported.contains(feature_base(names[0], sub_feature))));
        let known = present_then(names[0], sub_feature, present);
        let told = present_then(names[0], sub_feature, reported);
        assert forall|i: int|
            0 <= i < rest.len() && names_accepted(#[trigger] rest[i], sub_feature) implies (
        known.contains(feature_base(rest[i], sub_feature)) <==> told.contains(
            feature_base(rest[i], sub_feature),
        )) by {
            assert(rest[i] == names[i + 1]);
        }
        lemma_batch_needs_only_bases(rest, sub_feature, known, told);
    }
}

} // verus!
