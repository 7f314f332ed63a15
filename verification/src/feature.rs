//! Features: where a feature lives, what its four layers hold, and the plan
//! that adds one feature or a list of them.

use crate::dart::{
    APPLICATION_SERVICE, CONTROLLER, FAKE_LOCAL_REPOSITORY, FAKE_REMOTE_REPOSITORY,
    LOCAL_REPOSITORY, REMOTE_REPOSITORY, STATELESS_WIDGET,
};
use crate::error::ScaffoldError;
use crate::name::{
    acceptable, forms, lemma_blank_name_is_invalid, name_forms, normalize, valid_name, NameModel,
    NormalizedName,
};
use crate::path::{is_listed, PathModel, RelPath};
use crate::step::{
    additive, create_file, create_folder, dir_step, extend, file_step, has_parent,
    lemma_additive_concat, lemma_additive_plan_adds, lemma_additive_plan_ensures,
    lemma_orderly_concat, lemma_plan_files_concat, orderly, plan_files, plan_paths,
    present_after, str_view, Step, StepModel,
};
use crate::template::{expand, render};
use crate::text::{all_space, trimmed};
use vstd::prelude::*;
use vstd::string::*;

verus! {

/// The directory of the sources of a project.
pub const LIB: &'static str = "lib";

/// The directory, inside `lib`, that the skeleton of a project lives in.
pub const SRC: &'static str = "src";

/// The directory, inside `lib/src`, that holds the features.
pub const FEATURES: &'static str = "features";

/// The directory, inside a feature, that holds its sub-features.
pub const SUB_FEATURES: &'static str = "sub_features";

/// The directory, inside the presentation layer, that holds the controllers.
pub const CONTROLLERS: &'static str = "controllers";

/// What the name of a fake repository starts with.
pub const FAKE: &'static str = "fake_";

/// What the file name of a service ends with.
pub const SERVICE_FILE: &'static str = "_service.dart";

/// What the file name of a local repository ends with.
pub const LOCAL_REPOSITORY_FILE: &'static str = "_local_repository.dart";

/// What the file name of a remote repository ends with.
pub const REMOTE_REPOSITORY_FILE: &'static str = "_remote_repository.dart";

/// What the file name of the models ends with.
pub const MODELS_FILE: &'static str = "_models.dart";

/// What the file name of the unions ends with.
pub const UNIONS_FILE: &'static str = "_unions.dart";

/// What the file name of a screen ends with.
pub const SCREEN_FILE: &'static str = "_screen.dart";

/// What the file name of a controller ends with.
pub const CONTROLLER_FILE: &'static str = "_controller.dart";

/// The four layers of a feature, in the order in which they are written.
#[derive(Clone, Copy, Debug, PartialEq, Eq, Structural)]
pub enum Layer {
    Application,
    Data,
    Domain,
    Presentation,
}

/// The directory of the application layer.
pub const APPLICATION: &'static str = "application";

/// The directory of the data layer.
pub const DATA: &'static str = "data";

/// The directory of the domain layer.
pub const DOMAIN: &'static str = "domain";

/// The directory of the presentation layer.
pub const PRESENTATION: &'static str = "presentation";

/// The name of the directory of a layer.
pub open spec fn layer_dir(layer: Layer) -> Seq<char> {
    match layer {
        Layer::Application => APPLICATION@,
        Layer::Data => DATA@,
        Layer::Domain => DOMAIN@,
        Layer::Presentation => PRESENTATION@,
    }
}

impl Layer {
    /// The name of the directory of the layer.
    pub fn dir_name(&self) -> (name: &'static str)
        ensures
            name@ == layer_dir(*self),
    {
        match self {
            Layer::Application => APPLICATION,
            Layer::Data => DATA,
            Layer::Domain => DOMAIN,
            Layer::Presentation => PRESENTATION,
        }
    }
}

/// `lib/src/features`, the directory that holds the features.
pub open spec fn features_dir() -> PathModel {
    seq![LIB@, SRC@, FEATURES@]
}

/// Where a feature lives: `lib/src/features/<feature>`, or, for a
/// sub-feature, `lib/src/features/<feature>/sub_features/<sub>`.
pub open spec fn base_path(feature: Seq<char>, sub_feature: Option<Seq<char>>) -> PathModel {
    match sub_feature {
        None => features_dir().push(feature),
        Some(sub) => features_dir().push(feature).push(SUB_FEATURES@).push(sub),
    }
}

/// The steps that make sure of the directory of a feature. For a
/// sub-feature the `sub_features` directory of its parent comes first.
pub open spec fn base_steps(feature: Seq<char>, sub_feature: Option<Seq<char>>) -> Seq<StepModel> {
    match sub_feature {
        None => seq![dir_step(base_path(feature, sub_feature))],
        Some(sub) => seq![
            dir_step(features_dir().push(feature).push(SUB_FEATURES@)),
            dir_step(base_path(feature, sub_feature)),
        ],
    }
}

/// The steps of one layer: its directory, then its files. The files of the
/// domain layer are left empty.
pub open spec fn layer_steps(base: PathModel, layer: Layer, name: NameModel) -> Seq<StepModel> {
    let dir = base.push(layer_dir(layer));
    match layer {
        Layer::Application => seq![
            dir_step(dir),
            file_step(
                dir,
                name.name + SERVICE_FILE@,
                Some(expand(APPLICATION_SERVICE@, name.title, name.lower)),
            ),
        ],
        Layer::Data => seq![
            dir_step(dir),
            file_step(
                dir,
                name.name + LOCAL_REPOSITORY_FILE@,
                Some(expand(LOCAL_REPOSITORY@, name.title, name.lower)),
            ),
            file_step(
                dir,
                name.name + REMOTE_REPOSITORY_FILE@,
                Some(expand(REMOTE_REPOSITORY@, name.title, name.lower)),
            ),
            file_step(
                dir,
                FAKE@ + name.name + LOCAL_REPOSITORY_FILE@,
                Some(expand(FAKE_LOCAL_REPOSITORY@, name.title, name.lower)),
            ),
            file_step(
                dir,
                FAKE@ + name.name + REMOTE_REPOSITORY_FILE@,
                Some(expand(FAKE_REMOTE_REPOSITORY@, name.title, name.lower)),
            ),
        ],
        Layer::Domain => seq![
            dir_step(dir),
            file_step(dir, name.name + MODELS_FILE@, None),
            file_step(dir, name.name + UNIONS_FILE@, None),
        ],
        Layer::Presentation => seq![
            dir_step(dir),
            file_step(
                dir,
                name.name + SCREEN_FILE@,
                Some(expand(STATELESS_WIDGET@, name.title, name.lower)),
            ),
            dir_step(dir.push(CONTROLLERS@)),
            file_step(
                dir.push(CONTROLLERS@),
                name.name + CONTROLLER_FILE@,
                Some(expand(CONTROLLER@, name.title, name.lower)),
            ),
        ],
    }
}

/// The steps of the four layers, in their order.
pub open spec fn layers_plan(base: PathModel, name: NameModel) -> Seq<StepModel> {
    layer_steps(base, Layer::Application, name) + layer_steps(base, Layer::Data, name)
        + layer_steps(base, Layer::Domain, name) + layer_steps(base, Layer::Presentation, name)
}

/// `stem` followed by `suffix`.
fn suffixed(stem: &str, suffix: &str) -> (name: String)
    ensures
        name@ == stem@ + suffix@,
{
    let mut name = stem.to_owned();
    name.append(suffix);
    name
}

/// `prefix`, `stem` and `suffix`, one after the other.
fn wrapped(prefix: &str, stem: &str, suffix: &str) -> (name: String)
    ensures
        name@ == prefix@ + stem@ + suffix@,
{
    let mut name = prefix.to_owned();
    name.append(stem);
    name.append(suffix);
    name
}

/// The step that writes one file of a feature: `template`, filled in for
/// `name`, goes into the file `file` of the directory `dir`.
fn write_filled(dir: &RelPath, file: String, template: &str, name: &NormalizedName) -> (step: Step)
    ensures
        step@ == file_step(dir@, file@, Some(expand(template@, name@.title, name@.lower))),
{
    let text = render(template, name.title.as_str(), name.lower.as_str());
    create_file(dir, file.as_str(), Some(text))
}

/// The steps of one layer of a feature that lives in `base_path`.
pub fn materialize_layer(base_path: &RelPath, layer: Layer, name: &NormalizedName) -> (steps: Vec<
    Step,
>)
    ensures
        steps.deep_view() == layer_steps(base_path@, layer, name@),
{
    let dir = base_path.join(layer.dir_name());
    let stem = name.name.as_str();
    let mut steps: Vec<Step> = Vec::new();
    steps.push(create_folder(&dir));
    match layer {
        Layer::Application => {
            steps.push(write_filled(&dir, suffixed(stem, SERVICE_FILE), APPLICATION_SERVICE, name));
        },
        Layer::Data => {
            steps.push(
                write_filled(&dir, suffixed(stem, LOCAL_REPOSITORY_FILE), LOCAL_REPOSITORY, name),
            );
            steps.push(
                write_filled(&dir, suffixed(stem, REMOTE_REPOSITORY_FILE), REMOTE_REPOSITORY, name),
            );
            steps.push(
                write_filled(
                    &dir,
                    wrapped(FAKE, stem, LOCAL_REPOSITORY_FILE),
                    FAKE_LOCAL_REPOSITORY,
                    name,
                ),
            );
            steps.push(
                write_filled(
                    &dir,
                    wrapped(FAKE, stem, REMOTE_REPOSITORY_FILE),
                    FAKE_REMOTE_REPOSITORY,
                    name,
                ),
            );
        },
        Layer::Domain => {
            steps.push(create_file(&dir, suffixed(stem, MODELS_FILE).as_str(), None));
            steps.push(create_file(&dir, suffixed(stem, UNIONS_FILE).as_str(), None));
        },
        Layer::Presentation => {
            steps.push(write_filled(&dir, suffixed(stem, SCREEN_FILE), STATELESS_WIDGET, name));
            let controllers = dir.join(CONTROLLERS);
            steps.push(create_folder(&controllers));
            steps.push(
                write_filled(&controllers, suffixed(stem, CONTROLLER_FILE), CONTROLLER, name),
            );
        },
    }
    proof {
        assert(steps.deep_view() =~= layer_steps(base_path@, layer, name@));
    }
    steps
}

/// The steps of the four layers of a feature that lives in `base_path`:
/// for each layer its directory, then its files.
pub fn materialize_layers(base_path: &RelPath, effective_name: &NormalizedName) -> (steps: Vec<
    Step,
>)
    ensures
        steps.deep_view() == layers_plan(base_path@, effective_name@),
{
    let mut steps = materialize_layer(base_path, Layer::Application, effective_name);
    extend(&mut steps, materialize_layer(base_path, Layer::Data, effective_name));
    extend(&mut steps, materialize_layer(base_path, Layer::Domain, effective_name));
    extend(&mut steps, materialize_layer(base_path, Layer::Presentation, effective_name));
    steps
}

/// The names of a request are accepted: the name of the feature is, once
/// it is trimmed, and the name of the sub-feature, when there is one, makes
/// a name as it is given.
pub open spec fn names_accepted(feature: Seq<char>, sub_feature: Option<Seq<char>>) -> bool {
    &&& valid_name(feature)
    &&& sub_feature matches Some(sub) ==> acceptable(sub)
}

/// The name that the files of the request are named after: that of the
/// sub-feature as it is given, when there is one, else the trimmed name of
/// the feature.
pub open spec fn effective_name(feature: Seq<char>, sub_feature: Option<Seq<char>>) -> Seq<char> {
    match sub_feature {
        Some(sub) => sub,
        None => trimmed(feature),
    }
}

/// Where the feature of a request lives: the name of the feature is
/// trimmed, that of the sub-feature is taken as it is given.
pub open spec fn feature_base(feature: Seq<char>, sub_feature: Option<Seq<char>>) -> PathModel {
    base_path(trimmed(feature), sub_feature)
}

/// The whole plan of a request: the directory of the feature, then its four layers.
pub open spec fn feature_plan(feature: Seq<char>, sub_feature: Option<Seq<char>>) -> Seq<
    StepModel,
> {
    base_steps(trimmed(feature), sub_feature) + layers_plan(
        feature_base(feature, sub_feature),
        forms(effective_name(feature, sub_feature)),
    )
}

/// What becomes of a request, given the paths that are there already: a
/// name that is not accepted refuses it before anything else is looked at,
/// then a feature that is already there does, and otherwise the plan is owed.
pub open spec fn feature_outcome(
    feature: Seq<char>,
    sub_feature: Option<Seq<char>>,
    present: Set<PathModel>,
) -> Result<Seq<StepModel>, ScaffoldError> {
    if !names_accepted(feature, sub_feature) {
        Err(ScaffoldError::InvalidName)
    } else if present.contains(feature_base(feature, sub_feature)) {
        Err(ScaffoldError::AlreadyExists)
    } else {
        Ok(feature_plan(feature, sub_feature))
    }
}

/// A plan or a refusal, as plain data.
pub open spec fn plan_view(result: Result<Vec<Step>, ScaffoldError>) -> Result<
    Seq<StepModel>,
    ScaffoldError,
> {
    match result {
        Ok(steps) => Ok(steps.deep_view()),
        Err(error) => Err(error),
    }
}

/// Where a feature lives, with what it takes to put it there.
#[derive(Debug, PartialEq, Eq)]
pub struct Base {
    /// The directory of the feature.
    pub path: RelPath,
    /// The steps that make sure of that directory.
    pub steps: Vec<Step>,
    /// The forms of the name that the files of the feature are named after.
    pub name: NormalizedName,
}

/// Where a feature lives: `lib/src/features/<feature>`, or
/// `lib/src/features/<feature>/sub_features/<sub>` for a sub-feature. The
/// name of the feature is trimmed; the name of the sub-feature is taken as it
/// is given. With the path come the steps that make sure of the
/// directory, the `sub_features` directory of the parent first, and the
/// forms of the name that the files are named after. `InvalidName` when a
/// name is not accepted.
pub fn resolve_base_path(feature: &str, sub_feature: Option<&str>) -> (result: Result<
    Base,
    ScaffoldError,
>)
    ensures
        match result {
            Ok(base) => {
                &&& names_accepted(feature@, str_view(sub_feature))
                &&& base.path@ == feature_base(feature@, str_view(sub_feature))
                &&& base.steps.deep_view() == base_steps(trimmed(feature@), str_view(sub_feature))
                &&& base.name@ == forms(effective_name(feature@, str_view(sub_feature)))
                &&& base.name.title@.len() > 0
            },
            Err(error) => !names_accepted(feature@, str_view(sub_feature)) && error
                == ScaffoldError::InvalidName,
        },
{
    let parent = match normalize(feature) {
        Ok(name) => name,
        Err(error) => {
            return Err(error);
        },
    };
    let features = RelPath::root().join(LIB).join(SRC).join(FEATURES);
    proof {
        assert(features@ =~= features_dir());
    }
    let parent_dir = features.join(parent.name.as_str());
    let mut steps: Vec<Step> = Vec::new();
    match sub_feature {
        None => {
            steps.push(create_folder(&parent_dir));
            proof {
                assert(steps.deep_view() =~= base_steps(trimmed(feature@), None));
            }
            Ok(Base { path: parent_dir, steps, name: parent })
        },
        Some(sub) => {
            let name = match name_forms(sub) {
                Ok(name) => name,
                Err(error) => {
                    return Err(error);
                },
            };
            let subs = parent_dir.join(SUB_FEATURES);
            let path = subs.join(name.name.as_str());
            steps.push(create_folder(&subs));
            steps.push(create_folder(&path));
            proof {
                assert(steps.deep_view() =~= base_steps(trimmed(feature@), Some(sub@)));
            }
            Ok(Base { path, steps, name })
        },
    }
}

/// The plan that adds the feature `feature_name`, or the sub-feature
/// `sub_feature_name` of it: the directory of the feature, then its four
/// layers. `present` lists the paths that are there already. A name that is
/// not accepted gives `InvalidName`; a feature whose directory is listed
/// gives `AlreadyExists`; in both cases there is no plan.
pub fn add_feature(
    feature_name: &str,
    sub_feature_name: Option<&str>,
    present: &Vec<RelPath>,
) -> (result: Result<Vec<Step>, ScaffoldError>)
    ensures
        plan_view(result) == feature_outcome(
            feature_name@,
            str_view(sub_feature_name),
            present.deep_view().to_set(),
        ),
{
    let base = match resolve_base_path(feature_name, sub_feature_name) {
        Ok(base) => base,
        Err(error) => {
            return Err(error);
        },
    };
    if is_listed(present, &base.path) {
        return Err(ScaffoldError::AlreadyExists);
    }
    let mut steps = base.steps;
    extend(&mut steps, materialize_layers(&base.path, &base.name));
    Ok(steps)
}

/// Two requests live in the same directory only if they name the same
/// feature and the same sub-feature, or none both: the directory of a
/// feature is never that of a sub-feature, and two sub-features of one
/// feature never share theirs.
pub proof fn lemma_base_path_injective(
    feature_a: Seq<char>,
    sub_a: Option<Seq<char>>,
    feature_b: Seq<char>,
    sub_b: Option<Seq<char>>,
)
    ensures
        base_path(feature_a, sub_a) == base_path(feature_b, sub_b) <==> feature_a == feature_b
            && sub_a == sub_b,
{
    let a = base_path(feature_a, sub_a);
    let b = base_path(feature_b, sub_b);
    if a == b {
        assert(a[3] == b[3]);
        assert(a.len() == b.len());
        if sub_a is Some {
            assert(a[5] == b[5]);
        }
    }
}

/// The directory of a feature and those of its sub-features never collide:
/// the first differs from each of the others, and two of the others differ
/// as soon as the names of the sub-features do.
pub proof fn lemma_sub_features_never_collide(
    feature: Seq<char>,
    sub_a: Seq<char>,
    sub_b: Seq<char>,
)
    ensures
        feature_base(feature, None) != feature_base(feature, Some(sub_a)),
        sub_a != sub_b ==> feature_base(feature, Some(sub_a)) != feature_base(
            feature,
            Some(sub_b),
        ),
{
    lemma_base_path_injective(trimmed(feature), None, trimmed(feature), Some(sub_a));
    lemma_base_path_injective(trimmed(feature), Some(sub_a), trimmed(feature), Some(sub_b));
}

/// A request with a name that is empty or made of whitespace, be it the
/// name of the feature or that of the sub-feature, is refused with
/// `InvalidName` whatever is there, and so has no plan.
pub proof fn lemma_blank_name_is_refused(
    feature: Seq<char>,
    sub_feature: Option<Seq<char>>,
    present: Set<PathModel>,
)
    requires
        all_space(feature) || (sub_feature matches Some(sub) && all_space(sub)),
    ensures
        feature_outcome(feature, sub_feature, present) == Err::<Seq<StepModel>, ScaffoldError>(
            ScaffoldError::InvalidName,
        ),
{
    if all_space(feature) {
        lemma_blank_name_is_invalid(feature);
    } else {
        lemma_blank_name_is_invalid(sub_feature->0);
    }
}

/// The plan of a feature removes nothing and makes sure of its directory.
pub proof fn lemma_feature_plan_creates(feature: Seq<char>, sub_feature: Option<Seq<char>>)
    ensures
        additive(feature_plan(feature, sub_feature)),
        feature_plan(feature, sub_feature).contains(dir_step(feature_base(feature, sub_feature))),
        feature_base(feature, sub_feature).len() > 0,
{
    let base = feature_base(feature, sub_feature);
    let name = forms(effective_name(feature, sub_feature));
    let first = base_steps(trimmed(feature), sub_feature);
    let layers = layers_plan(base, name);
    let plan = feature_plan(feature, sub_feature);
    assert(additive(first));
    assert(additive(layer_steps(base, Layer::Application, name)));
    assert(additive(layer_steps(base, Layer::Data, name)));
    assert(additive(layer_steps(base, Layer::Domain, name)));
    assert(additive(layer_steps(base, Layer::Presentation, name)));
    lemma_additive_concat(
        layer_steps(base, Layer::Application, name),
        layer_steps(base, Layer::Data, name),
    );
    lemma_additive_concat(
        layer_steps(base, Layer::Application, name) + layer_steps(base, Layer::Data, name),
        layer_steps(base, Layer::Domain, name),
    );
    lemma_additive_concat(
        layer_steps(base, Layer::Application, name) + layer_steps(base, Layer::Data, name)
            + layer_steps(base, Layer::Domain, name),
        layer_steps(base, Layer::Presentation, name),
    );
    lemma_additive_concat(first, layers);
    let at = first.len() - 1;
    assert(first[at] == dir_step(base));
    assert(plan[at] == first[at]);
}

/// A feature that has been added is refused the second time: once its plan
/// is carried out, the same request gives `AlreadyExists`.
pub proof fn lemma_add_twice(
    feature: Seq<char>,
    sub_feature: Option<Seq<char>>,
    present: Set<PathModel>,
)
    requires
        feature_outcome(feature, sub_feature, present) is Ok,
    ensures
        feature_outcome(
            feature,
            sub_feature,
            present_after(present, feature_plan(feature, sub_feature)),
        ) == Err::<Seq<StepModel>, ScaffoldError>(ScaffoldError::AlreadyExists),
{
    lemma_feature_plan_creates(feature, sub_feature);
    lemma_additive_plan_ensures(
        present,
        feature_plan(feature, sub_feature),
        feature_base(feature, sub_feature),
    );
}

/// In the steps of a layer the directory comes before its files.
pub proof fn lemma_layer_is_orderly(base: PathModel, layer: Layer, name: NameModel)
    ensures
        orderly(layer_steps(base, layer, name)),
{
    let steps = layer_steps(base, layer, name);
    let dir = base.push(layer_dir(layer));
    assert forall|at: int| 0 <= at < steps.len() implies has_parent(steps, at) by {
        if let StepModel::WriteFile { path, content } = steps[at] {
            if layer == Layer::Presentation && at == 3 {
                assert(path.drop_last() =~= dir.push(CONTROLLERS@));
                assert(steps[2] == dir_step(path.drop_last()));
            } else {
                assert(path.drop_last() =~= dir);
                assert(steps[0] == dir_step(path.drop_last()));
            }
        }
    }
}

/// In the plan of a feature every directory comes before its files.
pub proof fn lemma_feature_plan_is_orderly(feature: Seq<char>, sub_feature: Option<Seq<char>>)
    ensures
        orderly(feature_plan(feature, sub_feature)),
{
    let base = feature_base(feature, sub_feature);
    let name = forms(effective_name(feature, sub_feature));
    let first = base_steps(trimmed(feature), sub_feature);
    assert(orderly(first)) by {
        assert forall|at: int| 0 <= at < first.len() implies has_parent(first, at) by {}
    }
    lemma_layer_is_orderly(base, Layer::Application, name);
    lemma_layer_is_orderly(base, Layer::Data, name);
    lemma_layer_is_orderly(base, Layer::Domain, name);
    lemma_layer_is_orderly(base, Layer::Presentation, name);
    lemma_orderly_concat(
        layer_steps(base, Layer::Application, name),
        layer_steps(base, Layer::Data, name),
    );
    lemma_orderly_concat(
        layer_steps(base, Layer::Application, name) + layer_steps(base, Layer::Data, name),
        layer_steps(base, Layer::Domain, name),
    );
    lemma_orderly_concat(
        layer_steps(base, Layer::Application, name) + layer_steps(base, Layer::Data, name)
            + layer_steps(base, Layer::Domain, name),
        layer_steps(base, Layer::Presentation, name),
    );
    lemma_orderly_concat(first, layers_plan(base, name));
}

/// The files of a feature that lives in `base` and is named `stem`: one in
/// the application layer, four in the data layer, two in the domain layer,
/// and in the presentation layer the screen and, under `controllers`, the
/// controller.
pub open spec fn feature_files(base: PathModel, stem: Seq<char>) -> Set<PathModel> {
    set![
        base.push(APPLICATION@).push(stem + SERVICE_FILE@),
        base.push(DATA@).push(stem + LOCAL_REPOSITORY_FILE@),
        base.push(DATA@).push(stem + REMOTE_REPOSITORY_FILE@),
        base.push(DATA@).push(FAKE@ + stem + LOCAL_REPOSITORY_FILE@),
        base.push(DATA@).push(FAKE@ + stem + REMOTE_REPOSITORY_FILE@),
        base.push(DOMAIN@).push(stem + MODELS_FILE@),
        base.push(DOMAIN@).push(stem + UNIONS_FILE@),
        base.push(PRESENTATION@).push(stem + SCREEN_FILE@),
        base.push(PRESENTATION@).push(CONTROLLERS@).push(stem + CONTROLLER_FILE@),
    ]
}

/// The files of one layer.
proof fn lemma_layer_files(base: PathModel, layer: Layer, name: NameModel)
    ensures
        plan_files(layer_steps(base, layer, name)) == match layer {
            Layer::Application => set![base.push(APPLICATION@).push(name.name + SERVICE_FILE@)],
            Layer::Data => set![
                base.push(DATA@).push(name.name + LOCAL_REPOSITORY_FILE@),
                base.push(DATA@).push(name.name + REMOTE_REPOSITORY_FILE@),
                base.push(DATA@).push(FAKE@ + name.name + LOCAL_REPOSITORY_FILE@),
                base.push(DATA@).push(FAKE@ + name.name + REMOTE_REPOSITORY_FILE@),
            ],
            Layer::Domain => set![
                base.push(DOMAIN@).push(name.name + MODELS_FILE@),
                base.push(DOMAIN@).push(name.name + UNIONS_FILE@),
            ],
            Layer::Presentation => set![
                base.push(PRESENTATION@).push(name.name + SCREEN_FILE@),
                base.push(PRESENTATION@).push(CONTROLLERS@).push(name.name + CONTROLLER_FILE@),
            ],
        },
{
    let steps = layer_steps(base, layer, name);
    let files = plan_files(steps);
    let expected = match layer {
        Layer::Application => set![base.push(APPLICATION@).push(name.name + SERVICE_FILE@)],
        Layer::Data => set![
            base.push(DATA@).push(name.name + LOCAL_REPOSITORY_FILE@),
            base.push(DATA@).push(name.name + REMOTE_REPOSITORY_FILE@),
            base.push(DATA@).push(FAKE@ + name.name + LOCAL_REPOSITORY_FILE@),
            base.push(DATA@).push(FAKE@ + name.name + REMOTE_REPOSITORY_FILE@),
        ],
        Layer::Domain => set![
            base.push(DOMAIN@).push(name.name + MODELS_FILE@),
            base.push(DOMAIN@).push(name.name + UNIONS_FILE@),
        ],
        Layer::Presentation => set![
            base.push(PRESENTATION@).push(name.name + SCREEN_FILE@),
            base.push(PRESENTATION@).push(CONTROLLERS@).push(name.name + CONTROLLER_FILE@),
        ],
    };
    assert forall|path: PathModel| files.contains(path) == expected.contains(path) by {
        if expected.contains(path) {
            match layer {
                Layer::Application => {
                    assert(steps[1] matches StepModel::WriteFile { path: written, .. } && written
                        == path);
                },
                Layer::Data => {
                    let at = if path == base.push(DATA@).push(name.name + LOCAL_REPOSITORY_FILE@) {
                        1int
                    } else if path == base.push(DATA@).push(name.name + REMOTE_REPOSITORY_FILE@) {
                        2int
                    } else if path == base.push(DATA@).push(
                        FAKE@ + name.name + LOCAL_REPOSITORY_FILE@,
                    ) {
                        3int
                    } else {
                        4int
                    };
                    assert(steps[at] matches StepModel::WriteFile { path: written, .. } && written
                        == path);
                },
                Layer::Domain => {
                    let at = if path == base.push(DOMAIN@).push(name.name + MODELS_FILE@) {
                        1int
                    } else {
                        2int
                    };
                    assert(steps[at] matches StepModel::WriteFile { path: written, .. } && written
                        == path);
                },
                Layer::Presentation => {
                    let at = if path == base.push(PRESENTATION@).push(name.name + SCREEN_FILE@) {
                        1int
                    } else {
                        3int
                    };
                    assert(steps[at] matches StepModel::WriteFile { path: written, .. } && written
                        == path);
                },
            }
        }
    }
    assert(files =~= expected);
}

/// The plan of a feature writes exactly the files of the feature, each of
/// them and no other file; and once it is carried out, what is there is what
/// was there and what the steps of the plan name, nothing more and nothing
/// less.
pub proof fn lemma_feature_plan_populates(
    feature: Seq<char>,
    sub_feature: Option<Seq<char>>,
    present: Set<PathModel>,
)
    ensures
        plan_files(feature_plan(feature, sub_feature)) == feature_files(
            feature_base(feature, sub_feature),
            effective_name(feature, sub_feature),
        ),
        present_after(present, feature_plan(feature, sub_feature)) == present.union(
            plan_paths(feature_plan(feature, sub_feature)),
        ),
{
    lemma_feature_plan_creates(feature, sub_feature);
    lemma_additive_plan_adds(present, feature_plan(feature, sub_feature));
    let base = feature_base(feature, sub_feature);
    let name = forms(effective_name(feature, sub_feature));
    let first = base_steps(trimmed(feature), sub_feature);
    let application = layer_steps(base, Layer::Application, name);
    let data = layer_steps(base, Layer::Data, name);
    let domain = layer_steps(base, Layer::Domain, name);
    let presentation = layer_steps(base, Layer::Presentation, name);
    assert(plan_files(first) =~= Set::<PathModel>::empty());
    lemma_layer_files(base, Layer::Application, name);
    lemma_layer_files(base, Layer::Data, name);
    lemma_layer_files(base, Layer::Domain, name);
    lemma_layer_files(base, Layer::Presentation, name);
    lemma_plan_files_concat(application, data);
    lemma_plan_files_concat(application + data, domain);
    lemma_plan_files_concat(application + data + domain, presentation);
    lemma_plan_files_concat(first, layers_plan(base, name));
    assert(plan_files(feature_plan(feature, sub_feature)) =~= feature_files(base, name.name));
}

} // verus!
