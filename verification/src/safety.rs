//! Plans stay where they belong: every path of a plan is made of plain
//! names, the plan of a feature lies inside the directory of the feature,
//! and the plan of a project inside `lib`, but for `.env`.

use crate::error::ScaffoldError;
use crate::feature::{
    base_steps, effective_name, feature_base, feature_outcome, feature_plan, features_dir,
    layer_dir, layer_steps, layers_plan, lemma_feature_plan_creates, names_accepted, APPLICATION,
    CONTROLLERS, CONTROLLER_FILE, DATA, DOMAIN, FAKE, FEATURES, LIB, LOCAL_REPOSITORY_FILE, Layer,
    MODELS_FILE, PRESENTATION, REMOTE_REPOSITORY_FILE, SCREEN_FILE, SERVICE_FILE, SRC,
    SUB_FEATURES, UNIONS_FILE,
};
use crate::name::{acceptable, forms, is_clean, is_dots, is_forbidden, valid_name, NameModel};
use crate::path::PathModel;
use crate::project::{
    env_file, lemma_home_is_valid, lib_dir, marker_dir, preparation, project_plan, skeleton_plan,
    APP_COLORS_FILE, APP_EXCEPTIONS_FILE, APP_FILE, APP_SIZES_FILE, APP_TEXT_STYLES_FILE,
    ASYNC_ERRORS_FILE, CONSTANTS, ENV_FILE, EXCEPTIONS, EXTENSIONS_FILE, HELPER_FILE, HOME,
    LOGGER_SERVICE_FILE, MAIN_FILE, ROUTES, ROUTES_FILE, SERVICES, SHARED_WIDGETS, THEME_FILE,
    UTILS,
};
use crate::step::{
    additive, lemma_additive_plan_adds, plan_files, plan_paths, present_after, step_paths,
    StepModel,
};
use crate::text::trimmed;
use vstd::prelude::*;
use vstd::string::*;

verus! {

/// A plain name: it is not empty, it holds no forbidden character, and so
/// no separator, and it is neither `.` nor `..`. It names one file or one
/// directory of the directory it stands in.
pub open spec fn is_plain_name(segment: Seq<char>) -> bool {
    segment.len() > 0 && is_clean(segment) && !is_dots(segment)
}

/// `s` holds a character other than the dot.
pub open spec fn has_letter(s: Seq<char>) -> bool {
    exists|i: int| 0 <= i < s.len() && #[trigger] s[i] != '.'
}

/// A text that makes a name is a plain name.
pub proof fn lemma_name_is_plain(name: Seq<char>)
    requires
        acceptable(name),
    ensures
        is_plain_name(name),
{
    let i = choose|i: int| 0 <= i < name.len() && #[trigger] name[i] != '_';
}

/// Every segment of the path is a plain name.
pub open spec fn is_sound(path: PathModel) -> bool {
    forall|i: int| 0 <= i < path.len() ==> is_plain_name(#[trigger] path[i])
}

/// The path that a step is about.
pub open spec fn step_path(step: StepModel) -> PathModel {
    match step {
        StepModel::EnsureDir { path } => path,
        StepModel::WriteFile { path, content } => path,
        StepModel::RemoveFile { path } => path,
    }
}

/// Every step of the plan is about a sound path inside `dir`.
pub open spec fn stays_inside(plan: Seq<StepModel>, dir: PathModel) -> bool {
    forall|at: int|
        0 <= at < plan.len() ==> is_sound(step_path(#[trigger] plan[at])) && dir.is_prefix_of(
            step_path(plan[at]),
        )
}

/// A clean text followed by a clean text makes a plain name if one of the
/// two holds a character other than the dot.
pub proof fn lemma_plain_concat(first: Seq<char>, second: Seq<char>)
    requires
        is_clean(first),
        is_clean(second),
        has_letter(first) || has_letter(second),
    ensures
        is_plain_name(first + second),
{
    let whole = first + second;
    assert forall|i: int| 0 <= i < whole.len() implies !is_forbidden(#[trigger] whole[i]) by {
        if i < first.len() {
            assert(whole[i] == first[i]);
        } else {
            assert(whole[i] == second[i - first.len()]);
        }
    }
    if has_letter(first) {
        let i = choose|i: int| 0 <= i < first.len() && #[trigger] first[i] != '.';
        assert(whole[i] != '.');
    } else {
        let i = choose|i: int| 0 <= i < second.len() && #[trigger] second[i] != '.';
        assert(whole[i + first.len()] != '.');
    }
}

/// A sound path with a plain name at its end is sound.
pub proof fn lemma_sound_push(path: PathModel, segment: Seq<char>)
    requires
        is_sound(path),
        is_plain_name(segment),
    ensures
        is_sound(path.push(segment)),
{
    let longer = path.push(segment);
    assert forall|i: int| 0 <= i < longer.len() implies is_plain_name(#[trigger] longer[i]) by {
        if i < path.len() {
            assert(longer[i] == path[i]);
        }
    }
}

/// The names that the library itself gives to directories are plain, and
/// what it puts before and after the name of a feature in a file name is
/// clean.
pub proof fn lemma_own_names_are_plain()
    ensures
        is_plain_name(LIB@),
        is_plain_name(SRC@),
        is_plain_name(FEATURES@),
        is_plain_name(SUB_FEATURES@),
        is_plain_name(CONTROLLERS@),
        is_plain_name(APPLICATION@),
        is_plain_name(DATA@),
        is_plain_name(DOMAIN@),
        is_plain_name(PRESENTATION@),
        is_clean(FAKE@) && has_letter(FAKE@),
        is_clean(SERVICE_FILE@) && has_letter(SERVICE_FILE@),
        is_clean(LOCAL_REPOSITORY_FILE@) && has_letter(LOCAL_REPOSITORY_FILE@),
        is_clean(REMOTE_REPOSITORY_FILE@) && has_letter(REMOTE_REPOSITORY_FILE@),
        is_clean(MODELS_FILE@) && has_letter(MODELS_FILE@),
        is_clean(UNIONS_FILE@) && has_letter(UNIONS_FILE@),
        is_clean(SCREEN_FILE@) && has_letter(SCREEN_FILE@),
        is_clean(CONTROLLER_FILE@) && has_letter(CONTROLLER_FILE@),
{
    reveal_strlit("lib");
    reveal_strlit("src");
    reveal_strlit("features");
    reveal_strlit("sub_features");
    reveal_strlit("controllers");
    reveal_strlit("application");
    reveal_strlit("data");
    reveal_strlit("domain");
    reveal_strlit("presentation");
    reveal_strlit("fake_");
    reveal_strlit("_service.dart");
    reveal_strlit("_local_repository.dart");
    reveal_strlit("_remote_repository.dart");
    reveal_strlit("_models.dart");
    reveal_strlit("_unions.dart");
    reveal_strlit("_screen.dart");
    reveal_strlit("_controller.dart");
    assert(LIB@[0] != '.');
    assert(SRC@[0] != '.');
    assert(FEATURES@[0] != '.');
    assert(SUB_FEATURES@[0] != '.');
    assert(CONTROLLERS@[0] != '.');
    assert(APPLICATION@[0] != '.');
    assert(DATA@[0] != '.');
    assert(DOMAIN@[0] != '.');
    assert(PRESENTATION@[0] != '.');
    assert(FAKE@[0] != '.');
    assert(SERVICE_FILE@[0] != '.');
    assert(LOCAL_REPOSITORY_FILE@[0] != '.');
    assert(REMOTE_REPOSITORY_FILE@[0] != '.');
    assert(MODELS_FILE@[0] != '.');
    assert(UNIONS_FILE@[0] != '.');
    assert(SCREEN_FILE@[0] != '.');
    assert(CONTROLLER_FILE@[0] != '.');
}

/// The steps of a layer stay inside the directory of the feature.
proof fn lemma_layer_stays_inside(base: PathModel, layer: Layer, name: NameModel)
    requires
        is_sound(base),
        is_plain_name(name.name),
    ensures
        stays_inside(layer_steps(base, layer, name), base),
{
    lemma_own_names_are_plain();
    let steps = layer_steps(base, layer, name);
    let dir = base.push(layer_dir(layer));
    let controllers = dir.push(CONTROLLERS@);
    lemma_sound_push(base, layer_dir(layer));
    lemma_sound_push(dir, CONTROLLERS@);
    lemma_plain_concat(name.name, SERVICE_FILE@);
    lemma_plain_concat(name.name, LOCAL_REPOSITORY_FILE@);
    lemma_plain_concat(name.name, REMOTE_REPOSITORY_FILE@);
    lemma_plain_concat(FAKE@, name.name);
    lemma_plain_concat(FAKE@ + name.name, LOCAL_REPOSITORY_FILE@);
    lemma_plain_concat(FAKE@ + name.name, REMOTE_REPOSITORY_FILE@);
    lemma_plain_concat(name.name, MODELS_FILE@);
    lemma_plain_concat(name.name, UNIONS_FILE@);
    lemma_plain_concat(name.name, SCREEN_FILE@);
    lemma_plain_concat(name.name, CONTROLLER_FILE@);
    lemma_sound_push(dir, name.name + SERVICE_FILE@);
    lemma_sound_push(dir, name.name + LOCAL_REPOSITORY_FILE@);
    lemma_sound_push(dir, name.name + REMOTE_REPOSITORY_FILE@);
    lemma_sound_push(dir, FAKE@ + name.name + LOCAL_REPOSITORY_FILE@);
    lemma_sound_push(dir, FAKE@ + name.name + REMOTE_REPOSITORY_FILE@);
    lemma_sound_push(dir, name.name + MODELS_FILE@);
    lemma_sound_push(dir, name.name + UNIONS_FILE@);
    lemma_sound_push(dir, name.name + SCREEN_FILE@);
    lemma_sound_push(controllers, name.name + CONTROLLER_FILE@);
    assert forall|at: int| 0 <= at < steps.len() implies is_sound(step_path(#[trigger] steps[at]))
        && base.is_prefix_of(step_path(steps[at])) by {
        let path = step_path(steps[at]);
        assert(path.subrange(0, base.len() as int) =~= base);
    }
}

/// Two plans that stay inside a directory make one that does.
proof fn lemma_stays_inside_concat(first: Seq<StepModel>, second: Seq<StepModel>, dir: PathModel)
    requires
        stays_inside(first, dir),
        stays_inside(second, dir),
    ensures
        stays_inside(first + second, dir),
{
    let plan = first + second;
    assert forall|at: int| 0 <= at < plan.len() implies is_sound(step_path(#[trigger] plan[at]))
        && dir.is_prefix_of(step_path(plan[at])) by {
        if at < first.len() {
            assert(plan[at] == first[at]);
        } else {
            assert(plan[at] == second[at - first.len()]);
        }
    }
}

/// A plan that stays inside a directory stays inside the directories above it.
proof fn lemma_stays_inside_wider(plan: Seq<StepModel>, dir: PathModel, above: PathModel)
    requires
        stays_inside(plan, dir),
        above.is_prefix_of(dir),
    ensures
        stays_inside(plan, above),
{
    assert forall|at: int| 0 <= at < plan.len() implies is_sound(step_path(#[trigger] plan[at]))
        && above.is_prefix_of(step_path(plan[at])) by {
        let path = step_path(plan[at]);
        assert(dir.is_prefix_of(path));
        assert(path.subrange(0, above.len() as int) =~= dir.subrange(0, above.len() as int));
    }
}

/// The layers of a feature lie in the directory of the feature, which is
/// a sound path, and every path of theirs is sound.
pub proof fn lemma_layers_stay_in_base(feature: Seq<char>, sub_feature: Option<Seq<char>>)
    requires
        names_accepted(feature, sub_feature),
    ensures
        is_sound(features_dir().push(trimmed(feature))),
        is_sound(feature_base(feature, sub_feature)),
        stays_inside(
            layers_plan(
                feature_base(feature, sub_feature),
                forms(effective_name(feature, sub_feature)),
            ),
            feature_base(feature, sub_feature),
        ),
{
    lemma_own_names_are_plain();
    let home = features_dir().push(trimmed(feature));
    let base = feature_base(feature, sub_feature);
    let name = forms(effective_name(feature, sub_feature));
    assert(is_sound(features_dir()));
    lemma_name_is_plain(trimmed(feature));
    lemma_name_is_plain(name.name);
    lemma_sound_push(features_dir(), trimmed(feature));
    match sub_feature {
        None => {
            assert(base == home);
        },
        Some(sub) => {
            lemma_sound_push(home, SUB_FEATURES@);
            lemma_sound_push(home.push(SUB_FEATURES@), sub);
        },
    }
    lemma_layer_stays_inside(base, Layer::Application, name);
    lemma_layer_stays_inside(base, Layer::Data, name);
    lemma_layer_stays_inside(base, Layer::Domain, name);
    lemma_layer_stays_inside(base, Layer::Presentation, name);
    let application = layer_steps(base, Layer::Application, name);
    let data = layer_steps(base, Layer::Data, name);
    let domain = layer_steps(base, Layer::Domain, name);
    lemma_stays_inside_concat(application, data, base);
    lemma_stays_inside_concat(application + data, domain, base);
    lemma_stays_inside_concat(
        application + data + domain,
        layer_steps(base, Layer::Presentation, name),
        base,
    );
}

/// The plan of a feature touches nothing outside the directory of the
/// feature, `lib/src/features/<feature>`, be it the plan of the feature or
/// of a sub-feature of it; and every path of the plan is made of plain
/// names, so that no step leads out of that directory by `..` or by a
/// separator hidden in a name.
pub proof fn lemma_feature_plan_stays_inside(feature: Seq<char>, sub_feature: Option<Seq<char>>)
    requires
        names_accepted(feature, sub_feature),
    ensures
        stays_inside(feature_plan(feature, sub_feature), features_dir().push(trimmed(feature))),
{
    lemma_own_names_are_plain();
    lemma_layers_stay_in_base(feature, sub_feature);
    let home = features_dir().push(trimmed(feature));
    let base = feature_base(feature, sub_feature);
    let name = forms(effective_name(feature, sub_feature));
    let first = base_steps(trimmed(feature), sub_feature);
    assert(home.is_prefix_of(home)) by {
        assert(home.subrange(0, home.len() as int) =~= home);
    }
    match sub_feature {
        None => {
            assert(base == home);
        },
        Some(sub) => {
            lemma_sound_push(home, SUB_FEATURES@);
            assert(base.subrange(0, home.len() as int) =~= home);
            assert(home.push(SUB_FEATURES@).subrange(0, home.len() as int) =~= home);
        },
    }
    assert(stays_inside(first, home));
    lemma_stays_inside_wider(layers_plan(base, name), base, home);
    lemma_stays_inside_concat(first, layers_plan(base, name), home);
}

/// Two sub-features of a feature are apart. When the first has been added,
/// the second, whose name is another and whose directory is not there, is
/// planned all the same: that `sub_features` is there already is no
/// obstacle. Every step of its plan but the one that makes sure of
/// `sub_features` lies in its own directory, and none in that of the
/// first; the plan removes nothing and writes none of the files of the
/// first.
pub proof fn lemma_sub_features_are_apart(
    feature: Seq<char>,
    first: Seq<char>,
    second: Seq<char>,
    present: Set<PathModel>,
)
    requires
        valid_name(feature),
        acceptable(first),
        acceptable(second),
        first != second,
        feature_outcome(feature, Some(first), present) is Ok,
        !present.contains(feature_base(feature, Some(second))),
    ensures
        feature_outcome(
            feature,
            Some(second),
            present_after(present, feature_plan(feature, Some(first))),
        ) == Ok::<Seq<StepModel>, ScaffoldError>(feature_plan(feature, Some(second))),
        forall|at: int|
            0 <= at < feature_plan(feature, Some(second)).len() ==> !feature_base(
                feature,
                Some(first),
            ).is_prefix_of(step_path(#[trigger] feature_plan(feature, Some(second))[at])),
        forall|at: int|
            1 <= at < feature_plan(feature, Some(second)).len() ==> feature_base(
                feature,
                Some(second),
            ).is_prefix_of(step_path(#[trigger] feature_plan(feature, Some(second))[at])),
        additive(feature_plan(feature, Some(second))),
        plan_files(feature_plan(feature, Some(first))).disjoint(
            plan_files(feature_plan(feature, Some(second))),
        ),
{
    let home = features_dir().push(trimmed(feature));
    let subs = home.push(SUB_FEATURES@);
    let here = feature_base(feature, Some(first));
    let there = feature_base(feature, Some(second));
    let plan = feature_plan(feature, Some(first));
    let other = feature_plan(feature, Some(second));
    let layers = layers_plan(here, forms(first));
    let others = layers_plan(there, forms(second));
    assert(here[5] == first && there[5] == second);
    assert(here.subrange(0, 6) =~= here);
    assert(there.subrange(0, 6) =~= there);
    lemma_layers_stay_in_base(feature, Some(first));
    lemma_layers_stay_in_base(feature, Some(second));
    lemma_feature_plan_creates(feature, Some(first));
    lemma_feature_plan_creates(feature, Some(second));
    lemma_additive_plan_adds(present, plan);
    // what the first plan puts there is not the directory of the second
    if plan_paths(plan).contains(there) {
        let at = choose|at: int|
            0 <= at < plan.len() && step_paths(#[trigger] plan[at]).contains(there);
        let path = step_path(plan[at]);
        assert(there.is_prefix_of(path)) by {
            if there == path {
                assert(path.subrange(0, 6) =~= there);
            }
        }
        if at >= 2 {
            assert(plan[at] == layers[at - 2]);
            assert(here.is_prefix_of(path));
        } else if at == 1 {
            assert(path == here);
        } else {
            assert(path == subs);
        }
        assert(false);
    }
    // where the steps of the second plan lie
    assert forall|at: int| 0 <= at < other.len() implies !here.is_prefix_of(
        step_path(#[trigger] other[at]),
    ) && (at >= 1 ==> there.is_prefix_of(step_path(other[at]))) by {
        let path = step_path(other[at]);
        if at >= 2 {
            assert(other[at] == others[at - 2]);
            assert(there.is_prefix_of(path));
        } else if at == 1 {
            assert(path == there);
        } else {
            assert(path == subs);
        }
    }
    // and so none of its files is a file of the first
    assert forall|path: PathModel|
        plan_files(plan).contains(path) && plan_files(other).contains(path) implies false by {
        let at = choose|at: int|
            0 <= at < plan.len() && (#[trigger] plan[at] matches StepModel::WriteFile {
                path: written,
                ..
            } && written == path);
        let to = choose|to: int|
            0 <= to < other.len() && (#[trigger] other[to] matches StepModel::WriteFile {
                path: written,
                ..
            } && written == path);
        assert(at >= 2);
        assert(plan[at] == layers[at - 2]);
        assert(here.is_prefix_of(step_path(plan[at])));
        assert(!here.is_prefix_of(step_path(other[to])));
    }
}

/// Every step of the plan is about a sound path that is `.env` or lies in `lib`.
pub open spec fn stays_in_project(plan: Seq<StepModel>) -> bool {
    forall|at: int|
        0 <= at < plan.len() ==> is_sound(step_path(#[trigger] plan[at])) && (step_path(plan[at])
            == env_file() || lib_dir().is_prefix_of(step_path(plan[at])))
}

/// The names that the skeleton gives to its files and directories are plain.
pub proof fn lemma_skeleton_names_are_plain()
    ensures
        is_plain_name(ENV_FILE@),
        is_plain_name(MAIN_FILE@),
        is_plain_name(APP_FILE@),
        is_plain_name(SHARED_WIDGETS@),
        is_plain_name(CONSTANTS@),
        is_plain_name(APP_SIZES_FILE@),
        is_plain_name(APP_COLORS_FILE@),
        is_plain_name(APP_TEXT_STYLES_FILE@),
        is_plain_name(EXCEPTIONS@),
        is_plain_name(APP_EXCEPTIONS_FILE@),
        is_plain_name(ASYNC_ERRORS_FILE@),
        is_plain_name(ROUTES@),
        is_plain_name(ROUTES_FILE@),
        is_plain_name(UTILS@),
        is_plain_name(THEME_FILE@),
        is_plain_name(EXTENSIONS_FILE@),
        is_plain_name(HELPER_FILE@),
        is_plain_name(SERVICES@),
        is_plain_name(LOGGER_SERVICE_FILE@),
{
    reveal_strlit(".env");
    reveal_strlit("main.dart");
    reveal_strlit("app.dart");
    reveal_strlit("shared_widgets");
    reveal_strlit("constants");
    reveal_strlit("app_sizes.dart");
    reveal_strlit("app_colors.dart");
    reveal_strlit("app_text_styles.dart");
    reveal_strlit("exceptions");
    reveal_strlit("app_exceptions.dart");
    reveal_strlit("async_errors.dart");
    reveal_strlit("routes");
    reveal_strlit("routes.dart");
    reveal_strlit("utils");
    reveal_strlit("theme.dart");
    reveal_strlit("extensions.dart");
    reveal_strlit("helper.dart");
    reveal_strlit("services");
    reveal_strlit("logger_service.dart");
    assert(ENV_FILE@[1] != '.');
    assert(MAIN_FILE@[0] != '.');
    assert(APP_FILE@[0] != '.');
    assert(SHARED_WIDGETS@[0] != '.');
    assert(CONSTANTS@[0] != '.');
    assert(APP_SIZES_FILE@[0] != '.');
    assert(APP_COLORS_FILE@[0] != '.');
    assert(APP_TEXT_STYLES_FILE@[0] != '.');
    assert(EXCEPTIONS@[0] != '.');
    assert(APP_EXCEPTIONS_FILE@[0] != '.');
    assert(ASYNC_ERRORS_FILE@[0] != '.');
    assert(ROUTES@[0] != '.');
    assert(ROUTES_FILE@[0] != '.');
    assert(UTILS@[0] != '.');
    assert(THEME_FILE@[0] != '.');
    assert(EXTENSIONS_FILE@[0] != '.');
    assert(HELPER_FILE@[0] != '.');
    assert(SERVICES@[0] != '.');
    assert(LOGGER_SERVICE_FILE@[0] != '.');
}

/// Two plans that stay in the project make one that does.
proof fn lemma_stays_in_project_concat(first: Seq<StepModel>, second: Seq<StepModel>)
    requires
        stays_in_project(first),
        stays_in_project(second),
    ensures
        stays_in_project(first + second),
{
    let plan = first + second;
    assert forall|at: int| 0 <= at < plan.len() implies is_sound(step_path(#[trigger] plan[at]))
        && (step_path(plan[at]) == env_file() || lib_dir().is_prefix_of(step_path(plan[at]))) by {
        if at < first.len() {
            assert(plan[at] == first[at]);
        } else {
            assert(plan[at] == second[at - first.len()]);
        }
    }
}

/// The plan of a project touches `.env` and what lies in `lib`, and nothing
/// else; and every path of the plan is made of plain names.
pub proof fn lemma_project_plan_stays_in_project(env_present: bool, main_present: bool)
    ensures
        stays_in_project(project_plan(env_present, main_present)),
{
    lemma_own_names_are_plain();
    lemma_skeleton_names_are_plain();
    lemma_home_is_valid();
    let lib = lib_dir();
    let src = marker_dir();
    let first = preparation(env_present, main_present);
    let skeleton = skeleton_plan();
    let home = feature_plan(HOME@, None);
    assert(is_sound(env_file()));
    assert(is_sound(lib));
    assert(is_sound(src));
    lemma_sound_push(lib, MAIN_FILE@);
    assert(lib.push(MAIN_FILE@).subrange(0, 1) =~= lib);
    assert(stays_in_project(first));
    assert(stays_in_project(skeleton)) by {
        lemma_sound_push(src, APP_FILE@);
        lemma_sound_push(src, SHARED_WIDGETS@);
        lemma_sound_push(src, CONSTANTS@);
        lemma_sound_push(src.push(CONSTANTS@), APP_SIZES_FILE@);
        lemma_sound_push(src.push(CONSTANTS@), APP_COLORS_FILE@);
        lemma_sound_push(src.push(CONSTANTS@), APP_TEXT_STYLES_FILE@);
        lemma_sound_push(src, EXCEPTIONS@);
        lemma_sound_push(src.push(EXCEPTIONS@), APP_EXCEPTIONS_FILE@);
        lemma_sound_push(src.push(EXCEPTIONS@), ASYNC_ERRORS_FILE@);
        lemma_sound_push(src, ROUTES@);
        lemma_sound_push(src.push(ROUTES@), ROUTES_FILE@);
        lemma_sound_push(src, UTILS@);
        lemma_sound_push(src.push(UTILS@), THEME_FILE@);
        lemma_sound_push(src.push(UTILS@), EXTENSIONS_FILE@);
        lemma_sound_push(src.push(UTILS@), HELPER_FILE@);
        lemma_sound_push(src, SERVICES@);
        lemma_sound_push(src.push(SERVICES@), LOGGER_SERVICE_FILE@);
        lemma_sound_push(src, FEATURES@);
        assert forall|at: int| 0 <= at < skeleton.len() implies is_sound(
            step_path(#[trigger] skeleton[at]),
        ) && lib.is_prefix_of(step_path(skeleton[at])) by {
            let path = step_path(skeleton[at]);
            assert(path.subrange(0, 1) =~= lib);
        }
    }
    assert(stays_in_project(home)) by {
        lemma_feature_plan_stays_inside(HOME@, None);
        let dir = features_dir().push(trimmed(HOME@));
        assert(dir.subrange(0, 1) =~= lib);
        lemma_stays_inside_wider(home, dir, lib);
    }
    lemma_stays_in_project_concat(first, skeleton);
    lemma_stays_in_project_concat(first + skeleton, home);
}

} // verus!
