//! The skeleton of a project: the plan that creates it, once.

use crate::dart::{
    app_colors, app_dart, app_exceptions, app_sizes, app_text_styles, async_errors,
    extensions_dart, helper_dart, logger_service, main_dart, routes_dart, APP_COLORS, APP_DART,
    APP_EXCEPTIONS, APP_SIZES, APP_TEXT_STYLES, ASYNC_ERRORS, EXTENSIONS_DART, HELPER_DART,
    LOGGER_SERVICE, MAIN_DART, ROUTES_DART,
};
use crate::error::ScaffoldError;
use crate::feature::{
    add_feature, feature_plan, lemma_feature_plan_creates, lemma_feature_plan_is_orderly,
    plan_view, FEATURES, LIB, SRC,
};
use crate::name::valid_name;
use crate::path::{is_listed, PathModel, RelPath};
use crate::step::{
    additive, create_file, create_folder, dir_step, extend, file_step, has_parent,
    lemma_additive_concat, lemma_additive_plan_ensures, lemma_orderly_concat,
    lemma_present_after_concat, orderly, present_after, remove_file, removal_step, Step,
    StepModel,
};
use crate::text::{is_space, is_trimmed, trimmed};
use vstd::prelude::*;
use vstd::string::*;

verus! {

/// The file, in the root of the project, that the application reads its settings from.
pub const ENV_FILE: &'static str = ".env";

/// The entry point of the application, in `lib`.
pub const MAIN_FILE: &'static str = "main.dart";

/// The root widget, in `lib/src`.
pub const APP_FILE: &'static str = "app.dart";

/// The directory of the widgets that features share.
pub const SHARED_WIDGETS: &'static str = "shared_widgets";

/// The directory of the constants.
pub const CONSTANTS: &'static str = "constants";

/// The file of the sizes, in `constants`.
pub const APP_SIZES_FILE: &'static str = "app_sizes.dart";

/// The file of the colors, in `constants`.
pub const APP_COLORS_FILE: &'static str = "app_colors.dart";

/// The file of the text styles, in `constants`.
pub const APP_TEXT_STYLES_FILE: &'static str = "app_text_styles.dart";

/// The directory of the exceptions.
pub const EXCEPTIONS: &'static str = "exceptions";

/// The file of the exceptions of the application, in `exceptions`.
pub const APP_EXCEPTIONS_FILE: &'static str = "app_exceptions.dart";

/// The file of the observer of failed providers, in `exceptions`.
pub const ASYNC_ERRORS_FILE: &'static str = "async_errors.dart";

/// The directory of the routes.
pub const ROUTES: &'static str = "routes";

/// The file of the router, in `routes`.
pub const ROUTES_FILE: &'static str = "routes.dart";

/// The directory of the utilities.
pub const UTILS: &'static str = "utils";

/// The file of the theme, in `utils`; it is left empty.
pub const THEME_FILE: &'static str = "theme.dart";

/// The file of the extensions, in `utils`.
pub const EXTENSIONS_FILE: &'static str = "extensions.dart";

/// The file of the helpers, in `utils`.
pub const HELPER_FILE: &'static str = "helper.dart";

/// The directory of the services.
pub const SERVICES: &'static str = "services";

/// The file of the logger, in `services`.
pub const LOGGER_SERVICE_FILE: &'static str = "logger_service.dart";

/// The feature that every new project starts with.
pub const HOME: &'static str = "home";

/// `lib`, the directory of the sources.
pub open spec fn lib_dir() -> PathModel {
    seq![LIB@]
}

/// `lib/src`: the directory whose presence marks a project that has its
/// skeleton already.
pub open spec fn marker_dir() -> PathModel {
    seq![LIB@, SRC@]
}

/// `.env`, in the root of the project.
pub open spec fn env_file() -> PathModel {
    seq![ENV_FILE@]
}

/// `lib/main.dart`.
pub open spec fn main_file() -> PathModel {
    seq![LIB@, MAIN_FILE@]
}

/// The skeleton: `lib/main.dart`, and under `lib/src` the root widget and
/// the directories of the shared widgets, constants, exceptions, routes,
/// utilities, services and features, each directory before its files.
pub open spec fn skeleton_plan() -> Seq<StepModel> {
    let lib = lib_dir();
    let src = marker_dir();
    seq![
        dir_step(lib),
        file_step(lib, MAIN_FILE@, Some(MAIN_DART@)),
        dir_step(src),
        file_step(src, APP_FILE@, Some(APP_DART@)),
        dir_step(src.push(SHARED_WIDGETS@)),
        dir_step(src.push(CONSTANTS@)),
        file_step(src.push(CONSTANTS@), APP_SIZES_FILE@, Some(APP_SIZES@)),
        file_step(src.push(CONSTANTS@), APP_COLORS_FILE@, Some(APP_COLORS@)),
        file_step(src.push(CONSTANTS@), APP_TEXT_STYLES_FILE@, Some(APP_TEXT_STYLES@)),
        dir_step(src.push(EXCEPTIONS@)),
        file_step(src.push(EXCEPTIONS@), APP_EXCEPTIONS_FILE@, Some(APP_EXCEPTIONS@)),
        file_step(src.push(EXCEPTIONS@), ASYNC_ERRORS_FILE@, Some(ASYNC_ERRORS@)),
        dir_step(src.push(ROUTES@)),
        file_step(src.push(ROUTES@), ROUTES_FILE@, Some(ROUTES_DART@)),
        dir_step(src.push(UTILS@)),
        file_step(src.push(UTILS@), THEME_FILE@, None),
        file_step(src.push(UTILS@), EXTENSIONS_FILE@, Some(EXTENSIONS_DART@)),
        file_step(src.push(UTILS@), HELPER_FILE@, Some(HELPER_DART@)),
        dir_step(src.push(SERVICES@)),
        file_step(src.push(SERVICES@), LOGGER_SERVICE_FILE@, Some(LOGGER_SERVICE@)),
        dir_step(src.push(FEATURES@)),
    ]
}

/// What comes before the skeleton: an empty `.env` unless there is one, and
/// the removal of a `lib/main.dart` that is there.
pub open spec fn preparation(env_present: bool, main_present: bool) -> Seq<StepModel> {
    (if env_present {
        Seq::<StepModel>::empty()
    } else {
        seq![file_step(PathModel::empty(), ENV_FILE@, None)]
    }) + (if main_present {
        seq![removal_step(lib_dir(), MAIN_FILE@)]
    } else {
        Seq::<StepModel>::empty()
    })
}

/// The plan that creates a project: the preparation, the skeleton, and the
/// feature `home`.
pub open spec fn project_plan(env_present: bool, main_present: bool) -> Seq<StepModel> {
    preparation(env_present, main_present) + skeleton_plan() + feature_plan(HOME@, None)
}

/// What becomes of a request to create the project, given the paths that are
/// there already: with `lib/src` there it is refused, and nothing is planned.
pub open spec fn project_outcome(present: Set<PathModel>) -> Result<Seq<StepModel>, ScaffoldError> {
    if present.contains(marker_dir()) {
        Err(ScaffoldError::AlreadyExists)
    } else {
        Ok(project_plan(present.contains(env_file()), present.contains(main_file())))
    }
}

/// `home` is an accepted name, and trimming leaves it as it is.
pub proof fn lemma_home_is_valid()
    ensures
        valid_name(HOME@),
        trimmed(HOME@) == HOME@,
{
    reveal_strlit("home");
    assert(is_trimmed(HOME@));
    assert(HOME@[0] != '_');
    assert(!is_space(HOME@[0]));
}

/// The steps of the skeleton.
fn skeleton() -> (steps: Vec<Step>)
    ensures
        steps.deep_view() == skeleton_plan(),
{
    let lib = RelPath::root().join(LIB);
    let src = lib.join(SRC);
    let constants = src.join(CONSTANTS);
    let exceptions = src.join(EXCEPTIONS);
    let routes = src.join(ROUTES);
    let utils = src.join(UTILS);
    let services = src.join(SERVICES);
    let mut steps: Vec<Step> = Vec::new();
    steps.push(create_folder(&lib));
    steps.push(create_file(&lib, MAIN_FILE, Some(main_dart())));
    steps.push(create_folder(&src));
    steps.push(create_file(&src, APP_FILE, Some(app_dart())));
    steps.push(create_folder(&src.join(SHARED_WIDGETS)));
    steps.push(create_folder(&constants));
    steps.push(create_file(&constants, APP_SIZES_FILE, Some(app_sizes())));
    steps.push(create_file(&constants, APP_COLORS_FILE, Some(app_colors())));
    steps.push(create_file(&constants, APP_TEXT_STYLES_FILE, Some(app_text_styles())));
    steps.push(create_folder(&exceptions));
    steps.push(create_file(&exceptions, APP_EXCEPTIONS_FILE, Some(app_exceptions())));
    steps.push(create_file(&exceptions, ASYNC_ERRORS_FILE, Some(async_errors())));
    steps.push(create_folder(&routes));
    steps.push(create_file(&routes, ROUTES_FILE, Some(routes_dart())));
    steps.push(create_folder(&utils));
    steps.push(create_file(&utils, THEME_FILE, None));
    steps.push(create_file(&utils, EXTENSIONS_FILE, Some(extensions_dart())));
    steps.push(create_file(&utils, HELPER_FILE, Some(helper_dart())));
    steps.push(create_folder(&services));
    steps.push(create_file(&services, LOGGER_SERVICE_FILE, Some(logger_service())));
    steps.push(create_folder(&src.join(FEATURES)));
    proof {
        assert(lib@ =~= lib_dir());
        assert(src@ =~= marker_dir());
        assert(steps.deep_view() =~= skeleton_plan());
    }
    steps
}

/// The plan that creates the skeleton of a project and its first feature,
/// `home`. `present` lists the paths that are there already. With `lib/src`
/// among them the request is refused with `AlreadyExists` and nothing is
/// planned. Otherwise the plan starts with an empty `.env` unless `.env` is
/// listed, and with the removal of `lib/main.dart` if that is listed.
pub fn create_project_structure(present: &Vec<RelPath>) -> (result: Result<
    Vec<Step>,
    ScaffoldError,
>)
    ensures
        plan_view(result) == project_outcome(present.deep_view().to_set()),
{
    let root = RelPath::root();
    let lib = root.join(LIB);
    let marker = lib.join(SRC);
    let env = root.join(ENV_FILE);
    let main = lib.join(MAIN_FILE);
    proof {
        assert(lib@ =~= lib_dir());
        assert(marker@ =~= marker_dir());
        assert(env@ =~= env_file());
        assert(main@ =~= main_file());
    }
    if is_listed(present, &marker) {
        return Err(ScaffoldError::AlreadyExists);
    }
    let mut steps: Vec<Step> = Vec::new();
    if !is_listed(present, &env) {
        steps.push(create_file(&root, ENV_FILE, None));
    }
    if is_listed(present, &main) {
        steps.push(remove_file(&lib, MAIN_FILE));
    }
    proof {
        assert(steps.deep_view() =~= preparation(
            present.deep_view().to_set().contains(env_file()),
            present.deep_view().to_set().contains(main_file()),
        ));
    }
    extend(&mut steps, skeleton());
    let nothing: Vec<RelPath> = Vec::new();
    proof {
        lemma_home_is_valid();
        assert(nothing.deep_view() =~= Seq::<PathModel>::empty());
        assert(nothing.deep_view().to_set() =~= Set::<PathModel>::empty());
    }
    match add_feature(HOME, None, &nothing) {
        Ok(home) => {
            extend(&mut steps, home);
            Ok(steps)
        },
        Err(error) => Err(error),
    }
}

/// The skeleton removes nothing, makes sure of `lib/src`, and has every
/// directory before its files.
pub proof fn lemma_skeleton_shape()
    ensures
        additive(skeleton_plan()),
        skeleton_plan().contains(dir_step(marker_dir())),
        orderly(skeleton_plan()),
{
    let plan = skeleton_plan();
    let lib = lib_dir();
    let src = marker_dir();
    assert(plan.len() == 21);
    assert(plan[2] == dir_step(src));
    assert forall|at: int| 0 <= at < plan.len() implies has_parent(plan, at) by {
        if let StepModel::WriteFile { path, content } = plan[at] {
            if at == 1 {
                assert(path.drop_last() =~= lib);
                assert(plan[0] == dir_step(path.drop_last()));
            } else if at == 3 {
                assert(path.drop_last() =~= src);
                assert(plan[2] == dir_step(path.drop_last()));
            } else if at <= 8 {
                assert(path.drop_last() =~= src.push(CONSTANTS@));
                assert(plan[5] == dir_step(path.drop_last()));
            } else if at <= 11 {
                assert(path.drop_last() =~= src.push(EXCEPTIONS@));
                assert(plan[9] == dir_step(path.drop_last()));
            } else if at <= 13 {
                assert(path.drop_last() =~= src.push(ROUTES@));
                assert(plan[12] == dir_step(path.drop_last()));
            } else if at <= 17 {
                assert(path.drop_last() =~= src.push(UTILS@));
                assert(plan[14] == dir_step(path.drop_last()));
            } else {
                assert(path.drop_last() =~= src.push(SERVICES@));
                assert(plan[18] == dir_step(path.drop_last()));
            }
        }
    }
}

/// In the plan of a project every directory comes before its files.
pub proof fn lemma_project_plan_is_orderly(env_present: bool, main_present: bool)
    ensures
        orderly(project_plan(env_present, main_present)),
{
    let first = preparation(env_present, main_present);
    assert(orderly(first)) by {
        assert forall|at: int| 0 <= at < first.len() implies has_parent(first, at) by {}
    }
    lemma_skeleton_shape();
    lemma_feature_plan_is_orderly(HOME@, None);
    lemma_orderly_concat(first, skeleton_plan());
    lemma_orderly_concat(first + skeleton_plan(), feature_plan(HOME@, None));
}

/// A project is created once: when the plan of a first request has been
/// carried out, a second request is refused with `AlreadyExists`, and so
/// has no plan.
pub proof fn lemma_create_twice(present: Set<PathModel>)
    requires
        project_outcome(present) is Ok,
    ensures
        project_outcome(
            present_after(
                present,
                project_plan(present.contains(env_file()), present.contains(main_file())),
            ),
        ) == Err::<Seq<StepModel>, ScaffoldError>(ScaffoldError::AlreadyExists),
{
    let first = preparation(present.contains(env_file()), present.contains(main_file()));
    let rest = skeleton_plan() + feature_plan(HOME@, None);
    let plan = project_plan(present.contains(env_file()), present.contains(main_file()));
    assert(plan =~= first + rest);
    lemma_skeleton_shape();
    lemma_feature_plan_creates(HOME@, None);
    lemma_additive_concat(skeleton_plan(), feature_plan(HOME@, None));
    let at = choose|at: int|
        0 <= at < skeleton_plan().len() && skeleton_plan()[at] == dir_step(marker_dir());
    assert(rest[at] == dir_step(marker_dir()));
    lemma_present_after_concat(present, first, rest);
    lemma_additive_plan_ensures(present_after(present, first), rest, marker_dir());
}

} // verus!
