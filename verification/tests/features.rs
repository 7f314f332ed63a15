use rudder::add_feature;
use rudder::args::AddCommand;
use rudder::dart::{
    application_service, controller, fake_local_repository, fake_remote_repository,
    local_repository, remote_repository, stateless_widget,
};
use rudder::error::ScaffoldError;
use rudder::batch::add_features;
use rudder::feature::{materialize_layer, materialize_layers, resolve_base_path, Layer};
use rudder::name::{is_acceptable, normalize};
use rudder::path::{is_listed, RelPath};
use rudder::step::{create_file, create_folder, extend, remove_file, Step};

fn path(segments: &[&str]) -> RelPath {
    RelPath { segments: segments.iter().map(|segment| segment.to_string()).collect() }
}

fn dir(segments: &[&str]) -> Step {
    Step::EnsureDir { path: path(segments) }
}

fn file(segments: &[&str], content: Option<String>) -> Step {
    Step::WriteFile { path: path(segments), content }
}

fn written(plan: &Vec<Step>) -> Vec<String> {
    let mut files = Vec::new();
    for step in plan.iter() {
        if let Step::WriteFile { path, .. } = step {
            files.push(path.segments.join("/"));
        }
    }
    files
}

fn ensured(plan: &Vec<Step>) -> Vec<String> {
    let mut dirs = Vec::new();
    for step in plan.iter() {
        if let Step::EnsureDir { path } = step {
            dirs.push(path.segments.join("/"));
        }
    }
    dirs
}

#[test]
fn paths_are_joined_segment_by_segment() {
    let root = RelPath::root();
    assert!(root.segments.is_empty());
    let features = root.join("lib").join("src").join("features");
    assert_eq!(features.segments, vec!["lib", "src", "features"]);
    assert_eq!(root.segments.len(), 0);
    assert_eq!(features.duplicate(), features);
}

#[test]
fn paths_are_compared_segment_by_segment() {
    assert!(path(&["lib", "src"]).same_as(&path(&["lib", "src"])));
    assert!(!path(&["lib", "src"]).same_as(&path(&["lib"])));
    assert!(!path(&["lib", "src"]).same_as(&path(&["lib", "srx"])));
    assert!(!path(&["lib", "src"]).same_as(&path(&["lib/src"])));
    assert!(RelPath::root().same_as(&path(&[])));
}

#[test]
fn listed_paths_are_found() {
    let paths = vec![path(&["lib"]), path(&["lib", "src"])];
    assert!(is_listed(&paths, &path(&["lib", "src"])));
    assert!(is_listed(&paths, &path(&["lib"])));
    assert!(!is_listed(&paths, &path(&["src"])));
    assert!(!is_listed(&Vec::new(), &path(&["lib"])));
}

#[test]
fn steps_name_their_paths() {
    let folder = path(&["lib", "src"]);
    assert_eq!(create_folder(&folder), dir(&["lib", "src"]));
    assert_eq!(
        create_file(&folder, "app.dart", Some("text".to_string())),
        file(&["lib", "src", "app.dart"], Some("text".to_string()))
    );
    assert_eq!(create_file(&RelPath::root(), ".env", None), file(&[".env"], None));
    assert_eq!(
        remove_file(&path(&["lib"]), "main.dart"),
        Step::RemoveFile { path: path(&["lib", "main.dart"]) }
    );
}

#[test]
fn extend_appends_in_order() {
    let mut steps = vec![dir(&["a"])];
    extend(&mut steps, vec![dir(&["b"]), dir(&["c"])]);
    assert_eq!(steps, vec![dir(&["a"]), dir(&["b"]), dir(&["c"])]);
}

#[test]
fn base_path_of_a_feature() {
    assert_eq!(
        resolve_base_path("home", None).unwrap().path.segments,
        vec!["lib", "src", "features", "home"]
    );
}

#[test]
fn base_path_of_a_sub_feature() {
    assert_eq!(
        resolve_base_path("home", Some("settings")).unwrap().path.segments,
        vec!["lib", "src", "features", "home", "sub_features", "settings"]
    );
}

#[test]
fn base_path_trims_the_feature_and_takes_the_sub_feature_as_given() {
    assert_eq!(
        resolve_base_path(" home\n", None).unwrap().path.segments,
        vec!["lib", "src", "features", "home"]
    );
    assert_eq!(
        resolve_base_path(" home ", Some(" settings")).unwrap().path.segments,
        vec!["lib", "src", "features", "home", "sub_features", " settings"]
    );
    assert_eq!(
        resolve_base_path("home", Some("\tsettings\n")).err(),
        Some(ScaffoldError::InvalidName)
    );
}

#[test]
fn base_path_comes_with_its_steps_and_its_name() {
    let base = resolve_base_path("home", None).unwrap();
    assert_eq!(base.steps, vec![dir(&["lib", "src", "features", "home"])]);
    assert_eq!(base.name.title, "Home");
    let base = resolve_base_path("home", Some("user_settings")).unwrap();
    assert_eq!(
        base.steps,
        vec![
            dir(&["lib", "src", "features", "home", "sub_features"]),
            dir(&["lib", "src", "features", "home", "sub_features", "user_settings"]),
        ]
    );
    assert_eq!(base.name.name, "user_settings");
    assert_eq!(base.name.title, "UserSettings");
    assert_eq!(base.name.lower, "usersettings");
}

#[test]
fn base_path_of_a_bad_name_is_refused() {
    assert_eq!(resolve_base_path("", None).err(), Some(ScaffoldError::InvalidName));
    assert_eq!(resolve_base_path("   ", None).err(), Some(ScaffoldError::InvalidName));
    assert_eq!(resolve_base_path("home", Some(" ")).err(), Some(ScaffoldError::InvalidName));
    assert_eq!(resolve_base_path("a/b", Some("x")).err(), Some(ScaffoldError::InvalidName));
    assert_eq!(resolve_base_path("home", Some("\"x\"")).err(), Some(ScaffoldError::InvalidName));
}

#[test]
fn base_paths_never_collide() {
    let feature = resolve_base_path("home", None).unwrap().path;
    let subs = ["a", "b", "home", "sub_features", "A", "a_"];
    let mut paths = vec![feature];
    for sub in subs.iter() {
        let next = resolve_base_path("home", Some(sub)).unwrap().path;
        for earlier in paths.iter() {
            assert!(!earlier.same_as(&next));
            assert_ne!(earlier.segments, next.segments);
        }
        paths.push(next);
    }
}

#[test]
fn base_paths_of_names_that_trim_alike_are_apart() {
    let first = resolve_base_path("home", Some("a")).unwrap().path;
    let second = resolve_base_path("home", Some(" a")).unwrap().path;
    let third = resolve_base_path("home", Some("a ")).unwrap().path;
    assert!(!first.same_as(&second));
    assert!(!first.same_as(&third));
    assert!(!second.same_as(&third));
}

#[test]
fn a_second_sub_feature_gets_its_own_directory() {
    let mut present: Vec<RelPath> = Vec::new();
    let first = add_feature("home", Some("a"), &present).unwrap();
    for step in first.iter() {
        match step {
            Step::EnsureDir { path } => present.push(path.duplicate()),
            Step::WriteFile { path, .. } => present.push(path.duplicate()),
            Step::RemoveFile { .. } => panic!("nothing is removed"),
        }
    }
    assert_eq!(add_feature("home", Some("a"), &present), Err(ScaffoldError::AlreadyExists));
    let sub_features = ["lib", "src", "features", "home", "sub_features"];
    for sub in [" a", "b", "a ", "A"] {
        let second = add_feature("home", Some(sub), &present).unwrap();
        assert_eq!(second[0], dir(&sub_features));
        for step in second[1..].iter() {
            let path = match step {
                Step::EnsureDir { path } => path,
                Step::WriteFile { path, .. } => path,
                Step::RemoveFile { path } => path,
            };
            assert_eq!(path.segments[..5].to_vec(), sub_features.to_vec());
            assert_eq!(path.segments[5], sub);
            assert!(!present.contains(path));
        }
    }
}

#[test]
fn files_of_a_sub_feature_are_named_after_it_as_given() {
    let plan = add_feature("home", Some(" a"), &Vec::new()).unwrap();
    let base = ["lib", "src", "features", "home", "sub_features", " a"];
    let at = |rest: &[&str]| -> RelPath {
        let mut segments: Vec<&str> = base.to_vec();
        segments.extend_from_slice(rest);
        path(&segments)
    };
    assert_eq!(plan[1], Step::EnsureDir { path: at(&[]) });
    assert_eq!(
        plan[3],
        Step::WriteFile {
            path: at(&["application", " a_service.dart"]),
            content: Some(application_service(" a")),
        }
    );
    assert_eq!(
        plan[5],
        Step::WriteFile {
            path: at(&["data", " a_local_repository.dart"]),
            content: Some(local_repository(" a")),
        }
    );
    assert_eq!(
        plan[6],
        Step::WriteFile {
            path: at(&["data", " a_remote_repository.dart"]),
            content: Some(remote_repository(" a")),
        }
    );
    assert_eq!(
        plan[7],
        Step::WriteFile {
            path: at(&["data", "fake_ a_local_repository.dart"]),
            content: Some(fake_local_repository(" a")),
        }
    );
    assert_eq!(
        plan[8],
        Step::WriteFile {
            path: at(&["data", "fake_ a_remote_repository.dart"]),
            content: Some(fake_remote_repository(" a")),
        }
    );
    assert_eq!(plan[10], Step::WriteFile { path: at(&["domain", " a_models.dart"]), content: None });
    assert_eq!(plan[11], Step::WriteFile { path: at(&["domain", " a_unions.dart"]), content: None });
    assert_eq!(
        plan[13],
        Step::WriteFile {
            path: at(&["presentation", " a_screen.dart"]),
            content: Some(stateless_widget(" a")),
        }
    );
    assert_eq!(
        plan[15],
        Step::WriteFile {
            path: at(&["presentation", "controllers", " a_controller.dart"]),
            content: Some(controller(" a")),
        }
    );
}

#[test]
fn layer_directories() {
    assert_eq!(Layer::Application.dir_name(), "application");
    assert_eq!(Layer::Data.dir_name(), "data");
    assert_eq!(Layer::Domain.dir_name(), "domain");
    assert_eq!(Layer::Presentation.dir_name(), "presentation");
}

#[test]
fn application_layer_of_home() {
    let name = normalize("home").unwrap();
    let steps = materialize_layer(&path(&["f", "home"]), Layer::Application, &name);
    assert_eq!(
        steps,
        vec![
            dir(&["f", "home", "application"]),
            file(&["f", "home", "application", "home_service.dart"], Some(application_service("home"))),
        ]
    );
}

#[test]
fn domain_layer_is_left_empty() {
    let name = normalize("home").unwrap();
    let steps = materialize_layer(&path(&["f", "home"]), Layer::Domain, &name);
    assert_eq!(
        steps,
        vec![
            dir(&["f", "home", "domain"]),
            file(&["f", "home", "domain", "home_models.dart"], None),
            file(&["f", "home", "domain", "home_unions.dart"], None),
        ]
    );
}

#[test]
fn layers_come_in_their_order() {
    let name = normalize("home").unwrap();
    let steps = materialize_layers(&path(&["x"]), &name);
    assert_eq!(
        ensured(&steps),
        vec!["x/application", "x/data", "x/domain", "x/presentation", "x/presentation/controllers"]
    );
    assert_eq!(steps.len(), 14);
}

#[test]
fn layers_use_the_forms_they_are_given() {
    let mut name = normalize("home").unwrap();
    name.title = "Start".to_string();
    name.lower = "begin".to_string();
    let steps = materialize_layer(&path(&[]), Layer::Application, &name);
    match &steps[1] {
        Step::WriteFile { path, content } => {
            assert_eq!(path.segments, vec!["application", "home_service.dart"]);
            let text = content.clone().unwrap();
            assert!(text.contains("class StartService implements AbstractStartService {"));
            assert!(text.contains("final beginServiceProvider = Provider<StartService>"));
        }
        _ => panic!("the second step writes the service"),
    }
}

#[test]
fn add_home_on_a_fresh_project() {
    let plan = add_feature("home", None, &Vec::new()).unwrap();
    let base = ["lib", "src", "features", "home"];
    let at = |rest: &[&str]| -> RelPath {
        let mut segments: Vec<&str> = base.to_vec();
        segments.extend_from_slice(rest);
        path(&segments)
    };
    let expected = vec![
        Step::EnsureDir { path: at(&[]) },
        Step::EnsureDir { path: at(&["application"]) },
        Step::WriteFile {
            path: at(&["application", "home_service.dart"]),
            content: Some(application_service("home")),
        },
        Step::EnsureDir { path: at(&["data"]) },
        Step::WriteFile {
            path: at(&["data", "home_local_repository.dart"]),
            content: Some(local_repository("home")),
        },
        Step::WriteFile {
            path: at(&["data", "home_remote_repository.dart"]),
            content: Some(remote_repository("home")),
        },
        Step::WriteFile {
            path: at(&["data", "fake_home_local_repository.dart"]),
            content: Some(fake_local_repository("home")),
        },
        Step::WriteFile {
            path: at(&["data", "fake_home_remote_repository.dart"]),
            content: Some(fake_remote_repository("home")),
        },
        Step::EnsureDir { path: at(&["domain"]) },
        Step::WriteFile { path: at(&["domain", "home_models.dart"]), content: None },
        Step::WriteFile { path: at(&["domain", "home_unions.dart"]), content: None },
        Step::EnsureDir { path: at(&["presentation"]) },
        Step::WriteFile {
            path: at(&["presentation", "home_screen.dart"]),
            content: Some(stateless_widget("home")),
        },
        Step::EnsureDir { path: at(&["presentation", "controllers"]) },
        Step::WriteFile {
            path: at(&["presentation", "controllers", "home_controller.dart"]),
            content: Some(controller("home")),
        },
    ];
    assert_eq!(plan, expected);
}

#[test]
fn add_home_writes_exactly_the_files_of_the_table() {
    let plan = add_feature("home", None, &Vec::new()).unwrap();
    assert_eq!(
        written(&plan),
        vec![
            "lib/src/features/home/application/home_service.dart",
            "lib/src/features/home/data/home_local_repository.dart",
            "lib/src/features/home/data/home_remote_repository.dart",
            "lib/src/features/home/data/fake_home_local_repository.dart",
            "lib/src/features/home/data/fake_home_remote_repository.dart",
            "lib/src/features/home/domain/home_models.dart",
            "lib/src/features/home/domain/home_unions.dart",
            "lib/src/features/home/presentation/home_screen.dart",
            "lib/src/features/home/presentation/controllers/home_controller.dart",
        ]
    );
    assert_eq!(
        ensured(&plan),
        vec![
            "lib/src/features/home",
            "lib/src/features/home/application",
            "lib/src/features/home/data",
            "lib/src/features/home/domain",
            "lib/src/features/home/presentation",
            "lib/src/features/home/presentation/controllers",
        ]
    );
    assert_eq!(plan.len(), 15);
    for step in plan.iter() {
        assert!(!matches!(step, Step::RemoveFile { .. }));
    }
}

#[test]
fn every_file_of_a_plan_follows_its_directory() {
    let plan = add_feature("user_profile", Some("avatar"), &Vec::new()).unwrap();
    let mut seen: Vec<Vec<String>> = Vec::new();
    for step in plan.iter() {
        match step {
            Step::EnsureDir { path } => seen.push(path.segments.clone()),
            Step::WriteFile { path, .. } => {
                let parent = path.segments[..path.segments.len() - 1].to_vec();
                assert!(seen.contains(&parent));
            }
            Step::RemoveFile { .. } => panic!("nothing is removed"),
        }
    }
}

#[test]
fn add_a_sub_feature() {
    let plan = add_feature("home", Some("settings"), &Vec::new()).unwrap();
    assert_eq!(plan.len(), 16);
    assert_eq!(plan[0], dir(&["lib", "src", "features", "home", "sub_features"]));
    assert_eq!(plan[1], dir(&["lib", "src", "features", "home", "sub_features", "settings"]));
    assert_eq!(
        plan[3],
        file(
            &["lib", "src", "features", "home", "sub_features", "settings", "application", "settings_service.dart"],
            Some(application_service("settings"))
        )
    );
    let files = written(&plan);
    assert_eq!(files.len(), 9);
    for name in files.iter() {
        assert!(name.starts_with("lib/src/features/home/sub_features/settings/"));
        assert!(name.contains("settings_"));
        assert!(!name.contains("home_"));
    }
}

#[test]
fn add_a_sub_feature_when_its_parent_is_there() {
    let present = vec![
        path(&["lib", "src", "features", "home"]),
        path(&["lib", "src", "features", "home", "sub_features"]),
    ];
    let plan = add_feature("home", Some("settings"), &present).unwrap();
    assert_eq!(plan.len(), 16);
    assert_eq!(plan[0], dir(&["lib", "src", "features", "home", "sub_features"]));
}

#[test]
fn add_uses_the_name_for_files_and_the_title_for_types() {
    let plan = add_feature("user_profile", None, &Vec::new()).unwrap();
    assert_eq!(
        plan[2],
        file(
            &["lib", "src", "features", "user_profile", "application", "user_profile_service.dart"],
            Some(application_service("user_profile"))
        )
    );
    match &plan[2] {
        Step::WriteFile { content, .. } => {
            assert!(content.clone().unwrap().contains("class UserProfileService "));
        }
        _ => panic!("the third step writes the service"),
    }
}

#[test]
fn add_trims_the_name_of_the_feature() {
    let padded = add_feature("  home ", None, &Vec::new()).unwrap();
    let plain = add_feature("home", None, &Vec::new()).unwrap();
    assert_eq!(padded, plain);
    let padded = add_feature("  home ", Some("settings"), &Vec::new()).unwrap();
    let plain = add_feature("home", Some("settings"), &Vec::new()).unwrap();
    assert_eq!(padded, plain);
}

#[test]
fn add_takes_the_name_of_the_sub_feature_as_given() {
    let padded = add_feature("home", Some(" settings"), &Vec::new()).unwrap();
    let plain = add_feature("home", Some("settings"), &Vec::new()).unwrap();
    assert_ne!(padded, plain);
    assert_eq!(padded[1], dir(&["lib", "src", "features", "home", "sub_features", " settings"]));
}

#[test]
fn add_a_name_of_dots_and_underscores() {
    let plan = add_feature("._", None, &Vec::new()).unwrap();
    assert_eq!(plan[0], dir(&["lib", "src", "features", "._"]));
    assert_eq!(
        plan[2],
        file(
            &["lib", "src", "features", "._", "application", ".__service.dart"],
            Some(application_service("._"))
        )
    );
    assert!(application_service("._").contains("class .Service implements Abstract.Service {"));
}

#[test]
fn add_an_empty_name_is_refused() {
    assert_eq!(add_feature("", None, &Vec::new()), Err(ScaffoldError::InvalidName));
}

#[test]
fn add_a_whitespace_name_is_refused() {
    assert_eq!(add_feature("   ", None, &Vec::new()), Err(ScaffoldError::InvalidName));
    assert_eq!(add_feature("\t\n", None, &Vec::new()), Err(ScaffoldError::InvalidName));
    assert_eq!(add_feature("home", Some(""), &Vec::new()), Err(ScaffoldError::InvalidName));
    assert_eq!(add_feature("home", Some(" \n"), &Vec::new()), Err(ScaffoldError::InvalidName));
    assert_eq!(add_feature(" ", Some("settings"), &Vec::new()), Err(ScaffoldError::InvalidName));
}

#[test]
fn add_a_name_of_dots_is_refused() {
    assert_eq!(add_feature("..", None, &Vec::new()), Err(ScaffoldError::InvalidName));
    assert_eq!(add_feature("home", Some(".."), &Vec::new()), Err(ScaffoldError::InvalidName));
    assert_eq!(add_feature(".", Some("x"), &Vec::new()), Err(ScaffoldError::InvalidName));
}

#[test]
fn add_a_quoted_name_is_refused() {
    assert_eq!(add_feature("\"home\"", None, &Vec::new()), Err(ScaffoldError::InvalidName));
}

#[test]
fn a_bad_name_is_refused_before_presence_is_looked_at() {
    let present = vec![path(&["lib", "src", "features", ""])];
    assert_eq!(add_feature("", None, &present), Err(ScaffoldError::InvalidName));
}

#[test]
fn add_a_feature_that_is_there_is_refused() {
    let present = vec![path(&["lib", "src"]), path(&["lib", "src", "features", "home"])];
    assert_eq!(add_feature("home", None, &present), Err(ScaffoldError::AlreadyExists));
    assert_eq!(add_feature(" home ", None, &present), Err(ScaffoldError::AlreadyExists));
    assert!(add_feature("profile", None, &present).is_ok());
    assert!(add_feature("home", Some("settings"), &present).is_ok());
}

#[test]
fn add_a_feature_twice() {
    let mut present: Vec<RelPath> = Vec::new();
    let plan = add_feature("home", None, &present).unwrap();
    for step in plan.iter() {
        match step {
            Step::EnsureDir { path } => present.push(path.duplicate()),
            Step::WriteFile { path, .. } => present.push(path.duplicate()),
            Step::RemoveFile { .. } => panic!("nothing is removed"),
        }
    }
    assert_eq!(add_feature("home", None, &present), Err(ScaffoldError::AlreadyExists));
}

#[test]
fn add_home_and_profile() {
    let command = AddCommand { feature: "home,profile".to_string(), sub_feature: None };
    let reports = add_features(&command, &Vec::new());
    assert_eq!(reports.len(), 2);
    assert_eq!(reports[0].feature, "home");
    assert_eq!(reports[0].outcome, add_feature("home", None, &Vec::new()));
    assert!(reports[0].outcome.is_ok());
    assert_eq!(reports[1].feature, "profile");
    assert_eq!(reports[1].outcome, add_feature("profile", None, &Vec::new()));
    assert!(reports[1].outcome.is_ok());
}

#[test]
fn add_home_and_profile_when_home_is_there() {
    let present = vec![path(&["lib", "src", "features", "home"])];
    let command = AddCommand { feature: "home,profile".to_string(), sub_feature: None };
    let reports = add_features(&command, &present);
    assert_eq!(reports.len(), 2);
    assert_eq!(reports[0].feature, "home");
    assert_eq!(reports[0].outcome, Err(ScaffoldError::AlreadyExists));
    assert_eq!(reports[1].feature, "profile");
    let plan = reports[1].outcome.as_ref().unwrap();
    assert_eq!(plan.len(), 15);
    assert_eq!(plan[0], dir(&["lib", "src", "features", "profile"]));
    assert_eq!(
        ScaffoldError::AlreadyExists.message("home"),
        "**home already exists. Please delete the folder and try again.**"
    );
}

#[test]
fn a_list_goes_on_after_a_bad_name() {
    let command = AddCommand { feature: "home, ,\"x\", profile ,".to_string(), sub_feature: None };
    let reports = add_features(&command, &Vec::new());
    let names: Vec<&str> = reports.iter().map(|report| report.feature.as_str()).collect();
    assert_eq!(names, vec!["home", "", "\"x\"", "profile", ""]);
    assert!(reports[0].outcome.is_ok());
    assert_eq!(reports[1].outcome, Err(ScaffoldError::InvalidName));
    assert_eq!(reports[2].outcome, Err(ScaffoldError::InvalidName));
    assert_eq!(reports[3].outcome, add_feature("profile", None, &Vec::new()));
    assert_eq!(reports[4].outcome, Err(ScaffoldError::InvalidName));
}

#[test]
fn a_name_listed_twice_is_added_once() {
    let command = AddCommand { feature: "home,profile, home".to_string(), sub_feature: None };
    let reports = add_features(&command, &Vec::new());
    assert!(reports[0].outcome.is_ok());
    assert!(reports[1].outcome.is_ok());
    assert_eq!(reports[2].outcome, Err(ScaffoldError::AlreadyExists));
}

#[test]
fn a_sub_feature_goes_under_every_listed_feature() {
    let command =
        AddCommand { feature: "home,profile".to_string(), sub_feature: Some("settings".to_string()) };
    let present = vec![path(&["lib", "src", "features", "home"])];
    let reports = add_features(&command, &present);
    assert_eq!(reports.len(), 2);
    assert_eq!(reports[0].outcome, add_feature("home", Some("settings"), &Vec::new()));
    assert_eq!(reports[1].outcome, add_feature("profile", Some("settings"), &Vec::new()));
    let plan = reports[1].outcome.as_ref().unwrap();
    assert_eq!(plan[1], dir(&["lib", "src", "features", "profile", "sub_features", "settings"]));
}

#[test]
fn a_bad_sub_feature_refuses_every_listed_feature() {
    let command = AddCommand { feature: "home,profile".to_string(), sub_feature: Some(" ".to_string()) };
    let reports = add_features(&command, &Vec::new());
    assert_eq!(reports.len(), 2);
    assert_eq!(reports[0].outcome, Err(ScaffoldError::InvalidName));
    assert_eq!(reports[1].outcome, Err(ScaffoldError::InvalidName));
}

#[test]
fn an_empty_list_has_one_empty_name() {
    let command = AddCommand { feature: "".to_string(), sub_feature: None };
    let reports = add_features(&command, &Vec::new());
    assert_eq!(reports.len(), 1);
    assert_eq!(reports[0].feature, "");
    assert_eq!(reports[0].outcome, Err(ScaffoldError::InvalidName));
}

#[test]
fn a_plan_stays_inside_its_feature() {
    let requests: [(&str, Option<&str>); 4] = [
        ("home", None),
        ("user_profile", Some("avatar")),
        (" .hidden ", None),
        ("a b", Some("c,d")),
    ];
    for (feature, sub_feature) in requests.iter() {
        let plan = add_feature(feature, *sub_feature, &Vec::new()).unwrap();
        let home = vec!["lib", "src", "features", feature.trim()];
        for step in plan.iter() {
            let path = match step {
                Step::EnsureDir { path } => path,
                Step::WriteFile { path, .. } => path,
                Step::RemoveFile { path } => path,
            };
            assert!(path.segments.len() >= home.len());
            assert_eq!(path.segments[..home.len()].to_vec(), home);
            for segment in path.segments.iter() {
                assert!(is_acceptable(segment));
                assert_ne!(segment, "..");
                assert!(!segment.contains('/'));
                assert!(!segment.contains('\\'));
            }
        }
    }
}
