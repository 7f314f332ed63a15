use rudder::dart::{
    app_colors, app_dart, app_exceptions, app_sizes, app_text_styles, application_service,
    async_errors, controller, extensions_dart, fake_local_repository, fake_remote_repository,
    helper_dart, local_repository, logger_service, main_dart, remote_repository, routes_dart,
    stateless_widget, StringTrait,
};
use rudder::template::render;

#[test]
fn render_replaces_both_marks() {
    assert_eq!(
        render("class {Name}Service; final {name}ServiceProvider;", "Home", "home"),
        "class HomeService; final homeServiceProvider;"
    );
}

#[test]
fn render_replaces_every_mark() {
    assert_eq!(render("{Name}{Name}{name}", "Ab", "cd"), "AbAbcd");
    assert_eq!(render("{name}", "T", "l"), "l");
    assert_eq!(render("{Name}", "", "l"), "");
}

#[test]
fn render_keeps_other_braces() {
    assert_eq!(render("f({Key? key}) {}", "T", "l"), "f({Key? key}) {}");
    assert_eq!(render("{Names} {NAME} {name {Name", "T", "l"), "{Names} {NAME} {name {Name");
    assert_eq!(render("{{Name}}", "T", "l"), "{T}");
    assert_eq!(render("${name}", "T", "l"), "$l");
}

#[test]
fn render_does_not_expand_what_it_wrote() {
    assert_eq!(render("{Name}", "{name}", "x"), "{name}");
    assert_eq!(render("{Na{name}me}", "T", "l"), "{Nalme}");
}

#[test]
fn render_of_plain_text_is_the_text() {
    assert_eq!(render("", "T", "l"), "");
    assert_eq!(render("import 'dart:io';\n", "T", "l"), "import 'dart:io';\n");
}

#[test]
fn extensions_text() {
    assert_eq!(
        extensions_dart(),
        "extension StringExtension on String {\n            String capitalize() {\n                return '${this[0].toUpperCase()}${substring(1)}';\n            }\n        }"
    );
}

#[test]
fn helper_text() {
    assert_eq!(
        helper_dart(),
        "import 'dart:math';\n\n            abstract class Helper {\n                static int getRandomNumber(int min, int max) {\n                    final random = Random();\n                    return min + random.nextInt(max - min);\n                }\n            }"
    );
}

#[test]
fn app_colors_text() {
    assert_eq!(
        app_colors(),
        "import 'package:flutter/material.dart';\n            \n            /// App colors\n            abstract class AppColors {\n                static const darkBlue = Color(0xFF555E82);\n            }"
    );
}

#[test]
fn fixed_texts_are_trimmed() {
    let texts = [
        main_dart(),
        app_dart(),
        routes_dart(),
        extensions_dart(),
        logger_service(),
        async_errors(),
        app_exceptions(),
        app_sizes(),
        app_colors(),
        app_text_styles(),
        helper_dart(),
    ];
    for text in texts.iter() {
        assert!(!text.is_empty());
        assert_eq!(text.trim(), text.as_str());
    }
}

#[test]
fn fixed_texts_begin_and_end_as_the_files_do() {
    assert!(main_dart().starts_with("import 'dart:io';\n\n        import 'package:flutter/foundation.dart';"));
    assert!(main_dart().ends_with("return true;\n            };\n        }"));
    assert!(app_dart().starts_with("import 'package:flutter/material.dart';"));
    assert!(app_dart().contains("class MyApp extends ConsumerStatefulWidget {"));
    assert!(app_dart().ends_with("}\n        }"));
    assert!(routes_dart().starts_with("import 'dart:developer';"));
    assert!(routes_dart().contains("class AppRouter extends $AppRouter implements AutoRouteGuard {"));
    assert!(routes_dart().ends_with("//     }\n        // }"));
    assert!(logger_service().starts_with("import 'package:logger/logger.dart';\n    import"));
    assert!(logger_service().ends_with("//\n            }\n        }"));
    assert!(async_errors().starts_with("import '../app_exceptions.dart';"));
    assert!(async_errors().contains("class AsyncErrorLogger extends ProviderObserver {"));
    assert!(app_exceptions().contains("class AppException with _$AppException {"));
    assert!(app_sizes().contains("static const p64 = 64.0;"));
    assert!(app_sizes().ends_with("const gapH64 = SizedBox(height: Sizes.p64);"));
    assert!(app_text_styles().contains("abstract class AppTextStyles {"));
}

#[test]
fn fixed_texts_have_their_lengths() {
    assert_eq!(main_dart().len(), 2744);
    assert_eq!(app_dart().len(), 2454);
    assert_eq!(routes_dart().len(), 4136);
    assert_eq!(extensions_dart().len(), 161);
    assert_eq!(logger_service().len(), 2242);
    assert_eq!(async_errors().len(), 1484);
    assert_eq!(app_exceptions().len(), 584);
    assert_eq!(app_sizes().len(), 1567);
    assert_eq!(app_colors().len(), 191);
    assert_eq!(app_text_styles().len(), 2632);
    assert_eq!(helper_dart().len(), 256);
}

#[test]
fn controller_of_home() {
    assert_eq!(
        controller("home"),
        "import 'package:flutter_riverpod/flutter_riverpod.dart';\n\
         \n        class HomeController  extends StateNotifier<bool> {\n            final Ref ref;\n\
         \n            HomeController(this.ref) : super(true);\n\
         \n            Future<void> fetchSomething() async => throw UnimplementedError();\n        }\n\
         \n        final homeControllerProvider = StateNotifierProvider.autoDispose<HomeController, bool>((ref) => HomeController(ref));"
    );
}

#[test]
fn screen_of_home() {
    assert_eq!(
        stateless_widget("home"),
        "import 'package:flutter/material.dart';\n        import 'package:auto_route/auto_route.dart';\n\
         \n        @RoutePage()\n        class HomeScreen extends StatelessWidget {\n            const HomeScreen({Key? key}) : super(key: key);\n\
         \n            @override\n            Widget build(BuildContext context) {\n                return Scaffold(\n                    appBar: AppBar(\n                        title: const Text('Home'),\n                    ),\n                    body: const Center(\n                        child: Text('Home'),\n                    ),\n                );\n            }\n        }"
    );
}

#[test]
fn service_of_home() {
    assert_eq!(
        application_service("home"),
        "import 'package:flutter_riverpod/flutter_riverpod.dart';\n\
         \n        abstract class AbstractHomeService {\n            Future<void> save();\n        }\n\
         \n        class HomeService implements AbstractHomeService {\n            final Ref ref;\n\
         \n            HomeService(this.ref);\n\
         \n            @override\n            Future<void> save() async => throw UnimplementedError();\n        }\n\
         \n        final homeServiceProvider = Provider<HomeService>((ref) => HomeService(ref));"
    );
}

#[test]
fn local_repository_of_home() {
    assert_eq!(
        local_repository("home"),
        "import 'package:flutter_riverpod/flutter_riverpod.dart';\n\
         \n        abstract class AbstractHomeLocalRepository {\n            Future<void> save();\n        }\n\
         \n        class HomeLocalRepository implements AbstractHomeLocalRepository{\n            final Ref ref;\n\
         \n            HomeLocalRepository(this.ref);\n\
         \n            @override\n            Future<void> save() async => throw UnimplementedError();\n        }\n\
         \n        final homeLocalRepositoryProvider = Provider<HomeLocalRepository>((ref) => HomeLocalRepository(ref));"
    );
}

#[test]
fn remote_repository_of_home() {
    assert_eq!(
        remote_repository("home"),
        "import 'package:flutter_riverpod/flutter_riverpod.dart';\n\
         \n        abstract class AbstractHomeRemoteRepository {\n            Future<void> save();\n        }\n\
         \n        class HomeRemoteRepository implements AbstractHomeRemoteRepository {\n            final Ref ref;\n\
         \n            HomeRemoteRepository(this.ref);\n\
         \n            @override\n            Future<void> save() async => throw UnimplementedError();\n        }\n\
         \n        final homeRemoteRepositoryProvider = Provider<HomeRemoteRepository>((ref) => HomeRemoteRepository(ref));"
    );
}

#[test]
fn fake_local_repository_of_home() {
    assert_eq!(
        fake_local_repository("home"),
        "import 'package:flutter_riverpod/flutter_riverpod.dart';\n\
         \n        abstract class AbstractFakeHomeLocalRepository {\n            Future<void> save();\n        }\n\
         \n        class FakeHomeLocalRepository implements AbstractFakeHomeLocalRepository{\n            final Ref ref;\n\
         \n            FakeHomeLocalRepository(this.ref);\n\
         \n            @override\n            Future<void> save() async => throw UnimplementedError();\n        }\n\
         \n        final fakeHomeLocalRepositoryProvider = Provider<FakeHomeLocalRepository>((ref) => FakeHomeLocalRepository(ref));"
    );
}

#[test]
fn fake_remote_repository_of_home() {
    assert_eq!(
        fake_remote_repository("home"),
        "import 'package:flutter_riverpod/flutter_riverpod.dart';\n\
         \n        abstract class AbstractFakeHomeRemoteRepository {\n            Future<void> save();\n        }\n\
         \n        class FakeHomeRemoteRepository implements AbstractFakeHomeRemoteRepository {\n            final Ref ref;\n\
         \n            FakeHomeRemoteRepository(this.ref);\n\
         \n            @override\n            Future<void> save() async => throw UnimplementedError();\n        }\n\
         \n        final fakeHomeRemoteRepositoryProvider = Provider<FakeHomeRemoteRepository>((ref) => FakeHomeRemoteRepository(ref));"
    );
}

#[test]
fn user_profile_is_written_in_title_case_everywhere() {
    let name = "user_profile";
    assert!(application_service(name).contains("class UserProfileService implements AbstractUserProfileService {"));
    assert!(local_repository(name).contains("class UserProfileLocalRepository implements AbstractUserProfileLocalRepository{"));
    assert!(remote_repository(name).contains("class UserProfileRemoteRepository implements AbstractUserProfileRemoteRepository {"));
    assert!(fake_local_repository(name).contains("class FakeUserProfileLocalRepository implements AbstractFakeUserProfileLocalRepository{"));
    assert!(fake_remote_repository(name).contains("class FakeUserProfileRemoteRepository implements AbstractFakeUserProfileRemoteRepository {"));
    assert!(controller(name).contains("class UserProfileController  extends StateNotifier<bool> {"));
    assert!(stateless_widget(name).contains("class UserProfileScreen extends StatelessWidget {"));
}

#[test]
fn user_profile_is_never_written_in_another_case() {
    let name = "user_profile";
    let texts = [
        application_service(name),
        local_repository(name),
        remote_repository(name),
        fake_local_repository(name),
        fake_remote_repository(name),
        controller(name),
        stateless_widget(name),
    ];
    for text in texts.iter() {
        assert!(text.contains("UserProfile"));
        for other in ["user_profile", "User_profile", "Userprofile", "userProfile", "USERPROFILE", "{Name}", "{name}"] {
            assert!(!text.contains(other), "{}", other);
        }
        let lower_case = text.matches("userprofile").count();
        let as_variable = text.matches("final userprofile").count();
        assert_eq!(lower_case, as_variable);
    }
}

#[test]
fn user_profile_providers_are_named_in_lower_case() {
    assert!(application_service("user_profile").contains("final userprofileServiceProvider = Provider<UserProfileService>"));
    assert!(local_repository("user_profile").contains("final userprofileLocalRepositoryProvider = "));
    assert!(remote_repository("user_profile").contains("final userprofileRemoteRepositoryProvider = "));
    assert!(controller("user_profile").contains("final userprofileControllerProvider = "));
    assert!(fake_local_repository("user_profile").contains("final fakeUserProfileLocalRepositoryProvider = "));
    assert!(fake_remote_repository("user_profile").contains("final fakeUserProfileRemoteRepositoryProvider = "));
}

#[test]
fn feature_texts_take_the_name_as_it_is() {
    assert!(controller(" home").contains("class  homeController"));
    assert!(controller("").contains("class Controller  extends"));
}

#[test]
fn unicode_names_are_capitalized_in_every_text() {
    assert!(controller("\u{e9}clair").contains("class \u{c9}clairController  extends"));
    assert!(controller("\u{e9}clair").contains("final \u{e9}clairControllerProvider = "));
    assert!(application_service("\u{e9}clair").contains("class \u{c9}clairService implements"));
    assert!(local_repository("\u{e9}clair").contains("class \u{c9}clairLocalRepository implements"));
    assert!(remote_repository("\u{e9}clair").contains("class \u{c9}clairRemoteRepository implements"));
    assert!(fake_local_repository("\u{e9}clair").contains("class Fake\u{c9}clairLocalRepository implements"));
    assert!(fake_remote_repository("\u{e9}clair").contains("class Fake\u{c9}clairRemoteRepository implements"));
    assert!(stateless_widget("\u{e9}clair").contains("class \u{c9}clairScreen extends"));
    assert!(application_service("\u{df}x").contains("class SSxService implements AbstractSSxService {"));
    assert!(application_service("\u{df}x").contains("final ssxServiceProvider = Provider<SSxService>"));
}

#[test]
fn feature_texts_use_the_capitalized_pascal_case_of_the_name() {
    for name in ["home", "user_profile", "a_b_c", "Already", "x9_y", "\u{e9}clair", "\u{df}x", "_\u{e0}"] {
        let title = name.to_string().to_pascal_case().capitalize();
        let lower = title.to_lowercase();
        assert_eq!(
            application_service(name),
            render(rudder::dart::APPLICATION_SERVICE, title.as_str(), lower.as_str())
        );
        assert_eq!(
            stateless_widget(name),
            render(rudder::dart::STATELESS_WIDGET, title.as_str(), lower.as_str())
        );
        assert!(controller(name).contains(format!("class {}Controller ", title).as_str()));
    }
}
