//! The Dart texts that are written into a project: the fixed files of the
//! skeleton, and the templates of the files of a feature.
//!
//! A feature template holds `{Name}` where the title of the feature belongs
//! and `{name}` where its lower-case form belongs.

pub use crate::name::StringTrait;
use crate::name::{lowercase, lowercase_of, title_of};
use crate::template::{expand, render};
use vstd::prelude::*;
use vstd::string::*;

verus! {

/// The text of `lib/main.dart`, the entry point of the application.
pub const MAIN_DART: &'static str = "import 'dart:io';

        import 'package:flutter/foundation.dart';
        import 'package:flutter/material.dart';
        import 'package:flutter_riverpod/flutter_riverpod.dart';
        import 'package:flutter_dotenv/flutter_dotenv.dart';

        import 'src/app.dart';
        import 'src/services/logger_service.dart';

        void main() async {
            WidgetsFlutterBinding.ensureInitialized();

            await dotenv.load(fileName: '.env');

            final container = ProviderContainer(overrides: [
                loggerServiceProvider.overrideWith((ref) => LoggerService(ref)),
            ], observers: [
                AsyncErrorLogger()
            ]);

            await container.read(loggerServiceProvider).init();

            _registerErrorHandlers(container.read(loggerServiceProvider));

            try {
                // ignore: missing_provider_scope
                runApp(UncontrolledProviderScope(container: container, child: const MyApp()));
            } catch (error, stack) {
                container.read(loggerServiceProvider).critical(error: error, stackTrace: stack, methodName: 'main');
                if (kDebugMode) return;
                exit(0);
            }
        }

        void _registerErrorHandlers(LoggerService loggerService) {
            //* displays custom error widget if exception occurs within build method.
            ErrorWidget.builder = (FlutterErrorDetails errorDetails) {
                loggerService.critical(error: errorDetails.exception, stackTrace: errorDetails.stack, methodName: 'ErrorWidget.builder');
                return Scaffold(
                    body: Center(
                        child: Column(
                            mainAxisAlignment: MainAxisAlignment.center,
                            children: [
                                const Text('Oops! Something went wrong.'),
                                Text(errorDetails.exception.toString())
                            ],
                        )
                    ),
                );
            };

            //* handles all unhandled flutter framework exceptions.
            FlutterError.onError = (FlutterErrorDetails details) {
                loggerService.critical(error: details.exception, stackTrace: details.stack, methodName: 'FlutterError.onError');
                if (kDebugMode) return;
                exit(0);
            };

            // * Handle errors from the underlying platform/OS
            PlatformDispatcher.instance.onError = (Object error, StackTrace stack) {
                loggerService.critical(error: error, stackTrace: stack, methodName: 'PlatformDispatcher.instance.onError');
                return true;
            };
        }";

/// The text of `app.dart`, the root widget.
pub const APP_DART: &'static str = "import 'package:flutter/material.dart';
        import 'package:flutter_riverpod/flutter_riverpod.dart';
        import 'package:responsive_framework/responsive_framework.dart';

        import 'utils/routes.dart';

        class MyApp extends ConsumerStatefulWidget {
            const MyApp({super.key});

            @override
            ConsumerState<MyApp> createState() => _MyAppState();
        }

        class _MyAppState extends ConsumerState<MyApp> {
            late final AppRouter _appRouter;

            @override
            void initState() {
                _appRouter = AppRouter(ref);
                super.initState();
            }

            @override
            Widget build(BuildContext context) {
                return SafeArea(
                    child: MaterialApp.router(
                    title: 'Flutter Demo',
                    debugShowCheckedModeBanner: false,
                    theme: ThemeData(
                        useMaterial3: true,
                        appBarTheme: const AppBarTheme(backgroundColor: Color.fromARGB(255, 80, 66, 105), centerTitle: true, toolbarHeight: 40, foregroundColor: Colors.white),
                        elevatedButtonTheme: ElevatedButtonThemeData(
                        style: ElevatedButton.styleFrom(
                            foregroundColor: Colors.white,
                            backgroundColor: Colors.grey,
                        ),
                        ),
                        inputDecorationTheme: const InputDecorationTheme(
                        errorStyle: TextStyle(color: Colors.red, fontSize: 12.0, fontWeight: FontWeight.bold, fontStyle: FontStyle.italic),
                        ),
                    ),
                    routerConfig: _appRouter.config(navigatorObservers: () => [MyRouteObserver()]),
                    builder: (context, child) => ResponsiveBreakpoints.builder(
                            child: child!,
                            breakpoints: [
                            const Breakpoint(start: 0, end: 450, name: MOBILE),
                            const Breakpoint(start: 451, end: 800, name: TABLET),
                            const Breakpoint(start: 801, end: 1920, name: DESKTOP),
                            const Breakpoint(start: 1921, end: double.infinity, name: '4K'),
                            ],
                        ),
                    ),
                );
            }
        }";

/// The text of `routes.dart`, the router and its observer.
pub const ROUTES_DART: &'static str = "import 'dart:developer';

        import 'package:auto_route/auto_route.dart';
        import 'package:flutter/material.dart';
        import 'package:flutter_riverpod/flutter_riverpod.dart';

        import 'routes.gr.dart';

        @AutoRouterConfig(replaceInRouteName: 'Screen,Route')
        class AppRouter extends $AppRouter implements AutoRouteGuard {
            final WidgetRef ref;

            AppRouter(this.ref);

            @override
            RouteType get defaultRouteType => const RouteType.custom(
                    transitionsBuilder: TransitionsBuilders.fadeIn,
                    durationInMilliseconds: 400,
                );

            @override
            List<AutoRoute> get routes => [
                    AutoRoute(
                    path: '/roster',
                    initial: true,
                    page: EmptyRoutePage.page,
                    children: [
                        AutoRoute(
                        path: '',
                        page: RosterRoute.page,
                        ),
                        AutoRoute(
                        path: 'documents/:patientId',
                        page: DocumentsShellRoute.page,
                        children: [
                            AutoRoute(
                            path: '',
                            page: DocumentsRoute.page,
                            ),
                        ],
                        ),
                    ],
                    ),
                ];

            @override
            void onNavigation(NavigationResolver resolver, StackRouter router) {
                bool isAuthenticated = true;
                log('isAuthenticated: $isAuthenticated');
                if (isAuthenticated || resolver.route.name == 'login') {
                    // we continue navigation
                    resolver.next();
                } else {
                    // else we navigate to the Login page so we get authenticateed
                    push(const AuthenticationRoute());
                }
            }
        }

        class MyRouteObserver extends AutoRouterObserver {
            @override
            void didPush(Route route, Route? previousRoute) {
                log('Route was pushed: ${route.settings.name}');
            }

            @override
            void didPop(Route route, Route? previousRoute) {
                log('Route was popped: ${route.settings.name}');
            }

            @override
            void didRemove(Route route, Route? previousRoute) {
                log('Route was removed: ${route.settings.name}');
            }

            @override
            void didReplace({Route? newRoute, Route? oldRoute}) {
                log('Route was replaced: ${newRoute?.settings.name}');
            }
        }

        // Filler page to allow for a root route to have children
        @RoutePage()
        class EmptyPageRoute extends AutoRouter {
            const EmptyPageRoute({
                super.key,
            });
        }
        
        // Another filler page with different name. This example shows a pathParam annotation.
        // In this example, the DocumentsRoute() accepts an inherited path param of patientId.
        @RoutePage()
        class DocumentsShellScreen extends AutoRouter {
            const DocumentsShellScreen({
                super.key,
                @pathParam required int patientId,
            });
        }

        // @RoutePage()
        // class DocumentsScreen extends StatelessWidget {
        //     final int patientId;

        //     const DocumentsScreen({super.key,  @PathParam.inherit() required this.patientId});

        //     @override
        //     Widget build(BuildContext context) {
        //         return Scaffold(
        //         appBar: AppBar(
        //             title: const Text('Documents'),
        //             leading: const AutoLeadingButton(),
        //         ),
        //         body: Center(
        //             child: Text('Document id $patientId'),
        //         ),
        //         );
        //     }
        // }";

/// The text of `extensions.dart`.
pub const EXTENSIONS_DART: &'static str = "extension StringExtension on String {
            String capitalize() {
                return '${this[0].toUpperCase()}${substring(1)}';
            }
        }";

/// Template of the screen of a feature: a stateless widget named after it.
pub const STATELESS_WIDGET: &'static str = "import 'package:flutter/material.dart';
        import 'package:auto_route/auto_route.dart';

        @RoutePage()
        class {Name}Screen extends StatelessWidget {
            const {Name}Screen({Key? key}) : super(key: key);

            @override
            Widget build(BuildContext context) {
                return Scaffold(
                    appBar: AppBar(
                        title: const Text('{Name}'),
                    ),
                    body: const Center(
                        child: Text('{Name}'),
                    ),
                );
            }
        }";

/// Template of the local repository of a feature.
pub const LOCAL_REPOSITORY: &'static str = "import 'package:flutter_riverpod/flutter_riverpod.dart';

        abstract class Abstract{Name}LocalRepository {
            Future<void> save();
        }

        class {Name}LocalRepository implements Abstract{Name}LocalRepository{
            final Ref ref;

            {Name}LocalRepository(this.ref);

            @override
            Future<void> save() async => throw UnimplementedError();
        }

        final {name}LocalRepositoryProvider = Provider<{Name}LocalRepository>((ref) => {Name}LocalRepository(ref));";

/// Template of the remote repository of a feature.
pub const REMOTE_REPOSITORY: &'static str = "import 'package:flutter_riverpod/flutter_riverpod.dart';

        abstract class Abstract{Name}RemoteRepository {
            Future<void> save();
        }

        class {Name}RemoteRepository implements Abstract{Name}RemoteRepository {
            final Ref ref;

            {Name}RemoteRepository(this.ref);

            @override
            Future<void> save() async => throw UnimplementedError();
        }

        final {name}RemoteRepositoryProvider = Provider<{Name}RemoteRepository>((ref) => {Name}RemoteRepository(ref));";

/// Template of the fake local repository of a feature.
pub const FAKE_LOCAL_REPOSITORY: &'static str = "import 'package:flutter_riverpod/flutter_riverpod.dart';

        abstract class AbstractFake{Name}LocalRepository {
            Future<void> save();
        }

        class Fake{Name}LocalRepository implements AbstractFake{Name}LocalRepository{
            final Ref ref;

            Fake{Name}LocalRepository(this.ref);

            @override
            Future<void> save() async => throw UnimplementedError();
        }

        final fake{Name}LocalRepositoryProvider = Provider<Fake{Name}LocalRepository>((ref) => Fake{Name}LocalRepository(ref));";

/// Template of the fake remote repository of a feature.
pub const FAKE_REMOTE_REPOSITORY: &'static str = "import 'package:flutter_riverpod/flutter_riverpod.dart';

        abstract class AbstractFake{Name}RemoteRepository {
            Future<void> save();
        }

        class Fake{Name}RemoteRepository implements AbstractFake{Name}RemoteRepository {
            final Ref ref;

            Fake{Name}RemoteRepository(this.ref);

            @override
            Future<void> save() async => throw UnimplementedError();
        }

        final fake{Name}RemoteRepositoryProvider = Provider<Fake{Name}RemoteRepository>((ref) => Fake{Name}RemoteRepository(ref));";

/// Template of the application service of a feature.
pub const APPLICATION_SERVICE: &'static str = "import 'package:flutter_riverpod/flutter_riverpod.dart';

        abstract class Abstract{Name}Service {
            Future<void> save();
        }

        class {Name}Service implements Abstract{Name}Service {
            final Ref ref;

            {Name}Service(this.ref);

            @override
            Future<void> save() async => throw UnimplementedError();
        }

        final {name}ServiceProvider = Provider<{Name}Service>((ref) => {Name}Service(ref));";

/// Template of the controller of a feature.
pub const CONTROLLER: &'static str = "import 'package:flutter_riverpod/flutter_riverpod.dart';

        class {Name}Controller  extends StateNotifier<bool> {
            final Ref ref;

            {Name}Controller(this.ref) : super(true);

            Future<void> fetchSomething() async => throw UnimplementedError();
        }

        final {name}ControllerProvider = StateNotifierProvider.autoDispose<{Name}Controller, bool>((ref) => {Name}Controller(ref));";

/// The text of `logger_service.dart`.
pub const LOGGER_SERVICE: &'static str = "import 'package:logger/logger.dart';
    import 'package:flutter_riverpod/flutter_riverpod.dart';


    final loggerServiceProvider = Provider<LoggerService>((ref) => throw UnimplementedError());

            class LoggerService extends Logger {
                final Ref ref;

                LoggerService(this.ref)
                    : super(
                            printer: PrettyPrinter(
                                methodCount: 0, // number of method calls to be displayed
                                errorMethodCount: 3, // number of method calls if stacktrace is provided
                                lineLength: 50, // width of the output
                                colors: true, // Colorful log messages
                                printEmojis: true, // Print an emoji for each log message
                                printTime: false // Should each log print contain a timestamp
                                ));

                Future<LoggerService> init() async {
                    verbose('LoggerService initialized');
                    return this;
                }

                void verbose(String text) => v(text);

                void info(String text) => i(text);

                void debug(String text) => d(text);

                void warning({required Object warning, required String methodName, StackTrace? stackTrace, Object? instance, bool sendToServer = true}) async {
                    w('Warning', warning, stackTrace);
                }

                void error({required Object error, required String methodName, StackTrace? stackTrace, Object? instance, bool sendToServer = true}) async {
                    e('Error', error, stackTrace);
                }

                void critical({required Object error, required String methodName, StackTrace? stackTrace, Object? instance, bool sendToServer = true}) async {
                    wtf('Critical Failure', error, stackTrace);
                }
        }

        class RiverPodLogger extends ProviderObserver {
            @override
            void didUpdateProvider(ProviderBase provider, Object? previousValue, Object? newValue, ProviderContainer container) {
                //
            }
        }";

/// The text of `async_errors.dart`, the observer that logs failed providers.
pub const ASYNC_ERRORS: &'static str = "import '../app_exceptions.dart';
            import 'package:flutter_riverpod/flutter_riverpod.dart';

            class AsyncErrorLogger extends ProviderObserver {

                @override
                void didUpdateProvider(
                    ProviderBase provider,
                    Object? previousValue,
                    Object? newValue,
                    ProviderContainer container,
                ) {
                    final logger = container.read(loggerServiceProvider);
                    final error = _findError(newValue);
                    if (error != null) {
                        if (error.error is AppException) {
                            logger.error(error: error.error as AppException, stackTrace: error.stackTrace, methodName: 'AsyncErrorLogger', sendToServer: false);

                            // only prints the AppException data
                            // errorLogger.logAppException(error.error as AppException);
                        } else {
                            logger.error(error: error.error, stackTrace: error.stackTrace, methodName: 'AsyncErrorLogger', sendToServer: true);
                        }
                    }
                }

                AsyncError<dynamic>? _findError(Object? value) {
                    if (value is AsyncError) {
                        return value;
                    } else {
                        return null;
                    }
                }
            }";

/// The text of `app_exceptions.dart`.
pub const APP_EXCEPTIONS: &'static str = "import 'package:freezed_annotation/freezed_annotation.dart';
            part 'app_exceptions.freezed.dart';

            @freezed
            class AppException with _$AppException {
                const factory AppException.invalidUsernamePassword(Object e) = InvalidUsernamePassword;
            }

            extension AppExceptionMessages on AppException {
                String get message {
                    return when(
                        invalidUsernamePassword: () => 'Invalid username and/or password.',
                    );
                }
                }";

/// The text of `app_sizes.dart`.
pub const APP_SIZES: &'static str = "import 'package:flutter/material.dart';

            /// Constant sizes to be used in the app (paddings, gaps, rounded corners etc.)
            class Sizes {
            static const p4 = 4.0;
            static const p8 = 8.0;
            static const p12 = 12.0;
            static const p16 = 16.0;
            static const p20 = 20.0;
            static const p24 = 24.0;
            static const p32 = 32.0;
            static const p48 = 48.0;
            static const p64 = 64.0;
            }

            /// Constant gap widths
            const gapW4 = SizedBox(width: Sizes.p4);
            const gapW8 = SizedBox(width: Sizes.p8);
            const gapW12 = SizedBox(width: Sizes.p12);
            const gapW16 = SizedBox(width: Sizes.p16);
            const gapW20 = SizedBox(width: Sizes.p20);
            const gapW24 = SizedBox(width: Sizes.p24);
            const gapW32 = SizedBox(width: Sizes.p32);
            const gapW48 = SizedBox(width: Sizes.p48);
            const gapW64 = SizedBox(width: Sizes.p64);

            /// Constant gap heights
            const gapH4 = SizedBox(height: Sizes.p4);
            const gapH8 = SizedBox(height: Sizes.p8);
            const gapH12 = SizedBox(height: Sizes.p12);
            const gapH16 = SizedBox(height: Sizes.p16);
            const gapH20 = SizedBox(height: Sizes.p20);
            const gapH24 = SizedBox(height: Sizes.p24);
            const gapH32 = SizedBox(height: Sizes.p32);
            const gapH48 = SizedBox(height: Sizes.p48);
            const gapH64 = SizedBox(height: Sizes.p64);";

/// The text of `app_colors.dart`.
pub const APP_COLORS: &'static str = "import 'package:flutter/material.dart';
            
            /// App colors
            abstract class AppColors {
                static const darkBlue = Color(0xFF555E82);
            }";

/// The text of `app_text_styles.dart`.
pub const APP_TEXT_STYLES: &'static str = "import 'package:flutter/material.dart';

            /// App TextStyles
            abstract class AppTextStyles {
                // Body styles /////////////////////////////////////////

                /// fontSize: 16 fontWeight: FontWeight.w400 letterSpacing: 0.5
                static const b1 = TextStyle(fontSize: 16, color: AppColors.kText, fontWeight: FontWeight.w400, letterSpacing: 0.5);

                /// fontSize: 15 fontWeight: FontWeight.w400 letterSpacing: 0.5
                static const b2 = TextStyle(fontSize: 15, color: AppColors.kText, fontWeight: FontWeight.w400, letterSpacing: 0.5);

                /// fontSize: 14 fontWeight: FontWeight.w400 letterSpacing: 0.25
                static const b3 = TextStyle(fontSize: 14, color: AppColors.kText, fontWeight: FontWeight.w400, letterSpacing: 0.25);

                /// fontSize: 13 fontWeight: FontWeight.w400 letterSpacing: 0.25
                static const b4 = TextStyle(fontSize: 13, color: AppColors.kText, fontWeight: FontWeight.w400, letterSpacing: 0.25);

                /// fontSize: 12 fontWeight: FontWeight.w400 letterSpacing: 0.25
                static const b5 = TextStyle(fontSize: 12, color: AppColors.kText, fontWeight: FontWeight.w400, letterSpacing: 0.25);

                // Header styles /////////////////////////////////////////

                /// fontSize: 24 fontWeight: FontWeight.w300 letterSpacing: 0.0
                static const h1 = TextStyle(fontSize: 24, color: AppColors.kText, fontWeight: FontWeight.w300, letterSpacing: 0.0);

                /// fontSize: 23 fontWeight: FontWeight.w300 letterSpacing: 0.0
                static const h2 = TextStyle(fontSize: 23, color: AppColors.kText, fontWeight: FontWeight.w300, letterSpacing: 0.0);

                /// fontSize: 22 fontWeight: FontWeight.w400 letterSpacing: 0.0
                static const h3 = TextStyle(fontSize: 22, color: AppColors.kText, fontWeight: FontWeight.w400, letterSpacing: 0.0);

                /// fontSize: 21 fontWeight: FontWeight.w400 letterSpacing: 0.15
                static const h4 = TextStyle(fontSize: 21, color: AppColors.kText, fontWeight: FontWeight.w400, letterSpacing: 0.15);

                /// fontSize: 20 fontWeight: FontWeight.w400 letterSpacing: 0.15
                static const h5 = TextStyle(fontSize: 20, color: AppColors.kText, fontWeight: FontWeight.w400, letterSpacing: 0.15);

                /// fontSize: 19 fontWeight: FontWeight.w500 letterSpacing: 0.15
                static const h6 = TextStyle(fontSize: 19, color: AppColors.kText, fontWeight: FontWeight.w500, letterSpacing: 0.15);
            }";

/// The text of `helper.dart`.
pub const HELPER_DART: &'static str = "import 'dart:math';

            abstract class Helper {
                static int getRandomNumber(int min, int max) {
                    final random = Random();
                    return min + random.nextInt(max - min);
                }
            }";

/// The text of a feature template for the feature `feature_name`: the
/// template with the title of the name, which is its PascalCase form
/// capitalized, and the lower-case form of that title.
pub open spec fn rendering(template: Seq<char>, feature_name: Seq<char>) -> Seq<char> {
    expand(template, title_of(feature_name), lowercase_of(title_of(feature_name)))
}

/// Renders `template` for the feature `feature_name`.
fn fill(template: &str, feature_name: &str) -> (text: String)
    ensures
        text@ == rendering(template@, feature_name@),
{
    let title = feature_name.to_owned().to_pascal_case().capitalize();
    let lower = lowercase(title.as_str());
    render(template, title.as_str(), lower.as_str())
}

/// The text of `lib/main.dart`, the entry point of the application.
pub fn main_dart() -> (text: String)
    ensures
        text@ == MAIN_DART@,
{
    MAIN_DART.to_owned()
}

/// The text of `app.dart`, the root widget.
pub fn app_dart() -> (text: String)
    ensures
        text@ == APP_DART@,
{
    APP_DART.to_owned()
}

/// The text of `routes.dart`, the router and its observer.
pub fn routes_dart() -> (text: String)
    ensures
        text@ == ROUTES_DART@,
{
    ROUTES_DART.to_owned()
}

/// The text of `extensions.dart`.
pub fn extensions_dart() -> (text: String)
    ensures
        text@ == EXTENSIONS_DART@,
{
    EXTENSIONS_DART.to_owned()
}

/// The screen of a feature: a stateless widget named after it.
pub fn stateless_widget(feature_name: &str) -> (text: String)
    ensures
        text@ == rendering(STATELESS_WIDGET@, feature_name@),
{
    fill(STATELESS_WIDGET, feature_name)
}

/// The local repository of a feature.
pub fn local_repository(feature_name: &str) -> (text: String)
    ensures
        text@ == rendering(LOCAL_REPOSITORY@, feature_name@),
{
    fill(LOCAL_REPOSITORY, feature_name)
}

/// The remote repository of a feature.
pub fn remote_repository(feature_name: &str) -> (text: String)
    ensures
        text@ == rendering(REMOTE_REPOSITORY@, feature_name@),
{
    fill(REMOTE_REPOSITORY, feature_name)
}

/// The fake local repository of a feature.
pub fn fake_local_repository(feature_name: &str) -> (text: String)
    ensures
        text@ == rendering(FAKE_LOCAL_REPOSITORY@, feature_name@),
{
    fill(FAKE_LOCAL_REPOSITORY, feature_name)
}

/// The fake remote repository of a feature.
pub fn fake_remote_repository(feature_name: &str) -> (text: String)
    ensures
        text@ == rendering(FAKE_REMOTE_REPOSITORY@, feature_name@),
{
    fill(FAKE_REMOTE_REPOSITORY, feature_name)
}

/// The application service of a feature.
pub fn application_service(feature_name: &str) -> (text: String)
    ensures
        text@ == rendering(APPLICATION_SERVICE@, feature_name@),
{
    fill(APPLICATION_SERVICE, feature_name)
}

/// The controller of a feature.
pub fn controller(feature_name: &str) -> (text: String)
    ensures
        text@ == rendering(CONTROLLER@, feature_name@),
{
    fill(CONTROLLER, feature_name)
}

/// The text of `logger_service.dart`.
pub fn logger_service() -> (text: String)
    ensures
        text@ == LOGGER_SERVICE@,
{
    LOGGER_SERVICE.to_owned()
}

/// The text of `async_errors.dart`, the observer that logs failed providers.
pub fn async_errors() -> (text: String)
    ensures
        text@ == ASYNC_ERRORS@,
{
    ASYNC_ERRORS.to_owned()
}

/// The text of `app_exceptions.dart`.
pub fn app_exceptions() -> (text: String)
    ensures
        text@ == APP_EXCEPTIONS@,
{
    APP_EXCEPTIONS.to_owned()
}

/// The text of `app_sizes.dart`.
pub fn app_sizes() -> (text: String)
    ensures
        text@ == APP_SIZES@,
{
    APP_SIZES.to_owned()
}

/// The text of `app_colors.dart`.
pub fn app_colors() -> (text: String)
    ensures
        text@ == APP_COLORS@,
{
    APP_COLORS.to_owned()
}

/// The text of `app_text_styles.dart`.
pub fn app_text_styles() -> (text: String)
    ensures
        text@ == APP_TEXT_STYLES@,
{
    APP_TEXT_STYLES.to_owned()
}

/// The text of `helper.dart`.
pub fn helper_dart() -> (text: String)
    ensures
        text@ == HELPER_DART@,
{
    HELPER_DART.to_owned()
}

} // verus!
