//! The classes that the files of a feature declare: each is named after the
//! title of the feature, which is the PascalCase form of its name,
//! capitalized, whatever the feature is called.
//!
//! A proof about a template has to know its characters, and a string
//! constant keeps them to itself until they are written out once more: so
//! each proof below spells its template out.

use crate::dart::{
    rendering, APPLICATION_SERVICE, CONTROLLER, FAKE_LOCAL_REPOSITORY, FAKE_REMOTE_REPOSITORY,
    LOCAL_REPOSITORY, REMOTE_REPOSITORY, STATELESS_WIDGET,
};
use crate::name::{lowercase_of, title_of};
use crate::template::{lemma_title_declared, occurs_in, title_mark};
use vstd::prelude::*;
use vstd::string::*;

verus! {

/// The declaration of a class in the text of a file: `before`, the title of
/// the feature, `after`.
pub open spec fn declaration(before: Seq<char>, feature_name: Seq<char>, after: Seq<char>) -> Seq<
    char,
> {
    before + title_of(feature_name) + after
}

/// The application service of a feature declares the class `<Title>Service`.
pub proof fn lemma_service_declares_its_class(feature_name: Seq<char>)
    ensures
        occurs_in(
            rendering(APPLICATION_SERVICE@, feature_name),
            declaration("class "@, feature_name, "Service"@),
        ),
{
    reveal_strlit("import 'package:flutter_riverpod/flutter_riverpod.dart';

        abstract class Abstract{Name}Service {
            Future<void> save();
        }

        class {Name}Service implements Abstract{Name}Service {
            final Ref ref;

            {Name}Service(this.ref);

            @override
            Future<void> save() async => throw UnimplementedError();
        }

        final {name}ServiceProvider = Provider<{Name}Service>((ref) => {Name}Service(ref));");
    reveal_strlit("class ");
    reveal_strlit("Service");
    let template = APPLICATION_SERVICE@;
    assert(template.subrange(157, 176) =~= "class "@ + title_mark() + "Service"@);
    lemma_title_declared(
        template,
        157,
        "class "@,
        "Service"@,
        title_of(feature_name),
        lowercase_of(title_of(feature_name)),
    );
}

/// The local repository of a feature declares the class `<Title>LocalRepository`.
pub proof fn lemma_local_repository_declares_its_class(feature_name: Seq<char>)
    ensures
        occurs_in(
            rendering(LOCAL_REPOSITORY@, feature_name),
            declaration("class "@, feature_name, "LocalRepository"@),
        ),
{
    reveal_strlit("import 'package:flutter_riverpod/flutter_riverpod.dart';

        abstract class Abstract{Name}LocalRepository {
            Future<void> save();
        }

        class {Name}LocalRepository implements Abstract{Name}LocalRepository{
            final Ref ref;

            {Name}LocalRepository(this.ref);

            @override
            Future<void> save() async => throw UnimplementedError();
        }

        final {name}LocalRepositoryProvider = Provider<{Name}LocalRepository>((ref) => {Name}LocalRepository(ref));");
    reveal_strlit("class ");
    reveal_strlit("LocalRepository");
    let template = LOCAL_REPOSITORY@;
    assert(template.subrange(165, 192) =~= "class "@ + title_mark() + "LocalRepository"@);
    lemma_title_declared(
        template,
        165,
        "class "@,
        "LocalRepository"@,
        title_of(feature_name),
        lowercase_of(title_of(feature_name)),
    );
}

/// The remote repository of a feature declares the class `<Title>RemoteRepository`.
pub proof fn lemma_remote_repository_declares_its_class(feature_name: Seq<char>)
    ensures
        occurs_in(
            rendering(REMOTE_REPOSITORY@, feature_name),
            declaration("class "@, feature_name, "RemoteRepository"@),
        ),
{
    reveal_strlit("import 'package:flutter_riverpod/flutter_riverpod.dart';

        abstract class Abstract{Name}RemoteRepository {
            Future<void> save();
        }

        class {Name}RemoteRepository implements Abstract{Name}RemoteRepository {
            final Ref ref;

            {Name}RemoteRepository(this.ref);

            @override
            Future<void> save() async => throw UnimplementedError();
        }

        final {name}RemoteRepositoryProvider = Provider<{Name}RemoteRepository>((ref) => {Name}RemoteRepository(ref));");
    reveal_strlit("class ");
    reveal_strlit("RemoteRepository");
    let template = REMOTE_REPOSITORY@;
    assert(template.subrange(166, 194) =~= "class "@ + title_mark() + "RemoteRepository"@);
    lemma_title_declared(
        template,
        166,
        "class "@,
        "RemoteRepository"@,
        title_of(feature_name),
        lowercase_of(title_of(feature_name)),
    );
}

/// The fake local repository of a feature declares the class `Fake<Title>LocalRepository`.
pub proof fn lemma_fake_local_repository_declares_its_class(feature_name: Seq<char>)
    ensures
        occurs_in(
            rendering(FAKE_LOCAL_REPOSITORY@, feature_name),
            declaration("class Fake"@, feature_name, "LocalRepository"@),
        ),
{
    reveal_strlit("import 'package:flutter_riverpod/flutter_riverpod.dart';

        abstract class AbstractFake{Name}LocalRepository {
            Future<void> save();
        }

        class Fake{Name}LocalRepository implements AbstractFake{Name}LocalRepository{
            final Ref ref;

            Fake{Name}LocalRepository(this.ref);

            @override
            Future<void> save() async => throw UnimplementedError();
        }

        final fake{Name}LocalRepositoryProvider = Provider<Fake{Name}LocalRepository>((ref) => Fake{Name}LocalRepository(ref));");
    reveal_strlit("class Fake");
    reveal_strlit("LocalRepository");
    let template = FAKE_LOCAL_REPOSITORY@;
    assert(template.subrange(169, 200) =~= "class Fake"@ + title_mark() + "LocalRepository"@);
    lemma_title_declared(
        template,
        169,
        "class Fake"@,
        "LocalRepository"@,
        title_of(feature_name),
        lowercase_of(title_of(feature_name)),
    );
}

/// The fake remote repository of a feature declares the class `Fake<Title>RemoteRepository`.
pub proof fn lemma_fake_remote_repository_declares_its_class(feature_name: Seq<char>)
    ensures
        occurs_in(
            rendering(FAKE_REMOTE_REPOSITORY@, feature_name),
            declaration("class Fake"@, feature_name, "RemoteRepository"@),
        ),
{
    reveal_strlit("import 'package:flutter_riverpod/flutter_riverpod.dart';

        abstract class AbstractFake{Name}RemoteRepository {
            Future<void> save();
        }

        class Fake{Name}RemoteRepository implements AbstractFake{Name}RemoteRepository {
            final Ref ref;

            Fake{Name}RemoteRepository(this.ref);

            @override
            Future<void> save() async => throw UnimplementedError();
        }

        final fake{Name}RemoteRepositoryProvider = Provider<Fake{Name}RemoteRepository>((ref) => Fake{Name}RemoteRepository(ref));");
    reveal_strlit("class Fake");
    reveal_strlit("RemoteRepository");
    let template = FAKE_REMOTE_REPOSITORY@;
    assert(template.subrange(170, 202) =~= "class Fake"@ + title_mark() + "RemoteRepository"@);
    lemma_title_declared(
        template,
        170,
        "class Fake"@,
        "RemoteRepository"@,
        title_of(feature_name),
        lowercase_of(title_of(feature_name)),
    );
}

/// The controller of a feature declares the class `<Title>Controller`.
pub proof fn lemma_controller_declares_its_class(feature_name: Seq<char>)
    ensures
        occurs_in(
            rendering(CONTROLLER@, feature_name),
            declaration("class "@, feature_name, "Controller"@),
        ),
{
    reveal_strlit("import 'package:flutter_riverpod/flutter_riverpod.dart';

        class {Name}Controller  extends StateNotifier<bool> {
            final Ref ref;

            {Name}Controller(this.ref) : super(true);

            Future<void> fetchSomething() async => throw UnimplementedError();
        }

        final {name}ControllerProvider = StateNotifierProvider.autoDispose<{Name}Controller, bool>((ref) => {Name}Controller(ref));");
    reveal_strlit("class ");
    reveal_strlit("Controller");
    let template = CONTROLLER@;
    assert(template.subrange(66, 88) =~= "class "@ + title_mark() + "Controller"@);
    lemma_title_declared(
        template,
        66,
        "class "@,
        "Controller"@,
        title_of(feature_name),
        lowercase_of(title_of(feature_name)),
    );
}

/// The screen of a feature declares the class `<Title>Screen`.
pub proof fn lemma_screen_declares_its_class(feature_name: Seq<char>)
    ensures
        occurs_in(
            rendering(STATELESS_WIDGET@, feature_name),
            declaration("class "@, feature_name, "Screen"@),
        ),
{
    reveal_strlit("import 'package:flutter/material.dart';
        import 'package:auto_route/auto_route.dart';

        @RoutePage()
        class {Name}Screen extends StatelessWidget {
            const {Name}Screen({Key? key}) : super(key: key);

            @override
            Widget build(BuildContext context) {
                return Scaffold(
                    appBar: AppBar(
                        title: const Text('{Name}'),
                    ),
                    body: const Center(
                        child: Text('{Name}'),
                    ),
                );
            }
        }");
    reveal_strlit("class ");
    reveal_strlit("Screen");
    let template = STATELESS_WIDGET@;
    assert(template.subrange(123, 141) =~= "class "@ + title_mark() + "Screen"@);
    lemma_title_declared(
        template,
        123,
        "class "@,
        "Screen"@,
        title_of(feature_name),
        lowercase_of(title_of(feature_name)),
    );
}

} // verus!
