//! Laws of persona bundles and personality files.

use vstd::prelude::*;

use crate::laws::policies::{lemma_lists, lists};
use crate::laws::prompts::{lemma_provides, provides, said, says_something};
use crate::laws::texts;
use crate::paths;
use crate::persona_bundles;
use crate::persona_bundles::{PathProbe, PersonaBundleDirectoryError};
use crate::personality;
use crate::personality::{
    BundleLayer, FileEntry, FileSnapshot, LoadedFile, PersonaLoadError, PersonalityFile,
    PersonalityProfile, ResolvedPersonaBundle,
};
use crate::schema::{Config, PersonaBundleConfig};
use crate::text;

verus! {

/// Whether two lists hold the same texts in the same places.
pub open spec fn same_texts(a: Vec<String>, b: Vec<String>) -> bool {
    &&& a@.len() == b@.len()
    &&& forall|i: int| 0 <= i < a@.len() ==> (#[trigger] a@[i])@ == b@[i]@
}

proof fn lemma_same_texts(a: Vec<String>, b: Vec<String>)
    requires
        a.deep_view() == b.deep_view(),
    ensures
        same_texts(a, b),
{
    assert(a.deep_view().len() == a@.len() && b.deep_view().len() == b@.len());
    assert forall|i: int| 0 <= i < a@.len() implies (#[trigger] a@[i])@ == b@[i]@ by {
        assert(a.deep_view()[i] == a@[i]@ && b.deep_view()[i] == b@[i]@);
    }
}

/// Whether a bundle of these settings contributes a file: not one that it
/// excludes, and of the others those that it names, or all where it names none.
pub open spec fn contributes(bundle: PersonaBundleConfig, file: Seq<char>) -> bool {
    &&& !lists(bundle.excludes, file)
    &&& bundle.includes@.len() == 0 || lists(bundle.includes, file)
}

/// A resolved bundle admits exactly the files that its settings contribute.
pub proof fn bundle_admits_what_its_settings_say(
    config: Config,
    alias: Seq<char>,
    layer: BundleLayer,
    bundle: PersonaBundleConfig,
    file: Seq<char>,
)
    requires
        personality::bundle_for(config, alias) == Some(layer),
        config.persona_bundles.lookup(text::trimmed(alias)) == Some(bundle),
    ensures
        layer.admits(file) <==> contributes(bundle, file),
{
    lemma_lists(bundle.excludes, file);
    lemma_lists(bundle.includes, file);
    assert(bundle.includes.deep_view().len() == bundle.includes@.len());
}

/// Whether an alias in an agent's list stands for a bundle that can be used.
pub open spec fn usable(config: Config, alias: Seq<char>) -> bool {
    let name = text::trimmed(alias);
    &&& name.len() > 0
    &&& config.persona_bundles.lookup(name) matches Some(bundle)
    &&& bundle.format@.len() == 0 || bundle.format@ == "openclaw"@
}

/// Whether a resolved bundle is the one that an alias stands for.
pub open spec fn resolves(config: Config, alias: Seq<char>, r: ResolvedPersonaBundle) -> bool {
    let name = text::trimmed(alias);
    let bundle = config.persona_bundles.lookup(name)->0;
    &&& same_texts(r.includes, bundle.includes)
    &&& same_texts(r.excludes, bundle.excludes)
    &&& r.directory@ == persona_bundles::directory_for(
        text::optional(bundle.directory),
        config.install_root@,
        name,
    )
}

/// How many aliases of the first `n` stand for bundles that can be used.
pub open spec fn usable_before(config: Config, aliases: Seq<String>, n: int) -> int
    decreases n,
{
    if n <= 0 {
        0
    } else if usable(config, aliases[n - 1]@) {
        usable_before(config, aliases, n - 1) + 1
    } else {
        usable_before(config, aliases, n - 1)
    }
}

proof fn lemma_bundles(
    config: Config,
    aliases: Vec<String>,
    n: int,
    k: int,
)
    requires
        0 <= k < n <= aliases@.len(),
        usable(config, aliases@[k]@),
    ensures
        0 <= usable_before(config, aliases@, k) < usable_before(config, aliases@, n),
        personality::bundles_for(config, aliases.deep_view().take(n)).len() == usable_before(
            config,
            aliases@,
            n,
        ),
        personality::bundle_for(config, aliases@[k]@) == Some(
            personality::bundles_for(config, aliases.deep_view().take(n))[usable_before(
                config,
                aliases@,
                k,
            )],
        ),
    decreases n,
{
    let all = aliases.deep_view();
    lemma_bundle_count(config, aliases, n);
    lemma_bundle_count(config, aliases, n - 1);
    lemma_bundle_count(config, aliases, k);
    assert(all.take(n).drop_last() =~= all.take(n - 1));
    assert(all.take(n).last() == aliases@[n - 1]@);
    lemma_usable(config, aliases@[n - 1]@);
    if k < n - 1 {
        lemma_bundles(config, aliases, n - 1, k);
    }
}

proof fn lemma_usable(config: Config, alias: Seq<char>)
    ensures
        personality::bundle_for(config, alias) is Some <==> usable(config, alias),
{
    reveal_strlit("");
    if let Some(bundle) = config.persona_bundles.lookup(text::trimmed(alias)) {
        if bundle.format@.len() == 0 {
            assert(bundle.format@ =~= ""@);
        }
    }
}

proof fn lemma_bundle_count(config: Config, aliases: Vec<String>, n: int)
    requires
        0 <= n <= aliases@.len(),
    ensures
        personality::bundles_for(config, aliases.deep_view().take(n)).len() == usable_before(
            config,
            aliases@,
            n,
        ),
    decreases n,
{
    let all = aliases.deep_view();
    if n > 0 {
        lemma_bundle_count(config, aliases, n - 1);
        assert(all.take(n).drop_last() =~= all.take(n - 1));
        assert(all.take(n).last() == aliases@[n - 1]@);
        lemma_usable(config, aliases@[n - 1]@);
    }
}

/// An agent has the bundles that its list names and that can be used, in the order
/// of the list, each with its own settings. An unknown agent has none.
pub proof fn agent_has_the_bundles_of_its_list(
    config: Config,
    agent_alias: &str,
    r: Vec<ResolvedPersonaBundle>,
)
    requires
        call_ensures(personality::resolve_agent_persona_bundles, (&config, agent_alias), r),
    ensures
        config.agents.lookup(agent_alias@) is None ==> r@.len() == 0,
        config.agents.lookup(agent_alias@) matches Some(agent) ==> {
            let list = agent.persona_bundles@;
            &&& r@.len() == usable_before(config, list, list.len() as int)
            &&& forall|k: int|
                0 <= k < list.len() && usable(config, (#[trigger] list[k])@) ==> {
                    &&& 0 <= usable_before(config, list, k) < r@.len()
                    &&& resolves(config, list[k]@, r@[usable_before(config, list, k)])
                }
        },
{
    let layers = personality::layers(r@);
    assert(layers.len() == r@.len());
    if let Some(agent) = config.agents.lookup(agent_alias@) {
        let aliases = agent.persona_bundles;
        let list = aliases@;
        let n = list.len() as int;
        assert(aliases.deep_view().take(n) =~= aliases.deep_view());
        lemma_bundle_count(config, aliases, n);
        assert forall|k: int| 0 <= k < list.len() && usable(config, (#[trigger] list[k])@) implies {
            &&& 0 <= usable_before(config, list, k) < r@.len()
            &&& resolves(config, list[k]@, r@[usable_before(config, list, k)])
        } by {
            lemma_bundles(config, aliases, n, k);
            let at = usable_before(config, list, k);
            let found = r@[at];
            assert(layers[at] == found@);
            let bundle = config.persona_bundles.lookup(text::trimmed(list[k]@))->0;
            assert(found@.includes == found.includes.deep_view());
            assert(found@.excludes == found.excludes.deep_view());
            lemma_same_texts(found.includes, bundle.includes);
            lemma_same_texts(found.excludes, bundle.excludes);
        }
    }
}

/// A bundle admits a file that it does not exclude and that it names, or any where
/// it names none.
pub proof fn exclusion_goes_before_inclusion(bundle: ResolvedPersonaBundle, file: &str, r: bool)
    requires
        call_ensures(ResolvedPersonaBundle::admits, (&bundle, file), r),
    ensures
        r <==> takes(bundle, file@),
{
    lemma_takes(bundle, file@);
}

/// Whether a resolved bundle takes a file.
pub open spec fn takes(bundle: ResolvedPersonaBundle, file: Seq<char>) -> bool {
    &&& !lists(bundle.excludes, file)
    &&& bundle.includes@.len() == 0 || lists(bundle.includes, file)
}

proof fn lemma_takes(bundle: ResolvedPersonaBundle, file: Seq<char>)
    ensures
        bundle@.admits(file) == takes(bundle, file),
        bundle@.directory == bundle.directory@,
{
    lemma_lists(bundle.excludes, file);
    lemma_lists(bundle.includes, file);
    assert(bundle.includes.deep_view().len() == bundle.includes@.len());
}

/// A bundle of its parts can be had exactly in the markdown format, which is also
/// the one that is meant where none is declared.
pub proof fn only_markdown_bundles_load(
    directory: String,
    format: &str,
    includes: Vec<String>,
    excludes: Vec<String>,
    r: Result<ResolvedPersonaBundle, PersonaLoadError>,
)
    requires
        call_ensures(ResolvedPersonaBundle::new, (directory, format, includes, excludes), r),
    ensures
        r is Ok <==> format@.len() == 0 || format@ == "openclaw"@,
        r matches Ok(bundle) ==> bundle.directory == directory && bundle.includes == includes
            && bundle.excludes == excludes,
        r matches Err(PersonaLoadError::UnsupportedFormat { format: f, directory: d }) ==> f@
            == format@ && d@ == directory@,
{
    reveal_strlit("");
    if format@.len() == 0 {
        assert(format@ =~= ""@);
    }
}

/// The explanation names the directory and the format.
pub proof fn load_error_names_its_bundle(format: String, directory: String, r: String)
    requires
        call_ensures(
            PersonaLoadError::message,
            (&PersonaLoadError::UnsupportedFormat { format, directory },),
            r,
        ),
    ensures
        text::occurs_in("at '"@ + directory@ + "'"@, r@),
        text::occurs_in("unsupported format '"@ + format@ + "'"@, r@),
{
    reveal_strlit("persona bundle at '");
    reveal_strlit("' uses unsupported format '");
    reveal_strlit("'; only 'openclaw' (markdown) bundles are supported");
    reveal_strlit("at '");
    reveal_strlit("unsupported format '");
    reveal_strlit("'");
    let place = "at '"@ + directory@ + "'"@;
    assert(r@.subrange(15int, 15int + place.len()) =~= place);
    let kind = "unsupported format '"@ + format@ + "'"@;
    let at = "persona bundle at '"@.len() + directory@.len() + 7int;
    assert(r@.subrange(at, at + kind.len()) =~= kind);
}

/// A file is read from its directory, without the whitespace round it, and counts
/// only where it says something.
pub proof fn blank_files_do_not_count(
    files: FileSnapshot,
    dir: &str,
    name: &str,
    r: Option<(String, String)>,
)
    requires
        call_ensures(personality::read_trimmed, (&files, dir, name), r),
    ensures
        r is Some <==> provides(files, dir@, name@),
        r matches Some((path, content)) ==> path@ == paths::joined(dir@, name@) && content@ == said(
            files,
            dir@,
            name@,
        ),
{
    lemma_provides(files, dir@, name@);
}

/// A text of up to 20000 characters is kept whole; of a longer one its first
/// 20000.
pub proof fn long_texts_are_cut(content: &str, r: (String, bool))
    requires
        call_ensures(personality::truncate_content, (content,), r),
    ensures
        is_cut(content@, r.0@, r.1),
{
    if content@.len() <= 20_000 {
        assert(content@.take(content@.len() as int) =~= content@);
    }
}

/// Whether a text is what is kept of another, and whether some was cut.
pub open spec fn is_cut(whole: Seq<char>, kept: Seq<char>, truncated: bool) -> bool {
    &&& truncated <==> whole.len() > 20_000
    &&& truncated ==> kept == whole.take(20_000)
    &&& !truncated ==> kept == whole
}

/// Whether a file is the loaded form of one that was found.
pub open spec fn is_loaded(
    file: PersonalityFile,
    name: Seq<char>,
    path: Seq<char>,
    content: Seq<char>,
) -> bool {
    &&& file.name@ == name
    &&& file.path@ == path
    &&& is_cut(content, file.content@, file.truncated)
}

proof fn lemma_loaded(file: PersonalityFile, name: Seq<char>, found: (Seq<char>, Seq<char>))
    requires
        personality::loaded(name, Some(found)) == Some(file@),
    ensures
        is_loaded(file, name, found.0, found.1),
{
    let content = found.1;
    assert(file@.name == file.name@ && file@.path == file.path@);
    assert(file@.content == file.content@ && file@.truncated == file.truncated);
}

/// A personality file is loaded from its directory where it says something.
pub proof fn file_is_loaded_from_its_directory(
    files: FileSnapshot,
    dir: &str,
    name: &str,
    r: Option<PersonalityFile>,
)
    requires
        call_ensures(personality::read_personality_file, (&files, dir, name), r),
    ensures
        r is Some <==> provides(files, dir@, name@),
        r matches Some(file) ==> is_loaded(
            file,
            name@,
            paths::joined(dir@, name@),
            said(files, dir@, name@),
        ),
{
    lemma_provides(files, dir@, name@);
    if let Some(file) = r {
        lemma_loaded(file, name@, (paths::joined(dir@, name@), said(files, dir@, name@)));
    }
}

/// Whether a bundle supplies a file: it takes it, and its directory provides it.
pub open spec fn supplies(
    files: FileSnapshot,
    bundle: ResolvedPersonaBundle,
    name: Seq<char>,
) -> bool {
    takes(bundle, name) && provides(files, bundle.directory@, name)
}

proof fn lemma_bundle_file(
    files: FileSnapshot,
    name: Seq<char>,
    bundles: Seq<ResolvedPersonaBundle>,
    n: int,
)
    requires
        0 <= n <= bundles.len(),
    ensures
        ({
            let found = personality::bundle_file(files, name, personality::layers(bundles).take(n));
            &&& found is None <==> forall|i: int|
                0 <= i < n ==> !supplies(files, #[trigger] bundles[i], name)
            &&& found is Some ==> exists|i: int|
                {
                    &&& 0 <= i < n
                    &&& supplies(files, #[trigger] bundles[i], name)
                    &&& found == Some(
                        (
                            paths::joined(bundles[i].directory@, name),
                            said(files, bundles[i].directory@, name),
                        ),
                    )
                    &&& forall|j: int|
                        i < j < n ==> !supplies(files, #[trigger] bundles[j], name)
                }
        }),
    decreases n,
{
    let layers = personality::layers(bundles);
    assert(layers.len() == bundles.len());
    if n > 0 {
        lemma_bundle_file(files, name, bundles, n - 1);
        let top = bundles[n - 1];
        assert(layers.take(n).last() == top@);
        assert(layers.take(n).drop_last() =~= layers.take(n - 1));
        lemma_takes(top, name);
        lemma_provides(files, top.directory@, name);
    }
}

/// The file of the workspace wins; where it provides none, that of the last bundle
/// that supplies one. There is none exactly where no layer supplies one.
pub proof fn the_highest_layer_wins(
    files: FileSnapshot,
    name: &str,
    bundles: &[ResolvedPersonaBundle],
    workspace_dir: &str,
    r: Option<(String, String)>,
)
    requires
        call_ensures(
            personality::resolve_overlaid_file,
            (&files, name, bundles, workspace_dir),
            r,
        ),
    ensures
        provides(files, workspace_dir@, name@) ==> {
            &&& r is Some
            &&& (r->0).0@ == paths::joined(workspace_dir@, name@)
            &&& (r->0).1@ == said(files, workspace_dir@, name@)
        },
        !provides(files, workspace_dir@, name@) && r is Some ==> exists|i: int|
            {
                &&& 0 <= i < bundles@.len()
                &&& supplies(files, #[trigger] bundles@[i], name@)
                &&& (r->0).0@ == paths::joined(bundles@[i].directory@, name@)
                &&& (r->0).1@ == said(files, bundles@[i].directory@, name@)
                &&& forall|j: int|
                    i < j < bundles@.len() ==> !supplies(files, #[trigger] bundles@[j], name@)
            },
        r is None <==> {
            &&& !provides(files, workspace_dir@, name@)
            &&& forall|i: int|
                0 <= i < bundles@.len() ==> !supplies(files, #[trigger] bundles@[i], name@)
        },
{
    lemma_provides(files, workspace_dir@, name@);
    let layers = personality::layers(bundles@);
    let n = bundles@.len() as int;
    assert(layers.take(n) =~= layers);
    lemma_bundle_file(files, name@, bundles@, n);
}

/// What is loaded is the file that wins, cut where it is too long.
pub proof fn what_wins_is_loaded(
    files: FileSnapshot,
    name: &str,
    bundles: &[ResolvedPersonaBundle],
    workspace_dir: &str,
    found: Option<(String, String)>,
    r: Option<PersonalityFile>,
)
    requires
        call_ensures(
            personality::resolve_overlaid_file,
            (&files, name, bundles, workspace_dir),
            found,
        ),
        call_ensures(personality::load_overlaid_file, (&files, name, bundles, workspace_dir), r),
    ensures
        r is Some <==> found is Some,
        r matches Some(file) ==> is_loaded(file, name@, (found->0).0@, (found->0).1@),
{
    if let Some(file) = r {
        lemma_loaded(file, name@, ((found->0).0@, (found->0).1@));
    }
}

/// A file is present exactly when there is one, blank or not, in the workspace or
/// in a bundle that takes it.
pub proof fn blank_files_are_present(
    files: FileSnapshot,
    name: &str,
    bundles: &[ResolvedPersonaBundle],
    workspace_dir: &str,
    r: bool,
)
    requires
        call_ensures(
            personality::file_present_in_any_layer,
            (&files, name, bundles, workspace_dir),
            r,
        ),
    ensures
        r <==> {
            ||| files.file_at(paths::joined(workspace_dir@, name@))
            ||| exists|i: int|
                {
                    &&& 0 <= i < bundles@.len()
                    &&& takes(#[trigger] bundles@[i], name@)
                    &&& files.file_at(paths::joined(bundles@[i].directory@, name@))
                }
        },
{
    let layers = personality::layers(bundles@);
    assert(layers.len() == bundles@.len());
    assert forall|i: int| 0 <= i < bundles@.len() implies {
        &&& layers[i] == (#[trigger] bundles@[i])@
        &&& layers[i].admits(name@) == takes(bundles@[i], name@)
        &&& layers[i].directory == bundles@[i].directory@
    } by {
        lemma_takes(bundles@[i], name@);
    }
    if exists|i: int|
        {
            &&& 0 <= i < bundles@.len()
            &&& takes(#[trigger] bundles@[i], name@)
            &&& files.file_at(paths::joined(bundles@[i].directory@, name@))
        } {
        let i = choose|i: int|
            {
                &&& 0 <= i < bundles@.len()
                &&& takes(#[trigger] bundles@[i], name@)
                &&& files.file_at(paths::joined(bundles@[i].directory@, name@))
            };
        assert(layers[i].admits(name@));
    }
    if exists|i: int|
        0 <= i < layers.len() && (#[trigger] layers[i]).admits(name@) && files.file_at(
            paths::joined(layers[i].directory, name@),
        ) {
        let i = choose|i: int|
            0 <= i < layers.len() && (#[trigger] layers[i]).admits(name@) && files.file_at(
                paths::joined(layers[i].directory, name@),
            );
        assert(takes(bundles@[i], name@));
    }
}

/// Whether two files say the same.
pub open spec fn same_file(a: PersonalityFile, b: PersonalityFile) -> bool {
    &&& a.name@ == b.name@
    &&& a.path@ == b.path@
    &&& a.content@ == b.content@
    &&& a.truncated == b.truncated
}

/// How many of the first `n` were found.
pub open spec fn found_before(found: Seq<Option<PersonalityFile>>, n: int) -> int
    decreases n,
{
    if n <= 0 {
        0
    } else if found[n - 1] is Some {
        found_before(found, n - 1) + 1
    } else {
        found_before(found, n - 1)
    }
}

/// Whether a profile is made of what was found under each name: the files that
/// were found, in order, and the names of the others, in order.
pub open spec fn accounts_for(
    profile: PersonalityProfile,
    names: Seq<&str>,
    found: Seq<Option<PersonalityFile>>,
) -> bool {
    let n = names.len() as int;
    &&& profile.files@.len() == found_before(found, n)
    &&& profile.missing@.len() == n - found_before(found, n)
    &&& forall|k: int|
        0 <= k < n && (#[trigger] found[k]) is Some ==> {
            &&& 0 <= found_before(found, k) < profile.files@.len()
            &&& same_file(profile.files@[found_before(found, k)], found[k]->0)
        }
    &&& forall|k: int|
        0 <= k < n && (#[trigger] found[k]) is None ==> {
            &&& 0 <= k - found_before(found, k) < profile.missing@.len()
            &&& profile.missing@[k - found_before(found, k)]@ == names[k]@
        }
}

spec fn found_as(
    load: spec_fn(Seq<char>) -> Option<LoadedFile>,
    name: Seq<char>,
    found: Option<PersonalityFile>,
) -> bool {
    match found {
        Some(file) => load(name) == Some(file@),
        None => load(name) is None,
    }
}

spec fn collected_to(
    names: Seq<&str>,
    load: spec_fn(Seq<char>) -> Option<LoadedFile>,
    n: int,
) -> personality::LoadedProfile {
    personality::collected(personality::names_of(names).take(n), load)
}

proof fn lemma_collected_next(
    names: Seq<&str>,
    load: spec_fn(Seq<char>) -> Option<LoadedFile>,
    found: Option<PersonalityFile>,
    n: int,
)
    requires
        0 < n <= names.len(),
        found_as(load, names[n - 1]@, found),
    ensures
        match found {
            Some(file) => {
                &&& collected_to(names, load, n).files == collected_to(
                    names,
                    load,
                    n - 1,
                ).files.push(file@)
                &&& collected_to(names, load, n).missing == collected_to(
                    names,
                    load,
                    n - 1,
                ).missing
            },
            None => {
                &&& collected_to(names, load, n).files == collected_to(names, load, n - 1).files
                &&& collected_to(names, load, n).missing == collected_to(
                    names,
                    load,
                    n - 1,
                ).missing.push(names[n - 1]@)
            },
        },
{
    let texts = personality::names_of(names);
    assert(texts.take(n).drop_last() =~= texts.take(n - 1));
    assert(texts.take(n).last() == names[n - 1]@);
}

proof fn lemma_collected_count(
    names: Seq<&str>,
    load: spec_fn(Seq<char>) -> Option<LoadedFile>,
    found: Seq<Option<PersonalityFile>>,
    n: int,
)
    requires
        0 <= n <= names.len(),
        found.len() == names.len(),
        forall|k: int| 0 <= k < names.len() ==> found_as(load, names[k]@, #[trigger] found[k]),
    ensures
        collected_to(names, load, n).files.len() == found_before(found, n),
        collected_to(names, load, n).missing.len() == n - found_before(found, n),
        0 <= found_before(found, n) <= n,
    decreases n,
{
    if n > 0 {
        lemma_collected_count(names, load, found, n - 1);
        lemma_collected_next(names, load, found[n - 1], n);
    } else {
        assert(personality::names_of(names).take(0).len() == 0);
    }
}

proof fn lemma_collected_at(
    names: Seq<&str>,
    load: spec_fn(Seq<char>) -> Option<LoadedFile>,
    found: Seq<Option<PersonalityFile>>,
    n: int,
    k: int,
)
    requires
        0 <= k < n <= names.len(),
        found.len() == names.len(),
        forall|i: int| 0 <= i < names.len() ==> found_as(load, names[i]@, #[trigger] found[i]),
    ensures
        match found[k] {
            Some(file) => {
                &&& 0 <= found_before(found, k) < collected_to(names, load, n).files.len()
                &&& collected_to(names, load, n).files[found_before(found, k)] == file@
            },
            None => {
                &&& 0 <= k - found_before(found, k) < collected_to(names, load, n).missing.len()
                &&& collected_to(names, load, n).missing[k - found_before(found, k)] == names[k]@
            },
        },
    decreases n,
{
    lemma_collected_count(names, load, found, k);
    lemma_collected_next(names, load, found[n - 1], n);
    if k < n - 1 {
        lemma_collected_at(names, load, found, n - 1, k);
    }
}

proof fn lemma_accounts(
    profile: PersonalityProfile,
    names: Seq<&str>,
    load: spec_fn(Seq<char>) -> Option<LoadedFile>,
    found: Seq<Option<PersonalityFile>>,
)
    requires
        found.len() == names.len(),
        forall|k: int| 0 <= k < names.len() ==> found_as(load, names[k]@, #[trigger] found[k]),
        profile@ == personality::collected(personality::names_of(names), load),
    ensures
        accounts_for(profile, names, found),
{
    let n = names.len() as int;
    let texts = personality::names_of(names);
    assert(texts.take(n) =~= texts);
    lemma_collected_count(names, load, found, n);
    assert(profile@.files.len() == profile.files@.len());
    assert(profile@.missing.len() == profile.missing@.len());
    assert forall|k: int| 0 <= k < n && (#[trigger] found[k]) is Some implies {
        &&& 0 <= found_before(found, k) < profile.files@.len()
        &&& same_file(profile.files@[found_before(found, k)], found[k]->0)
    } by {
        lemma_collected_at(names, load, found, n, k);
        let at = found_before(found, k);
        assert(profile@.files[at] == profile.files@[at]@);
        let a = profile.files@[at];
        let b = found[k]->0;
        assert(a@ == b@);
        assert(a@.name == a.name@ && b@.name == b.name@);
        assert(a@.path == a.path@ && b@.path == b.path@);
        assert(a@.content == a.content@ && b@.content == b.content@);
        assert(a@.truncated == a.truncated && b@.truncated == b.truncated);
    }
    assert forall|k: int| 0 <= k < n && (#[trigger] found[k]) is None implies {
        &&& 0 <= k - found_before(found, k) < profile.missing@.len()
        &&& profile.missing@[k - found_before(found, k)]@ == names[k]@
    } by {
        lemma_collected_at(names, load, found, n, k);
        let at = k - found_before(found, k);
        assert(profile@.missing[at] == profile.missing@[at]@);
    }
}

/// The profile of a workspace accounts for every name that is looked for by what
/// reading that file gives.
pub proof fn workspace_accounts_for_every_name(
    files: FileSnapshot,
    workspace_dir: &str,
    names: &[&str],
    r: PersonalityProfile,
    found: Seq<Option<PersonalityFile>>,
)
    requires
        call_ensures(personality::load_personality_files, (&files, workspace_dir, names), r),
        found.len() == names@.len(),
        forall|k: int|
            0 <= k < names@.len() ==> call_ensures(
                personality::read_personality_file,
                (&files, workspace_dir, names@[k]),
                #[trigger] found[k],
            ),
    ensures
        accounts_for(r, names@, found),
{
    let load = |name: Seq<char>|
        personality::loaded(name, personality::layer_file(files, workspace_dir@, name));
    assert forall|k: int| 0 <= k < names@.len() implies found_as(
        load,
        names@[k]@,
        #[trigger] found[k],
    ) by {
        assert(call_ensures(
            personality::read_personality_file,
            (&files, workspace_dir, names@[k]),
            found[k],
        ));
    }
    lemma_accounts(r, names@, load, found);
}

/// The names of the files that make up a personality, in order.
pub open spec fn personality_names() -> Seq<Seq<char>> {
    seq![
        "SOUL.md"@,
        "IDENTITY.md"@,
        "USER.md"@,
        "AGENTS.md"@,
        "TOOLS.md"@,
        "HEARTBEAT.md"@,
        "BOOTSTRAP.md"@,
        "MEMORY.md"@,
    ]
}

/// These are the names that are looked for. Those that are offered for editing are
/// the same, in the same order, but for the scaffold of the first run.
pub proof fn editable_files_are_all_but_the_scaffold()
    ensures
        personality::names_of(personality::PERSONALITY_FILES@) == personality_names(),
        personality::names_of(personality::EDITABLE_PERSONALITY_FILES@)
            == personality_names().remove(6),
        personality_names()[6] == "BOOTSTRAP.md"@,
{
    assert(personality::names_of(personality::PERSONALITY_FILES@) =~= personality_names());
    assert(personality::names_of(personality::EDITABLE_PERSONALITY_FILES@)
        =~= personality_names().remove(6));
}

/// The personality of a workspace is made of what reading each of its files gives.
pub proof fn personality_is_that_of_its_files(
    files: FileSnapshot,
    workspace_dir: &str,
    names: Seq<&str>,
    r: PersonalityProfile,
    found: Seq<Option<PersonalityFile>>,
)
    requires
        call_ensures(personality::load_personality, (&files, workspace_dir), r),
        personality::names_of(names) == personality_names(),
        found.len() == names.len(),
        forall|k: int|
            0 <= k < names.len() ==> call_ensures(
                personality::read_personality_file,
                (&files, workspace_dir, names[k]),
                #[trigger] found[k],
            ),
    ensures
        accounts_for(r, names, found),
{
    editable_files_are_all_but_the_scaffold();
    let load = |name: Seq<char>|
        personality::loaded(name, personality::layer_file(files, workspace_dir@, name));
    assert forall|k: int| 0 <= k < names.len() implies found_as(
        load,
        names[k]@,
        #[trigger] found[k],
    ) by {
        assert(call_ensures(
            personality::read_personality_file,
            (&files, workspace_dir, names[k]),
            found[k],
        ));
    }
    lemma_accounts(r, names, load, found);
}

/// The personality of a workspace over bundles is made of the file that wins under
/// each name.
pub proof fn overlaid_personality_is_what_wins(
    files: FileSnapshot,
    bundles: &[ResolvedPersonaBundle],
    workspace_dir: &str,
    names: Seq<&str>,
    r: PersonalityProfile,
    found: Seq<Option<PersonalityFile>>,
)
    requires
        call_ensures(
            personality::load_personality_with_bundles,
            (&files, bundles, workspace_dir),
            r,
        ),
        personality::names_of(names) == personality_names(),
        found.len() == names.len(),
        forall|k: int|
            0 <= k < names.len() ==> call_ensures(
                personality::load_overlaid_file,
                (&files, names[k], bundles, workspace_dir),
                #[trigger] found[k],
            ),
    ensures
        accounts_for(r, names, found),
{
    editable_files_are_all_but_the_scaffold();
    let layers = personality::layers(bundles@);
    let load = |name: Seq<char>|
        personality::loaded(name, personality::overlaid(files, name, layers, workspace_dir@));
    assert(r@ == personality::overlaid_profile(
        files,
        layers,
        workspace_dir@,
        personality::names_of(names),
    ));
    assert forall|k: int| 0 <= k < names.len() implies found_as(
        load,
        names[k]@,
        #[trigger] found[k],
    ) by {
        assert(call_ensures(
            personality::load_overlaid_file,
            (&files, names[k], bundles, workspace_dir),
            found[k],
        ));
    }
    lemma_accounts(r, names, load, found);
}

proof fn lemma_content_of(files: Seq<LoadedFile>, name: Seq<char>)
    ensures
        personality::content_of(files, name) is None <==> forall|i: int|
            0 <= i < files.len() ==> (#[trigger] files[i]).name != name,
        personality::content_of(files, name) is Some ==> exists|i: int|
            {
                &&& 0 <= i < files.len()
                &&& (#[trigger] files[i]).name == name
                &&& personality::content_of(files, name) == Some(files[i].content)
                &&& forall|j: int| 0 <= j < i ==> (#[trigger] files[j]).name != name
            },
    decreases files.len(),
{
    if files.len() > 0 {
        let rest = files.drop_first();
        lemma_content_of(rest, name);
        assert forall|i: int| 0 <= i < rest.len() implies #[trigger] rest[i] == files[i + 1] by {}
        if files[0].name != name {
            if personality::content_of(rest, name) is Some {
                let i = choose|i: int|
                    {
                        &&& 0 <= i < rest.len()
                        &&& (#[trigger] rest[i]).name == name
                        &&& personality::content_of(rest, name) == Some(rest[i].content)
                        &&& forall|j: int| 0 <= j < i ==> (#[trigger] rest[j]).name != name
                    };
                assert(files[i + 1].name == name);
                assert forall|j: int| 0 <= j < i + 1 implies (#[trigger] files[j]).name != name by {
                    if j > 0 {
                        assert(rest[j - 1].name != name);
                    }
                }
            } else {
                assert forall|i: int| 0 <= i < files.len() implies (#[trigger] files[i]).name
                    != name by {
                    if i > 0 {
                        assert(rest[i - 1].name != name);
                    }
                }
            }
        }
    }
}

/// A profile gives the content of the first file of a name, and nothing for a name
/// that it has not.
pub proof fn profile_gives_the_file_of_a_name(
    profile: PersonalityProfile,
    name: &str,
    r: Option<&str>,
)
    requires
        call_ensures(PersonalityProfile::get, (&profile, name), r),
    ensures
        r is None <==> forall|i: int|
            0 <= i < profile.files@.len() ==> (#[trigger] profile.files@[i]).name@ != name@,
        r matches Some(content) ==> exists|i: int|
            {
                &&& 0 <= i < profile.files@.len()
                &&& (#[trigger] profile.files@[i]).name@ == name@
                &&& content@ == profile.files@[i].content@
                &&& forall|j: int| 0 <= j < i ==> (#[trigger] profile.files@[j]).name@ != name@
            },
{
    let shown = profile@.files;
    let own = profile.files@;
    lemma_content_of(shown, name@);
    assert(shown.len() == own.len());
    assert forall|i: int| 0 <= i < own.len() implies shown[i] == (#[trigger] own[i])@
        && shown[i].name == own[i].name@ && shown[i].content == own[i].content@ by {}
    if let Some(content) = r {
        let i = choose|i: int|
            {
                &&& 0 <= i < shown.len()
                &&& (#[trigger] shown[i]).name == name@
                &&& personality::content_of(shown, name@) == Some(shown[i].content)
                &&& forall|j: int| 0 <= j < i ==> (#[trigger] shown[j]).name != name@
            };
        assert(own[i].name@ == name@);
        assert forall|j: int| 0 <= j < i implies (#[trigger] own[j]).name@ != name@ by {
            assert(shown[j].name != name@);
        }
    } else {
        assert forall|i: int| 0 <= i < own.len() implies (#[trigger] own[i]).name@ != name@ by {
            assert(shown[i].name != name@);
        }
    }
    if forall|i: int| 0 <= i < own.len() ==> (#[trigger] own[i]).name@ != name@ {
        assert forall|i: int| 0 <= i < shown.len() implies (#[trigger] shown[i]).name != name@ by {
            assert(own[i].name@ != name@);
        }
    }
}

/// A profile is empty exactly when it has no file.
pub proof fn profile_without_files_is_empty(profile: PersonalityProfile, r: bool)
    requires
        call_ensures(PersonalityProfile::is_empty, (&profile,), r),
    ensures
        r <==> profile.files@.len() == 0,
{
    assert(profile@.files.len() == profile.files@.len());
}

/// What is shown of a profile is its files one after the other: one more file adds
/// its name as a heading, its content, and a note where it was cut.
pub proof fn profile_shows_one_more_file(
    before: PersonalityProfile,
    after: PersonalityProfile,
    file: PersonalityFile,
    shown_before: String,
    shown_after: String,
)
    requires
        call_ensures(PersonalityProfile::render, (&before,), shown_before),
        call_ensures(PersonalityProfile::render, (&after,), shown_after),
        after.files@ == before.files@.push(file),
    ensures
        before.files@.len() == 0 ==> shown_before@.len() == 0,
        shown_after@ == shown_before@ + "### "@ + file.name@ + "\n\n"@ + file.content@ + (
        if file.truncated {
            "\n\n[... truncated at 20000 chars — use `read` for full file]\n\n"@
        } else {
            "\n\n"@
        }),
{
    assert(after@.files.drop_last() =~= before@.files);
    assert(after@.files.last() == file@);
    assert(before@.files.len() == before.files@.len());
    reveal_strlit("\n\n[... truncated at ");
    reveal_strlit(" chars — use `read` for full file]\n\n");
    reveal_strlit("\n\n[... truncated at 20000 chars — use `read` for full file]\n\n");
    reveal_with_fuel(text::decimal, 6);
    let d = text::decimal(20_000);
    assert(d =~= seq!['2', '0', '0', '0', '0']);
    assert(personality::section_end(true)
        =~= "\n\n[... truncated at 20000 chars — use `read` for full file]\n\n"@);
}

/// How many bundles from a position on take a file.
pub open spec fn takers_from(
    bundles: Seq<ResolvedPersonaBundle>,
    name: Seq<char>,
    i: int,
) -> int
    decreases bundles.len() - i,
{
    if i >= bundles.len() {
        0
    } else if takes(bundles[i], name) {
        takers_from(bundles, name, i + 1) + 1
    } else {
        takers_from(bundles, name, i + 1)
    }
}

proof fn lemma_takers_front(
    bundles: Seq<ResolvedPersonaBundle>,
    name: Seq<char>,
    i: int,
)
    requires
        0 <= i < bundles.len(),
    ensures
        takers_from(bundles, name, i) == takers_from(bundles.drop_last(), name, i) + (if takes(
            bundles.last(),
            name,
        ) {
            1int
        } else {
            0
        }),
    decreases bundles.len() - i,
{
    let front = bundles.drop_last();
    if i < front.len() {
        assert(front[i] == bundles[i]);
        lemma_takers_front(bundles, name, i + 1);
    } else {
        assert(takers_from(bundles, name, i + 1) == 0);
        assert(takers_from(front, name, i) == 0);
    }
}

proof fn lemma_bundle_paths(bundles: Seq<ResolvedPersonaBundle>, name: Seq<char>)
    ensures
        ({
            let listed = personality::bundle_paths(name, personality::layers(bundles));
            &&& listed.len() == takers_from(bundles, name, 0)
            &&& forall|i: int|
                0 <= i < bundles.len() && takes(#[trigger] bundles[i], name) ==> {
                    &&& 0 <= takers_from(bundles, name, i + 1) < listed.len()
                    &&& listed[takers_from(bundles, name, i + 1)] == paths::joined(
                        bundles[i].directory@,
                        name,
                    )
                }
        }),
    decreases bundles.len(),
{
    let layers = personality::layers(bundles);
    assert(layers.len() == bundles.len());
    if bundles.len() > 0 {
        let front = bundles.drop_last();
        let top = bundles.last();
        lemma_bundle_paths(front, name);
        assert(layers.drop_last() =~= personality::layers(front));
        assert(layers.last() == top@);
        lemma_takes(top, name);
        lemma_takers_front(bundles, name, 0);
        let listed = personality::bundle_paths(name, layers);
        let below = personality::bundle_paths(name, personality::layers(front));
        let shift: int = if takes(top, name) {
            1
        } else {
            0
        };
        assert forall|i: int| 0 <= i < bundles.len() && takes(#[trigger] bundles[i], name) implies {
            &&& 0 <= takers_from(bundles, name, i + 1) < listed.len()
            &&& listed[takers_from(bundles, name, i + 1)] == paths::joined(
                bundles[i].directory@,
                name,
            )
        } by {
            if i < front.len() {
                assert(front[i] == bundles[i]);
                lemma_takers_front(bundles, name, i + 1);
                let k = takers_from(front, name, i + 1);
                assert(listed[k + shift] == below[k]);
            } else {
                assert(takers_from(bundles, name, i + 1) == 0);
            }
        }
    }
}

/// A file is looked for in the workspace first, then in every bundle that takes
/// it, the last one first, and nowhere else.
pub proof fn layers_are_searched_from_the_top(
    name: &str,
    bundles: &[ResolvedPersonaBundle],
    workspace_dir: &str,
    r: Vec<String>,
)
    requires
        call_ensures(personality::overlay_paths, (name, bundles, workspace_dir), r),
    ensures
        r@.len() == 1 + takers_from(bundles@, name@, 0),
        r@[0]@ == paths::joined(workspace_dir@, name@),
        forall|i: int|
            0 <= i < bundles@.len() && takes(#[trigger] bundles@[i], name@) ==> {
                let k = 1 + takers_from(bundles@, name@, i + 1);
                &&& 0 < k < r@.len()
                &&& r@[k]@ == paths::joined(bundles@[i].directory@, name@)
            },
{
    lemma_bundle_paths(bundles@, name@);
    let whole = r.deep_view();
    let listed = personality::bundle_paths(name@, personality::layers(bundles@));
    assert(whole.len() == r@.len());
    assert(whole[0] == r@[0]@);
    assert forall|i: int| 0 <= i < bundles@.len() && takes(#[trigger] bundles@[i], name@) implies {
        let k = 1 + takers_from(bundles@, name@, i + 1);
        &&& 0 < k < r@.len()
        &&& r@[k]@ == paths::joined(bundles@[i].directory@, name@)
    } by {
        let k = 1 + takers_from(bundles@, name@, i + 1);
        assert(whole[k] == listed[k - 1]);
        assert(whole[k] == r@[k]@);
    }
}

/// The default directory of a bundle is `shared/personas/<alias>` below the
/// installation, for an alias that is a file name.
pub proof fn default_directory_is_below_the_installation(
    install_root: &str,
    alias: &str,
    r: String,
)
    requires
        call_ensures(persona_bundles::default_directory, (install_root, alias), r),
        alias@.len() > 0,
        !alias@.contains('/'),
        alias@ != seq!['.'],
    ensures
        paths::components(r@) == paths::components(install_root@).push("shared"@).push(
            "personas"@,
        ).push(alias@),
{
    reveal_strlit("shared");
    reveal_strlit("personas");
    let a = "shared"@;
    let b = "personas"@;
    assert(a.len() == 6 && b.len() == 8);
    assert forall|i: int| 0 <= i < 6 implies a[i] != '/' by {}
    assert forall|i: int| 0 <= i < 8 implies b[i] != '/' by {}
    assert(!a.contains('/') && !b.contains('/'));
    let one = paths::joined(install_root@, a);
    let two = paths::joined(one, b);
    paths::join_adds_component(install_root@, a);
    paths::join_adds_component(one, b);
    paths::join_adds_component(two, alias@);
}

/// A bundle that is not configured has no directory. The directory of one that is
/// configured is its setting, taken from the installation unless it is absolute;
/// where the setting is unset or blank it is the default one.
pub proof fn directory_is_the_setting_or_the_default(
    config: Config,
    install_root: &str,
    alias: &str,
    r: Result<String, PersonaBundleDirectoryError>,
    default: String,
)
    requires
        call_ensures(persona_bundles::resolve_directory, (&config, install_root, alias), r),
        call_ensures(persona_bundles::default_directory, (install_root, alias), default),
    ensures
        r is Ok <==> config.persona_bundles.lookup(alias@) is Some,
        r matches Err(e) ==> e matches PersonaBundleDirectoryError::UnknownBundle(name) && name@
            == alias@,
        config.persona_bundles.lookup(alias@) matches Some(bundle) ==> {
            &&& bundle.directory is None ==> r->Ok_0@ == default@
            &&& bundle.directory matches Some(raw) ==> {
                &&& !says_something(raw@) ==> r->Ok_0@ == default@
                &&& says_something(raw@) && text::trimmed(raw@)[0] == '/' ==> r->Ok_0@
                    == text::trimmed(raw@)
                &&& says_something(raw@) && text::trimmed(raw@)[0] != '/' ==> r->Ok_0@
                    == paths::joined(install_root@, text::trimmed(raw@))
            }
        },
{
    if let Some(bundle) = config.persona_bundles.lookup(alias@) {
        if let Some(raw) = bundle.directory {
            texts::blank_exactly(raw@);
        }
    }
}

/// A path is taken exactly where there is a directory; the complaint tells apart
/// what is no directory and what is not there, and names the path.
pub proof fn only_directories_are_taken(
    path: &str,
    probe: PathProbe,
    r: Result<(), PersonaBundleDirectoryError>,
)
    requires
        call_ensures(persona_bundles::validate_directory, (path, probe), r),
    ensures
        r is Ok <==> probe == PathProbe::Directory,
        probe == PathProbe::NoDirectory ==> (r->Err_0 is NotADirectory
            && r->Err_0->NotADirectory_path@ == path@),
        probe == PathProbe::Absent ==> (r->Err_0 is Missing && r->Err_0->Missing_path@ == path@),
{
}

/// The explanation of an error names what it is about.
pub proof fn directory_errors_name_their_subject(
    e: PersonaBundleDirectoryError,
    r: String,
)
    requires
        call_ensures(PersonaBundleDirectoryError::message, (&e,), r),
    ensures
        match e {
            PersonaBundleDirectoryError::UnknownBundle(alias) => text::occurs_in(alias@, r@),
            PersonaBundleDirectoryError::Missing { path } => text::occurs_in(path@, r@)
                && text::occurs_in("does not exist"@, r@),
            PersonaBundleDirectoryError::NotADirectory { path } => text::occurs_in(path@, r@)
                && text::occurs_in("not a directory"@, r@),
            PersonaBundleDirectoryError::DirectoryCollision { path, first, second } => {
                &&& text::occurs_in("directory '"@ + path@ + "'"@, r@)
                &&& text::occurs_in("'"@ + first@ + "' and '"@ + second@ + "'"@, r@)
            },
        },
{
    match e {
        PersonaBundleDirectoryError::UnknownBundle(alias) => {
            texts::stands_within("persona bundle '"@, alias@, "' is not configured"@);
        },
        PersonaBundleDirectoryError::Missing { path } => {
            reveal_strlit("' does not exist");
            reveal_strlit("does not exist");
            let a = "persona-bundle directory '"@;
            let word = "does not exist"@;
            texts::stands_within(a, path@, "' does not exist"@);
            let at = a.len() + path@.len() + 2int;
            assert(r@.subrange(at, at + word.len()) =~= word);
        },
        PersonaBundleDirectoryError::NotADirectory { path } => {
            reveal_strlit("' is not a directory");
            reveal_strlit("not a directory");
            let a = "persona-bundle directory '"@;
            let word = "not a directory"@;
            texts::stands_within(a, path@, "' is not a directory"@);
            let at = a.len() + path@.len() + 5int;
            assert(r@.subrange(at, at + word.len()) =~= word);
        },
        PersonaBundleDirectoryError::DirectoryCollision { path, first, second } => {
            lemma_collision(path@, first@, second@);
        },
    }
}

proof fn lemma_collision(path: Seq<char>, first: Seq<char>, second: Seq<char>)
    ensures
        ({
            let whole = "persona-bundles '"@ + first + "' and '"@ + second
                + "' both resolve to directory '"@ + path
                + "'; each bundle must own a unique directory"@;
            &&& text::occurs_in("directory '"@ + path + "'"@, whole)
            &&& text::occurs_in("'"@ + first + "' and '"@ + second + "'"@, whole)
        }),
{
    reveal_strlit("persona-bundles '");
    reveal_strlit("' and '");
    reveal_strlit("' both resolve to directory '");
    reveal_strlit("'; each bundle must own a unique directory");
    reveal_strlit("directory '");
    reveal_strlit("'");
    let a = "persona-bundles '"@;
    let b = "' and '"@;
    let c = "' both resolve to directory '"@;
    let d = "'; each bundle must own a unique directory"@;
    let head = a + first + b + second + c;
    let whole = head + path + d;
    let place = "directory '"@ + path + "'"@;
    let at = head.len() - 11int;
    assert(whole.subrange(at, at + place.len()) =~= place);
    let both = "'"@ + first + "' and '"@ + second + "'"@;
    assert(whole.subrange(16int, 16int + both.len()) =~= both);
}

/// The directory that the bundle at a position resolves to, in normal form.
pub open spec fn resolves_to(
    config: Config,
    install_root: &str,
    i: int,
    alias: &str,
    dir: String,
    path: &str,
    normal: String,
) -> bool {
    &&& alias@ == config.persona_bundles.keys()[i]
    &&& call_ensures(persona_bundles::resolve_directory, (&config, install_root, alias), Ok(dir))
    &&& path@ == dir@
    &&& call_ensures(paths::normalize_lexical, (path,), normal)
}

/// Two bundles that resolve to one directory are refused, and two that do not are
/// not mistaken for such.
pub proof fn shared_directories_are_refused(
    config: Config,
    install_root: &str,
    r: Result<(), PersonaBundleDirectoryError>,
    i: int,
    j: int,
    alias_i: &str,
    dir_i: String,
    path_i: &str,
    normal_i: String,
    alias_j: &str,
    dir_j: String,
    path_j: &str,
    normal_j: String,
)
    requires
        call_ensures(persona_bundles::validate_uniqueness, (&config, install_root), r),
        config.persona_bundles.wf(),
        0 <= i < j < config.persona_bundles.keys().len(),
        resolves_to(config, install_root, i, alias_i, dir_i, path_i, normal_i),
        resolves_to(config, install_root, j, alias_j, dir_j, path_j, normal_j),
    ensures
        normal_i@ == normal_j@ ==> r is Err,
        r is Err ==> {
            &&& r->Err_0 is DirectoryCollision
            &&& r->Err_0->first@ != r->Err_0->second@
            &&& r->Err_0->first@ == alias_i@ && r->Err_0->second@ == alias_j@ ==> normal_i@
                == normal_j@ && r->Err_0->DirectoryCollision_path@ == normal_j@
        },
{
    let keys = config.persona_bundles.keys();
    let root = install_root@;
    lemma_at(config, i);
    lemma_at(config, j);
    assert(normal_i@ == persona_bundles::normalized_at(config, root, i));
    assert(normal_j@ == persona_bundles::normalized_at(config, root, j));
    if let Err(PersonaBundleDirectoryError::DirectoryCollision { path, first, second }) = r {
        let (a, b) = choose|a: int, b: int|
            {
                &&& 0 <= a < b < keys.len()
                &&& persona_bundles::unique_before(config, root, b)
                &&& #[trigger] persona_bundles::normalized_at(config, root, a)
                    == #[trigger] persona_bundles::normalized_at(config, root, b)
                &&& path@ == persona_bundles::normalized_at(config, root, b)
                &&& first@ == keys[a]
                &&& second@ == keys[b]
            };
        assert(keys[a] != keys[b]);
        if first@ == alias_i@ && second@ == alias_j@ {
            assert(a == i && b == j);
        }
    }
}

proof fn lemma_at(config: Config, i: int)
    requires
        config.persona_bundles.wf(),
        0 <= i < config.persona_bundles.keys().len(),
    ensures
        config.persona_bundles.lookup(config.persona_bundles.keys()[i]) == Some(
            config.persona_bundles.value_at(i),
        ),
{
    let keys = config.persona_bundles.keys();
    assert(keys.contains(keys[i]));
    assert(keys.index_of(keys[i]) == i);
}

/// A configuration without bundles, or with one, has no directory twice.
pub proof fn one_bundle_is_unique(
    config: Config,
    install_root: &str,
    r: Result<(), PersonaBundleDirectoryError>,
)
    requires
        call_ensures(persona_bundles::validate_uniqueness, (&config, install_root), r),
        config.persona_bundles.keys().len() <= 1,
    ensures
        r is Ok,
{
}

/// What was recorded of a path is read back there; what was recorded of another path
/// before is still there.
pub proof fn snapshot_gives_back_what_was_recorded(
    files: &mut FileSnapshot,
    path: String,
    entry: FileEntry,
    at: &str,
    text_before: Option<&String>,
    text_after: Option<&String>,
    file_before: bool,
    file_after: bool,
)
    requires
        call_ensures(FileSnapshot::record, (files, path, entry), ()),
        call_ensures(FileSnapshot::read, (&*old(files), at), text_before),
        call_ensures(FileSnapshot::read, (&*final(files), at), text_after),
        call_ensures(FileSnapshot::is_file, (&*old(files), at), file_before),
        call_ensures(FileSnapshot::is_file, (&*final(files), at), file_after),
    ensures
        at@ == path@ ==> {
            &&& text_after is Some <==> entry.text is Some
            &&& text_after is Some ==> text_after->0@ == entry.text->0@
            &&& file_after == entry.is_file
        },
        at@ != path@ ==> {
            &&& text_after is Some <==> text_before is Some
            &&& text_after is Some ==> text_after->0@ == text_before->0@
            &&& file_after == file_before
        },
{
}

/// A new snapshot has nothing.
pub proof fn new_snapshot_is_empty(
    files: FileSnapshot,
    at: &str,
    found: Option<&String>,
    is_file: bool,
)
    requires
        call_ensures(FileSnapshot::new, (), files),
        call_ensures(FileSnapshot::read, (&files, at), found),
        call_ensures(FileSnapshot::is_file, (&files, at), is_file),
    ensures
        found is None,
        !is_file,
{
}

/// What is read of a path is what the snapshot holds there.
pub proof fn reading_is_looking_up(
    files: FileSnapshot,
    at: &str,
    found: Option<&String>,
    is_file: bool,
)
    requires
        call_ensures(FileSnapshot::read, (&files, at), found),
        call_ensures(FileSnapshot::is_file, (&files, at), is_file),
    ensures
        found is Some <==> files.text_at(at@) is Some,
        found is Some ==> files.text_at(at@) == Some(found->0@),
        is_file == files.file_at(at@),
{
}

/// An empty profile has no file and misses none.
pub proof fn default_profile_is_empty(r: PersonalityProfile)
    requires
        call_ensures(PersonalityProfile::default, (), r),
    ensures
        r.files@.len() == 0,
        r.missing@.len() == 0,
{
    assert(r@.files.len() == r.files@.len());
    assert(r@.missing.len() == r.missing@.len());
}

} // verus!
