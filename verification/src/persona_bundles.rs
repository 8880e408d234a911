//! Directories of persona bundles.
//!
//! A persona bundle is authored content: identity markdown that may live
//! anywhere on disk. Its directory is `<install>/shared/personas/<alias>`
//! unless configured. Two bundles must not share a directory, and a configured
//! directory must exist.

use vstd::prelude::*;

use crate::paths;
use crate::schema::Config;
use crate::text;

verus! {

/// Why a persona-bundle directory is refused.
#[derive(Debug)]
pub enum PersonaBundleDirectoryError {
    /// No bundle of that name is configured.
    UnknownBundle(String),
    /// There is nothing at the path.
    Missing { path: String },
    /// What is at the path is no directory.
    NotADirectory { path: String },
    /// Two bundles resolve to one directory.
    DirectoryCollision { path: String, first: String, second: String },
}

impl PersonaBundleDirectoryError {
    /// The explanation of the error.
    pub open spec fn message_text(self) -> Seq<char> {
        match self {
            PersonaBundleDirectoryError::UnknownBundle(alias) => "persona bundle '"@ + alias@
                + "' is not configured"@,
            PersonaBundleDirectoryError::Missing { path } => "persona-bundle directory '"@ + path@
                + "' does not exist"@,
            PersonaBundleDirectoryError::NotADirectory { path } => "persona-bundle directory '"@
                + path@ + "' is not a directory"@,
            PersonaBundleDirectoryError::DirectoryCollision { path, first, second } =>
                "persona-bundles '"@ + first@ + "' and '"@ + second@
                + "' both resolve to directory '"@ + path@
                + "'; each bundle must own a unique directory"@,
        }
    }

    /// The explanation of the error.
    pub fn message(&self) -> (r: String)
        ensures
            r@ == self.message_text(),
    {
        match self {
            PersonaBundleDirectoryError::UnknownBundle(alias) => {
                let mut out = "persona bundle '".to_owned();
                out.append(alias);
                out.append("' is not configured");
                out
            },
            PersonaBundleDirectoryError::Missing { path } => {
                let mut out = "persona-bundle directory '".to_owned();
                out.append(path);
                out.append("' does not exist");
                out
            },
            PersonaBundleDirectoryError::NotADirectory { path } => {
                let mut out = "persona-bundle directory '".to_owned();
                out.append(path);
                out.append("' is not a directory");
                out
            },
            PersonaBundleDirectoryError::DirectoryCollision { path, first, second } => {
                let mut out = "persona-bundles '".to_owned();
                out.append(first);
                out.append("' and '");
                out.append(second);
                out.append("' both resolve to directory '");
                out.append(path);
                out.append("'; each bundle must own a unique directory");
                out
            },
        }
    }
}

/// `<install>/shared/personas/<alias>`.
pub open spec fn default_path(install_root: Seq<char>, alias: Seq<char>) -> Seq<char> {
    paths::joined(paths::joined(paths::joined(install_root, "shared"@), "personas"@), alias)
}

/// The directory for a bundle whose `directory` setting is `configured`: the
/// default one when the setting is unset or blank, else the trimmed setting,
/// taken from the installation directory unless it is absolute.
pub open spec fn directory_for(
    configured: Option<Seq<char>>,
    install_root: Seq<char>,
    alias: Seq<char>,
) -> Seq<char> {
    match configured {
        Some(raw) => {
            let wanted = text::trimmed(raw);
            if wanted.len() == 0 {
                default_path(install_root, alias)
            } else if paths::absolute(wanted) {
                wanted
            } else {
                paths::joined(install_root, wanted)
            }
        },
        None => default_path(install_root, alias),
    }
}

/// The directory of the bundle at a position of the table.
pub open spec fn directory_at(config: Config, install_root: Seq<char>, i: int) -> Seq<char> {
    directory_for(
        text::optional(config.persona_bundles.value_at(i).directory),
        install_root,
        config.persona_bundles.keys()[i],
    )
}

/// The normalised directory of the bundle at a position of the table.
pub open spec fn normalized_at(config: Config, install_root: Seq<char>, i: int) -> Seq<char> {
    paths::normalized(directory_at(config, install_root, i))
}

/// Whether no two bundles before position `n` have the same normalised
/// directory.
pub open spec fn unique_before(config: Config, install_root: Seq<char>, n: int) -> bool {
    forall|i: int, j: int|
        0 <= i < j < n ==> normalized_at(config, install_root, i) != normalized_at(
            config,
            install_root,
            j,
        )
}

/// The default directory of a persona bundle.
pub fn default_directory(install_root: &str, alias: &str) -> (r: String)
    ensures
        r@ == default_path(install_root@, alias@),
{
    let shared = paths::join(install_root, "shared");
    let personas = paths::join(&shared, "personas");
    paths::join(&personas, alias)
}

/// The directory of a configured persona bundle.
pub fn resolve_directory(config: &Config, install_root: &str, alias: &str) -> (r: Result<
    String,
    PersonaBundleDirectoryError,
>)
    ensures
        match (config.persona_bundles.lookup(alias@), r) {
            (Some(bundle), Ok(path)) => path@ == directory_for(
                text::optional(bundle.directory),
                install_root@,
                alias@,
            ),
            (None, Err(PersonaBundleDirectoryError::UnknownBundle(name))) => name@ == alias@,
            _ => false,
        },
{
    let bundle = match config.persona_bundles.get(alias) {
        Some(bundle) => bundle,
        None => {
            return Err(PersonaBundleDirectoryError::UnknownBundle(alias.to_owned()));
        },
    };
    if let Some(raw) = &bundle.directory {
        let wanted = text::trim(raw);
        if wanted.unicode_len() > 0 {
            if paths::is_absolute(wanted) {
                return Ok(wanted.to_owned());
            }
            return Ok(paths::join(install_root, wanted));
        }
    }
    Ok(default_directory(install_root, alias))
}

/// What stands at a path.
#[derive(Debug, Clone, Copy, PartialEq, Eq, Structural)]
pub enum PathProbe {
    /// A directory.
    Directory,
    /// Something that is no directory.
    NoDirectory,
    /// Nothing that can be looked at.
    Absent,
}

/// Refuses a path at which there is no directory.
pub fn validate_directory(path: &str, probe: PathProbe) -> (r: Result<
    (),
    PersonaBundleDirectoryError,
>)
    ensures
        match (probe, r) {
            (PathProbe::Directory, Ok(())) => true,
            (
                PathProbe::NoDirectory,
                Err(PersonaBundleDirectoryError::NotADirectory { path: p }),
            ) => p@ == path@,
            (PathProbe::Absent, Err(PersonaBundleDirectoryError::Missing { path: p })) => p@
                == path@,
            _ => false,
        },
{
    match probe {
        PathProbe::Directory => Ok(()),
        PathProbe::NoDirectory => Err(
            PersonaBundleDirectoryError::NotADirectory { path: path.to_owned() },
        ),
        PathProbe::Absent => Err(PersonaBundleDirectoryError::Missing { path: path.to_owned() }),
    }
}

/// Refuses a configuration in which two bundles resolve to one directory,
/// naming the first bundle, in table order, that meets an earlier one.
pub fn validate_uniqueness(config: &Config, install_root: &str) -> (r: Result<
    (),
    PersonaBundleDirectoryError,
>)
    ensures
        match r {
            Ok(()) => unique_before(
                *config,
                install_root@,
                config.persona_bundles.keys().len() as int,
            ),
            Err(PersonaBundleDirectoryError::DirectoryCollision { path, first, second }) => {
                exists|i: int, j: int|
                    {
                        &&& 0 <= i < j < config.persona_bundles.keys().len()
                        &&& unique_before(*config, install_root@, j)
                        &&& #[trigger] normalized_at(*config, install_root@, i)
                            == #[trigger] normalized_at(*config, install_root@, j)
                        &&& path@ == normalized_at(*config, install_root@, j)
                        &&& first@ == config.persona_bundles.keys()[i]
                        &&& second@ == config.persona_bundles.keys()[j]
                    }
            },
            Err(_) => false,
        },
{
    let bundles = &config.persona_bundles;
    bundles.distinct();
    let n: usize = bundles.len();
    let mut seen: Vec<String> = Vec::new();
    let mut j: usize = 0;
    while j < n
        invariant
            j <= n,
            n == bundles.keys().len(),
            n == bundles.contents().len(),
            bundles == config.persona_bundles,
            bundles.wf(),
            seen.len() == j,
            forall|i: int| 0 <= i < j ==> #[trigger] seen[i]@ == normalized_at(*config, install_root@, i),
            unique_before(*config, install_root@, j as int),
        decreases n - j,
    {
        let alias = bundles.key_at(j);
        assert(bundles.keys().contains(alias@)) by {
            assert(bundles.keys()[j as int] == alias@);
        }
        assert(bundles.keys().index_of(alias@) == j);
        let dir = match resolve_directory(config, install_root, alias) {
            Ok(dir) => dir,
            Err(e) => {
                return Err(e);
            },
        };
        let normalized = paths::normalize_lexical(&dir);
        assert(normalized@ == normalized_at(*config, install_root@, j as int));
        let mut i: usize = 0;
        while i < j
            invariant
                i <= j < n,
                n == bundles.keys().len(),
                n == bundles.contents().len(),
                bundles == config.persona_bundles,
                seen.len() == j,
                normalized@ == normalized_at(*config, install_root@, j as int),
                alias@ == bundles.keys()[j as int],
                forall|k: int|
                    0 <= k < j ==> #[trigger] seen[k]@ == normalized_at(*config, install_root@, k),
                forall|k: int| 0 <= k < i ==> #[trigger] seen[k]@ != normalized@,
                unique_before(*config, install_root@, j as int),
            decreases j - i,
        {
            if text::same_text(&seen[i], &normalized) {
                let first = bundles.key_at(i).clone();
                let second = alias.clone();
                proof {
                    let a = normalized_at(*config, install_root@, i as int);
                    let b = normalized_at(*config, install_root@, j as int);
                    assert(a == b);
                }
                return Err(
                    PersonaBundleDirectoryError::DirectoryCollision {
                        path: normalized,
                        first,
                        second,
                    },
                );
            }
            i += 1;
        }
        seen.push(normalized);
        assert forall|a: int, b: int| 0 <= a < b < j + 1 implies normalized_at(
            *config,
            install_root@,
            a,
        ) != normalized_at(*config, install_root@, b) by {
            assert(seen[a]@ == normalized_at(*config, install_root@, a));
        }
        j += 1;
    }
    Ok(())
}

/// Bundles that leave their directory to the default never collide, when their
/// names are plain file names.
pub proof fn default_directories_are_unique(config: Config, install_root: Seq<char>)
    requires
        config.persona_bundles.wf(),
        forall|i: int|
            0 <= i < config.persona_bundles.keys().len() ==> paths::plain_name(
                #[trigger] config.persona_bundles.keys()[i],
            ) && config.persona_bundles.value_at(i).directory is None,
    ensures
        unique_before(config, install_root, config.persona_bundles.keys().len() as int),
{
    reveal_strlit("personas");
    let keys = config.persona_bundles.keys();
    let shared = paths::joined(install_root, "shared"@);
    assert forall|i: int, j: int| 0 <= i < j < keys.len() implies normalized_at(
        config,
        install_root,
        i,
    ) != normalized_at(config, install_root, j) by {
        let a = keys[i];
        let b = keys[j];
        assert(a != b);
        assert("personas"@.len() == 8);
        assert(paths::plain_name("personas"@)) by {
            assert forall|k: int| 0 <= k < 8 implies "personas"@[k] != '/' by {}
        }
        paths::siblings_differ(shared, "personas"@, a, b);
    }
}

/// An absolute setting is used as it is, wherever the installation lies.
pub proof fn absolute_setting_passes_through(
    setting: Seq<char>,
    install_root: Seq<char>,
    alias: Seq<char>,
)
    requires
        paths::absolute(setting),
        text::trimmed(setting) == setting,
    ensures
        directory_for(Some(setting), install_root, alias) == setting,
{
}

/// A blank setting counts as none.
pub proof fn blank_setting_is_unset(setting: Seq<char>, install_root: Seq<char>, alias: Seq<char>)
    requires
        forall|i: int| 0 <= i < setting.len() ==> text::is_blank(#[trigger] setting[i]),
    ensures
        directory_for(Some(setting), install_root, alias) == directory_for(
            None,
            install_root,
            alias,
        ),
{
    text::blank_trims_to_nothing(setting);
}

} // verus!
