//! Personality files: identity markdown that is read from an agent's workspace
//! and from the persona bundles laid under it.
//!
//! The functions here decide on a snapshot of the files. `overlay_paths` says
//! which paths a snapshot has to hold.

use vstd::prelude::*;

use crate::paths;
use crate::persona_bundles;
use crate::schema::Config;
use crate::table::AliasTable;
use crate::text;

verus! {

/// Greatest number of characters of a personality file that is kept.
pub const MAX_FILE_CHARS: usize = 20_000;

/// The personality files that are loaded, in order.
pub const PERSONALITY_FILES: [&'static str; 8] = [
    "SOUL.md",
    "IDENTITY.md",
    "USER.md",
    "AGENTS.md",
    "TOOLS.md",
    "HEARTBEAT.md",
    "BOOTSTRAP.md",
    "MEMORY.md",
];

/// The personality files that are offered for editing. `BOOTSTRAP.md` is a
/// scaffold for the first run and not among them.
pub const EDITABLE_PERSONALITY_FILES: [&'static str; 7] = [
    "SOUL.md",
    "IDENTITY.md",
    "USER.md",
    "AGENTS.md",
    "TOOLS.md",
    "HEARTBEAT.md",
    "MEMORY.md",
];

/// What was found at a path.
pub struct FileEntry {
    /// The contents, where they could be read as text.
    pub text: Option<String>,
    /// Whether there is a file.
    pub is_file: bool,
}

/// What was found at a number of paths.
pub struct FileSnapshot {
    entries: AliasTable<FileEntry>,
}

impl FileSnapshot {
    /// The text read at a path, if any.
    pub closed spec fn text_at(self, path: Seq<char>) -> Option<Seq<char>> {
        match self.entries.lookup(path) {
            Some(entry) => text::optional(entry.text),
            None => None,
        }
    }

    /// Whether there is a file at a path.
    pub closed spec fn file_at(self, path: Seq<char>) -> bool {
        match self.entries.lookup(path) {
            Some(entry) => entry.is_file,
            None => false,
        }
    }

    /// A snapshot of no path.
    pub fn new() -> (r: Self)
        ensures
            forall|path: Seq<char>| #[trigger] r.text_at(path) is None,
            forall|path: Seq<char>| !#[trigger] r.file_at(path),
    {
        FileSnapshot { entries: AliasTable::new() }
    }

    /// Records what was found at a path.
    pub fn record(&mut self, path: String, entry: FileEntry)
        ensures
            final(self).text_at(path@) == text::optional(entry.text),
            final(self).file_at(path@) == entry.is_file,
            forall|other: Seq<char>|
                other != path@ ==> #[trigger] final(self).text_at(other) == old(self).text_at(other),
            forall|other: Seq<char>|
                other != path@ ==> #[trigger] final(self).file_at(other) == old(self).file_at(other),
    {
        self.entries.insert(path, entry);
    }

    /// The text read at a path, if any.
    pub fn read(&self, path: &str) -> (r: Option<&String>)
        ensures
            match r {
                Some(s) => self.text_at(path@) == Some(s@),
                None => self.text_at(path@) is None,
            },
    {
        match self.entries.get(path) {
            Some(entry) => entry.text.as_ref(),
            None => None,
        }
    }

    /// Whether there is a file at a path.
    pub fn is_file(&self, path: &str) -> (r: bool)
        ensures
            r == self.file_at(path@),
    {
        match self.entries.get(path) {
            Some(entry) => entry.is_file,
            None => false,
        }
    }
}

/// A personality file that was loaded.
#[derive(Debug, Clone)]
pub struct PersonalityFile {
    /// File name.
    pub name: String,
    /// Contents, possibly cut.
    pub content: String,
    /// Whether the contents were cut.
    pub truncated: bool,
    /// Full path.
    pub path: String,
}

/// A loaded file as texts.
pub struct LoadedFile {
    pub name: Seq<char>,
    pub content: Seq<char>,
    pub truncated: bool,
    pub path: Seq<char>,
}

impl View for PersonalityFile {
    type V = LoadedFile;

    open spec fn view(&self) -> LoadedFile {
        LoadedFile {
            name: self.name@,
            content: self.content@,
            truncated: self.truncated,
            path: self.path@,
        }
    }
}

/// The personality of an agent.
#[derive(Debug, Clone)]
pub struct PersonalityProfile {
    /// Files that were loaded.
    pub files: Vec<PersonalityFile>,
    /// Names of files that were looked for and not found.
    pub missing: Vec<String>,
}

/// A profile as texts.
#[verifier::ext_equal]
pub struct LoadedProfile {
    pub files: Seq<LoadedFile>,
    pub missing: Seq<Seq<char>>,
}

impl View for PersonalityProfile {
    type V = LoadedProfile;

    open spec fn view(&self) -> LoadedProfile {
        LoadedProfile {
            files: self.files@.map_values(|f: PersonalityFile| f@),
            missing: self.missing.deep_view(),
        }
    }
}

impl Default for PersonalityProfile {
    fn default() -> (r: Self)
        ensures
            r@ == (LoadedProfile { files: seq![], missing: seq![] }),
    {
        let r = PersonalityProfile { files: Vec::new(), missing: Vec::new() };
        assert(r@.files =~= seq![]);
        assert(r@.missing =~= seq![]);
        r
    }
}

/// The content of the first file of that name.
pub open spec fn content_of(files: Seq<LoadedFile>, name: Seq<char>) -> Option<Seq<char>>
    decreases files.len(),
{
    if files.len() == 0 {
        None
    } else if files[0].name == name {
        Some(files[0].content)
    } else {
        content_of(files.drop_first(), name)
    }
}

/// What follows the contents of a file in a prompt.
pub open spec fn section_end(truncated: bool) -> Seq<char> {
    if truncated {
        "\n\n[... truncated at "@ + text::decimal(MAX_FILE_CHARS as nat)
            + " chars — use `read` for full file]\n\n"@
    } else {
        "\n\n"@
    }
}

/// The prompt text of a list of files: each one under a heading of its name.
pub open spec fn rendered(files: Seq<LoadedFile>) -> Seq<char>
    decreases files.len(),
{
    if files.len() == 0 {
        seq![]
    } else {
        let f = files.last();
        rendered(files.drop_last()) + "### "@ + f.name + "\n\n"@ + f.content + section_end(
            f.truncated,
        )
    }
}

impl PersonalityProfile {
    /// The content of a file by name, if it was loaded.
    pub fn get(&self, name: &str) -> (r: Option<&str>)
        ensures
            match r {
                Some(s) => content_of(self@.files, name@) == Some(s@),
                None => content_of(self@.files, name@) is None,
            },
    {
        let ghost all = self@.files;
        let mut i: usize = 0;
        assert(all.skip(0) =~= all);
        while i < self.files.len()
            invariant
                i <= self.files.len(),
                all == self@.files,
                content_of(all, name@) == content_of(all.skip(i as int), name@),
            decreases self.files.len() - i,
        {
            let ghost rest = all.skip(i as int);
            assert(rest[0] == self.files[i as int]@);
            if text::same_text(&self.files[i].name, name) {
                return Some(self.files[i].content.as_str());
            }
            assert(rest.drop_first() =~= all.skip(i + 1));
            i += 1;
        }
        None
    }

    /// Whether no file was loaded.
    pub fn is_empty(&self) -> (r: bool)
        ensures
            r == (self@.files.len() == 0),
    {
        self.files.len() == 0
    }

    /// The prompt text of the loaded files.
    pub fn render(&self) -> (r: String)
        ensures
            r@ == rendered(self@.files),
    {
        let ghost all = self@.files;
        let mut out = String::new();
        let mut i: usize = 0;
        while i < self.files.len()
            invariant
                i <= self.files.len(),
                all == self@.files,
                out@ == rendered(all.take(i as int)),
            decreases self.files.len() - i,
        {
            let file = &self.files[i];
            let ghost next = all.take(i + 1);
            assert(next.drop_last() =~= all.take(i as int));
            assert(next.last() == file@);
            out.append("### ");
            out.append(&file.name);
            out.append("\n\n");
            out.append(&file.content);
            if file.truncated {
                let mut note = "\n\n[... truncated at ".to_owned();
                let cap = text::to_decimal(MAX_FILE_CHARS as u64);
                note.append(&cap);
                note.append(" chars — use `read` for full file]\n\n");
                out.append(&note);
            } else {
                out.append("\n\n");
            }
            i += 1;
        }
        assert(all.take(all.len() as int) =~= all);
        out
    }
}

/// Why a persona bundle cannot be loaded.
#[derive(Debug)]
pub enum PersonaLoadError {
    /// The bundle declares a format that is not supported.
    UnsupportedFormat { format: String, directory: String },
}

impl PersonaLoadError {
    /// The explanation of the error.
    pub open spec fn message_text(self) -> Seq<char> {
        match self {
            PersonaLoadError::UnsupportedFormat { format, directory } => "persona bundle at '"@
                + directory@ + "' uses unsupported format '"@ + format@
                + "'; only 'openclaw' (markdown) bundles are supported"@,
        }
    }

    /// The explanation of the error.
    pub fn message(&self) -> (r: String)
        ensures
            r@ == self.message_text(),
    {
        match self {
            PersonaLoadError::UnsupportedFormat { format, directory } => {
                let mut out = "persona bundle at '".to_owned();
                out.append(directory);
                out.append("' uses unsupported format '");
                out.append(format);
                out.append("'; only 'openclaw' (markdown) bundles are supported");
                out
            },
        }
    }
}

/// A persona bundle that is ready to be laid under a workspace.
#[derive(Debug, Clone)]
pub struct ResolvedPersonaBundle {
    /// Directory of the bundle's files.
    pub directory: String,
    /// File names to take; empty means every one.
    pub includes: Vec<String>,
    /// File names never to take.
    pub excludes: Vec<String>,
}

/// A bundle as texts.
#[verifier::ext_equal]
pub struct BundleLayer {
    pub directory: Seq<char>,
    pub includes: Seq<Seq<char>>,
    pub excludes: Seq<Seq<char>>,
}

impl BundleLayer {
    /// Whether the bundle contributes a file. An exclusion wins over an
    /// inclusion, and an empty inclusion list admits every file.
    pub open spec fn admits(self, filename: Seq<char>) -> bool {
        &&& !self.excludes.contains(filename)
        &&& self.includes.len() == 0 || self.includes.contains(filename)
    }
}

impl View for ResolvedPersonaBundle {
    type V = BundleLayer;

    open spec fn view(&self) -> BundleLayer {
        BundleLayer {
            directory: self.directory@,
            includes: self.includes.deep_view(),
            excludes: self.excludes.deep_view(),
        }
    }
}

/// The views of a list of bundles.
pub open spec fn layers(bundles: Seq<ResolvedPersonaBundle>) -> Seq<BundleLayer> {
    bundles.map_values(|b: ResolvedPersonaBundle| b@)
}

/// Whether a declared format can be loaded.
pub open spec fn supported(format: Seq<char>) -> bool {
    format == ""@ || format == "openclaw"@
}

impl ResolvedPersonaBundle {
    /// A bundle of the given parts, if its declared format can be loaded.
    pub fn new(
        directory: String,
        format: &str,
        includes: Vec<String>,
        excludes: Vec<String>,
    ) -> (r: Result<Self, PersonaLoadError>)
        ensures
            match r {
                Ok(bundle) => supported(format@) && bundle == (ResolvedPersonaBundle {
                    directory,
                    includes,
                    excludes,
                }),
                Err(PersonaLoadError::UnsupportedFormat { format: f, directory: d }) => !supported(
                    format@,
                ) && f@ == format@ && d == directory,
            },
    {
        if text::same_text(format, "") || text::same_text(format, "openclaw") {
            Ok(ResolvedPersonaBundle { directory, includes, excludes })
        } else {
            Err(PersonaLoadError::UnsupportedFormat { format: format.to_owned(), directory })
        }
    }

    /// Whether the bundle contributes a file.
    pub fn admits(&self, filename: &str) -> (r: bool)
        ensures
            r == self@.admits(filename@),
    {
        if text::listed(&self.excludes, filename) {
            return false;
        }
        self.includes.len() == 0 || text::listed(&self.includes, filename)
    }
}

/// The path and trimmed contents of a file in a directory. A file that is
/// absent or blank counts as not provided.
pub open spec fn layer_file(files: FileSnapshot, dir: Seq<char>, filename: Seq<char>) -> Option<
    (Seq<char>, Seq<char>),
> {
    let path = paths::joined(dir, filename);
    match files.text_at(path) {
        Some(raw) => if text::trimmed(raw).len() > 0 {
            Some((path, text::trimmed(raw)))
        } else {
            None
        },
        None => None,
    }
}

/// The file that the bundles provide: the last bundle that admits and provides
/// it wins.
pub open spec fn bundle_file(
    files: FileSnapshot,
    filename: Seq<char>,
    bundles: Seq<BundleLayer>,
) -> Option<(Seq<char>, Seq<char>)>
    decreases bundles.len(),
{
    if bundles.len() == 0 {
        None
    } else {
        let top = bundles.last();
        let hit = layer_file(files, top.directory, filename);
        if top.admits(filename) && hit is Some {
            hit
        } else {
            bundle_file(files, filename, bundles.drop_last())
        }
    }
}

/// The file that wins: the workspace's own, else what the bundles provide.
pub open spec fn overlaid(
    files: FileSnapshot,
    filename: Seq<char>,
    bundles: Seq<BundleLayer>,
    workspace_dir: Seq<char>,
) -> Option<(Seq<char>, Seq<char>)> {
    match layer_file(files, workspace_dir, filename) {
        Some(hit) => Some(hit),
        None => bundle_file(files, filename, bundles),
    }
}

/// The first `MAX_FILE_CHARS` characters of a text, and whether more followed.
pub open spec fn capped(content: Seq<char>) -> (Seq<char>, bool) {
    if content.len() <= MAX_FILE_CHARS {
        (content, false)
    } else {
        (content.take(MAX_FILE_CHARS as int), true)
    }
}

/// The loaded form of a found file.
pub open spec fn loaded(filename: Seq<char>, found: Option<(Seq<char>, Seq<char>)>) -> Option<
    LoadedFile,
> {
    match found {
        Some((path, content)) => Some(
            LoadedFile {
                name: filename,
                content: capped(content).0,
                truncated: capped(content).1,
                path,
            },
        ),
        None => None,
    }
}

/// Every name, in order: its loaded file where there is one, else among the
/// missing.
pub open spec fn collected(
    names: Seq<Seq<char>>,
    load: spec_fn(Seq<char>) -> Option<LoadedFile>,
) -> LoadedProfile
    decreases names.len(),
{
    if names.len() == 0 {
        LoadedProfile { files: seq![], missing: seq![] }
    } else {
        let before = collected(names.drop_last(), load);
        match load(names.last()) {
            Some(file) => LoadedProfile {
                files: before.files.push(file),
                missing: before.missing,
            },
            None => LoadedProfile {
                files: before.files,
                missing: before.missing.push(names.last()),
            },
        }
    }
}

/// The texts of a list of names.
pub open spec fn names_of(names: Seq<&str>) -> Seq<Seq<char>> {
    names.map_values(|n: &str| n@)
}

/// The profile that a workspace alone gives.
pub open spec fn workspace_profile(
    files: FileSnapshot,
    workspace_dir: Seq<char>,
    names: Seq<Seq<char>>,
) -> LoadedProfile {
    collected(
        names,
        |name: Seq<char>| loaded(name, layer_file(files, workspace_dir, name)),
    )
}

/// The profile that a workspace over bundles gives.
pub open spec fn overlaid_profile(
    files: FileSnapshot,
    bundles: Seq<BundleLayer>,
    workspace_dir: Seq<char>,
    names: Seq<Seq<char>>,
) -> LoadedProfile {
    collected(
        names,
        |name: Seq<char>| loaded(name, overlaid(files, name, bundles, workspace_dir)),
    )
}

/// Cuts a text after `MAX_FILE_CHARS` characters.
pub fn truncate_content(content: &str) -> (r: (String, bool))
    ensures
        (r.0@, r.1) == capped(content@),
{
    if content.unicode_len() <= MAX_FILE_CHARS {
        (content.to_owned(), false)
    } else {
        assert(content@.subrange(0, MAX_FILE_CHARS as int) =~= content@.take(
            MAX_FILE_CHARS as int,
        ));
        (content.substring_char(0, MAX_FILE_CHARS).to_owned(), true)
    }
}

/// The path and trimmed contents of a file in a directory, unless it is absent
/// or blank.
pub fn read_trimmed(files: &FileSnapshot, dir: &str, filename: &str) -> (r: Option<(String, String)>)
    ensures
        match r {
            Some((path, content)) => layer_file(*files, dir@, filename@) == Some((path@, content@)),
            None => layer_file(*files, dir@, filename@) is None,
        },
{
    let path = paths::join(dir, filename);
    match files.read(&path) {
        Some(raw) => {
            let trimmed = text::trim(raw);
            if trimmed.unicode_len() == 0 {
                None
            } else {
                Some((path, trimmed.to_owned()))
            }
        },
        None => None,
    }
}

/// A file of a directory, cut to `MAX_FILE_CHARS`.
pub fn read_personality_file(files: &FileSnapshot, dir: &str, filename: &str) -> (r: Option<
    PersonalityFile,
>)
    ensures
        match r {
            Some(file) => loaded(filename@, layer_file(*files, dir@, filename@)) == Some(file@),
            None => layer_file(*files, dir@, filename@) is None,
        },
{
    match read_trimmed(files, dir, filename) {
        Some((path, trimmed)) => {
            let (content, truncated) = truncate_content(&trimmed);
            Some(PersonalityFile { name: filename.to_owned(), content, truncated, path })
        },
        None => None,
    }
}

/// The file that wins among the workspace and the bundles: its path and its
/// trimmed contents, not cut.
pub fn resolve_overlaid_file(
    files: &FileSnapshot,
    filename: &str,
    bundles: &[ResolvedPersonaBundle],
    workspace_dir: &str,
) -> (r: Option<(String, String)>)
    ensures
        match r {
            Some((path, content)) => overlaid(*files, filename@, layers(bundles@), workspace_dir@)
                == Some((path@, content@)),
            None => overlaid(*files, filename@, layers(bundles@), workspace_dir@) is None,
        },
{
    if let Some(hit) = read_trimmed(files, workspace_dir, filename) {
        return Some(hit);
    }
    let ghost all = layers(bundles@);
    let mut i: usize = bundles.len();
    assert(all.take(i as int) =~= all);
    while i > 0
        invariant
            i <= bundles.len(),
            all == layers(bundles@),
            layer_file(*files, workspace_dir@, filename@) is None,
            bundle_file(*files, filename@, all) == bundle_file(
                *files,
                filename@,
                all.take(i as int),
            ),
        decreases i,
    {
        let ghost seen = all.take(i as int);
        i -= 1;
        let bundle = &bundles[i];
        assert(seen.last() == bundle@);
        assert(seen.drop_last() =~= all.take(i as int));
        if bundle.admits(filename) {
            if let Some(hit) = read_trimmed(files, &bundle.directory, filename) {
                return Some(hit);
            }
        }
    }
    None
}

/// The winning file, cut to `MAX_FILE_CHARS`.
pub fn load_overlaid_file(
    files: &FileSnapshot,
    filename: &str,
    bundles: &[ResolvedPersonaBundle],
    workspace_dir: &str,
) -> (r: Option<PersonalityFile>)
    ensures
        match r {
            Some(file) => loaded(
                filename@,
                overlaid(*files, filename@, layers(bundles@), workspace_dir@),
            ) == Some(file@),
            None => overlaid(*files, filename@, layers(bundles@), workspace_dir@) is None,
        },
{
    match resolve_overlaid_file(files, filename, bundles, workspace_dir) {
        Some((path, trimmed)) => {
            let (content, truncated) = truncate_content(&trimmed);
            Some(PersonalityFile { name: filename.to_owned(), content, truncated, path })
        },
        None => None,
    }
}

/// Whether there is a file of that name, blank or not, in the workspace or in a
/// bundle that admits it.
pub open spec fn present_somewhere(
    files: FileSnapshot,
    filename: Seq<char>,
    bundles: Seq<BundleLayer>,
    workspace_dir: Seq<char>,
) -> bool {
    ||| files.file_at(paths::joined(workspace_dir, filename))
    ||| exists|i: int|
        0 <= i < bundles.len() && (#[trigger] bundles[i]).admits(filename) && files.file_at(
            paths::joined(bundles[i].directory, filename),
        )
}

/// Whether there is a file of that name, blank or not, in the workspace or in a
/// bundle that admits it.
pub fn file_present_in_any_layer(
    files: &FileSnapshot,
    filename: &str,
    bundles: &[ResolvedPersonaBundle],
    workspace_dir: &str,
) -> (r: bool)
    ensures
        r == present_somewhere(*files, filename@, layers(bundles@), workspace_dir@),
{
    let own = paths::join(workspace_dir, filename);
    if files.is_file(&own) {
        return true;
    }
    let ghost all = layers(bundles@);
    let mut i: usize = 0;
    while i < bundles.len()
        invariant
            i <= bundles.len(),
            all == layers(bundles@),
            forall|k: int|
                0 <= k < i ==> !((#[trigger] all[k]).admits(filename@) && files.file_at(
                    paths::joined(all[k].directory, filename@),
                )),
        decreases bundles.len() - i,
    {
        let bundle = &bundles[i];
        assert(all[i as int] == bundle@);
        if bundle.admits(filename) {
            let path = paths::join(&bundle.directory, filename);
            if files.is_file(&path) {
                return true;
            }
        }
        i += 1;
    }
    false
}

/// Loads the named files of a workspace.
pub fn load_personality_files(
    files: &FileSnapshot,
    workspace_dir: &str,
    filenames: &[&str],
) -> (r: PersonalityProfile)
    ensures
        r@ == workspace_profile(*files, workspace_dir@, names_of(filenames@)),
{
    let ghost all = names_of(filenames@);
    let ghost load = |name: Seq<char>| loaded(name, layer_file(*files, workspace_dir@, name));
    let mut profile = PersonalityProfile::default();
    let mut i: usize = 0;
    assert(all.take(0) =~= seq![]);
    while i < filenames.len()
        invariant
            i <= filenames.len(),
            all == names_of(filenames@),
            load == (|name: Seq<char>| loaded(name, layer_file(*files, workspace_dir@, name))),
            profile@ == collected(all.take(i as int), load),
        decreases filenames.len() - i,
    {
        let filename: &str = filenames[i];
        let ghost next = all.take(i + 1);
        let ghost before = profile@;
        assert(next.drop_last() =~= all.take(i as int));
        assert(next.last() == filename@);
        match read_personality_file(files, workspace_dir, filename) {
            Some(file) => {
                profile.files.push(file);
                assert(profile@.files =~= before.files.push(file@));
            },
            None => {
                profile.missing.push(filename.to_owned());
                assert(profile@.missing =~= before.missing.push(filename@));
            },
        }
        assert(profile@ =~= collected(next, load));
        i += 1;
    }
    assert(all.take(all.len() as int) =~= all);
    profile
}

/// Loads the personality files of a workspace.
pub fn load_personality(files: &FileSnapshot, workspace_dir: &str) -> (r: PersonalityProfile)
    ensures
        r@ == workspace_profile(*files, workspace_dir@, names_of(PERSONALITY_FILES@)),
{
    load_personality_files(files, workspace_dir, PERSONALITY_FILES.as_slice())
}

/// Loads the personality files of a workspace over persona bundles.
pub fn load_personality_with_bundles(
    files: &FileSnapshot,
    bundles: &[ResolvedPersonaBundle],
    workspace_dir: &str,
) -> (r: PersonalityProfile)
    ensures
        r@ == overlaid_profile(
            *files,
            layers(bundles@),
            workspace_dir@,
            names_of(PERSONALITY_FILES@),
        ),
{
    let ghost all = names_of(PERSONALITY_FILES@);
    let ghost load = |name: Seq<char>|
        loaded(name, overlaid(*files, name, layers(bundles@), workspace_dir@));
    let filenames: &[&str] = PERSONALITY_FILES.as_slice();
    let mut profile = PersonalityProfile::default();
    let mut i: usize = 0;
    assert(all.take(0) =~= seq![]);
    while i < filenames.len()
        invariant
            i <= filenames.len(),
            filenames@ == PERSONALITY_FILES@,
            all == names_of(filenames@),
            load == (|name: Seq<char>|
                loaded(name, overlaid(*files, name, layers(bundles@), workspace_dir@))),
            profile@ == collected(all.take(i as int), load),
        decreases filenames.len() - i,
    {
        let filename: &str = filenames[i];
        let ghost next = all.take(i + 1);
        let ghost before = profile@;
        assert(next.drop_last() =~= all.take(i as int));
        assert(next.last() == filename@);
        match load_overlaid_file(files, filename, bundles, workspace_dir) {
            Some(file) => {
                profile.files.push(file);
                assert(profile@.files =~= before.files.push(file@));
            },
            None => {
                profile.missing.push(filename.to_owned());
                assert(profile@.missing =~= before.missing.push(filename@));
            },
        }
        assert(profile@ =~= collected(next, load));
        i += 1;
    }
    assert(all.take(all.len() as int) =~= all);
    profile
}

/// The bundle that an alias in an agent's list stands for. A blank alias, an
/// alias that is not configured and a format that is not supported stand for
/// none.
pub open spec fn bundle_for(config: Config, alias: Seq<char>) -> Option<BundleLayer> {
    let name = text::trimmed(alias);
    if name.len() == 0 {
        None
    } else {
        match config.persona_bundles.lookup(name) {
            Some(bundle) => if supported(bundle.format@) {
                Some(
                    BundleLayer {
                        directory: persona_bundles::directory_for(
                            text::optional(bundle.directory),
                            config.install_root@,
                            name,
                        ),
                        includes: bundle.includes.deep_view(),
                        excludes: bundle.excludes.deep_view(),
                    },
                )
            } else {
                None
            },
            None => None,
        }
    }
}

/// The bundles that a list of aliases stands for, in order.
pub open spec fn bundles_for(config: Config, aliases: Seq<Seq<char>>) -> Seq<BundleLayer>
    decreases aliases.len(),
{
    if aliases.len() == 0 {
        seq![]
    } else {
        let before = bundles_for(config, aliases.drop_last());
        match bundle_for(config, aliases.last()) {
            Some(bundle) => before.push(bundle),
            None => before,
        }
    }
}

/// The bundles of an agent, lowest layer first; none for an unknown agent.
pub open spec fn agent_bundles(config: Config, agent_alias: Seq<char>) -> Seq<BundleLayer> {
    match config.agents.lookup(agent_alias) {
        Some(agent) => bundles_for(config, agent.persona_bundles.deep_view()),
        None => seq![],
    }
}

/// The bundle that an alias in an agent's list stands for, if any.
fn resolve_agent_bundle(config: &Config, alias: &str) -> (r: Option<ResolvedPersonaBundle>)
    ensures
        match r {
            Some(bundle) => bundle_for(*config, alias@) == Some(bundle@),
            None => bundle_for(*config, alias@) is None,
        },
{
    let name = text::trim(alias);
    if name.unicode_len() == 0 {
        return None;
    }
    let bundle_cfg = match config.persona_bundles.get(name) {
        Some(bundle_cfg) => bundle_cfg,
        None => {
            return None;
        },
    };
    let directory = match persona_bundles::resolve_directory(config, &config.install_root, name) {
        Ok(directory) => directory,
        Err(_) => {
            return None;
        },
    };
    let includes = text::copied(&bundle_cfg.includes);
    let excludes = text::copied(&bundle_cfg.excludes);
    match ResolvedPersonaBundle::new(directory, &bundle_cfg.format, includes, excludes) {
        Ok(bundle) => Some(bundle),
        Err(_) => None,
    }
}

/// The persona bundles of an agent, in the order of its list. A bundle that
/// cannot be resolved is left out, so that it never breaks a turn.
pub fn resolve_agent_persona_bundles(config: &Config, agent_alias: &str) -> (r: Vec<
    ResolvedPersonaBundle,
>)
    ensures
        layers(r@) == agent_bundles(*config, agent_alias@),
{
    let mut resolved: Vec<ResolvedPersonaBundle> = Vec::new();
    let agent = match config.agents.get(agent_alias) {
        Some(agent) => agent,
        None => {
            assert(layers(resolved@) =~= seq![]);
            return resolved;
        },
    };
    let ghost all = agent.persona_bundles.deep_view();
    let mut i: usize = 0;
    assert(layers(resolved@) =~= bundles_for(*config, all.take(0)));
    while i < agent.persona_bundles.len()
        invariant
            i <= agent.persona_bundles.len(),
            all == agent.persona_bundles.deep_view(),
            layers(resolved@) == bundles_for(*config, all.take(i as int)),
        decreases agent.persona_bundles.len() - i,
    {
        let ghost next = all.take(i + 1);
        let ghost before = layers(resolved@);
        assert(next.drop_last() =~= all.take(i as int));
        assert(next.last() == agent.persona_bundles[i as int]@);
        if let Some(bundle) = resolve_agent_bundle(config, &agent.persona_bundles[i]) {
            resolved.push(bundle);
            assert(layers(resolved@) =~= before.push(bundle@));
        }
        i += 1;
    }
    assert(all.take(all.len() as int) =~= all);
    resolved
}

/// The paths of a file in the bundles that admit it, last bundle first.
pub open spec fn bundle_paths(filename: Seq<char>, bundles: Seq<BundleLayer>) -> Seq<Seq<char>>
    decreases bundles.len(),
{
    if bundles.len() == 0 {
        seq![]
    } else {
        let below = bundle_paths(filename, bundles.drop_last());
        let top = bundles.last();
        if top.admits(filename) {
            seq![paths::joined(top.directory, filename)] + below
        } else {
            below
        }
    }
}

/// The paths at which a file is looked for, in order of precedence.
pub open spec fn lookup_paths(
    filename: Seq<char>,
    bundles: Seq<BundleLayer>,
    workspace_dir: Seq<char>,
) -> Seq<Seq<char>> {
    seq![paths::joined(workspace_dir, filename)] + bundle_paths(filename, bundles)
}

/// The paths at which a file is looked for, in order of precedence.
pub fn overlay_paths(
    filename: &str,
    bundles: &[ResolvedPersonaBundle],
    workspace_dir: &str,
) -> (r: Vec<String>)
    ensures
        r.deep_view() == lookup_paths(filename@, layers(bundles@), workspace_dir@),
{
    let ghost all = layers(bundles@);
    let ghost whole = lookup_paths(filename@, all, workspace_dir@);
    let mut out: Vec<String> = Vec::new();
    out.push(paths::join(workspace_dir, filename));
    assert(out.deep_view() =~= seq![paths::joined(workspace_dir@, filename@)]);
    let mut i: usize = bundles.len();
    assert(all.take(i as int) =~= all);
    while i > 0
        invariant
            i <= bundles.len(),
            all == layers(bundles@),
            whole == lookup_paths(filename@, all, workspace_dir@),
            whole == out.deep_view() + bundle_paths(filename@, all.take(i as int)),
        decreases i,
    {
        let ghost seen = all.take(i as int);
        let ghost before = out.deep_view();
        i -= 1;
        let bundle = &bundles[i];
        assert(seen.last() == bundle@);
        assert(seen.drop_last() =~= all.take(i as int));
        if bundle.admits(filename) {
            out.push(paths::join(&bundle.directory, filename));
            assert(out.deep_view() =~= before.push(paths::joined(bundle.directory@, filename@)));
            assert(whole =~= out.deep_view() + bundle_paths(filename@, all.take(i as int)));
        }
    }
    assert(whole =~= out.deep_view());
    out
}

proof fn lemma_bundle_file_reads(
    a: FileSnapshot,
    b: FileSnapshot,
    filename: Seq<char>,
    bundles: Seq<BundleLayer>,
)
    requires
        forall|i: int|
            0 <= i < bundle_paths(filename, bundles).len() ==> a.text_at(
                #[trigger] bundle_paths(filename, bundles)[i],
            ) == b.text_at(bundle_paths(filename, bundles)[i]),
    ensures
        bundle_file(a, filename, bundles) == bundle_file(b, filename, bundles),
    decreases bundles.len(),
{
    if bundles.len() > 0 {
        let whole = bundle_paths(filename, bundles);
        let below = bundle_paths(filename, bundles.drop_last());
        let top = bundles.last();
        let shift: int = if top.admits(filename) {
            1
        } else {
            0
        };
        assert forall|i: int| 0 <= i < below.len() implies a.text_at(#[trigger] below[i])
            == b.text_at(below[i]) by {
            assert(whole[i + shift] == below[i]);
        }
        lemma_bundle_file_reads(a, b, filename, bundles.drop_last());
        if top.admits(filename) {
            assert(whole[0] == paths::joined(top.directory, filename));
        }
    }
}

/// What wins depends on the files at `lookup_paths` alone.
pub proof fn overlay_reads_only_lookup_paths(
    a: FileSnapshot,
    b: FileSnapshot,
    filename: Seq<char>,
    bundles: Seq<BundleLayer>,
    workspace_dir: Seq<char>,
)
    requires
        forall|i: int|
            0 <= i < lookup_paths(filename, bundles, workspace_dir).len() ==> a.text_at(
                #[trigger] lookup_paths(filename, bundles, workspace_dir)[i],
            ) == b.text_at(lookup_paths(filename, bundles, workspace_dir)[i]),
    ensures
        overlaid(a, filename, bundles, workspace_dir) == overlaid(
            b,
            filename,
            bundles,
            workspace_dir,
        ),
{
    let whole = lookup_paths(filename, bundles, workspace_dir);
    let below = bundle_paths(filename, bundles);
    assert(whole[0] == paths::joined(workspace_dir, filename));
    assert forall|i: int| 0 <= i < below.len() implies a.text_at(#[trigger] below[i]) == b.text_at(
        below[i],
    ) by {
        assert(whole[i + 1] == below[i]);
    }
    lemma_bundle_file_reads(a, b, filename, bundles);
}

proof fn lemma_same_load(
    names: Seq<Seq<char>>,
    f: spec_fn(Seq<char>) -> Option<LoadedFile>,
    g: spec_fn(Seq<char>) -> Option<LoadedFile>,
)
    requires
        forall|i: int| 0 <= i < names.len() ==> f(#[trigger] names[i]) == g(names[i]),
    ensures
        collected(names, f) == collected(names, g),
    decreases names.len(),
{
    if names.len() > 0 {
        let front = names.drop_last();
        assert forall|i: int| 0 <= i < front.len() implies f(#[trigger] front[i]) == g(front[i]) by {
            assert(front[i] == names[i]);
        }
        lemma_same_load(front, f, g);
        assert(f(names[names.len() - 1]) == g(names[names.len() - 1]));
    }
}

/// Without bundles the overlay is the workspace.
pub proof fn no_bundles_is_workspace(
    files: FileSnapshot,
    workspace_dir: Seq<char>,
    names: Seq<Seq<char>>,
)
    ensures
        overlaid_profile(files, seq![], workspace_dir, names) == workspace_profile(
            files,
            workspace_dir,
            names,
        ),
{
    let f = |name: Seq<char>| loaded(name, overlaid(files, name, seq![], workspace_dir));
    let g = |name: Seq<char>| loaded(name, layer_file(files, workspace_dir, name));
    assert forall|i: int| 0 <= i < names.len() implies f(#[trigger] names[i]) == g(names[i]) by {
        match layer_file(files, workspace_dir, names[i]) {
            Some(hit) => {},
            None => {
                assert(bundle_file(files, names[i], seq![]) is None);
            },
        }
    }
    lemma_same_load(names, f, g);
}

/// A file that the workspace provides wins over every bundle.
pub proof fn workspace_wins(
    files: FileSnapshot,
    filename: Seq<char>,
    bundles: Seq<BundleLayer>,
    workspace_dir: Seq<char>,
)
    requires
        layer_file(files, workspace_dir, filename) is Some,
    ensures
        overlaid(files, filename, bundles, workspace_dir) == layer_file(
            files,
            workspace_dir,
            filename,
        ),
{
}

/// Among the bundles the latest one that admits and provides the file wins.
pub proof fn later_bundle_wins(
    files: FileSnapshot,
    filename: Seq<char>,
    bundles: Seq<BundleLayer>,
    winner: int,
)
    requires
        0 <= winner < bundles.len(),
        bundles[winner].admits(filename),
        layer_file(files, bundles[winner].directory, filename) is Some,
        forall|i: int|
            winner < i < bundles.len() ==> !((#[trigger] bundles[i]).admits(filename)
                && layer_file(files, bundles[i].directory, filename) is Some),
    ensures
        bundle_file(files, filename, bundles) == layer_file(
            files,
            bundles[winner].directory,
            filename,
        ),
    decreases bundles.len(),
{
    if winner < bundles.len() - 1 {
        assert(bundles[bundles.len() - 1] == bundles.last());
        let front = bundles.drop_last();
        assert forall|i: int| winner < i < front.len() implies !((
        #[trigger] front[i]).admits(filename) && layer_file(files, front[i].directory, filename) is Some)
        by {
            assert(front[i] == bundles[i]);
        }
        later_bundle_wins(files, filename, front, winner);
    }
}

/// A bundle never provides a file that it excludes.
pub proof fn exclusion_wins(bundle: BundleLayer, filename: Seq<char>)
    requires
        bundle.excludes.contains(filename),
    ensures
        !bundle.admits(filename),
{
}

/// A snapshot in which text is read only from files.
pub open spec fn reads_only_files(files: FileSnapshot) -> bool {
    forall|path: Seq<char>| (#[trigger] files.text_at(path)) is Some ==> files.file_at(path)
}

proof fn lemma_bundle_file_present(
    files: FileSnapshot,
    filename: Seq<char>,
    bundles: Seq<BundleLayer>,
)
    requires
        reads_only_files(files),
        bundle_file(files, filename, bundles) is Some,
    ensures
        exists|i: int|
            0 <= i < bundles.len() && (#[trigger] bundles[i]).admits(filename) && files.file_at(
                paths::joined(bundles[i].directory, filename),
            ),
    decreases bundles.len(),
{
    let top = bundles.last();
    assert(bundles[bundles.len() - 1] == top);
    if top.admits(filename) && layer_file(files, top.directory, filename) is Some {
        assert(files.text_at(paths::joined(top.directory, filename)) is Some);
    } else {
        let front = bundles.drop_last();
        lemma_bundle_file_present(files, filename, front);
        let i = choose|i: int|
            0 <= i < front.len() && (#[trigger] front[i]).admits(filename) && files.file_at(
                paths::joined(front[i].directory, filename),
            );
        assert(bundles[i] == front[i]);
    }
}

/// A file that some layer provides is present in some layer.
pub proof fn provided_is_present(
    files: FileSnapshot,
    filename: Seq<char>,
    bundles: Seq<BundleLayer>,
    workspace_dir: Seq<char>,
)
    requires
        reads_only_files(files),
        overlaid(files, filename, bundles, workspace_dir) is Some,
    ensures
        present_somewhere(files, filename, bundles, workspace_dir),
{
    match layer_file(files, workspace_dir, filename) {
        Some(hit) => {
            assert(files.text_at(paths::joined(workspace_dir, filename)) is Some);
        },
        None => {
            lemma_bundle_file_present(files, filename, bundles);
        },
    }
}

/// What is kept of a text is its beginning, never longer than the cap, and the
/// whole of it exactly when nothing was cut.
pub proof fn cap_keeps_beginning(content: Seq<char>)
    ensures
        capped(content).0.is_prefix_of(content),
        capped(content).0.len() <= MAX_FILE_CHARS,
        capped(content).1 == (content.len() > MAX_FILE_CHARS),
        !capped(content).1 ==> capped(content).0 == content,
        capped(content).1 ==> capped(content).0.len() == MAX_FILE_CHARS,
{
    let kept = capped(content).0;
    assert(kept =~= content.subrange(0, kept.len() as int));
}

/// Whether a file of that name is in a list.
pub open spec fn has_file(files: Seq<LoadedFile>, name: Seq<char>) -> bool {
    exists|i: int| 0 <= i < files.len() && (#[trigger] files[i]).name == name
}

/// Every name that is looked for is either loaded or missing, never both, and
/// nothing else is. `load` gives a loaded file the name it was asked for.
pub proof fn loaded_or_missing(
    names: Seq<Seq<char>>,
    load: spec_fn(Seq<char>) -> Option<LoadedFile>,
    name: Seq<char>,
)
    requires
        forall|n: Seq<char>| (#[trigger] load(n)) is Some ==> load(n)->0.name == n,
    ensures
        has_file(collected(names, load).files, name) == (names.contains(name) && load(name) is Some),
        collected(names, load).missing.contains(name) == (names.contains(name) && load(
            name,
        ) is None),
    decreases names.len(),
{
    let all = collected(names, load);
    if names.len() > 0 {
        let front = names.drop_last();
        let last = names.last();
        let before = collected(front, load);
        loaded_or_missing(front, load, name);
        assert(names =~= front.push(last));
        assert(names.contains(name) == (front.contains(name) || last == name)) by {
            if front.contains(name) {
                let i = front.index_of(name);
                assert(names[i] == name);
            }
            if last == name {
                assert(names[names.len() - 1] == name);
            }
            if names.contains(name) && last != name {
                let i = names.index_of(name);
                assert(front[i] == name);
            }
        }
        match load(last) {
            Some(file) => {
                if has_file(before.files, name) {
                    let i = choose|i: int|
                        0 <= i < before.files.len() && (#[trigger] before.files[i]).name == name;
                    assert(all.files[i].name == name);
                }
                if last == name {
                    assert(all.files[all.files.len() - 1].name == name);
                }
                if has_file(all.files, name) && last != name {
                    let i = choose|i: int|
                        0 <= i < all.files.len() && (#[trigger] all.files[i]).name == name;
                    assert(before.files[i].name == name);
                }
            },
            None => {
                if before.missing.contains(name) {
                    let i = before.missing.index_of(name);
                    assert(all.missing[i] == name);
                }
                if last == name {
                    assert(all.missing[all.missing.len() - 1] == name);
                }
                if all.missing.contains(name) && last != name {
                    let i = all.missing.index_of(name);
                    assert(before.missing[i] == name);
                }
            },
        }
    }
}

/// A workspace over bundles accounts for every name: loaded where some layer
/// provides it, missing otherwise.
pub proof fn overlay_accounts_for_every_name(
    files: FileSnapshot,
    bundles: Seq<BundleLayer>,
    workspace_dir: Seq<char>,
    names: Seq<Seq<char>>,
    name: Seq<char>,
)
    requires
        names.contains(name),
    ensures
        has_file(overlaid_profile(files, bundles, workspace_dir, names).files, name) == (overlaid(
            files,
            name,
            bundles,
            workspace_dir,
        ) is Some),
        overlaid_profile(files, bundles, workspace_dir, names).missing.contains(name) == (overlaid(
            files,
            name,
            bundles,
            workspace_dir,
        ) is None),
{
    let load = |n: Seq<char>| loaded(n, overlaid(files, n, bundles, workspace_dir));
    loaded_or_missing(names, load, name);
}

proof fn lemma_content_of_push(files: Seq<LoadedFile>, file: LoadedFile, name: Seq<char>)
    ensures
        content_of(files.push(file), name) == (match content_of(files, name) {
            Some(content) => Some(content),
            None => if file.name == name {
                Some(file.content)
            } else {
                None
            },
        }),
    decreases files.len(),
{
    let all = files.push(file);
    if files.len() == 0 {
        assert(all.drop_first() =~= seq![]);
        assert(content_of(all.drop_first(), name) is None);
    } else {
        assert(all.drop_first() =~= files.drop_first().push(file));
        lemma_content_of_push(files.drop_first(), file, name);
    }
}

proof fn lemma_content_of_collected(
    names: Seq<Seq<char>>,
    load: spec_fn(Seq<char>) -> Option<LoadedFile>,
    name: Seq<char>,
)
    requires
        forall|n: Seq<char>| (#[trigger] load(n)) is Some ==> load(n)->0.name == n,
    ensures
        content_of(collected(names, load).files, name) == (if names.contains(name) {
            match load(name) {
                Some(file) => Some(file.content),
                None => None,
            }
        } else {
            None
        }),
    decreases names.len(),
{
    if names.len() > 0 {
        let front = names.drop_last();
        let last = names.last();
        lemma_content_of_collected(front, load, name);
        assert(names.contains(name) == (front.contains(name) || last == name)) by {
            if front.contains(name) {
                let i = front.index_of(name);
                assert(names[i] == name);
            }
            if last == name {
                assert(names[names.len() - 1] == name);
            }
            if names.contains(name) && last != name {
                let i = names.index_of(name);
                assert(front[i] == name);
            }
        }
        if let Some(file) = load(last) {
            lemma_content_of_push(collected(front, load).files, file, name);
        }
    }
}

/// Asking a profile for a file gives the contents that won, cut to the cap.
pub proof fn profile_gives_winning_content(
    files: FileSnapshot,
    bundles: Seq<BundleLayer>,
    workspace_dir: Seq<char>,
    names: Seq<Seq<char>>,
    name: Seq<char>,
)
    requires
        names.contains(name),
    ensures
        content_of(overlaid_profile(files, bundles, workspace_dir, names).files, name) == (
        match overlaid(files, name, bundles, workspace_dir) {
            Some((path, content)) => Some(capped(content).0),
            None => None,
        }),
{
    let load = |n: Seq<char>| loaded(n, overlaid(files, n, bundles, workspace_dir));
    lemma_content_of_collected(names, load, name);
}

/// A file of whitespace alone counts as not provided, so that a lower layer can
/// still supply it.
pub proof fn blank_file_is_not_provided(
    files: FileSnapshot,
    dir: Seq<char>,
    filename: Seq<char>,
    content: Seq<char>,
)
    requires
        files.text_at(paths::joined(dir, filename)) == Some(content),
        forall|i: int| 0 <= i < content.len() ==> text::is_blank(#[trigger] content[i]),
    ensures
        layer_file(files, dir, filename) is None,
{
    text::blank_trims_to_nothing(content);
}

proof fn lemma_bundles_for_concat(config: Config, a: Seq<Seq<char>>, b: Seq<Seq<char>>)
    ensures
        bundles_for(config, a + b) == bundles_for(config, a) + bundles_for(config, b),
    decreases b.len(),
{
    if b.len() == 0 {
        assert(a + b =~= a);
        assert(bundles_for(config, a) + bundles_for(config, b) =~= bundles_for(config, a));
    } else {
        let front = b.drop_last();
        lemma_bundles_for_concat(config, a, front);
        assert((a + b).drop_last() =~= a + front);
        assert((a + b).last() == b.last());
        assert(bundles_for(config, a + b) =~= bundles_for(config, a) + bundles_for(config, b));
    }
}

/// A bundle that cannot be resolved never disturbs the others: the list is as if
/// its alias had not been there.
pub proof fn bad_bundle_is_left_out(
    config: Config,
    before: Seq<Seq<char>>,
    alias: Seq<char>,
    after: Seq<Seq<char>>,
)
    requires
        bundle_for(config, alias) is None,
    ensures
        bundles_for(config, before.push(alias) + after) == bundles_for(config, before + after),
{
    lemma_bundles_for_concat(config, before.push(alias), after);
    lemma_bundles_for_concat(config, before, after);
    assert(before.push(alias).drop_last() =~= before);
}

/// The section of a file in a prompt.
pub open spec fn section(file: LoadedFile) -> Seq<char> {
    "### "@ + file.name + "\n\n"@ + file.content + section_end(file.truncated)
}

/// The prompt text is the sections of the files, one after the other.
pub proof fn render_is_the_sections(files: Seq<LoadedFile>)
    ensures
        files.len() == 0 ==> rendered(files) == Seq::<char>::empty(),
        files.len() > 0 ==> rendered(files) == rendered(files.drop_last()) + section(files.last()),
{
    if files.len() > 0 {
        let f = files.last();
        let a = rendered(files.drop_last());
        assert(a + "### "@ + f.name + "\n\n"@ + f.content + section_end(f.truncated) =~= a + section(
            f,
        ));
    }
}

/// Every loaded file is shown in the prompt text.
pub proof fn render_shows_every_file(files: Seq<LoadedFile>, i: int)
    requires
        0 <= i < files.len(),
    ensures
        text::occurs_in(section(files[i]), rendered(files)),
    decreases files.len(),
{
    render_is_the_sections(files);
    let front = files.drop_last();
    let a = rendered(front);
    let b = section(files.last());
    let s = section(files[i]);
    if i == files.len() - 1 {
        let n = a.len() as int;
        assert((a + b).subrange(n, n + s.len()) =~= s);
    } else {
        assert(front[i] == files[i]);
        render_shows_every_file(front, i);
        let k = choose|k: int|
            0 <= k && k + s.len() <= a.len() && #[trigger] a.subrange(k, k + s.len()) == s;
        assert((a + b).subrange(k, k + s.len()) =~= a.subrange(k, k + s.len()));
    }
}

proof fn lemma_admitted_path_is_listed(filename: Seq<char>, bundles: Seq<BundleLayer>, i: int)
    requires
        0 <= i < bundles.len(),
        bundles[i].admits(filename),
    ensures
        bundle_paths(filename, bundles).contains(paths::joined(bundles[i].directory, filename)),
    decreases bundles.len(),
{
    let whole = bundle_paths(filename, bundles);
    let front = bundles.drop_last();
    let below = bundle_paths(filename, front);
    let path = paths::joined(bundles[i].directory, filename);
    if i == bundles.len() - 1 {
        assert(whole[0] == path);
    } else {
        assert(front[i] == bundles[i]);
        lemma_admitted_path_is_listed(filename, front, i);
        let k = below.index_of(path);
        if bundles.last().admits(filename) {
            assert(whole[k + 1] == path);
        } else {
            assert(whole[k] == path);
        }
    }
}

/// Whether a file is present depends on the files at `lookup_paths` alone.
pub proof fn presence_reads_only_lookup_paths(
    a: FileSnapshot,
    b: FileSnapshot,
    filename: Seq<char>,
    bundles: Seq<BundleLayer>,
    workspace_dir: Seq<char>,
)
    requires
        forall|path: Seq<char>| #[trigger]
            lookup_paths(filename, bundles, workspace_dir).contains(path) ==> a.file_at(path)
                == b.file_at(path),
    ensures
        present_somewhere(a, filename, bundles, workspace_dir) == present_somewhere(
            b,
            filename,
            bundles,
            workspace_dir,
        ),
{
    let whole = lookup_paths(filename, bundles, workspace_dir);
    let below = bundle_paths(filename, bundles);
    let own = paths::joined(workspace_dir, filename);
    assert(whole[0] == own);
    assert(whole.contains(own));
    assert forall|i: int|
        0 <= i < bundles.len() && (#[trigger] bundles[i]).admits(filename) implies a.file_at(
        paths::joined(bundles[i].directory, filename),
    ) == b.file_at(paths::joined(bundles[i].directory, filename)) by {
        let path = paths::joined(bundles[i].directory, filename);
        lemma_admitted_path_is_listed(filename, bundles, i);
        let k = below.index_of(path);
        assert(whole[k + 1] == path);
        assert(whole.contains(path));
    }
}

} // verus!
