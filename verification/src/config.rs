use vstd::prelude::*;

use crate::device::DeviceId;
use crate::recipe::is_path_order;
use crate::text::str_equal;

verus! {

/// Declares `config::Config` to Verus; its value is only carried along.
#[verifier::external_type_specification]
#[verifier::external_body]
pub struct ExConfig(config::Config);

/// What `Path::new(base).join(part)` gives, as text.
pub uninterp spec fn path_joined(base: Seq<char>, part: Seq<char>) -> Seq<char>;

/// What `Path::new(p).is_relative()` gives.
pub uninterp spec fn path_relative(p: Seq<char>) -> bool;

/// What `Path::new(p).file_name()` gives, as text.
pub uninterp spec fn path_file_name_of(p: Seq<char>) -> Option<Seq<char>>;

/// What `Path::new(a) <= Path::new(b)` gives: the component-wise order of paths.
pub uninterp spec fn path_not_after(a: Seq<char>, b: Seq<char>) -> bool;

/// What `Path::new(p).iter()` gives: the components of the path, as texts.
pub uninterp spec fn path_component_seq(p: Seq<char>) -> Seq<Seq<char>>;

/// What `Path::new(a) == Path::new(b)` gives: whether the paths have the same components.
pub uninterp spec fn path_same(a: Seq<char>, b: Seq<char>) -> bool;

/// Compares two paths with `==` on `std::path::Path`, which compares their components.
#[verifier::external_body]
pub(crate) fn paths_equal(a: &str, b: &str) -> (r: bool)
    ensures
        r == path_same(a@, b@),
{
    std::path::Path::new(a) == std::path::Path::new(b)
}

/// Calls `std::path::Path::join`. The result follows the path conventions of the
/// target platform; nothing more is stated than that it is a function of the two texts.
#[verifier::external_body]
pub(crate) fn path_join(base: &str, part: &str) -> (r: String)
    ensures
        r@ == path_joined(base@, part@),
{
    std::path::Path::new(base).join(part).to_string_lossy().into_owned()
}

/// Calls `std::path::Path::is_relative`.
#[verifier::external_body]
pub(crate) fn path_is_relative(p: &str) -> (r: bool)
    ensures
        r == path_relative(p@),
{
    std::path::Path::new(p).is_relative()
}

/// Lists the components of a path with `std::path::Path::iter`.
#[verifier::external_body]
pub(crate) fn path_component_texts(p: &str) -> (r: Vec<String>)
    ensures
        r@.map_values(|c: String| c@) == path_component_seq(p@),
{
    std::path::Path::new(p).iter().map(|c| c.to_string_lossy().into_owned()).collect()
}

/// What `Path::new(p).strip_prefix(base)` gives, as text: the rest of `p` after the
/// components of `base`, or `None` when `p` does not start with them.
pub uninterp spec fn path_stripped(p: Seq<char>, base: Seq<char>) -> Option<Seq<char>>;

/// Calls `std::path::Path::strip_prefix`.
#[verifier::external_body]
pub(crate) fn path_strip_prefix(p: &str, base: &str) -> (r: Option<String>)
    ensures
        match r {
            Some(rest) => path_stripped(p@, base@) == Some(rest@),
            None => path_stripped(p@, base@) is None,
        },
{
    std::path::Path::new(p).strip_prefix(base).ok().map(|rest| rest.to_string_lossy().into_owned())
}

/// Counts the components of a path with `std::path::Path::iter`.
#[verifier::external_body]
pub(crate) fn path_components(p: &str) -> (r: usize)
    ensures
        r == path_component_seq(p@).len(),
{
    std::path::Path::new(p).iter().count()
}

/// Calls `std::path::Path::file_name`.
#[verifier::external_body]
fn path_file_name(p: &str) -> (r: Option<String>)
    ensures
        match r {
            Some(n) => path_file_name_of(p@) == Some(n@),
            None => path_file_name_of(p@) is None,
        },
{
    std::path::Path::new(p).file_name().map(|n| n.to_string_lossy().into_owned())
}

/// Calls `<[PathBuf]>::sort_unstable` on the paths: the result holds the same paths,
/// in the order of `Ord` for paths.
#[verifier::external_body]
pub(crate) fn sort_paths(paths: Vec<String>) -> (r: Vec<String>)
    ensures
        r@.to_multiset() == paths@.to_multiset(),
        forall|i: int, j: int| 0 <= i < j < r@.len() ==> path_not_after(#[trigger] r@[i]@, #[trigger] r@[j]@),
{
    let mut v: Vec<std::path::PathBuf> = paths.into_iter().map(std::path::PathBuf::from).collect();
    v.sort_unstable();
    v.into_iter().map(|p| p.to_string_lossy().into_owned()).collect()
}

/// What a walk of a glob pattern gave: the pattern walked, and each matching path or
/// the error met on the way.
pub struct Walk {
    pub pattern: String,
    pub entries: Vec<Result<String, std::io::Error>>,
}

/// Calls `glob::glob` with `pattern` and collects what it walks: the pattern error, or
/// each matching path or the error met on the way, with the pattern handed back. What
/// it finds depends on the disk, so nothing more is stated of it.
#[verifier::external_body]
fn glob_entries(pattern: String) -> (r: Result<Walk, std::io::Error>)
    ensures
        r matches Ok(w) ==> w.pattern@ == pattern@,
{
    let paths = glob::glob(&pattern).map_err(
        |e| std::io::Error::new(std::io::ErrorKind::InvalidInput, e),
    )?;
    let entries = paths.map(|entry| match entry {
        Ok(p) => Ok(p.to_string_lossy().into_owned()),
        Err(e) => Err(std::io::Error::new(std::io::ErrorKind::InvalidInput, e)),
    }).collect();
    Ok(Walk { pattern, entries })
}

/// The glob pattern of the configuration files in `path`: `path` joined with `*.json`.
pub fn config_glob_pattern(path: &str) -> (r: String)
    ensures
        r@ == path_joined(path@, "*.json"@),
{
    path_join(path, "*.json")
}

/// A configuration together with the files it was read from, in the order in which
/// they were added.
pub struct LoadedConfig {
    pub config: config::Config,
    pub sources: Vec<String>,
}

/// Builds a `config::Config` from the JSON files at `files`, each added in turn with
/// `config::ConfigBuilder::add_source` (later files override earlier ones), and reads
/// them with `config::ConfigBuilder::build`; its error becomes an `InvalidInput` I/O
/// error. The files are handed back beside the configuration. What is read depends on
/// the disk, so nothing more is stated of it.
#[verifier::external_body]
fn config_from_files(files: Vec<String>) -> (r: Result<LoadedConfig, std::io::Error>)
    ensures
        r matches Ok(l) ==> l.sources@ == files@,
{
    let mut builder = config::Config::builder();
    for path in &files {
        builder = builder.add_source(config::File::from(std::path::PathBuf::from(path)));
    }
    let config = builder.build().map_err(|e| std::io::Error::new(std::io::ErrorKind::InvalidInput, e))?;
    Ok(LoadedConfig { config, sources: files })
}

/// Whether `p` names the settings file, which holds what changes at runtime and is
/// therefore no part of the configuration.
pub open spec fn is_settings_file(p: Seq<char>) -> bool {
    path_file_name_of(p) == Some("settings.json"@)
}

/// The configuration files among what a directory walk gave: the first error if
/// there is one, else the paths that do not name the settings file, in their order.
pub open spec fn config_files(entries: Seq<Result<String, std::io::Error>>) -> Result<
    Seq<Seq<char>>,
    std::io::Error,
>
    decreases entries.len(),
{
    if entries.len() == 0 {
        Ok(Seq::empty())
    } else {
        match config_files(entries.drop_last()) {
            Err(e) => Err(e),
            Ok(found) => match entries.last() {
                Err(e) => Err(e),
                Ok(p) => if is_settings_file(p@) {
                    Ok(found)
                } else {
                    Ok(found.push(p@))
                },
            },
        }
    }
}

/// An error among the first `k` entries is the error of all of them.
proof fn lemma_config_files_error_stays(entries: Seq<Result<String, std::io::Error>>, k: int)
    requires
        0 <= k <= entries.len(),
        config_files(entries.take(k)) is Err,
    ensures
        config_files(entries) == config_files(entries.take(k)),
    decreases entries.len() - k,
{
    if k < entries.len() {
        assert(entries.take(k + 1).drop_last() =~= entries.take(k));
        lemma_config_files_error_stays(entries, k + 1);
    } else {
        assert(entries.take(k) =~= entries);
    }
}

/// Picks the configuration files from the entries of a directory walk; see `config_files`.
pub fn select_config_files(entries: Vec<Result<String, std::io::Error>>) -> (r: Result<
    Vec<String>,
    std::io::Error,
>)
    ensures
        match (r, config_files(entries@)) {
            (Ok(v), Ok(s)) => v@.map_values(|p: String| p@) == s,
            (Err(e), Err(s)) => e == s,
            _ => false,
        },
{
    let ghost all = entries@;
    let mut found: Vec<String> = Vec::new();
    let mut rest = entries;
    let ghost n = all.len();
    assert(all.take(0) =~= Seq::<Result<String, std::io::Error>>::empty());
    assert(found@.map_values(|p: String| p@) =~= Seq::<Seq<char>>::empty());
    assert(rest@ =~= all.skip(0));
    while rest.len() > 0
        invariant
            n == all.len(),
            all == entries@,
            rest@.len() <= n,
            rest@ == all.skip(n - rest@.len()),
            config_files(all.take(n - rest@.len())) == Ok::<Seq<Seq<char>>, std::io::Error>(
                found@.map_values(|p: String| p@),
            ),
        decreases rest@.len(),
    {
        let ghost k = n - rest@.len();
        let entry = rest.remove(0);
        assert(entry == all[k]);
        assert(all.take(k + 1).drop_last() =~= all.take(k));
        assert(rest@ =~= all.skip(k + 1));
        match entry {
            Err(e) => {
                proof {
                    assert(all.take(k + 1).last() == all[k]);
                    assert(config_files(all.take(k + 1)) == Err::<Seq<Seq<char>>, std::io::Error>(e));
                    lemma_config_files_error_stays(all, k + 1);
                }
                return Err(e);
            },
            Ok(p) => {
                let name = path_file_name(p.as_str());
                let skip = match &name {
                    Some(n) => str_equal(n.as_str(), "settings.json"),
                    None => false,
                };
                if !skip {
                    found.push(p);
                }
                assert(found@.map_values(|p: String| p@) =~= config_files(all.take(k + 1))->Ok_0);
            },
        }
    }
    assert(all.take(n as int) =~= all);
    Ok(found)
}

/// Typed configuration of devices (timeouts, socket addresses and the like), read
/// from all JSON files in a root directory. It does not change at runtime.
pub struct GenericConfig {
    pub root: String,
    config: config::Config,
    sources: Vec<String>,
    pattern: String,
}

impl GenericConfig {
    /// The root directory, against which relative paths are taken.
    pub closed spec fn spec_root(&self) -> Seq<char> {
        self.root@
    }

    /// Reads the configuration from the JSON files directly in `path`, but for the
    /// settings file, in the order of their paths. Fails with an `InvalidInput` error
    /// when the directory cannot be walked or a file cannot be read.
    pub fn new(path: &str) -> (r: Result<GenericConfig, std::io::Error>)
        ensures
            r matches Ok(c) ==> c.spec_root() == path@ && c.spec_pattern() == path_joined(
                path@,
                "*.json"@,
            ) && exists|
                entries: Seq<Result<String, std::io::Error>>,
                found: Seq<String>,
            |
                #![trigger config_files(entries), is_path_order(found, c.spec_sources())]
                config_files(entries) == Ok::<Seq<Seq<char>>, std::io::Error>(
                    found.map_values(|p: String| p@),
                ) && is_path_order(found, c.spec_sources()),
    {
        let root = path.to_owned();
        let walk = glob_entries(config_glob_pattern(path))?;
        let entries = walk.entries;
        let ghost walked = entries@;
        let found = select_config_files(entries)?;
        let ghost found_seq = found@;
        let files = sort_paths(found);
        let ghost sorted = files@;
        let loaded = config_from_files(files)?;
        let c = GenericConfig { root, config: loaded.config, sources: loaded.sources, pattern: walk.pattern };
        assert(is_path_order(found_seq, c.spec_sources()));
        assert(config_files(walked) == Ok::<Seq<Seq<char>>, std::io::Error>(
            found_seq.map_values(|p: String| p@),
        ));
        Ok(c)
    }

    /// The glob pattern that was walked for configuration files.
    pub closed spec fn spec_pattern(&self) -> Seq<char> {
        self.pattern@
    }

    /// The glob pattern that was walked for configuration files.
    pub fn pattern(&self) -> (r: &str)
        ensures
            r@ == self.spec_pattern(),
    {
        self.pattern.as_str()
    }

    /// The files the configuration was read from, in the order in which they were
    /// added: later files override earlier ones.
    pub closed spec fn spec_sources(&self) -> Seq<String> {
        self.sources@
    }

    /// The files the configuration was read from, in the order in which they were added.
    pub fn sources(&self) -> (r: &Vec<String>)
        ensures
            r@ == self.spec_sources(),
    {
        &self.sources
    }

    /// The configuration values that were read.
    pub closed spec fn spec_values(&self) -> config::Config {
        self.config
    }

    /// The configuration values that were read.
    pub fn values(&self) -> (r: &config::Config)
        ensures
            *r == self.spec_values(),
    {
        &self.config
    }

    /// `path` taken relative to the root when it is relative, else unchanged.
    pub fn instrument_relative(&self, path: &str) -> (r: String)
        ensures
            r@ == if path_relative(path@) {
                path_joined(self.spec_root(), path@)
            } else {
                path@
            },
    {
        if path_is_relative(path) {
            path_join(self.root.as_str(), path)
        } else {
            path.to_owned()
        }
    }
}

/// Files of devices, each device in a directory of its own below a root.
pub struct TokioFileService {
    root: String,
}

/// Makes the file service of each device from a common root.
pub struct FileServiceBuilder {
    root: String,
}

impl TokioFileService {
    /// The directory of this device's files.
    pub closed spec fn spec_root(&self) -> Seq<char> {
        self.root@
    }

    pub fn builder(root: String) -> (r: FileServiceBuilder)
        ensures
            r.spec_root() == root@,
    {
        FileServiceBuilder { root }
    }

    pub fn root(&self) -> (r: &str)
        ensures
            r@ == self.spec_root(),
    {
        self.root.as_str()
    }

    /// The path of a file or directory of this device, given relative to its directory.
    pub fn path_of(&self, relative: &str) -> (r: String)
        ensures
            r@ == path_joined(self.spec_root(), relative@),
    {
        path_join(self.root.as_str(), relative)
    }
}

impl FileServiceBuilder {
    pub closed spec fn spec_root(&self) -> Seq<char> {
        self.root@
    }

    /// The file service of `device_id`, rooted in the directory named after the
    /// identifier's text below the common root.
    pub fn build(&self, device_id: DeviceId) -> (r: TokioFileService)
        ensures
            r.spec_root() == path_joined(self.spec_root(), crate::device::uuid_text(device_id.0)),
    {
        let id = device_id.to_text();
        TokioFileService { root: path_join(self.root.as_str(), id.as_str()) }
    }
}

/// The kinds of I/O error that the library tells apart.
#[derive(Debug, Clone, Copy, PartialEq, Eq)]
pub enum IoErrorKind {
    NotFound,
    Other,
}

/// What `std::io::Error::kind` gives for `e`, told apart as `NotFound` or another kind.
pub uninterp spec fn io_kind_of(e: std::io::Error) -> IoErrorKind;

/// What `to_string` gives for the error `e`: for an error made by
/// `std::io::Error::new`, the text of its payload.
pub uninterp spec fn io_error_text(e: std::io::Error) -> Seq<char>;

/// Calls `std::io::Error::kind` and tells `NotFound` from the other kinds.
#[verifier::external_body]
fn io_error_kind(error: &std::io::Error) -> (r: IoErrorKind)
    ensures
        r == io_kind_of(*error),
{
    match error.kind() {
        std::io::ErrorKind::NotFound => IoErrorKind::NotFound,
        _ => IoErrorKind::Other,
    }
}

/// Calls `std::io::Error::new` with the kind `NotFound` and `message` as payload:
/// the error has that kind, and its text is the message.
#[verifier::external_body]
fn not_found_error(message: String) -> (r: std::io::Error)
    ensures
        io_kind_of(r) == IoErrorKind::NotFound,
        io_error_text(r) == message@,
{
    std::io::Error::new(std::io::ErrorKind::NotFound, message)
}

/// The message that replaces an I/O error of kind `kind` met on `file`: a missing
/// file is reported by its path; any other error is kept as it is (`None`).
pub fn file_context_message(file: &str, kind: IoErrorKind) -> (r: Option<String>)
    ensures
        match kind {
            IoErrorKind::NotFound => r matches Some(m) && m@ == file@,
            IoErrorKind::Other => r is None,
        },
{
    match kind {
        IoErrorKind::NotFound => Some(file.to_owned()),
        IoErrorKind::Other => None,
    }
}

/// An I/O error met on `file`: a missing file becomes a `NotFound` error whose text is
/// the file's path; any other error is returned as it is.
pub fn with_file_context(file: &str, error: std::io::Error) -> (r: std::io::Error)
    ensures
        io_kind_of(error) == IoErrorKind::Other ==> r == error,
        io_kind_of(error) == IoErrorKind::NotFound ==> io_kind_of(r) == IoErrorKind::NotFound
            && io_error_text(r) == file@,
{
    match file_context_message(file, io_error_kind(&error)) {
        Some(message) => not_found_error(message),
        None => error,
    }
}

} // verus!
