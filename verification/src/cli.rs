use vstd::prelude::*;
use crate::temperature::{encodes_unit_range, Temperature};
use crate::text::{starts_with, texts};

verus! {

/// Output format for the report.
#[derive(Clone, Copy, Debug, PartialEq, Eq, Structural)]
pub enum OutputFormat {
    /// Markdown format (default)
    Markdown,
    /// JSON format
    Json,
}

impl Default for OutputFormat {
    fn default() -> (f: OutputFormat)
        ensures
            f == OutputFormat::Markdown,
    {
        OutputFormat::Markdown
    }
}

/// How much of its work the program tells.
#[derive(Clone, Copy, Debug, PartialEq, Eq, Structural)]
pub enum LogLevel {
    Error,
    Warn,
    Info,
    Debug,
    Trace,
}

/// What was found at a path of the file system.
#[derive(Clone, Copy, Debug, PartialEq, Eq, Structural)]
pub enum PathStatus {
    /// Nothing is there.
    Missing,
    /// Something is there that is no directory.
    NotDirectory,
    /// A directory is there.
    Directory,
}

/// A local directory that was named in place of a repository to clone,
/// with what was found there.
#[derive(Clone, Debug, PartialEq, Eq)]
pub struct LocalDir {
    pub path: String,
    pub status: PathStatus,
}

/// The arguments of the command line.
#[derive(Clone, Debug, PartialEq, Eq)]
pub struct Args {
    /// GitHub repository URL to analyze
    pub repo: String,
    /// Ollama model to use for analysis
    pub model: String,
    /// Output file path for the report
    pub output: String,
    /// Maximum number of files to analyze
    pub max_files: usize,
    /// Ollama API endpoint URL
    pub ollama_url: String,
    /// Path to configuration file
    pub config: Option<String>,
    /// Enable verbose logging output
    pub verbose: bool,
    /// Run in quiet mode (minimal output)
    pub quiet: bool,
    /// Specific branch to analyze
    pub branch: Option<String>,
    /// File extensions to include
    pub extensions: Option<Vec<String>>,
    /// Patterns to exclude from analysis
    pub exclude: Option<Vec<String>>,
    /// Number of concurrent file analyses
    pub concurrency: usize,
    /// Skip cloning if directory already exists
    pub skip_clone: bool,
    /// Local directory to analyze instead of cloning
    pub local: Option<LocalDir>,
    /// Output format (markdown, json)
    pub format: OutputFormat,
    /// Temperature for LLM responses (0.0 - 1.0)
    pub temperature: Temperature,
    /// Maximum context window size for chunking large files
    pub max_chunk_lines: usize,
}

/// How a repository is cloned.
#[derive(Clone, Debug, PartialEq, Eq)]
pub struct CloneOptions {
    pub branch: Option<String>,
    pub depth: Option<u32>,
    pub show_progress: bool,
    pub target_dir: Option<String>,
}

/// Where the files to analyze come from.
#[derive(Clone, Debug, PartialEq, Eq)]
pub enum RepositorySource {
    /// The local directory at this path.
    Local(String),
    /// A clone of the repository at this URL.
    Clone { url: String, options: CloneOptions },
}

/// Where the configuration is read from.
#[derive(Clone, Debug, PartialEq, Eq)]
pub enum ConfigSource {
    /// The file at this path; that it cannot be read is an error.
    Explicit(String),
    /// The file at the default place, if there is one.
    Default,
}

/// What looking for the configuration at the default place gave.
#[derive(Debug)]
pub enum DefaultLookup<C> {
    /// A configuration was there.
    Found(C),
    /// Nothing was there.
    Absent,
    /// Something was there that could not be read: the reason.
    Failed(String),
}

/// What is logged of the choice of a configuration.
#[derive(Clone, Copy, Debug, PartialEq, Eq, Structural)]
pub enum ConfigNotice {
    LoadedDefaultFile,
    NoFileFound,
    LoadFailed,
}

/// The file extensions that are analyzed where none are named.
pub open spec fn default_extensions() -> Seq<Seq<char>> {
    seq![
        "rs"@,
        "py"@,
        "js"@,
        "ts"@,
        "jsx"@,
        "tsx"@,
        "go"@,
        "java"@,
        "c"@,
        "cpp"@,
        "h"@,
        "hpp"@,
        "cs"@,
        "rb"@,
        "php"@,
        "swift"@,
        "kt"@,
        "scala"@,
        "vue"@,
        "svelte"@,
    ]
}

/// The patterns that are left out of the analysis where none are named.
pub open spec fn default_excludes() -> Seq<Seq<char>> {
    seq![
        ".git"@,
        "target"@,
        "node_modules"@,
        "vendor"@,
        "dist"@,
        "build"@,
        "__pycache__"@,
        ".venv"@,
        "venv"@,
        ".idea"@,
        ".vscode"@,
        "*.min.js"@,
        "*.min.css"@,
        "package-lock.json"@,
        "Cargo.lock"@,
        "yarn.lock"@,
    ]
}

/// The texts of an optional list.
pub open spec fn texts_or(list: Option<Vec<String>>, default: Seq<Seq<char>>) -> Seq<Seq<char>> {
    match list {
        Some(v) => texts(v@),
        None => default,
    }
}

/// The text of an optional string.
pub open spec fn optional_text(s: Option<String>) -> Option<Seq<char>> {
    match s {
        Some(t) => Some(t@),
        None => None,
    }
}

fn copy_texts(list: &Vec<String>) -> (r: Vec<String>)
    ensures
        texts(r@) == texts(list@),
{
    let n: usize = list.len();
    let mut out: Vec<String> = Vec::new();
    let mut i: usize = 0;
    while i < n
        invariant
            n == list.len(),
            i <= n,
            out@.len() == i,
            forall|j: int| 0 <= j < i ==> (#[trigger] out@[j])@ == list@[j]@,
        decreases n - i,
    {
        out.push(list[i].clone());
        i += 1;
    }
    assert(texts(out@) =~= texts(list@));
    out
}

fn copy_optional(s: &Option<String>) -> (r: Option<String>)
    ensures
        optional_text(r) == optional_text(*s),
{
    match s {
        Some(t) => Some(t.clone()),
        None => None,
    }
}

impl Args {
    /// Why the arguments are refused, if they are. The checks are made in
    /// this order, and the first that fails gives the reason: the
    /// repository URL, unless a local directory is named; the Ollama URL;
    /// the temperature; the concurrency; the number of files; `verbose`
    /// together with `quiet`; and what was found at the local directory.
    pub open spec fn refusal(&self) -> Option<Seq<char>> {
        if !"https://"@.is_prefix_of(self.repo@) && !"git@"@.is_prefix_of(self.repo@)
            && self.local is None {
            Some("Repository URL must start with 'https://' or 'git@'"@)
        } else if !"http://"@.is_prefix_of(self.ollama_url@) && !"https://"@.is_prefix_of(
            self.ollama_url@,
        ) {
            Some("Ollama URL must start with 'http://' or 'https://'"@)
        } else if !encodes_unit_range(self.temperature.bits) {
            Some("Temperature must be between 0.0 and 1.0"@)
        } else if self.concurrency == 0 {
            Some("Concurrency must be at least 1"@)
        } else if self.max_files == 0 {
            Some("Max files must be at least 1"@)
        } else if self.verbose && self.quiet {
            Some("Cannot use both --verbose and --quiet"@)
        } else {
            match self.local {
                Some(dir) => match dir.status {
                    PathStatus::Missing => Some("Local directory does not exist: "@ + dir.path@),
                    PathStatus::NotDirectory => Some("Local path is not a directory: "@ + dir.path@),
                    PathStatus::Directory => None,
                },
                None => None,
            }
        }
    }

    /// Validate the parsed arguments.
    pub fn validate(&self) -> (r: Result<(), String>)
        ensures
            match r {
                Ok(_) => self.refusal() is None,
                Err(reason) => self.refusal() == Some(reason@),
            },
    {
        if !starts_with(self.repo.as_str(), "https://") && !starts_with(self.repo.as_str(), "git@") {
            if self.local.is_none() {
                return Err("Repository URL must start with 'https://' or 'git@'".to_owned());
            }
        }
        if !starts_with(self.ollama_url.as_str(), "http://") && !starts_with(
            self.ollama_url.as_str(),
            "https://",
        ) {
            return Err("Ollama URL must start with 'http://' or 'https://'".to_owned());
        }
        if !self.temperature.in_unit_range() {
            return Err("Temperature must be between 0.0 and 1.0".to_owned());
        }
        if self.concurrency == 0 {
            return Err("Concurrency must be at least 1".to_owned());
        }
        if self.max_files == 0 {
            return Err("Max files must be at least 1".to_owned());
        }
        if self.verbose && self.quiet {
            return Err("Cannot use both --verbose and --quiet".to_owned());
        }
        match &self.local {
            Some(dir) => match dir.status {
                PathStatus::Missing => Err(
                    "Local directory does not exist: ".to_owned().concat(dir.path.as_str()),
                ),
                PathStatus::NotDirectory => Err(
                    "Local path is not a directory: ".to_owned().concat(dir.path.as_str()),
                ),
                PathStatus::Directory => Ok(()),
            },
            None => Ok(()),
        }
    }

    /// The log level that the verbosity settings ask for: `quiet` wins
    /// over `verbose`.
    pub open spec fn chosen_level(&self) -> LogLevel {
        if self.quiet {
            LogLevel::Error
        } else if self.verbose {
            LogLevel::Debug
        } else {
            LogLevel::Info
        }
    }

    /// Returns the log level based on verbosity settings.
    pub fn log_level(&self) -> (l: LogLevel)
        ensures
            l == self.chosen_level(),
    {
        if self.quiet {
            LogLevel::Error
        } else if self.verbose {
            LogLevel::Debug
        } else {
            LogLevel::Info
        }
    }

    /// Returns the effective list of file extensions to analyze.
    pub fn effective_extensions(&self) -> (r: Vec<String>)
        ensures
            texts(r@) == texts_or(self.extensions, default_extensions()),
    {
        match &self.extensions {
            Some(list) => copy_texts(list),
            None => {
                let mut v: Vec<String> = Vec::new();
                v.push("rs".to_owned());
                v.push("py".to_owned());
                v.push("js".to_owned());
                v.push("ts".to_owned());
                v.push("jsx".to_owned());
                v.push("tsx".to_owned());
                v.push("go".to_owned());
                v.push("java".to_owned());
                v.push("c".to_owned());
                v.push("cpp".to_owned());
                v.push("h".to_owned());
                v.push("hpp".to_owned());
                v.push("cs".to_owned());
                v.push("rb".to_owned());
                v.push("php".to_owned());
                v.push("swift".to_owned());
                v.push("kt".to_owned());
                v.push("scala".to_owned());
                v.push("vue".to_owned());
                v.push("svelte".to_owned());
                assert(texts(v@) =~= default_extensions());
                v
            },
        }
    }

    /// Returns the effective list of exclude patterns.
    pub fn effective_excludes(&self) -> (r: Vec<String>)
        ensures
            texts(r@) == texts_or(self.exclude, default_excludes()),
    {
        match &self.exclude {
            Some(list) => copy_texts(list),
            None => {
                let mut v: Vec<String> = Vec::new();
                v.push(".git".to_owned());
                v.push("target".to_owned());
                v.push("node_modules".to_owned());
                v.push("vendor".to_owned());
                v.push("dist".to_owned());
                v.push("build".to_owned());
                v.push("__pycache__".to_owned());
                v.push(".venv".to_owned());
                v.push("venv".to_owned());
                v.push(".idea".to_owned());
                v.push(".vscode".to_owned());
                v.push("*.min.js".to_owned());
                v.push("*.min.css".to_owned());
                v.push("package-lock.json".to_owned());
                v.push("Cargo.lock".to_owned());
                v.push("yarn.lock".to_owned());
                assert(texts(v@) =~= default_excludes());
                v
            },
        }
    }

    /// Says where the files to analyze come from: the local directory
    /// where one is named, else a shallow clone of the repository, of the
    /// branch that is named, with its progress shown unless `quiet`.
    pub fn repository_source(&self) -> (r: RepositorySource)
        ensures
            match r {
                RepositorySource::Local(path) => match self.local {
                    Some(dir) => path@ == dir.path@,
                    None => false,
                },
                RepositorySource::Clone { url, options } => {
                    &&& self.local is None
                    &&& url@ == self.repo@
                    &&& optional_text(options.branch) == optional_text(self.branch)
                    &&& options.depth == Some(1u32)
                    &&& options.show_progress == !self.quiet
                    &&& options.target_dir is None
                },
            },
    {
        match &self.local {
            Some(dir) => RepositorySource::Local(dir.path.clone()),
            None => RepositorySource::Clone {
                url: self.repo.clone(),
                options: CloneOptions {
                    branch: copy_optional(&self.branch),
                    depth: Some(1),
                    show_progress: !self.quiet,
                    target_dir: None,
                },
            },
        }
    }

    /// Says where the configuration is read from: the file that is named,
    /// else the default place.
    pub fn config_source(&self) -> (r: ConfigSource)
        ensures
            match r {
                ConfigSource::Explicit(path) => optional_text(self.config) == Some(path@),
                ConfigSource::Default => self.config is None,
            },
    {
        match &self.config {
            Some(path) => ConfigSource::Explicit(path.clone()),
            None => ConfigSource::Default,
        }
    }
}

/// Settles on a configuration after the look at the default place: the
/// one that was found, else `fallback`, whether nothing was there or what
/// was there could not be read. That it could not be read is no error.
pub fn settle_default<C>(lookup: DefaultLookup<C>, fallback: C) -> (r: (C, ConfigNotice))
    ensures
        r == match lookup {
            DefaultLookup::Found(c) => (c, ConfigNotice::LoadedDefaultFile),
            DefaultLookup::Absent => (fallback, ConfigNotice::NoFileFound),
            DefaultLookup::Failed(_) => (fallback, ConfigNotice::LoadFailed),
        },
{
    match lookup {
        DefaultLookup::Found(c) => (c, ConfigNotice::LoadedDefaultFile),
        DefaultLookup::Absent => (fallback, ConfigNotice::NoFileFound),
        DefaultLookup::Failed(_) => (fallback, ConfigNotice::LoadFailed),
    }
}

} // verus!
