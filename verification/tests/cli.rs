use code_auditor::cli::{
    settle_default, Args, CloneOptions, ConfigNotice, ConfigSource, DefaultLookup, LocalDir,
    LogLevel, OutputFormat, PathStatus, RepositorySource,
};
use code_auditor::temperature::Temperature;

fn base_args() -> Args {
    Args {
        repo: "https://github.com/test/repo".to_string(),
        model: "test".to_string(),
        output: "test.md".to_string(),
        max_files: 100,
        ollama_url: "http://localhost:11434".to_string(),
        config: None,
        verbose: false,
        quiet: false,
        branch: None,
        extensions: None,
        exclude: None,
        concurrency: 4,
        skip_clone: false,
        local: None,
        format: OutputFormat::Markdown,
        temperature: Temperature::from_bits(0.1f32.to_bits()),
        max_chunk_lines: 4000,
    }
}

fn to_tracing(level: LogLevel) -> tracing::Level {
    match level {
        LogLevel::Error => tracing::Level::ERROR,
        LogLevel::Warn => tracing::Level::WARN,
        LogLevel::Info => tracing::Level::INFO,
        LogLevel::Debug => tracing::Level::DEBUG,
        LogLevel::Trace => tracing::Level::TRACE,
    }
}

#[test]
fn test_default_extensions() {
    let args = base_args();

    let exts = args.effective_extensions();
    assert!(exts.contains(&"rs".to_string()));
    assert!(exts.contains(&"py".to_string()));
    assert!(exts.contains(&"js".to_string()));
}

#[test]
fn test_validation_invalid_url() {
    let mut args = base_args();
    args.repo = "invalid-url".to_string();

    assert!(args.validate().is_err());
}

#[test]
fn test_validation_conflicting_options() {
    let mut args = base_args();
    args.verbose = true;
    args.quiet = true; // Conflict!

    assert!(args.validate().is_err());
}

#[test]
fn test_log_level() {
    let mut args = base_args();

    assert_eq!(to_tracing(args.log_level()), tracing::Level::INFO);
    assert_eq!(args.log_level(), LogLevel::Info);

    args.verbose = true;
    assert_eq!(to_tracing(args.log_level()), tracing::Level::DEBUG);
    assert_eq!(args.log_level(), LogLevel::Debug);

    args.verbose = false;
    args.quiet = true;
    assert_eq!(to_tracing(args.log_level()), tracing::Level::ERROR);
    assert_eq!(args.log_level(), LogLevel::Error);
}

#[test]
fn valid_arguments_pass() {
    assert_eq!(base_args().validate(), Ok(()));
    let mut args = base_args();
    args.repo = "git@github.com:test/repo.git".to_string();
    args.ollama_url = "https://ollama.example".to_string();
    assert_eq!(args.validate(), Ok(()));
}

#[test]
fn each_refusal_has_its_message() {
    let mut args = base_args();
    args.repo = "invalid-url".to_string();
    assert_eq!(
        args.validate(),
        Err("Repository URL must start with 'https://' or 'git@'".to_string())
    );

    let mut args = base_args();
    args.ollama_url = "localhost:11434".to_string();
    assert_eq!(
        args.validate(),
        Err("Ollama URL must start with 'http://' or 'https://'".to_string())
    );

    let mut args = base_args();
    args.temperature = Temperature::from_bits(1.5f32.to_bits());
    assert_eq!(args.validate(), Err("Temperature must be between 0.0 and 1.0".to_string()));

    let mut args = base_args();
    args.concurrency = 0;
    assert_eq!(args.validate(), Err("Concurrency must be at least 1".to_string()));

    let mut args = base_args();
    args.max_files = 0;
    assert_eq!(args.validate(), Err("Max files must be at least 1".to_string()));

    let mut args = base_args();
    args.verbose = true;
    args.quiet = true;
    assert_eq!(args.validate(), Err("Cannot use both --verbose and --quiet".to_string()));

    let mut args = base_args();
    args.local = Some(LocalDir { path: "/no/such/dir".to_string(), status: PathStatus::Missing });
    assert_eq!(
        args.validate(),
        Err("Local directory does not exist: /no/such/dir".to_string())
    );

    let mut args = base_args();
    args.local = Some(LocalDir { path: "Cargo.toml".to_string(), status: PathStatus::NotDirectory });
    assert_eq!(args.validate(), Err("Local path is not a directory: Cargo.toml".to_string()));
}

#[test]
fn first_failing_check_gives_the_reason() {
    let mut args = base_args();
    args.repo = "invalid-url".to_string();
    args.ollama_url = "nowhere".to_string();
    args.concurrency = 0;
    assert_eq!(
        args.validate(),
        Err("Repository URL must start with 'https://' or 'git@'".to_string())
    );
    args.repo = "https://github.com/test/repo".to_string();
    assert_eq!(
        args.validate(),
        Err("Ollama URL must start with 'http://' or 'https://'".to_string())
    );
    args.ollama_url = "http://localhost:11434".to_string();
    args.max_files = 0;
    assert_eq!(args.validate(), Err("Concurrency must be at least 1".to_string()));
}

#[test]
fn local_directory_excuses_the_repository_url() {
    let mut args = base_args();
    args.repo = "invalid-url".to_string();
    args.local = Some(LocalDir { path: ".".to_string(), status: PathStatus::Directory });
    assert_eq!(args.validate(), Ok(()));
    args.local = Some(LocalDir { path: "gone".to_string(), status: PathStatus::Missing });
    assert_eq!(args.validate(), Err("Local directory does not exist: gone".to_string()));
}

#[test]
fn temperature_range_is_that_of_the_numbers() {
    let samples = [
        0.0f32,
        -0.0,
        0.1,
        0.5,
        1.0,
        f32::MIN_POSITIVE,
        f32::EPSILON,
        1.0 - f32::EPSILON,
        1.0 + f32::EPSILON,
        1.5,
        2.0,
        -0.1,
        -1.0,
        -f32::MIN_POSITIVE,
        f32::MAX,
        f32::MIN,
        f32::INFINITY,
        f32::NEG_INFINITY,
        f32::NAN,
        -f32::NAN,
        f32::from_bits(1),
        f32::from_bits(0x8000_0001),
        f32::from_bits(0x3F80_0001),
        f32::from_bits(0x3F7F_FFFF),
        f32::from_bits(0x7FFF_FFFF),
        f32::from_bits(0xFFFF_FFFF),
    ];
    for x in samples {
        let t = Temperature::from_bits(x.to_bits());
        assert_eq!(t.in_unit_range(), (0.0..=1.0).contains(&x), "temperature {:?}", x);
        assert_eq!(t.to_bits(), x.to_bits());
        let mut args = base_args();
        args.temperature = t;
        assert_eq!(args.validate().is_ok(), (0.0..=1.0).contains(&x));
    }
    let mut bits: u32 = 0;
    loop {
        let x = f32::from_bits(bits);
        assert_eq!(Temperature::from_bits(bits).in_unit_range(), (0.0..=1.0).contains(&x));
        match bits.checked_add(0x0001_0003) {
            Some(next) => bits = next,
            None => break,
        }
    }
}

#[test]
fn named_extensions_and_excludes_win_over_the_defaults() {
    let mut args = base_args();
    args.extensions = Some(vec!["zig".to_string(), "nim".to_string()]);
    args.exclude = Some(Vec::new());
    assert_eq!(args.effective_extensions(), ["zig", "nim"]);
    assert!(args.effective_excludes().is_empty());
}

#[test]
fn default_lists_are_complete() {
    let args = base_args();
    assert_eq!(
        args.effective_extensions(),
        [
            "rs", "py", "js", "ts", "jsx", "tsx", "go", "java", "c", "cpp", "h", "hpp", "cs",
            "rb", "php", "swift", "kt", "scala", "vue", "svelte"
        ]
    );
    assert_eq!(
        args.effective_excludes(),
        [
            ".git",
            "target",
            "node_modules",
            "vendor",
            "dist",
            "build",
            "__pycache__",
            ".venv",
            "venv",
            ".idea",
            ".vscode",
            "*.min.js",
            "*.min.css",
            "package-lock.json",
            "Cargo.lock",
            "yarn.lock"
        ]
    );
}

#[test]
fn quiet_wins_over_verbose() {
    let mut args = base_args();
    args.verbose = true;
    args.quiet = true;
    assert_eq!(args.log_level(), LogLevel::Error);
}

#[test]
fn repository_is_cloned_shallow_unless_local() {
    let mut args = base_args();
    args.branch = Some("dev".to_string());
    assert_eq!(
        args.repository_source(),
        RepositorySource::Clone {
            url: "https://github.com/test/repo".to_string(),
            options: CloneOptions {
                branch: Some("dev".to_string()),
                depth: Some(1),
                show_progress: true,
                target_dir: None,
            },
        }
    );
    args.quiet = true;
    args.branch = None;
    assert_eq!(
        args.repository_source(),
        RepositorySource::Clone {
            url: "https://github.com/test/repo".to_string(),
            options: CloneOptions { branch: None, depth: Some(1), show_progress: false, target_dir: None },
        }
    );
    args.local = Some(LocalDir { path: "/work/repo".to_string(), status: PathStatus::Directory });
    assert_eq!(args.repository_source(), RepositorySource::Local("/work/repo".to_string()));
}

#[test]
fn configuration_comes_from_the_named_file_or_the_default_place() {
    let mut args = base_args();
    assert_eq!(args.config_source(), ConfigSource::Default);
    args.config = Some("my.toml".to_string());
    assert_eq!(args.config_source(), ConfigSource::Explicit("my.toml".to_string()));
}

#[test]
fn default_configuration_falls_back() {
    assert_eq!(settle_default(DefaultLookup::Found(7), 1), (7, ConfigNotice::LoadedDefaultFile));
    assert_eq!(settle_default(DefaultLookup::Absent, 1), (1, ConfigNotice::NoFileFound));
    assert_eq!(
        settle_default(DefaultLookup::Failed("bad syntax".to_string()), 1),
        (1, ConfigNotice::LoadFailed)
    );
}

#[test]
fn markdown_is_the_default_format() {
    assert_eq!(OutputFormat::default(), OutputFormat::Markdown);
    assert_ne!(OutputFormat::default(), OutputFormat::Json);
}
