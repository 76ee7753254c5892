//! Application configuration: defaults, environment variables, command-line
//! flags and connection profiles, merged in a fixed order of precedence.
//! The caller reads the environment and the configuration file and hands
//! their contents in as plain values.

use vstd::prelude::*;
use crate::cli::GlobalArgs;
use crate::insights::InsightsConfig;
use crate::text::{chars_of, parse_u64, parse_u64_spec};

verus! {

/// Why a configuration could not be built or saved.
#[derive(Debug)]
pub enum ConfigError {
    MissingEnvVar(String),
    InvalidValue(String, String),
    ProfileNotFound(String),
    Io(String),
    TomlSerialize(String),
}

/// A named connection profile.
#[derive(Debug, Clone)]
pub struct ProfileConfig {
    pub address: String,
    pub namespace: String,
    pub api_key: Option<String>,
}

/// The insights section of the configuration file.
#[derive(Debug, Clone)]
pub struct InsightsSection {
    pub allowlist: Vec<String>,
    pub concurrency: Option<usize>,
}

/// The configuration file's contents: an optional default profile, the
/// profiles by name (each name once), and the insights section.
#[derive(Debug, Clone)]
pub struct ConfigFile {
    pub default_profile: Option<String>,
    pub profiles: Vec<(String, ProfileConfig)>,
    pub insights: InsightsSection,
}

/// The environment variables the configuration reads, as found.
#[derive(Debug, Clone)]
pub struct EnvVars {
    pub temporal_address: Option<String>,
    pub temporal_namespace: Option<String>,
    pub temporal_api_key: Option<String>,
    pub refresh_interval: Option<String>,
    pub default_limit: Option<String>,
    pub tick_rate: Option<String>,
    pub insights_concurrency: Option<String>,
    pub profile: Option<String>,
}

/// The application configuration. The refresh interval is in seconds, the
/// tick rate in milliseconds.
#[derive(Debug)]
pub struct Config {
    pub temporal_address: String,
    pub temporal_namespace: String,
    pub temporal_api_key: Option<String>,
    pub refresh_interval: u64,
    pub default_limit: u32,
    pub tick_rate: u64,
    pub use_mock: bool,
    pub mock_workflow_count: usize,
    pub insights: InsightsConfig,
    pub active_profile: Option<String>,
}

/// The default configuration: a local server, the `default` namespace, no
/// key, a refresh every 30 s, no fetch limit, a tick every 250 ms, no mock
/// data (100 workflows when mocked), default insight settings, no profile.
pub open spec fn is_default_config(c: Config) -> bool {
    &&& c.temporal_address@ == "localhost:7233"@
    &&& c.temporal_namespace@ == "default"@
    &&& c.temporal_api_key is None
    &&& c.refresh_interval == 30
    &&& c.default_limit == u32::MAX
    &&& c.tick_rate == 250
    &&& !c.use_mock
    &&& c.mock_workflow_count == 100
    &&& c.insights.allowlist@.len() == 0
    &&& c.insights.concurrency == 10
    &&& c.active_profile is None
}

impl Config {
    /// The default configuration.
    pub fn default_config() -> (r: Config)
        ensures
            is_default_config(r),
    {
        Config {
            temporal_address: "localhost:7233".to_owned(),
            temporal_namespace: "default".to_owned(),
            temporal_api_key: None,
            refresh_interval: 30,
            default_limit: u32::MAX,
            tick_rate: 250,
            use_mock: false,
            mock_workflow_count: 100,
            insights: InsightsConfig::new(),
            active_profile: None,
        }
    }
}

impl Default for Config {
    fn default() -> (r: Config)
        ensures
            is_default_config(r),
    {
        Config::default_config()
    }
}

/// A `u32` numeral's value, as `u32::from_str` reads it.
pub open spec fn parse_u32_spec(s: Seq<char>) -> Option<u32> {
    match parse_u64_spec(s) {
        Some(v) => if v <= u32::MAX { Some(v as u32) } else { None },
        None => None,
    }
}

/// A `usize` numeral's value, as `usize::from_str` reads it.
pub open spec fn parse_usize_spec(s: Seq<char>) -> Option<usize> {
    match parse_u64_spec(s) {
        Some(v) => if v <= usize::MAX { Some(v as usize) } else { None },
        None => None,
    }
}

/// Reads a `u32` numeral.
pub fn parse_u32(s: &str) -> (r: Option<u32>)
    ensures
        r == parse_u32_spec(s@),
{
    match parse_u64(&chars_of(s)) {
        Some(v) => if v <= 4294967295 { Some(v as u32) } else { None },
        None => None,
    }
}

/// Reads a `usize` numeral.
pub fn parse_usize(s: &str) -> (r: Option<usize>)
    ensures
        r == parse_usize_spec(s@),
{
    match parse_u64(&chars_of(s)) {
        Some(v) => if v as u128 <= usize::MAX as u128 { Some(v as usize) } else { None },
        None => None,
    }
}

/// A fetch limit: zero means none.
pub open spec fn limit_of(v: u32) -> u32 {
    if v == 0 { u32::MAX } else { v }
}

/// `r` is an invalid-value error for `name` with the given value.
pub open spec fn invalid(r: Result<Config, ConfigError>, name: Seq<char>, value: Seq<char>) -> bool {
    r matches Err(ConfigError::InvalidValue(n, v)) && n@ == name && v@ == value
}

/// The first numeric environment setting that does not read as a number
/// (refresh interval, fetch limit, tick rate), with its text.
pub open spec fn env_numbers_error(env: EnvVars) -> Option<(Seq<char>, Seq<char>)> {
    match (env.refresh_interval, env.default_limit, env.tick_rate) {
        (Some(v), _, _) if parse_u64_spec(v@) is None => Some(("TEMPORAL_TUI_REFRESH_INTERVAL"@, v@)),
        (_, Some(v), _) if parse_u32_spec(v@) is None => Some(("TEMPORAL_TUI_DEFAULT_LIMIT"@, v@)),
        (_, _, Some(v)) if parse_u64_spec(v@) is None => Some(("TEMPORAL_TUI_TICK_RATE"@, v@)),
        _ => None,
    }
}

/// `c` with the numeric environment settings applied: refresh interval,
/// fetch limit (zero for none) and tick rate.
pub open spec fn env_numbers_value(env: EnvVars, c: Config) -> Config {
    Config {
        refresh_interval: match env.refresh_interval { Some(v) => parse_u64_spec(v@)->0, None => c.refresh_interval },
        default_limit: match env.default_limit { Some(v) => limit_of(parse_u32_spec(v@)->0), None => c.default_limit },
        tick_rate: match env.tick_rate { Some(v) => parse_u64_spec(v@)->0, None => c.tick_rate },
        ..c
    }
}

/// The numeric settings read from the environment over `c`; the first one
/// that does not read gives its error.
pub open spec fn env_numbers_ok(env: EnvVars, c: Config, r: Result<Config, ConfigError>) -> bool {
    match env_numbers_error(env) {
        Some((n, v)) => invalid(r, n, v),
        None => r == Ok::<Config, ConfigError>(env_numbers_value(env, c)),
    }
}

/// Insight settings with the concurrency that the environment sets, when
/// it reads as a number.
pub open spec fn env_insights(env: EnvVars, ins: InsightsConfig) -> InsightsConfig {
    match env.insights_concurrency {
        Some(v) => match parse_usize_spec(v@) {
            Some(n) => InsightsConfig { concurrency: n, ..ins },
            None => ins,
        },
        None => ins,
    }
}

/// The configuration the environment gives over the defaults, with the
/// insight settings of the configuration file.
pub open spec fn from_env_ok(env: EnvVars, ins: InsightsConfig, r: Result<Config, ConfigError>) -> bool {
    exists|d: Config| #[trigger] is_default_config(d) && {
        let c = Config {
            temporal_address: match env.temporal_address { Some(a) => a, None => d.temporal_address },
            temporal_namespace: match env.temporal_namespace { Some(n) => n, None => d.temporal_namespace },
            temporal_api_key: env.temporal_api_key,
            insights: env_insights(env, ins),
            ..d
        };
        env_numbers_ok(env, c, r)
    }
}

/// Reads a numeric environment setting into `c`.
fn apply_env_numbers(env: &EnvVars, c: Config) -> (r: Result<Config, ConfigError>)
    ensures
        env_numbers_ok(*env, c, r),
{
    let mut c = c;
    match &env.refresh_interval {
        Some(v) => match parse_u64(&chars_of(v.as_str())) {
            Some(n) => c.refresh_interval = n,
            None => return Err(ConfigError::InvalidValue("TEMPORAL_TUI_REFRESH_INTERVAL".to_owned(), v.clone())),
        },
        None => {},
    }
    match &env.default_limit {
        Some(v) => match parse_u32(v.as_str()) {
            Some(n) => c.default_limit = if n == 0 { u32::MAX } else { n },
            None => return Err(ConfigError::InvalidValue("TEMPORAL_TUI_DEFAULT_LIMIT".to_owned(), v.clone())),
        },
        None => {},
    }
    match &env.tick_rate {
        Some(v) => match parse_u64(&chars_of(v.as_str())) {
            Some(n) => c.tick_rate = n,
            None => return Err(ConfigError::InvalidValue("TEMPORAL_TUI_TICK_RATE".to_owned(), v.clone())),
        },
        None => {},
    }
    Ok(c)
}

/// A copy of an optional string.
fn copy_opt(o: &Option<String>) -> (r: Option<String>)
    ensures
        r == *o,
{
    match o {
        Some(s) => Some(s.clone()),
        None => None,
    }
}

/// Insight settings with the environment's concurrency applied.
fn apply_env_insights(env: &EnvVars, ins: InsightsConfig) -> (r: InsightsConfig)
    ensures
        r == env_insights(*env, ins),
{
    let mut ins = ins;
    match &env.insights_concurrency {
        Some(v) => match parse_usize(v.as_str()) {
            Some(n) => ins.concurrency = n,
            None => {},
        },
        None => {},
    }
    ins
}

/// The flags of `args` from position `i` on, applied to `c`: `--mock`,
/// `--mock-count N`, `--address A`, `--namespace N` and `--limit N` (zero
/// for none); other arguments are skipped, and a flag at the end without
/// its value is ignored.
pub open spec fn args_ok(c: Config, args: Seq<String>, i: int, r: Result<Config, ConfigError>) -> bool
    decreases args.len() - i,
{
    if i >= args.len() || i < 0 {
        r == Ok::<Config, ConfigError>(c)
    } else {
        let a = args[i]@;
        let has_value = i + 1 < args.len();
        if a == "--mock"@ {
            args_ok(Config { use_mock: true, ..c }, args, i + 1, r)
        } else if a == "--mock-count"@ {
            if !has_value {
                r == Ok::<Config, ConfigError>(c)
            } else {
                match parse_usize_spec(args[i + 1]@) {
                    Some(n) => args_ok(Config { mock_workflow_count: n, ..c }, args, i + 2, r),
                    None => invalid(r, "--mock-count"@, args[i + 1]@),
                }
            }
        } else if a == "--address"@ {
            if !has_value {
                r == Ok::<Config, ConfigError>(c)
            } else {
                args_ok(Config { temporal_address: args[i + 1], ..c }, args, i + 2, r)
            }
        } else if a == "--namespace"@ {
            if !has_value {
                r == Ok::<Config, ConfigError>(c)
            } else {
                args_ok(Config { temporal_namespace: args[i + 1], ..c }, args, i + 2, r)
            }
        } else if a == "--limit"@ {
            if !has_value {
                r == Ok::<Config, ConfigError>(c)
            } else {
                match parse_u32_spec(args[i + 1]@) {
                    Some(n) => args_ok(Config { default_limit: limit_of(n), ..c }, args, i + 2, r),
                    None => invalid(r, "--limit"@, args[i + 1]@),
                }
            }
        } else {
            args_ok(c, args, i + 1, r)
        }
    }
}


/// The flags that take the argument after them as their value.
pub open spec fn takes_value(a: Seq<char>) -> bool {
    a == "--mock-count"@ || a == "--address"@ || a == "--namespace"@ || a == "--limit"@
}

/// The position the scan of the arguments looks at after position `i`.
pub open spec fn next_flag(args: Seq<String>, i: int) -> int {
    if takes_value(args[i]@) { i + 2 } else { i + 1 }
}

/// The scan that starts at position `i` looks at position `j`.
pub open spec fn reached(args: Seq<String>, i: int, j: int) -> bool
    decreases args.len() - i,
{
    if i < 0 || i >= args.len() || j < i {
        false
    } else if i == j {
        true
    } else if next_flag(args, i) >= args.len() {
        false
    } else {
        reached(args, next_flag(args, i), j)
    }
}

/// Position `j` holds a flag taking a number whose value does not read as one.
pub open spec fn bad_at(args: Seq<String>, j: int) -> bool {
    &&& 0 <= j && j + 1 < args.len()
    &&& (args[j]@ == "--mock-count"@ && parse_usize_spec(args[j + 1]@) is None)
        || (args[j]@ == "--limit"@ && parse_u32_spec(args[j + 1]@) is None)
}

/// Reading the arguments left to right: the result is an error exactly
/// when a flag the scan meets takes a number and is followed by a value
/// that does not read as one, and the error names the first such flag and
/// its value. A `--limit` of zero stands for no limit.
pub proof fn law_args_scan(c: Config, args: Seq<String>, i: int, r: Result<Config, ConfigError>)
    requires
        args_ok(c, args, i, r),
        0 <= i,
    ensures
        r is Err <==> exists|j: int| reached(args, i, j) && #[trigger] bad_at(args, j),
        forall|j: int| reached(args, i, j) && #[trigger] bad_at(args, j)
            && (forall|k: int| k < j && reached(args, i, k) ==> !bad_at(args, k))
            ==> invalid(r, args[j]@, args[j + 1]@),
        limit_of(0) == u32::MAX,
    decreases args.len() - i,
{
    reveal_strlit("--mock");
    reveal_strlit("--mock-count");
    reveal_strlit("--address");
    reveal_strlit("--namespace");
    reveal_strlit("--limit");
    assert("--mock"@.len() == 6 && "--mock-count"@.len() == 12 && "--address"@.len() == 9);
    assert("--namespace"@.len() == 11 && "--limit"@.len() == 7);
    if i < args.len() {
        let a = args[i]@;
        let nx = next_flag(args, i);
        let has_value = i + 1 < args.len();
        assert forall|j: int| reached(args, i, j) <==> (j == i || reached(args, nx, j)) by {
            if j > i && reached(args, nx, j) {
            }
        }
        if bad_at(args, i) {
            assert(reached(args, i, i));
            assert(invalid(r, args[i]@, args[i + 1]@));
            assert forall|j: int| reached(args, i, j) && #[trigger] bad_at(args, j)
                && (forall|k: int| k < j && reached(args, i, k) ==> !bad_at(args, k))
                implies invalid(r, args[j]@, args[j + 1]@) by {
                if j != i {
                    assert(i < j);
                }
            }
        } else if takes_value(a) && !has_value {
            assert(r is Ok);
            assert forall|j: int| !(reached(args, nx, j)) by {}
        } else {
            let c2 = if a == "--mock"@ {
                Config { use_mock: true, ..c }
            } else if a == "--mock-count"@ {
                Config { mock_workflow_count: parse_usize_spec(args[i + 1]@)->0, ..c }
            } else if a == "--address"@ {
                Config { temporal_address: args[i + 1], ..c }
            } else if a == "--namespace"@ {
                Config { temporal_namespace: args[i + 1], ..c }
            } else if a == "--limit"@ {
                Config { default_limit: limit_of(parse_u32_spec(args[i + 1]@)->0), ..c }
            } else {
                c
            };
            assert(args_ok(c2, args, nx, r));
            law_args_scan(c2, args, nx, r);
            assert forall|j: int| reached(args, i, j) && #[trigger] bad_at(args, j)
                && (forall|k: int| k < j && reached(args, i, k) ==> !bad_at(args, k))
                implies invalid(r, args[j]@, args[j + 1]@) by {
                assert(j != i);
                assert(reached(args, nx, j));
                assert forall|k: int| k < j && reached(args, nx, k) implies !bad_at(args, k) by {
                    assert(reached(args, i, k));
                }
            }
        }
    }
}

/// A flag that takes a value, standing last where the scan meets it, is
/// ignored: the arguments read as they do without it.
pub proof fn law_args_trailing_flag(c: Config, args: Seq<String>, f: String, i: int, r: Result<Config, ConfigError>)
    requires
        takes_value(f@),
        0 <= i,
        reached(args.push(f), i, args.len() as int),
    ensures
        args_ok(c, args.push(f), i, r) <==> args_ok(c, args, i, r),
    decreases args.len() - i,
{
    reveal_strlit("--mock");
    reveal_strlit("--mock-count");
    reveal_strlit("--address");
    reveal_strlit("--namespace");
    reveal_strlit("--limit");
    assert("--mock"@.len() == 6 && "--mock-count"@.len() == 12 && "--address"@.len() == 9);
    assert("--namespace"@.len() == 11 && "--limit"@.len() == 7);
    let a2 = args.push(f);
    if i < args.len() {
        let a = args[i]@;
        assert(a2[i] == args[i]);
        let nx = next_flag(a2, i);
        assert(reached(a2, nx, args.len() as int));
        if i + 1 < args.len() {
            assert(a2[i + 1] == args[i + 1]);
        }
        if a == "--mock"@ {
            law_args_trailing_flag(Config { use_mock: true, ..c }, args, f, nx, r);
        } else if a == "--mock-count"@ {
            match parse_usize_spec(args[i + 1]@) {
                Some(n) => law_args_trailing_flag(Config { mock_workflow_count: n, ..c }, args, f, nx, r),
                None => {},
            }
        } else if a == "--address"@ {
            law_args_trailing_flag(Config { temporal_address: args[i + 1], ..c }, args, f, nx, r);
        } else if a == "--namespace"@ {
            law_args_trailing_flag(Config { temporal_namespace: args[i + 1], ..c }, args, f, nx, r);
        } else if a == "--limit"@ {
            match parse_u32_spec(args[i + 1]@) {
                Some(n) => law_args_trailing_flag(Config { default_limit: limit_of(n), ..c }, args, f, nx, r),
                None => {},
            }
        } else {
            law_args_trailing_flag(c, args, f, nx, r);
        }
    }
}

/// A failure to read the arguments does not depend on the configuration
/// they start from, and it names a flag that takes a number together with
/// the text after it, which does not read as one.
pub proof fn law_args_error(c1: Config, c2: Config, args: Seq<String>, i: int, r: Result<Config, ConfigError>)
    requires
        args_ok(c1, args, i, r),
        r is Err,
    ensures
        args_ok(c2, args, i, r),
        exists|j: int| #![trigger args[j]] i <= j && j + 1 < args.len() && (
            (args[j]@ == "--mock-count"@ && parse_usize_spec(args[j + 1]@) is None && invalid(r, "--mock-count"@, args[j + 1]@))
            || (args[j]@ == "--limit"@ && parse_u32_spec(args[j + 1]@) is None && invalid(r, "--limit"@, args[j + 1]@))),
    decreases args.len() - i,
{
    if 0 <= i < args.len() {
        let a = args[i]@;
        let has_value = i + 1 < args.len();
        if a == "--mock"@ {
            law_args_error(Config { use_mock: true, ..c1 }, Config { use_mock: true, ..c2 }, args, i + 1, r);
        } else if a == "--mock-count"@ {
            if has_value {
                match parse_usize_spec(args[i + 1]@) {
                    Some(n) => law_args_error(
                        Config { mock_workflow_count: n, ..c1 },
                        Config { mock_workflow_count: n, ..c2 },
                        args,
                        i + 2,
                        r,
                    ),
                    None => assert(args[i]@ == "--mock-count"@),
                }
            }
        } else if a == "--address"@ {
            if has_value {
                law_args_error(
                    Config { temporal_address: args[i + 1], ..c1 },
                    Config { temporal_address: args[i + 1], ..c2 },
                    args,
                    i + 2,
                    r,
                );
            }
        } else if a == "--namespace"@ {
            if has_value {
                law_args_error(
                    Config { temporal_namespace: args[i + 1], ..c1 },
                    Config { temporal_namespace: args[i + 1], ..c2 },
                    args,
                    i + 2,
                    r,
                );
            }
        } else if a == "--limit"@ {
            if has_value {
                match parse_u32_spec(args[i + 1]@) {
                    Some(n) => law_args_error(
                        Config { default_limit: limit_of(n), ..c1 },
                        Config { default_limit: limit_of(n), ..c2 },
                        args,
                        i + 2,
                        r,
                    ),
                    None => assert(args[i]@ == "--limit"@),
                }
            }
        } else {
            law_args_error(c1, c2, args, i + 1, r);
        }
    }
}

/// Whether a string holds the given text.
fn is_text(s: &String, t: &str) -> (r: bool)
    ensures
        r == (s@ == t@),
{
    let a = chars_of(s.as_str());
    let b = chars_of(t);
    crate::text::chars_eq(&a, &b)
}

impl Config {
    /// The configuration from the environment: the defaults, overridden by
    /// the server address, namespace and key that the environment sets,
    /// its refresh interval, fetch limit (zero for none) and tick rate,
    /// which must read as numbers, and the insight settings of the file
    /// with the concurrency that the environment sets.
    pub fn from_env(env: &EnvVars, insights: InsightsConfig) -> (r: Result<Config, ConfigError>)
        ensures
            from_env_ok(*env, insights, r),
    {
        let d = Config::default_config();
        let ghost dd = d;
        let mut c = d;
        match &env.temporal_address {
            Some(a) => c.temporal_address = a.clone(),
            None => {},
        }
        match &env.temporal_namespace {
            Some(n) => c.temporal_namespace = n.clone(),
            None => {},
        }
        c.temporal_api_key = copy_opt(&env.temporal_api_key);
        c.insights = apply_env_insights(env, insights);
        let r = apply_env_numbers(env, c);
        assert(is_default_config(dd));
        r
    }

    /// The configuration from the command-line arguments over the
    /// environment's.
    pub fn from_args(args: &[String], env: &EnvVars, insights: InsightsConfig) -> (r: Result<Config, ConfigError>)
        ensures
            exists|base: Result<Config, ConfigError>| #[trigger] from_env_ok(*env, insights, base) && match base {
                Ok(c) => args_ok(c, args@, 0, r),
                Err(e) => r == Err::<Config, ConfigError>(e),
            },
    {
        let base = Config::from_env(env, insights);
        let ghost b = base;
        let mut config = match base {
            Ok(c) => c,
            Err(e) => return Err(e),
        };
        let mut i: usize = 0;
        while i < args.len()
            invariant
                i <= args@.len() + 1,
                from_env_ok(*env, insights, b),
                b matches Ok(c0) && forall|r: Result<Config, ConfigError>| args_ok(config, args@, i as int, r) ==> args_ok(c0, args@, 0, r),
            decreases args.len() + 1 - i,
        {
            let a = &args[i];
            if is_text(a, "--mock") {
                config.use_mock = true;
                i = i + 1;
            } else if is_text(a, "--mock-count") {
                if i + 1 < args.len() {
                    match parse_usize(args[i + 1].as_str()) {
                        Some(n) => config.mock_workflow_count = n,
                        None => return Err(ConfigError::InvalidValue("--mock-count".to_owned(), args[i + 1].clone())),
                    }
                    i = i + 2;
                } else {
                    return Ok(config);
                }
            } else if is_text(a, "--address") {
                if i + 1 < args.len() {
                    config.temporal_address = args[i + 1].clone();
                    i = i + 2;
                } else {
                    return Ok(config);
                }
            } else if is_text(a, "--namespace") {
                if i + 1 < args.len() {
                    config.temporal_namespace = args[i + 1].clone();
                    i = i + 2;
                } else {
                    return Ok(config);
                }
            } else if is_text(a, "--limit") {
                if i + 1 < args.len() {
                    match parse_u32(args[i + 1].as_str()) {
                        Some(n) => config.default_limit = if n == 0 { u32::MAX } else { n },
                        None => return Err(ConfigError::InvalidValue("--limit".to_owned(), args[i + 1].clone())),
                    }
                    i = i + 2;
                } else {
                    return Ok(config);
                }
            } else {
                i = i + 1;
            }
        }
        Ok(config)
    }
}

/// The first profile with the given name.
pub open spec fn find_profile(ps: Seq<(String, ProfileConfig)>, name: Seq<char>) -> Option<ProfileConfig>
    decreases ps.len(),
{
    if ps.len() == 0 {
        None
    } else if ps[0].0@ == name {
        Some(ps[0].1)
    } else {
        find_profile(ps.drop_first(), name)
    }
}

/// The insight settings: the file's allow-list, and the concurrency that
/// the environment sets, else the file's, else ten.
pub open spec fn insights_from(env: EnvVars, file: ConfigFile, ins: InsightsConfig) -> bool {
    let from_file: usize = match file.insights.concurrency {
        Some(n) => n,
        None => 10,
    };
    &&& ins.allowlist@ == file.insights.allowlist@
    &&& ins.concurrency == match env.insights_concurrency {
        Some(v) => match parse_usize_spec(v@) {
            Some(n) => n,
            None => from_file,
        },
        None => from_file,
    }
}

/// The profile to use: named by the flag, else by the environment, else
/// the file's default.
pub open spec fn chosen_profile(global: GlobalArgs, env: EnvVars, file: ConfigFile) -> Option<String> {
    match global.profile {
        Some(p) => Some(p),
        None => match env.profile {
            Some(p) => Some(p),
            None => file.default_profile,
        },
    }
}

/// The configuration built from the flags, the environment and the
/// configuration file. Connection settings come, in order of precedence,
/// from the `--address` and `--namespace` flags, the chosen profile, the
/// environment and the defaults; a profile named by the flag or the
/// environment must exist (a missing default profile is passed over).
pub open spec fn global_ok(global: GlobalArgs, env: EnvVars, file: ConfigFile, r: Result<Config, ConfigError>) -> bool {
    exists|d: Config, ins: InsightsConfig| #[trigger] is_default_config(d) && #[trigger] insights_from(env, file, ins)
        && global_ok_with(global, env, file, Config { insights: ins, ..d }, r)
}

/// The connection settings over `base`: the profile's, when found, else
/// the environment's.
pub open spec fn connection(env: EnvVars, base: Config, name: Option<String>, found: Option<ProfileConfig>) -> Config {
    match found {
        Some(p) => Config {
            temporal_address: p.address,
            temporal_namespace: p.namespace,
            temporal_api_key: p.api_key,
            active_profile: name,
            ..base
        },
        None => Config {
            temporal_address: match env.temporal_address { Some(a) => a, None => base.temporal_address },
            temporal_namespace: match env.temporal_namespace { Some(n) => n, None => base.temporal_namespace },
            temporal_api_key: env.temporal_api_key,
            ..base
        },
    }
}

/// The configuration over the defaults `base` (with the insight settings).
pub open spec fn global_ok_with(global: GlobalArgs, env: EnvVars, file: ConfigFile, base: Config, r: Result<Config, ConfigError>) -> bool {
    let name = chosen_profile(global, env, file);
    let found = match name {
        Some(n) => find_profile(file.profiles@, n@),
        None => None,
    };
    if name is Some && found is None && (global.profile is Some || env.profile is Some) {
        r matches Err(ConfigError::ProfileNotFound(n)) && n@ == name->0@
    } else {
        match env_numbers_error(env) {
            Some((n, v)) => invalid(r, n, v),
            None => r == Ok::<Config, ConfigError>(flags_over(global, env_numbers_value(env, connection(env, base, name, found)))),
        }
    }
}

/// The flags applied over `c`.
pub open spec fn flags_over(global: GlobalArgs, c: Config) -> Config {
    Config {
        use_mock: global.mock,
        mock_workflow_count: global.mock_count,
        default_limit: if global.limit == 0 { c.default_limit } else { global.limit },
        temporal_address: match global.address { Some(a) => a, None => c.temporal_address },
        temporal_namespace: match global.namespace { Some(n) => n, None => c.temporal_namespace },
        ..c
    }
}

/// A copy of a list of strings.
fn copy_strings(v: &Vec<String>) -> (r: Vec<String>)
    ensures
        r@ == v@,
{
    let mut r: Vec<String> = Vec::new();
    let mut i: usize = 0;
    while i < v.len()
        invariant
            i <= v@.len(),
            r@ == v@.take(i as int),
        decreases v.len() - i,
    {
        r.push(v[i].clone());
        assert(r@ =~= v@.take(i + 1));
        i = i + 1;
    }
    assert(v@.take(v@.len() as int) =~= v@);
    r
}

/// A copy of a profile.
fn copy_profile(p: &ProfileConfig) -> (r: ProfileConfig)
    ensures
        r == *p,
{
    ProfileConfig { address: p.address.clone(), namespace: p.namespace.clone(), api_key: copy_opt(&p.api_key) }
}

/// The first profile with the given name.
pub fn lookup_profile(ps: &Vec<(String, ProfileConfig)>, name: &String) -> (r: Option<ProfileConfig>)
    ensures
        r == find_profile(ps@, name@),
{
    let mut i: usize = 0;
    assert(ps@.skip(0) =~= ps@);
    while i < ps.len()
        invariant
            i <= ps@.len(),
            find_profile(ps@, name@) == find_profile(ps@.skip(i as int), name@),
        decreases ps.len() - i,
    {
        assert(ps@.skip(i as int).drop_first() =~= ps@.skip(i + 1));
        assert(ps@.skip(i as int)[0] == ps@[i as int]);
        if ps[i].0 == *name {
            return Some(copy_profile(&ps[i].1));
        }
        i = i + 1;
    }
    assert(ps@.skip(i as int).len() == 0);
    None
}

impl Config {
    /// The configuration from the global flags, the environment and the
    /// configuration file.
    pub fn from_global_args(global: &GlobalArgs, env: &EnvVars, file: &ConfigFile) -> (r: Result<Config, ConfigError>)
        ensures
            global_ok(*global, *env, *file, r),
    {
        let d = Config::default_config();
        let ghost dd = d;
        let mut config = d;
        let mut ins = InsightsConfig::new();
        ins.allowlist = copy_strings(&file.insights.allowlist);
        ins.concurrency = match file.insights.concurrency {
            Some(n) => n,
            None => config.insights.concurrency,
        };
        config.insights = apply_env_insights(env, ins);
        assert(insights_from(*env, *file, config.insights));
        let ghost base = config;
        let name: Option<String> = match &global.profile {
            Some(p) => Some(p.clone()),
            None => match &env.profile {
                Some(p) => Some(p.clone()),
                None => copy_opt(&file.default_profile),
            },
        };
        let found = match &name {
            Some(n) => lookup_profile(&file.profiles, n),
            None => None,
        };
        match (&name, &found) {
            (Some(n), None) => {
                if global.profile.is_some() || env.profile.is_some() {
                    assert(is_default_config(dd));
                    assert(insights_from(*env, *file, base.insights));
                    let r = Err(ConfigError::ProfileNotFound(n.clone()));
                    assert(global_ok_with(*global, *env, *file, base, r));
                    return r;
                }
            },
            _ => {},
        }
        let ghost fd = found;
        let ghost nm = name;
        assert(nm == chosen_profile(*global, *env, *file));
        assert(fd == match nm {
            Some(n) => find_profile(file.profiles@, n@),
            None => None,
        });
        match found {
            Some(p) => {
                config.temporal_address = p.address;
                config.temporal_namespace = p.namespace;
                config.temporal_api_key = p.api_key;
                config.active_profile = name;
            },
            None => {
                match &env.temporal_address {
                    Some(a) => config.temporal_address = a.clone(),
                    None => {},
                }
                match &env.temporal_namespace {
                    Some(n) => config.temporal_namespace = n.clone(),
                    None => {},
                }
                config.temporal_api_key = copy_opt(&env.temporal_api_key);
            },
        }
        let ghost conn = config;
        assert(conn == connection(*env, base, nm, fd));
        let nums = apply_env_numbers(env, config);
        assert(env_numbers_ok(*env, conn, nums));
        assert(is_default_config(dd));
        assert(insights_from(*env, *file, base.insights));
        match nums {
            Ok(c) => {
                let mut c = c;
                c.use_mock = global.mock;
                c.mock_workflow_count = global.mock_count;
                if global.limit != 0 {
                    c.default_limit = global.limit;
                }
                match &global.address {
                    Some(a) => c.temporal_address = a.clone(),
                    None => {},
                }
                match &global.namespace {
                    Some(n) => c.temporal_namespace = n.clone(),
                    None => {},
                }
                let r = Ok(c);
                assert(global_ok_with(*global, *env, *file, base, r));
                r
            },
            Err(e) => {
                let r = Err(e);
                assert(global_ok_with(*global, *env, *file, base, r));
                r
            },
        }
    }
}


/// The first profile named `name` stands at position `k`.
pub open spec fn first_named(ps: Seq<(String, ProfileConfig)>, name: Seq<char>, k: int) -> bool {
    0 <= k < ps.len() && ps[k].0@ == name && forall|j: int| 0 <= j < k ==> ps[j].0@ != name
}

/// Looking a profile up finds the first one with the name.
proof fn lemma_find_first(ps: Seq<(String, ProfileConfig)>, name: Seq<char>, k: int)
    requires
        first_named(ps, name, k),
    ensures
        find_profile(ps, name) == Some(ps[k].1),
    decreases k,
{
    if k > 0 {
        assert(ps[0].0@ != name);
        assert forall|j: int| 0 <= j < k - 1 implies ps.drop_first()[j].0@ != name by {
            assert(ps.drop_first()[j] == ps[j + 1]);
        }
        lemma_find_first(ps.drop_first(), name, k - 1);
    }
}

/// Looking a profile up finds none when no profile has the name.
proof fn lemma_find_none(ps: Seq<(String, ProfileConfig)>, name: Seq<char>)
    requires
        forall|j: int| 0 <= j < ps.len() ==> ps[j].0@ != name,
    ensures
        find_profile(ps, name) is None,
    decreases ps.len(),
{
    if ps.len() > 0 {
        assert(ps[0].0@ != name);
        assert forall|j: int| 0 <= j < ps.len() - 1 implies ps.drop_first()[j].0@ != name by {
            assert(ps.drop_first()[j] == ps[j + 1]);
        }
        lemma_find_none(ps.drop_first(), name);
    }
}

/// The connection that a found profile gives, under the flags.
pub open spec fn profile_connection(c: Config, global: GlobalArgs, p: ProfileConfig, name: String) -> bool {
    &&& c.temporal_address == match global.address { Some(a) => a, None => p.address }
    &&& c.temporal_namespace == match global.namespace { Some(n) => n, None => p.namespace }
    &&& c.temporal_api_key == p.api_key
    &&& c.active_profile == Some(name)
}

/// The profile the `--profile` flag names is the one used, whatever
/// TEMPURVIEW_PROFILE and the file's default say: its address, namespace
/// and API key are taken (the `--address` and `--namespace` flags still
/// override theirs). Without the flag, the profile TEMPURVIEW_PROFILE names
/// is used, whatever the file's default says; without either, the file's
/// default profile is used. A profile named by the flag that the file does
/// not hold is an error.
pub proof fn law_profile_precedence(global: GlobalArgs, env: EnvVars, file: ConfigFile, r: Result<Config, ConfigError>,
    k: int)
    requires
        global_ok(global, env, file, r),
        env_numbers_error(env) is None,
    ensures
        global.profile matches Some(n) ==> (first_named(file.profiles@, n@, k)
            ==> (r matches Ok(c) && profile_connection(c, global, file.profiles@[k].1, n))),
        global.profile is None ==> (env.profile matches Some(n) ==> (first_named(file.profiles@, n@, k)
            ==> (r matches Ok(c) && profile_connection(c, global, file.profiles@[k].1, n)))),
        (global.profile is None && env.profile is None) ==> (file.default_profile matches Some(n)
            ==> (first_named(file.profiles@, n@, k) ==> (r matches Ok(c) && profile_connection(c, global, file.profiles@[k].1, n)))),
        global.profile matches Some(n) ==> ((forall|j: int| 0 <= j < file.profiles@.len() ==> file.profiles@[j].0@ != n@)
            ==> (r matches Err(ConfigError::ProfileNotFound(m)) && m@ == n@)),
{
    let (d, ins) = choose|d: Config, ins: InsightsConfig| #[trigger] is_default_config(d) && #[trigger] insights_from(env, file, ins)
        && global_ok_with(global, env, file, Config { insights: ins, ..d }, r);
    match global.profile {
        Some(n) => {
            if first_named(file.profiles@, n@, k) {
                lemma_find_first(file.profiles@, n@, k);
            }
        },
        None => match env.profile {
            Some(n) => {
                if first_named(file.profiles@, n@, k) {
                    lemma_find_first(file.profiles@, n@, k);
                }
            },
            None => match file.default_profile {
                Some(n) => {
                    if first_named(file.profiles@, n@, k) {
                        lemma_find_first(file.profiles@, n@, k);
                    }
                },
                None => {},
            },
        },
    }
    if let Some(n) = global.profile {
        if forall|j: int| 0 <= j < file.profiles@.len() ==> file.profiles@[j].0@ != n@ {
            lemma_find_none(file.profiles@, n@);
        }
    }
}

} // verus!
