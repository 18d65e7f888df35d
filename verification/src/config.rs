//! Configuration resolution for the search engine.
//!
//! A [`Config`] is built once per invocation from three layered sources,
//! highest priority first: an explicit `-c` flag among the trailing
//! arguments forces case-sensitive search; otherwise a present
//! `CASE_INSENSITIVE` environment variable forces case-insensitive search;
//! otherwise the search is case-sensitive.  The caller reads the
//! environment and passes the variable's presence in as a plain boolean.

use vstd::prelude::*;
use vstd::string::StringExecFns;

verus! {

/// The reasons configuration resolution can fail: the positional `query`
/// and source arguments are both required.
#[derive(Debug, PartialEq, Eq, Structural, Clone, Copy)]
pub enum ConfigError {
    MissingQuery,
    MissingSource,
}

/// An immutable search configuration.  Construction either fully succeeds
/// or fails with a [`ConfigError`]; the fields are never mutated afterwards.
#[derive(Debug)]
pub struct Config {
    /// The literal substring being searched for.
    pub query: String,
    /// An opaque handle to the text source (for example a path); the search
    /// engine itself never interprets it.
    pub filename: String,
    /// Whether lines must contain the query with its exact casing.
    pub case_sensitive: bool,
}

/// The views of a sequence of owned strings, as sequences of characters.
pub open spec fn arg_views(args: Seq<String>) -> Seq<Seq<char>> {
    args.map_values(|s: String| s@)
}

/// Whether the explicit case-sensitivity flag occurs among the trailing
/// arguments (those after the two positional ones).
pub open spec fn flag_present(args: Seq<Seq<char>>) -> bool {
    exists|i: int| 2 <= i < args.len() && args[i] == "-c"@
}

/// The resolved case policy: the explicit flag wins over the environment
/// override, which wins over the case-sensitive default.
pub open spec fn resolved_case(args: Seq<Seq<char>>, env_case_insensitive: bool) -> bool {
    if flag_present(args) {
        true
    } else if env_case_insensitive {
        false
    } else {
        true
    }
}

impl Config {
    /// Resolves a configuration from the argument list with the program
    /// name already stripped: the first token is the query, the second the
    /// source identifier, and `env_case_insensitive` says whether the
    /// environment override is present.
    pub fn resolve(args: &[String], env_case_insensitive: bool) -> (r: Result<
        Config,
        ConfigError,
    >)
        ensures
            args@.len() == 0 ==> r == Err::<Config, ConfigError>(ConfigError::MissingQuery),
            args@.len() == 1 ==> r == Err::<Config, ConfigError>(ConfigError::MissingSource),
            args@.len() >= 2 ==> {
                &&& r is Ok
                &&& r->Ok_0.query@ == args@[0]@
                &&& r->Ok_0.filename@ == args@[1]@
                &&& r->Ok_0.case_sensitive == resolved_case(
                    arg_views(args@),
                    env_case_insensitive,
                )
            },
    {
        if args.len() == 0 {
            return Err(ConfigError::MissingQuery);
        }
        if args.len() == 1 {
            return Err(ConfigError::MissingSource);
        }

        let query = args[0].clone();
        let filename = args[1].clone();

        let flag = String::from_str("-c");
        let mut found = false;
        let mut i: usize = 2;
        while i < args.len()
            invariant
                2 <= i <= args@.len(),
                found == exists|k: int| 2 <= k < i && arg_views(args@)[k] == "-c"@,
                flag@ == "-c"@,
            decreases args@.len() - i,
        {
            proof {
                assert(arg_views(args@)[i as int] == args@[i as int]@);
            }
            if args[i] == flag {
                found = true;
            }
            i = i + 1;
        }

        let case_sensitive = if found {
            true
        } else if env_case_insensitive {
            false
        } else {
            true
        };

        Ok(Config { query, filename, case_sensitive })
    }

    /// Resolves a configuration from the full command line, whose first
    /// token is the program name and is skipped, as [`Config::resolve`]
    /// does for the remaining tokens.
    pub fn new(args: &[String], env_case_insensitive: bool) -> (r: Result<Config, ConfigError>)
        ensures
            args@.len() <= 1 ==> r == Err::<Config, ConfigError>(ConfigError::MissingQuery),
            args@.len() == 2 ==> r == Err::<Config, ConfigError>(ConfigError::MissingSource),
            args@.len() >= 3 ==> {
                &&& r is Ok
                &&& r->Ok_0.query@ == args@[1]@
                &&& r->Ok_0.filename@ == args@[2]@
                &&& r->Ok_0.case_sensitive == resolved_case(
                    arg_views(args@).drop_first(),
                    env_case_insensitive,
                )
            },
    {
        if args.len() == 0 {
            return Err(ConfigError::MissingQuery);
        }
        let rest = &args[1..args.len()];
        proof {
            assert(arg_views(rest@) =~= arg_views(args@).drop_first());
        }
        Config::resolve(rest, env_case_insensitive)
    }
}

} // verus!
