//! Configuration resolution.
//!
//! A run is configured from the command-line tokens and one bit of
//! environment: whether the case-insensitivity override is present.  The
//! first token is the invocation name and carries no information; the next
//! two are the query and the file name; an optional fourth token overrides
//! the case policy; anything further is ignored.

use vstd::prelude::*;

use crate::text::lower_seq;
use crate::text::lowered_eq;

verus! {

/// Why configuration resolution failed.
#[derive(Clone, Copy, Debug, PartialEq, Eq, Structural)]
pub enum ConfigError {
    /// No token followed the invocation name: no query was given.
    MissingQuery,
    /// Exactly one token followed the invocation name: no file name was
    /// given.
    MissingFilename,
}

impl ConfigError {
    /// A human-readable diagnostic for the error stream.
    pub fn message(&self) -> (r: String)
        ensures
            self is MissingQuery ==> r@ == "Didn't get a query string"@,
            self is MissingFilename ==> r@ == "Didn't get a file name"@,
    {
        match self {
            ConfigError::MissingQuery => "Didn't get a query string".to_owned(),
            ConfigError::MissingFilename => "Didn't get a file name".to_owned(),
        }
    }
}

/// A resolved run configuration: what to search for, where to read, and how
/// to compare.  It is built once per run and never changed.
pub struct Config {
    /// The pattern whose containing lines the run prints.
    pub query: String,
    /// The path of the text file the run reads.
    pub filename: String,
    /// Comparison policy: exact when true, under the lowercase mapping when
    /// false.
    pub case_sensitive: bool,
}

/// The case-sensitivity policy before any command token speaks: sensitive,
/// unless the environment override is present.
pub open spec fn default_case_sensitive(env_case_insensitive: bool) -> bool {
    !env_case_insensitive
}

/// The resolved case-sensitivity policy.  A fourth token reading `"true"`
/// or `"false"` in any letter case wins over the environment; any other
/// fourth token is ignored and the default stands.
pub open spec fn resolved_case_sensitive(args: Seq<Seq<char>>, env_case_insensitive: bool) -> bool {
    if args.len() >= 4 {
        let token = lower_seq(args[3]);
        if token == "true"@ {
            true
        } else if token == "false"@ {
            false
        } else {
            default_case_sensitive(env_case_insensitive)
        }
    } else {
        default_case_sensitive(env_case_insensitive)
    }
}

impl Config {
    /// Resolves the command tokens and the environment override into a
    /// configuration.  Fails with `MissingQuery` when no token follows the
    /// invocation name, and with `MissingFilename` when exactly one does; on
    /// success every field is populated and token order is preserved.
    pub fn new(args: &Vec<String>, env_case_insensitive: bool) -> (r: Result<Config, ConfigError>)
        ensures
            args@.len() <= 1 ==> r == Result::<Config, ConfigError>::Err(
                ConfigError::MissingQuery,
            ),
            args@.len() == 2 ==> r == Result::<Config, ConfigError>::Err(
                ConfigError::MissingFilename,
            ),
            args@.len() >= 3 ==> (match r {
                Ok(config) => {
                    &&& config.query@ == args.deep_view()[1]
                    &&& config.filename@ == args.deep_view()[2]
                    &&& config.case_sensitive == resolved_case_sensitive(
                        args.deep_view(),
                        env_case_insensitive,
                    )
                },
                Err(_) => false,
            }),
    {
        if args.len() <= 1 {
            return Err(ConfigError::MissingQuery);
        }
        if args.len() == 2 {
            return Err(ConfigError::MissingFilename);
        }
        let query = args[1].clone();
        let filename = args[2].clone();
        let mut case_sensitive = !env_case_insensitive;
        if args.len() >= 4 {
            let token: &String = &args[3];
            proof {
                assert(token@ == args.deep_view()[3]);
            }
            if lowered_eq(token.as_str(), "true") {
                case_sensitive = true;
            } else if lowered_eq(token.as_str(), "false") {
                case_sensitive = false;
            }
        }
        proof {
            assert(query@ == args.deep_view()[1]);
            assert(filename@ == args.deep_view()[2]);
        }
        Ok(Config { query, filename, case_sensitive })
    }
}

/// With the two required tokens present, no environment override, and no
/// fourth token reading `"false"`, the resolved policy is the default:
/// case-sensitive.
pub proof fn lemma_case_default_sensitive(args: Seq<Seq<char>>)
    requires
        args.len() >= 3,
        args.len() >= 4 ==> lower_seq(args[3]) != "false"@,
    ensures
        resolved_case_sensitive(args, false) == true,
{
}

/// The environment override alone, with no fourth token to contradict it,
/// turns the policy case-insensitive.
pub proof fn lemma_env_override_insensitive(args: Seq<Seq<char>>)
    requires
        args.len() == 3,
    ensures
        resolved_case_sensitive(args, true) == false,
{
}

/// A recognised fourth token wins whatever the environment says: `"true"`
/// in any letter case forces a sensitive search, `"false"` forces an
/// insensitive one, and any other token leaves the environment-derived
/// default in place.
pub proof fn lemma_fourth_token_wins(args: Seq<Seq<char>>, env_case_insensitive: bool)
    requires
        args.len() >= 4,
    ensures
        lower_seq(args[3]) == "true"@ ==> resolved_case_sensitive(args, env_case_insensitive)
            == true,
        lower_seq(args[3]) == "false"@ ==> resolved_case_sensitive(args, env_case_insensitive)
            == false,
        lower_seq(args[3]) != "true"@ && lower_seq(args[3]) != "false"@
            ==> resolved_case_sensitive(args, env_case_insensitive) == default_case_sensitive(
            env_case_insensitive,
        ),
{
    reveal_strlit("true");
    reveal_strlit("false");
    assert("true"@.len() == 4);
    assert("false"@.len() == 5);
}

} // verus!
