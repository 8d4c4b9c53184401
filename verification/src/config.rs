//! Agent configuration: the `--config <file>` argument, and how the settings
//! file and the environment combine (the environment wins; empty variables
//! count as unset).

use vstd::prelude::*;

use crate::agent::{uuid_parsed, parse_uuid};
use crate::text::{
    cat, chars_of, copy_string, eq_lit, opt_chars, slice_range, starts_with, starts_with_exec, string_of,
};

verus! {

/// The path named by `--config <path>` or `--config=<path>`, the first such
/// argument deciding; a trailing `--config` with nothing after it names none.
pub open spec fn config_path_spec(args: Seq<String>) -> Option<Seq<char>>
    decreases args.len(),
{
    if args.len() == 0 {
        None
    } else if args[0]@ == "--config"@ {
        if args.len() > 1 {
            Some(args[1]@)
        } else {
            None
        }
    } else if starts_with(args[0]@, "--config="@) {
        Some(args[0]@.skip(9))
    } else {
        config_path_spec(args.drop_first())
    }
}

/// Read `--config <path>` (or `--config=<path>`) from the arguments.
pub fn config_path_from_args(args: &Vec<String>) -> (r: Option<String>)
    ensures
        opt_chars(r) == config_path_spec(args@),
{
    proof {
        reveal_strlit("--config=");
    }
    let mut i: usize = 0;
    assert(args@.skip(0) =~= args@);
    while i < args.len()
        invariant
            i <= args@.len(),
            config_path_spec(args@) == config_path_spec(args@.skip(i as int)),
        decreases args@.len() - i,
    {
        let ghost rest = args@.skip(i as int);
        assert(rest[0] == args@[i as int]);
        assert(rest.drop_first() =~= args@.skip(i + 1));
        let a = chars_of(args[i].as_str());
        if eq_lit(&a, "--config") {
            if i + 1 < args.len() {
                assert(rest[1] == args@[i + 1]);
                return Some(copy_string(&args[i + 1]));
            }
            return None;
        }
        let prefix = chars_of("--config=");
        if starts_with_exec(&a, &prefix) {
            proof {
                reveal_strlit("--config=");
            }
            let tail = slice_range(&a, 9, a.len());
            assert(tail@ =~= args@[i as int]@.skip(9));
            return Some(string_of(&tail));
        }
        i = i + 1;
    }
    None
}

/// An environment value, empty counting as unset.
pub open spec fn set_value(v: Option<Seq<char>>) -> Option<Seq<char>> {
    match v {
        Some(s) => if s.len() == 0 {
            None
        } else {
            Some(s)
        },
        None => None,
    }
}

/// The first of the choices that is set, else `default`.
pub open spec fn first_set(a: Option<Seq<char>>, b: Option<Seq<char>>, default: Seq<char>) -> Seq<char> {
    match a {
        Some(x) => x,
        None => match b {
            Some(y) => y,
            None => default,
        },
    }
}

fn nonempty(v: &Option<String>) -> (r: Option<String>)
    ensures
        opt_chars(r) == set_value(opt_chars(*v)),
{
    match v {
        Some(s) => if s.as_str().is_empty() {
            None
        } else {
            Some(copy_string(s))
        },
        None => None,
    }
}

fn pick(a: Option<String>, b: Option<String>, default: &str) -> (r: String)
    ensures
        r@ == first_set(opt_chars(a), opt_chars(b), default@),
{
    match a {
        Some(x) => x,
        None => match b {
            Some(y) => y,
            None => default.to_string(),
        },
    }
}

/// The environment variables the agent reads (unset ones as `None`).
#[derive(Debug, Clone, PartialEq, Eq)]
pub struct AgentEnv {
    pub server_url: Option<String>,
    pub agent_id: Option<String>,
    pub host: Option<String>,
    pub hostname: Option<String>,
    pub log: Option<String>,
}

/// The settings file's fields the agent reads.
#[derive(Debug, Clone, PartialEq, Eq)]
pub struct FileConfig {
    pub server_url: Option<String>,
    pub log_level: Option<String>,
}

/// Resolved agent configuration.
#[derive(Debug, Clone, PartialEq, Eq)]
pub struct Config {
    /// Control-plane transport URL (`nats://…` or `ws://…`).
    pub server_url: String,
    /// This agent's identity (a UUID's 128-bit value).
    pub agent_id: u128,
    /// Hostname reported on emitted events.
    pub host: String,
    /// Default tracing filter.
    pub log: String,
}

impl Config {
    /// Combine the environment, the settings file and, for an agent without a
    /// configured identity, the freshly generated `fresh_id`. An agent id in
    /// the environment that is not a UUID is an error.
    pub fn resolve(env: &AgentEnv, file: &FileConfig, fresh_id: u128) -> (r: Result<Config, String>)
        ensures
            match set_value(opt_chars(env.agent_id)) {
                Some(raw) => match uuid_parsed(raw) {
                    None => r is Err,
                    Some(id) => r matches Ok(c) && c.agent_id == id,
                },
                None => r matches Ok(c) && c.agent_id == fresh_id,
            },
            r matches Ok(c) ==> {
                &&& c.server_url@ == first_set(
                    set_value(opt_chars(env.server_url)),
                    opt_chars(file.server_url),
                    "nats://127.0.0.1:14222"@,
                )
                &&& c.host@ == first_set(
                    set_value(opt_chars(env.host)),
                    set_value(opt_chars(env.hostname)),
                    "unknown"@,
                )
                &&& c.log@ == first_set(
                    set_value(opt_chars(env.log)),
                    opt_chars(file.log_level),
                    "info"@,
                )
            },
    {
        let file_url = match &file.server_url {
            Some(u) => Some(copy_string(u)),
            None => None,
        };
        let server_url = pick(nonempty(&env.server_url), file_url, "nats://127.0.0.1:14222");
        let agent_id = match nonempty(&env.agent_id) {
            Some(raw) => match parse_uuid(raw.as_str()) {
                Some(id) => id,
                None => return Err("RAVN_AGENT_ID is not a valid UUID".to_string()),
            },
            None => fresh_id,
        };
        let host = pick(nonempty(&env.host), nonempty(&env.hostname), "unknown");
        let file_log = match &file.log_level {
            Some(l) => Some(copy_string(l)),
            None => None,
        };
        let log = pick(nonempty(&env.log), file_log, "info");
        Ok(Config { server_url, agent_id, host, log })
    }
}

/// `Path::join` of a relative file name onto a directory: the directory, a
/// `/` unless it already ends in one (or is empty), and the name.
pub open spec fn joined(dir: Seq<char>, name: Seq<char>) -> Seq<char> {
    if dir.len() == 0 {
        name
    } else if dir.last() == '/' {
        dir + name
    } else {
        dir + "/"@ + name
    }
}

/// Join a relative file name onto a directory path.
pub fn join_path(dir: &str, name: &str) -> (p: String)
    ensures
        p@ == joined(dir@, name@),
{
    let v = chars_of(dir);
    if v.len() == 0 {
        name.to_string()
    } else if v[v.len() - 1] == '/' {
        cat(dir, name)
    } else {
        let a = cat(dir, "/");
        cat(a.as_str(), name)
    }
}

/// Where the agent keeps its enrolled mTLS identity.
#[derive(Debug, Clone, PartialEq, Eq)]
pub struct Identity {
    pub key_path: String,
    pub cert_path: String,
    pub ca_path: String,
}

impl Identity {
    /// The identity files inside the credential directory `dir`.
    pub fn in_dir(dir: &str) -> (id: Identity)
        ensures
            id.key_path@ == joined(dir@, "agent.key"@),
            id.cert_path@ == joined(dir@, "agent.crt"@),
            id.ca_path@ == joined(dir@, "ca.crt"@),
    {
        Identity {
            key_path: join_path(dir, "agent.key"),
            cert_path: join_path(dir, "agent.crt"),
            ca_path: join_path(dir, "ca.crt"),
        }
    }
}

} // verus!
