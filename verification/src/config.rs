//! The settings of the service, as the environment gives them.

use vstd::prelude::*;
use crate::text::{parse_unsigned, same_text, unsigned_within};

verus! {

/// A variable of the environment.
#[derive(Debug, Clone)]
pub struct Variable {
    pub name: String,
    pub value: String,
}

/// The settings of the service.
#[derive(Debug, Clone)]
pub struct AppConfig {
    pub database_url: String,
    pub nasa_api_url: String,
    pub nasa_api_key: String,
    pub where_iss_url: String,
    /// The polling intervals, in seconds.
    pub fetch_every_osdr: u64,
    pub fetch_every_iss: u64,
    pub fetch_every_apod: u64,
    pub fetch_every_neo: u64,
    pub fetch_every_donki: u64,
    pub fetch_every_spacex: u64,
    pub redis_url: Option<String>,
    pub redis_ttl: u64,
    /// The rate of the admission gate, in tokens per second.
    pub rate_limit_per_second: u32,
}

/// The value of the first variable called `name`.
pub open spec fn var_of(vars: Seq<Variable>, name: Seq<char>) -> Option<Seq<char>>
    decreases vars.len(),
{
    if vars.len() == 0 {
        None
    } else if vars[0].name@ == name {
        Some(vars[0].value@)
    } else {
        var_of(vars.skip(1), name)
    }
}

/// The value of the variable, or `default` where it is not set.
pub open spec fn text_or(vars: Seq<Variable>, name: Seq<char>, default: Seq<char>) -> Seq<char> {
    match var_of(vars, name) {
        Some(value) => value,
        None => default,
    }
}

/// The number that the variable holds, or `default` where it is not set or
/// holds no number of at most `limit`.
pub open spec fn number_or(vars: Seq<Variable>, name: Seq<char>, default: nat, limit: nat) -> nat {
    match var_of(vars, name) {
        Some(value) => match unsigned_within(value, limit) {
            Some(n) => n,
            None => default,
        },
        None => default,
    }
}

/// Where the dataset catalogue is fetched from, unless the environment says otherwise.
pub open spec fn default_nasa_api_url() -> Seq<char> {
    "https://visualization.osdr.nasa.gov/biodata/api/v2/datasets/?format=json"@
}

/// Where the station's position is fetched from, unless the environment says otherwise.
pub open spec fn default_where_iss_url() -> Seq<char> {
    "https://api.wheretheiss.at/v1/satellites/25544"@
}

/// The settings that the variables `vars` give.
pub open spec fn configured(vars: Seq<Variable>, config: AppConfig) -> bool {
    &&& var_of(vars, "DATABASE_URL"@) == Some(config.database_url@)
    &&& config.nasa_api_url@ == text_or(vars, "NASA_API_URL"@, default_nasa_api_url())
    &&& config.nasa_api_key@ == text_or(vars, "NASA_API_KEY"@, Seq::empty())
    &&& config.where_iss_url@ == text_or(vars, "WHERE_ISS_URL"@, default_where_iss_url())
    &&& config.fetch_every_osdr == number_or(vars, "FETCH_EVERY_SECONDS"@, 600, u64::MAX as nat)
    &&& config.fetch_every_iss == number_or(vars, "ISS_EVERY_SECONDS"@, 120, u64::MAX as nat)
    &&& config.fetch_every_apod == number_or(vars, "APOD_EVERY_SECONDS"@, 43200, u64::MAX as nat)
    &&& config.fetch_every_neo == number_or(vars, "NEO_EVERY_SECONDS"@, 7200, u64::MAX as nat)
    &&& config.fetch_every_donki == number_or(vars, "DONKI_EVERY_SECONDS"@, 3600, u64::MAX as nat)
    &&& config.fetch_every_spacex == number_or(
        vars,
        "SPACEX_EVERY_SECONDS"@,
        3600,
        u64::MAX as nat,
    )
    &&& match config.redis_url {
        Some(url) => var_of(vars, "REDIS_URL"@) == Some(url@),
        None => var_of(vars, "REDIS_URL"@) is None,
    }
    &&& config.redis_ttl == number_or(vars, "REDIS_TTL_SECONDS"@, 300, u64::MAX as nat)
    &&& config.rate_limit_per_second == number_or(vars, "RATE_LIMIT_PER_SEC"@, 100, u32::MAX as nat)
}

proof fn lemma_var_skips(vars: Seq<Variable>, name: Seq<char>, n: int)
    requires
        0 <= n <= vars.len(),
        forall|j: int| 0 <= j < n ==> (#[trigger] vars[j]).name@ != name,
    ensures
        var_of(vars, name) == var_of(vars.skip(n), name),
    decreases n,
{
    if n == 0 {
        assert(vars.skip(0) =~= vars);
    } else {
        let rest = vars.skip(1);
        assert forall|j: int| 0 <= j < n - 1 implies (#[trigger] rest[j]).name@ != name by {
            assert(rest[j] == vars[j + 1]);
        }
        lemma_var_skips(rest, name, n - 1);
        assert(rest.skip(n - 1) =~= vars.skip(n));
    }
}

/// The value of the first variable called `name`.
pub fn var(vars: &Vec<Variable>, name: &str) -> (value: Option<String>)
    ensures
        match value {
            Some(v) => var_of(vars@, name@) == Some(v@),
            None => var_of(vars@, name@) is None,
        },
{
    let mut i: usize = 0;
    while i < vars.len()
        invariant
            i <= vars.len(),
            forall|j: int| 0 <= j < i ==> (#[trigger] vars@[j]).name@ != name@,
        decreases vars.len() - i,
    {
        if same_text(vars[i].name.as_str(), name) {
            proof {
                lemma_var_skips(vars@, name@, i as int);
                assert(vars@.skip(i as int)[0] == vars@[i as int]);
            }
            return Some(vars[i].value.clone());
        }
        i = i + 1;
    }
    proof {
        lemma_var_skips(vars@, name@, i as int);
    }
    None
}

fn text_var(vars: &Vec<Variable>, name: &str, default: &str) -> (value: String)
    ensures
        value@ == text_or(vars@, name@, default@),
{
    match var(vars, name) {
        Some(v) => v,
        None => String::from_str(default),
    }
}

/// The number that the variable `key` holds, or `default` where it is not set
/// or holds no number that fits.
pub fn env_u64(vars: &Vec<Variable>, key: &str, default: u64) -> (value: u64)
    ensures
        value == number_or(vars@, key@, default as nat, u64::MAX as nat),
{
    match var(vars, key) {
        Some(text) => match parse_unsigned(text.as_str(), 0xffff_ffff_ffff_ffff) {
            Some(n) => n,
            None => default,
        },
        None => default,
    }
}

fn env_u32(vars: &Vec<Variable>, key: &str, default: u32) -> (value: u32)
    ensures
        value == number_or(vars@, key@, default as nat, u32::MAX as nat),
{
    match var(vars, key) {
        Some(text) => match parse_unsigned(text.as_str(), 0xffff_ffff) {
            Some(n) => n as u32,
            None => default,
        },
        None => default,
    }
}

impl AppConfig {
    /// The settings that the variables give. `DATABASE_URL` must be set; every
    /// other setting has a default, which also stands in for a number that
    /// cannot be read.
    pub fn from_env(vars: &Vec<Variable>) -> (config: Option<AppConfig>)
        ensures
            match config {
                Some(c) => configured(vars@, c),
                None => var_of(vars@, "DATABASE_URL"@) is None,
            },
    {
        let database_url = match var(vars, "DATABASE_URL") {
            Some(url) => url,
            None => {
                return None;
            },
        };
        let nasa_api_url = text_var(
            vars,
            "NASA_API_URL",
            "https://visualization.osdr.nasa.gov/biodata/api/v2/datasets/?format=json",
        );
        let nasa_api_key = text_var(vars, "NASA_API_KEY", "");
        proof {
            reveal_strlit("");
            assert(""@ =~= Seq::<char>::empty());
        }
        let where_iss_url = text_var(
            vars,
            "WHERE_ISS_URL",
            "https://api.wheretheiss.at/v1/satellites/25544",
        );
        Some(
            AppConfig {
                database_url,
                nasa_api_url,
                nasa_api_key,
                where_iss_url,
                fetch_every_osdr: env_u64(vars, "FETCH_EVERY_SECONDS", 600),
                fetch_every_iss: env_u64(vars, "ISS_EVERY_SECONDS", 120),
                fetch_every_apod: env_u64(vars, "APOD_EVERY_SECONDS", 43200),
                fetch_every_neo: env_u64(vars, "NEO_EVERY_SECONDS", 7200),
                fetch_every_donki: env_u64(vars, "DONKI_EVERY_SECONDS", 3600),
                fetch_every_spacex: env_u64(vars, "SPACEX_EVERY_SECONDS", 3600),
                redis_url: var(vars, "REDIS_URL"),
                redis_ttl: env_u64(vars, "REDIS_TTL_SECONDS", 300),
                rate_limit_per_second: env_u32(vars, "RATE_LIMIT_PER_SEC", 100),
            },
        )
    }
}

} // verus!
