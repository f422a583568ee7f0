//! Process configuration: credential, model identifier, parallel-call
//! flag. Reading the config file and the environment is I/O and lives
//! with the caller; the merge itself is pure and lives here.

use vstd::prelude::*;
use vstd::string::*;

verus! {

pub struct Config {
    pub openai_api_key: String,
    pub openai_model: String,
    pub parallel_tool_calls: Option<bool>,
}

/// The model used when neither the file nor the environment names one.
pub fn default_model() -> (r: String)
    ensures
        r@ == "o1"@,
{
    "o1".to_owned()
}

#[derive(Clone, Copy, PartialEq, Eq, Structural, Debug)]
pub enum ConfigError {
    MissingApiKey,
}

impl Config {
    /// Merges file values with environment overrides: the environment
    /// wins field by field; a missing model falls back to the default;
    /// a missing credential is an error; a parallel-calls environment
    /// value means "enabled" exactly when it is non-empty.
    pub fn resolve(
        file_key: Option<String>,
        file_model: Option<String>,
        file_parallel: Option<bool>,
        env_key: Option<String>,
        env_model: Option<String>,
        env_parallel: Option<String>,
    ) -> (r: Result<Config, ConfigError>)
        ensures
            env_key is None && file_key is None ==> r == Err::<Config, ConfigError>(
                ConfigError::MissingApiKey,
            ),
            env_key is Some || file_key is Some ==> r is Ok && {
                let c = r->Ok_0;
                &&& c.openai_api_key@ == (match env_key {
                    Some(k) => k@,
                    None => file_key->0@,
                })
                &&& c.openai_model@ == (match env_model {
                    Some(m) => m@,
                    None => match file_model {
                        Some(m) => m@,
                        None => "o1"@,
                    },
                })
                &&& c.parallel_tool_calls == (match env_parallel {
                    Some(s) => Some(s@.len() > 0),
                    None => file_parallel,
                })
            },
    {
        let key = match env_key {
            Some(k) => k,
            None => match file_key {
                Some(k) => k,
                None => {
                    return Err(ConfigError::MissingApiKey);
                },
            },
        };
        let model = match env_model {
            Some(m) => m,
            None => match file_model {
                Some(m) => m,
                None => default_model(),
            },
        };
        let parallel = match env_parallel {
            Some(s) => Some(!s.as_str().is_empty()),
            None => file_parallel,
        };
        Ok(Config { openai_api_key: key, openai_model: model, parallel_tool_calls: parallel })
    }
}

} // verus!
