//! The API key: where it is kept and which one a run uses.
use vstd::prelude::*;
use crate::paths::{join, join_spec};
use crate::text::{chars_of, string_from, trim, trim_chars};

verus! {

/// Why no API key could be found.
#[derive(Clone, Copy, Debug, PartialEq, Eq, Structural)]
pub enum ApiKeyError {
    /// Neither the environment nor the configuration file holds a key.
    NotFound,
}

/// The key a run uses: the trimmed `SEER_API_KEY` value when it is not blank,
/// else the trimmed contents of the key file (`None` where it could not be read).
pub open spec fn api_key_spec(env: Option<Seq<char>>, file: Option<Seq<char>>) -> Option<Seq<char>> {
    if env is Some && trim(env->0).len() > 0 {
        Some(trim(env->0))
    } else {
        match file {
            Some(f) => Some(trim(f)),
            None => None,
        }
    }
}

/// Chooses the API key from the `SEER_API_KEY` environment value and the contents
/// of the key file: the environment wins unless it is blank.
/// The API key comes from the environment when it holds a non-blank value, and
/// otherwise from the key file saved by `seer login`, trimmed; with neither there
/// is no key.
pub proof fn lemma_api_key_sources(env: Option<Seq<char>>, file: Option<Seq<char>>)
    ensures
        env is Some && trim(env->0).len() > 0 ==> api_key_spec(env, file) == Some(trim(env->0)),
        (env matches Some(e) ==> trim(e).len() == 0) ==> match file {
            Some(f) => api_key_spec(env, file) == Some(trim(f)),
            None => api_key_spec(env, file) is None,
        },
{
}

pub fn load_api_key(env: Option<&str>, file: Option<&str>) -> (r: Result<String, ApiKeyError>)
    ensures
        (env matches Some(e) ==> trim(e@).len() == 0) && file is Some ==> (r matches Ok(k) && k@
            == trim(file->0@)),
        env is Some && trim(env->0@).len() > 0 ==> (r matches Ok(k) && k@ == trim(env->0@)),
        r matches Ok(k) ==> api_key_spec(
            match env {
                Some(e) => Some(e@),
                None => None,
            },
            match file {
                Some(f) => Some(f@),
                None => None,
            },
        ) == Some(k@),
        r is Err ==> api_key_spec(
            match env {
                Some(e) => Some(e@),
                None => None,
            },
            match file {
                Some(f) => Some(f@),
                None => None,
            },
        ) is None,
{
    match env {
        Some(e) => {
            let t = trim_chars(&chars_of(e));
            if t.len() > 0 {
                return Ok(string_from(&t));
            }
        },
        None => {},
    }
    match file {
        Some(f) => Ok(string_from(&trim_chars(&chars_of(f)))),
        None => Err(ApiKeyError::NotFound),
    }
}

/// The key stored by `seer login`: the given key, trimmed.
pub fn stored_api_key(api_key: &str) -> (r: String)
    ensures
        r@ == trim(api_key@),
{
    string_from(&trim_chars(&chars_of(api_key)))
}

/// The key a run uses when `--api-key` is given: that key, trimmed.
pub fn run_api_key(api_key: &str) -> (r: String)
    ensures
        r@ == trim(api_key@),
{
    string_from(&trim_chars(&chars_of(api_key)))
}

/// The key file under the configuration directory: `cli/api_key`.
pub fn api_key_path(config_dir: &str) -> (r: String)
    ensures
        r@ == join_spec(join_spec(config_dir@, "cli"@), "api_key"@),
{
    let d = join(config_dir, "cli");
    join(d.as_str(), "api_key")
}

} // verus!
