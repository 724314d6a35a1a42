//! The settings that remote calls are made with, taken once per run from
//! the values of the process's environment variables.

use vstd::prelude::*;
use vstd::string::*;

use crate::prompt::{trim_text, trimmed};

verus! {

/// The environment variables that may name a proxy, by priority.
pub fn proxy_variables() -> (r: Vec<&'static str>)
    ensures
        r@.map_values(|s: &str| s@) == seq![
            "HTTPS_PROXY"@,
            "https_proxy"@,
            "ALL_PROXY"@,
            "all_proxy"@,
            "HTTP_PROXY"@,
            "http_proxy"@,
        ],
{
    let r = vec!["HTTPS_PROXY", "https_proxy", "ALL_PROXY", "all_proxy", "HTTP_PROXY", "http_proxy"];
    proof {
        assert(r@.map_values(|s: &str| s@) =~= seq![
            "HTTPS_PROXY"@,
            "https_proxy"@,
            "ALL_PROXY"@,
            "all_proxy"@,
            "HTTP_PROXY"@,
            "http_proxy"@,
        ]);
    }
    r
}

/// The environment variables that may hold an access token, by priority.
pub fn token_variables() -> (r: Vec<&'static str>)
    ensures
        r@.map_values(|s: &str| s@) == seq!["GITHUB_TOKEN"@, "GH_TOKEN"@],
{
    let r = vec!["GITHUB_TOKEN", "GH_TOKEN"];
    proof {
        assert(r@.map_values(|s: &str| s@) =~= seq!["GITHUB_TOKEN"@, "GH_TOKEN"@]);
    }
    r
}

/// Among the first `k` values, the first that is set and not blank, trimmed.
pub open spec fn first_setting(values: Seq<Option<String>>, k: int) -> Option<Seq<char>>
    decreases k,
{
    if k <= 0 {
        None
    } else {
        match first_setting(values, k - 1) {
            Some(v) => Some(v),
            None => match values[k - 1] {
                Some(s) => if trimmed(s@).len() > 0 {
                    Some(trimmed(s@))
                } else {
                    None
                },
                None => None,
            },
        }
    }
}

/// The first value, in priority order, that is set and not blank, trimmed.
pub fn first_setting_of(values: &Vec<Option<String>>) -> (r: Option<String>)
    ensures
        match first_setting(values@, values@.len() as int) {
            Some(v) => r matches Some(s) && s@ == v,
            None => r is None,
        },
{
    let mut i: usize = 0;
    while i < values.len()
        invariant
            i <= values@.len(),
            first_setting(values@, i as int) is None,
        decreases values.len() - i,
    {
        if let Some(s) = &values[i] {
            let t = trim_text(s.as_str());
            if t.unicode_len() > 0 {
                proof {
                    lemma_first_setting_stays(values@, i as int + 1, values@.len() as int);
                }
                return Some(String::from_str(t));
            }
        }
        i = i + 1;
    }
    None
}

proof fn lemma_first_setting_stays(values: Seq<Option<String>>, k: int, m: int)
    requires
        0 <= k <= m <= values.len(),
        first_setting(values, k) is Some,
    ensures
        first_setting(values, m) == first_setting(values, k),
    decreases m - k,
{
    if k < m {
        lemma_first_setting_stays(values, k, m - 1);
    }
}

/// How remote calls are made this run: through a proxy, with a token, or
/// neither.
#[derive(Debug, Clone)]
pub struct TransportConfig {
    pub proxy: Option<String>,
    pub token: Option<String>,
}

impl TransportConfig {
    /// The settings from the values of [`proxy_variables`] and
    /// [`token_variables`], in their order.
    pub fn from_values(proxy_values: &Vec<Option<String>>, token_values: &Vec<Option<String>>) -> (r:
        TransportConfig)
        ensures
            match first_setting(proxy_values@, proxy_values@.len() as int) {
                Some(v) => r.proxy matches Some(s) && s@ == v,
                None => r.proxy is None,
            },
            match first_setting(token_values@, token_values@.len() as int) {
                Some(v) => r.token matches Some(s) && s@ == v,
                None => r.token is None,
            },
    {
        TransportConfig { proxy: first_setting_of(proxy_values), token: first_setting_of(token_values) }
    }
}

} // verus!
