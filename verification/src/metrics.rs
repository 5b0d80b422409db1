//! What is counted, and under which path a request is counted.

use vstd::prelude::*;
use vstd::string::*;
use crate::text::{chars_of, range_is, ranges_split, split, split_ranges};

verus! {

/// The counters the service keeps.
#[derive(Debug, Clone, Copy, PartialEq, Eq, Structural)]
pub enum Counter {
    PokemonRequestsTotal,
    PokemonRequestsFound,
    PokemonRequestsNotFound,
    TranslationsTotal,
    TranslationsSucceeded,
    TranslationsFailed,
    ServiceUnavailableErrors,
    RateLimitedErrors,
}

impl Counter {
    /// The name the counter is published under.
    pub open spec fn label(self) -> Seq<char> {
        match self {
            Counter::PokemonRequestsTotal => "pokemon_requests_total"@,
            Counter::PokemonRequestsFound => "pokemon_requests_found"@,
            Counter::PokemonRequestsNotFound => "pokemon_requests_not_found"@,
            Counter::TranslationsTotal => "translations_total"@,
            Counter::TranslationsSucceeded => "translations_succeeded"@,
            Counter::TranslationsFailed => "translations_failed"@,
            Counter::ServiceUnavailableErrors => "service_unavailable_errors_total"@,
            Counter::RateLimitedErrors => "rate_limited_errors_total"@,
        }
    }

    /// What the counter counts, in words.
    pub open spec fn purpose(self) -> Seq<char> {
        match self {
            Counter::PokemonRequestsTotal => "Total requests to get Pokemon"@,
            Counter::PokemonRequestsFound => "Pokemon requests that returned a result"@,
            Counter::PokemonRequestsNotFound => "Pokemon requests that returned 404"@,
            Counter::TranslationsTotal => "Total translation requests"@,
            Counter::TranslationsSucceeded => "Successful translations"@,
            Counter::TranslationsFailed => "Failed translation requests"@,
            Counter::ServiceUnavailableErrors => "Total service unavailable errors (503)"@,
            Counter::RateLimitedErrors => "Total rate limited errors (429)"@,
        }
    }

    /// The name the counter is published under.
    pub fn name(&self) -> (name: &'static str)
        ensures
            name@ == self.label(),
    {
        match self {
            Counter::PokemonRequestsTotal => "pokemon_requests_total",
            Counter::PokemonRequestsFound => "pokemon_requests_found",
            Counter::PokemonRequestsNotFound => "pokemon_requests_not_found",
            Counter::TranslationsTotal => "translations_total",
            Counter::TranslationsSucceeded => "translations_succeeded",
            Counter::TranslationsFailed => "translations_failed",
            Counter::ServiceUnavailableErrors => "service_unavailable_errors_total",
            Counter::RateLimitedErrors => "rate_limited_errors_total",
        }
    }

    /// What the counter counts, in words.
    pub fn help(&self) -> (help: &'static str)
        ensures
            help@ == self.purpose(),
    {
        match self {
            Counter::PokemonRequestsTotal => "Total requests to get Pokemon",
            Counter::PokemonRequestsFound => "Pokemon requests that returned a result",
            Counter::PokemonRequestsNotFound => "Pokemon requests that returned 404",
            Counter::TranslationsTotal => "Total translation requests",
            Counter::TranslationsSucceeded => "Successful translations",
            Counter::TranslationsFailed => "Failed translation requests",
            Counter::ServiceUnavailableErrors => "Total service unavailable errors (503)",
            Counter::RateLimitedErrors => "Total rate limited errors (429)",
        }
    }

    /// Every counter.
    pub fn all() -> (all: [Counter; 8])
        ensures
            forall|c: Counter| all@.contains(c),
    {
        let all = [
            Counter::PokemonRequestsTotal,
            Counter::PokemonRequestsFound,
            Counter::PokemonRequestsNotFound,
            Counter::TranslationsTotal,
            Counter::TranslationsSucceeded,
            Counter::TranslationsFailed,
            Counter::ServiceUnavailableErrors,
            Counter::RateLimitedErrors,
        ];
        assert forall|c: Counter| all@.contains(c) by {}
        all
    }
}

/// Whether requests for `path` go uncounted: the health check, the metrics
/// themselves, and everything under the two documentation paths.
pub open spec fn is_untracked(path: Seq<char>) -> bool {
    ||| path == "/health"@
    ||| path == "/metrics"@
    ||| "/swagger-ui"@.is_prefix_of(path)
    ||| "/api-docs"@.is_prefix_of(path)
}

/// Whether `chars` opens with `word`.
fn opens_with(chars: &Vec<char>, word: &str) -> (r: bool)
    ensures
        r == word@.is_prefix_of(chars@),
{
    let n: usize = word.unicode_len();
    n <= chars.len() && range_is(chars, 0, n, word)
}

/// Whether requests for `path` go uncounted.
pub fn should_skip_tracking(path: &str) -> (skip: bool)
    ensures
        skip == is_untracked(path@),
{
    let chars = chars_of(path);
    assert(chars@.subrange(0, chars.len() as int) =~= path@);
    range_is(&chars, 0, chars.len(), "/health") || range_is(&chars, 0, chars.len(), "/metrics")
        || opens_with(&chars, "/swagger-ui") || opens_with(&chars, "/api-docs")
}

/// The path a request for `path` is counted under. Names of Pokemon are
/// replaced by a placeholder, so that all requests of one kind are counted
/// together; the root is written as a slash; any other path stands as it is.
pub open spec fn normalized(path: Seq<char>) -> Seq<char> {
    let parts = split(path, '/');
    if parts.len() == 1 && parts[0].len() == 0 {
        "/"@
    } else if parts.len() == 2 && parts[0].len() == 0 && parts[1].len() == 0 {
        "/"@
    } else if parts.len() == 3 && parts[0].len() == 0 && parts[1] == "pokemon"@ {
        "/pokemon/{name}"@
    } else if parts.len() == 4 && parts[0].len() == 0 && parts[1] == "pokemon"@ && parts[3]
        == "translation"@ {
        "/pokemon/{name}/translation/"@
    } else if parts.len() == 5 && parts[0].len() == 0 && parts[1] == "pokemon"@ && parts[3]
        == "translation"@ && parts[4].len() == 0 {
        "/pokemon/{name}/translation/"@
    } else {
        path
    }
}

/// The path a request for `path` is counted under.
pub fn normalize_path(path: &str) -> (label: String)
    ensures
        label@ == normalized(path@),
{
    let chars = chars_of(path);
    let ranges = split_ranges(&chars, '/');
    let n: usize = ranges.len();
    let rooted = n >= 1 && ranges[0].0 == ranges[0].1;
    if n == 1 && rooted {
        return String::from_str("/");
    }
    if n == 2 && rooted && ranges[1].0 == ranges[1].1 {
        return String::from_str("/");
    }
    let pokemon = n >= 3 && rooted && range_is(&chars, ranges[1].0, ranges[1].1, "pokemon");
    if n == 3 && pokemon {
        return String::from_str("/pokemon/{name}");
    }
    let translation = n >= 4 && pokemon && range_is(
        &chars,
        ranges[3].0,
        ranges[3].1,
        "translation",
    );
    if n == 4 && translation {
        return String::from_str("/pokemon/{name}/translation/");
    }
    if n == 5 && translation && ranges[4].0 == ranges[4].1 {
        return String::from_str("/pokemon/{name}/translation/");
    }
    path.to_owned()
}

} // verus!
