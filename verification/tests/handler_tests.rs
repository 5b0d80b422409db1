use std::sync::atomic::{AtomicUsize, Ordering};
use std::sync::Mutex;

use pokedex::handlers::{
    after_lookup, get_pokemon, get_pokemon_translation, parse_accept_language, plan_pokemon,
    plan_translation, pokemon_reply, split_wildcard, translation_reply, Plan, Reply,
    TranslationStep,
};
use pokedex::http::client::{HttpClientError, TranslatorType};
use pokedex::http::response::HttpResponse;
use pokedex::metrics::Counter;
use pokedex::pokemon_api::client::{RecordedApi, Pokemon, PokemonApi, PokemonResult};
use pokedex::translator::client::{
    RecordedTranslator, TranslationContents, TranslationResponse, Translator,
};

fn mouse(description: Option<&str>) -> Pokemon {
    Pokemon {
        id: 25,
        name: "pikachu".to_string(),
        habitat: Some("forest".to_string()),
        is_legendary: false,
        description: description.map(|d| d.to_string()),
    }
}

fn bat(description: Option<&str>) -> Pokemon {
    Pokemon {
        id: 41,
        name: "zubat".to_string(),
        habitat: Some("cave".to_string()),
        is_legendary: false,
        description: description.map(|d| d.to_string()),
    }
}

/// Answers every lookup the same way, and remembers what it was asked.
struct RecordingApi {
    calls: AtomicUsize,
    asked: Mutex<Vec<(String, Vec<String>, bool)>>,
    answer: fn() -> PokemonResult,
}

impl RecordingApi {
    fn new(answer: fn() -> PokemonResult) -> Self {
        RecordingApi {
            calls: AtomicUsize::new(0),
            asked: Mutex::new(Vec::new()),
            answer,
        }
    }

    fn calls(&self) -> usize {
        self.calls.load(Ordering::SeqCst)
    }
}

impl PokemonApi for RecordingApi {
    fn get_pokemon(&self, name: &str, languages: &[String], has_wildcard: bool) -> PokemonResult {
        self.calls.fetch_add(1, Ordering::SeqCst);
        self.asked
            .lock()
            .unwrap()
            .push((name.to_string(), languages.to_vec(), has_wildcard));
        (self.answer)()
    }
}

/// Answers every translation the same way, and remembers what it was asked.
struct RecordingTranslator {
    calls: AtomicUsize,
    asked: Mutex<Vec<(String, TranslatorType)>>,
    answer: fn() -> Result<TranslationResponse, HttpClientError>,
}

impl RecordingTranslator {
    fn new(answer: fn() -> Result<TranslationResponse, HttpClientError>) -> Self {
        RecordingTranslator {
            calls: AtomicUsize::new(0),
            asked: Mutex::new(Vec::new()),
            answer,
        }
    }

    fn calls(&self) -> usize {
        self.calls.load(Ordering::SeqCst)
    }
}

impl Translator for RecordingTranslator {
    fn translate(
        &self,
        text: &str,
        translator_type: TranslatorType,
    ) -> Result<TranslationResponse, HttpClientError> {
        self.calls.fetch_add(1, Ordering::SeqCst);
        self.asked
            .lock()
            .unwrap()
            .push((text.to_string(), translator_type));
        (self.answer)()
    }
}

fn found_mouse() -> PokemonResult {
    Ok(("en".to_string(), mouse(Some("A forest mouse."))))
}

fn found_bat() -> PokemonResult {
    Ok(("en".to_string(), bat(Some("A cave bat."))))
}

fn found_without_description() -> PokemonResult {
    Ok(("en".to_string(), mouse(None)))
}

fn translation(text: &str) -> TranslationResponse {
    TranslationResponse {
        contents: TranslationContents {
            translated: text.to_string(),
        },
    }
}

fn hark() -> Result<TranslationResponse, HttpClientError> {
    Ok(translation("Hark, a forest mouse."))
}

fn pokemon_of(api: &RecordingApi, name: &str, accept_language: Option<&str>) -> Reply<Pokemon> {
    get_pokemon(&mut RecordedApi::new(api), name, accept_language)
}

fn translation_of(
    api: &RecordingApi,
    translator: &RecordingTranslator,
    name: &str,
) -> Reply<String> {
    get_pokemon_translation(
        &mut RecordedApi::new(api),
        &mut RecordedTranslator::new(translator),
        name,
    )
}

const BLANK_NAMES: [&str; 7] = ["", " ", "   ", "\t", "\n", " \t\r\n ", "\u{a0}\u{2003}\u{3000}"];

#[test]
fn blank_name_is_not_found_without_any_lookup() {
    for name in BLANK_NAMES {
        let api = RecordingApi::new(found_mouse);
        let reply = pokemon_of(&api, name, Some("en"));
        assert!(matches!(reply.response, HttpResponse::NotFound));
        assert_eq!(reply.response.status_code(), 404);
        assert!(reply.counters.is_empty());
        assert_eq!(api.calls(), 0);
    }
}

#[test]
fn blank_name_is_not_found_without_any_translation() {
    for name in BLANK_NAMES {
        let api = RecordingApi::new(found_mouse);
        let translator = RecordingTranslator::new(hark);
        let reply = translation_of(&api, &translator, name);
        assert!(matches!(reply.response, HttpResponse::NotFound));
        assert_eq!(reply.response.status_code(), 404);
        assert!(reply.counters.is_empty());
        assert_eq!(api.calls(), 0);
        assert_eq!(translator.calls(), 0);
    }
}

#[test]
fn blank_names_plan_no_lookup() {
    for name in BLANK_NAMES {
        assert!(matches!(plan_pokemon(name, None), Plan::Refuse));
        assert!(matches!(plan_translation(name), Plan::Refuse));
    }
    assert!(matches!(plan_pokemon(" pikachu ", None), Plan::Lookup { .. }));
    assert!(matches!(plan_pokemon("\u{200b}", None), Plan::Lookup { .. }));
}

#[test]
fn translation_is_looked_up_in_the_default_language_only() {
    match plan_translation("pikachu") {
        Plan::Lookup {
            languages,
            has_wildcard,
        } => {
            assert_eq!(languages, vec!["en".to_string()]);
            assert!(!has_wildcard);
        }
        Plan::Refuse => panic!("a name was given"),
    }
}

#[test]
fn accept_language_is_read_by_quality() {
    assert_eq!(
        parse_accept_language(Some("es;q=0.9,en;q=0.8,*")),
        (vec!["es".to_string(), "en".to_string()], true)
    );
    assert_eq!(
        parse_accept_language(Some("en;q=0.5, fr")),
        (vec!["fr".to_string(), "en".to_string()], false)
    );
    assert_eq!(
        parse_accept_language(Some("en")),
        (vec!["en".to_string()], false)
    );
    assert_eq!(parse_accept_language(Some("*")), (vec![], true));
    assert_eq!(parse_accept_language(Some("")), (vec![], false));
}

#[test]
fn missing_header_accepts_anything() {
    assert_eq!(parse_accept_language(None), (vec![], true));
}

#[test]
fn header_with_nan_quality_counts_as_missing() {
    for header in [
        "en;q=NaN",
        "en;q=nan,fr",
        "fr, en;q = +NAN",
        "fr,en;q=-nAn",
        "en;q=nan;x=1,fr",
        "fr,en;x=nan;q=1",
        ";q=nan,fr",
    ] {
        assert_eq!(parse_accept_language(Some(header)), (vec![], true));
    }
}

#[test]
fn header_that_only_mentions_nan_is_read_as_it_stands() {
    assert_eq!(
        parse_accept_language(Some("en;q=1;x=nan")),
        (vec!["en".to_string()], false)
    );
    assert_eq!(
        parse_accept_language(Some("nan;q=0.5,fr")),
        (vec!["fr".to_string(), "nan".to_string()], false)
    );
    assert_eq!(
        parse_accept_language(Some("en;q=na")),
        (vec!["en".to_string()], false)
    );
    assert_eq!(
        parse_accept_language(Some("en;q=nanometre,de;q=0.3")),
        (vec!["de".to_string(), "en".to_string()], false)
    );
    assert_eq!(
        parse_accept_language(Some("en;q=nan=1,de;q=0.3")),
        (vec!["de".to_string(), "en".to_string()], false)
    );
    assert_eq!(
        parse_accept_language(Some("en;q=0.2;y=1;x=nan,de;q=0.3,*;q=0.1")),
        (vec!["de".to_string(), "en".to_string()], true)
    );
    assert_eq!(
        parse_accept_language(Some("x=nan,fr;q=0.5")),
        (vec!["x=nan".to_string(), "fr".to_string()], false)
    );
    assert_eq!(
        parse_accept_language(Some("en;q=++nan,fr")),
        (vec!["fr".to_string(), "en".to_string()], false)
    );
}

#[test]
fn wildcard_is_parted_from_the_languages() {
    let tags = vec![
        "*".to_string(),
        "en".to_string(),
        "*".to_string(),
        "**".to_string(),
        "fr".to_string(),
    ];
    assert_eq!(
        split_wildcard(tags),
        (
            vec!["en".to_string(), "**".to_string(), "fr".to_string()],
            true
        )
    );
    assert_eq!(split_wildcard(vec![]), (vec![], false));
    assert_eq!(
        split_wildcard(vec!["en".to_string()]),
        (vec!["en".to_string()], false)
    );
}

#[test]
fn lookup_is_asked_with_the_clients_preferences() {
    let api = RecordingApi::new(found_mouse);
    let reply = pokemon_of(&api, "Pikachu", Some("es;q=0.9,en;q=0.8,*"));
    match reply.response {
        HttpResponse::Success(language, pokemon) => {
            assert_eq!(language, "en");
            assert_eq!(pokemon.name, "pikachu");
            assert_eq!(pokemon.description.as_deref(), Some("A forest mouse."));
        }
        _ => panic!("the lookup succeeded"),
    }
    assert_eq!(
        reply.counters,
        vec![Counter::PokemonRequestsTotal, Counter::PokemonRequestsFound]
    );
    assert_eq!(api.calls(), 1);
    assert_eq!(
        *api.asked.lock().unwrap(),
        vec![(
            "Pikachu".to_string(),
            vec!["es".to_string(), "en".to_string()],
            true
        )]
    );
}

#[test]
fn lookup_failures_become_statuses() {
    let cases: [(HttpClientError, u16, Vec<Counter>); 7] = [
        (
            HttpClientError::NotFound,
            404,
            vec![Counter::PokemonRequestsTotal, Counter::PokemonRequestsNotFound],
        ),
        (
            HttpClientError::NotAcceptable,
            406,
            vec![Counter::PokemonRequestsTotal],
        ),
        (
            HttpClientError::ServiceUnavailable,
            503,
            vec![Counter::PokemonRequestsTotal, Counter::ServiceUnavailableErrors],
        ),
        (
            HttpClientError::RateLimited,
            500,
            vec![Counter::PokemonRequestsTotal],
        ),
        (
            HttpClientError::RequestFailed,
            500,
            vec![Counter::PokemonRequestsTotal],
        ),
        (
            HttpClientError::ParseError,
            500,
            vec![Counter::PokemonRequestsTotal],
        ),
        (
            HttpClientError::ServerError,
            500,
            vec![Counter::PokemonRequestsTotal],
        ),
    ];
    for (error, status, counters) in cases {
        let reply = pokemon_reply(Err(error));
        assert_eq!(reply.response.status_code(), status);
        assert_eq!(reply.counters, counters);
        let response: HttpResponse<String> = HttpResponse::from(error);
        assert_eq!(response.status_code(), status);
    }
    let reply = pokemon_reply(found_mouse());
    assert_eq!(reply.response.status_code(), 200);
}

#[test]
fn translation_goes_through_both_services() {
    let api = RecordingApi::new(found_mouse);
    let translator = RecordingTranslator::new(hark);
    let reply = translation_of(&api, &translator, "pikachu");
    match reply.response {
        HttpResponse::Success(language, text) => {
            assert_eq!(language, "en");
            assert_eq!(text, "Hark, a forest mouse.");
        }
        _ => panic!("the translation succeeded"),
    }
    assert_eq!(
        reply.counters,
        vec![Counter::TranslationsTotal, Counter::TranslationsSucceeded]
    );
    assert_eq!(
        *api.asked.lock().unwrap(),
        vec![("pikachu".to_string(), vec!["en".to_string()], false)]
    );
    assert_eq!(
        *translator.asked.lock().unwrap(),
        vec![("A forest mouse.".to_string(), TranslatorType::Shakespeare)]
    );
}

#[test]
fn cave_dwellers_are_translated_by_yoda() {
    let api = RecordingApi::new(found_bat);
    let translator = RecordingTranslator::new(hark);
    let reply = translation_of(&api, &translator, "zubat");
    assert_eq!(reply.response.status_code(), 200);
    assert_eq!(
        *translator.asked.lock().unwrap(),
        vec![("A cave bat.".to_string(), TranslatorType::Yoda)]
    );
}

#[test]
fn record_without_description_is_not_translated() {
    let api = RecordingApi::new(found_without_description);
    let translator = RecordingTranslator::new(hark);
    let reply = translation_of(&api, &translator, "pikachu");
    assert!(matches!(reply.response, HttpResponse::NotFound));
    assert_eq!(
        reply.counters,
        vec![Counter::TranslationsTotal, Counter::TranslationsFailed]
    );
    assert_eq!(api.calls(), 1);
    assert_eq!(translator.calls(), 0);
}

#[test]
fn failed_lookup_is_not_translated() {
    let api = RecordingApi::new(|| Err(HttpClientError::NotAcceptable));
    let translator = RecordingTranslator::new(hark);
    let reply = translation_of(&api, &translator, "pikachu");
    assert!(matches!(reply.response, HttpResponse::NotAcceptable));
    assert_eq!(reply.response.status_code(), 406);
    assert_eq!(
        reply.counters,
        vec![Counter::TranslationsTotal, Counter::TranslationsFailed]
    );
    assert_eq!(translator.calls(), 0);

    let api = RecordingApi::new(|| Err(HttpClientError::RateLimited));
    let reply = translation_of(&api, &translator, "pikachu");
    assert!(matches!(reply.response, HttpResponse::InternalError));
    assert_eq!(
        reply.counters,
        vec![Counter::TranslationsTotal, Counter::TranslationsFailed]
    );
}

#[test]
fn throttled_translator_is_counted() {
    let api = RecordingApi::new(found_mouse);
    let translator = RecordingTranslator::new(|| Err(HttpClientError::RateLimited));
    let reply = translation_of(&api, &translator, "pikachu");
    assert!(matches!(reply.response, HttpResponse::InternalError));
    assert_eq!(reply.response.status_code(), 500);
    assert_eq!(
        reply.counters,
        vec![
            Counter::TranslationsTotal,
            Counter::RateLimitedErrors,
            Counter::TranslationsFailed
        ]
    );
}

#[test]
fn translator_failures_become_statuses() {
    let cases: [(HttpClientError, u16, Vec<Counter>); 5] = [
        (
            HttpClientError::NotFound,
            404,
            vec![Counter::TranslationsTotal, Counter::TranslationsFailed],
        ),
        (
            HttpClientError::ServiceUnavailable,
            503,
            vec![
                Counter::TranslationsTotal,
                Counter::ServiceUnavailableErrors,
                Counter::TranslationsFailed,
            ],
        ),
        (
            HttpClientError::ServerError,
            500,
            vec![Counter::TranslationsTotal, Counter::TranslationsFailed],
        ),
        (
            HttpClientError::ParseError,
            500,
            vec![Counter::TranslationsTotal, Counter::TranslationsFailed],
        ),
        (
            HttpClientError::RequestFailed,
            500,
            vec![Counter::TranslationsTotal, Counter::TranslationsFailed],
        ),
    ];
    for (error, status, counters) in cases {
        let reply = translation_reply("en".to_string(), Err(error));
        assert_eq!(reply.response.status_code(), status);
        assert_eq!(reply.counters, counters);
    }
}

#[test]
fn after_lookup_hands_the_description_to_the_translator() {
    match after_lookup(found_bat()) {
        TranslationStep::Translate {
            language,
            text,
            style,
        } => {
            assert_eq!(language, "en");
            assert_eq!(text, "A cave bat.");
            assert_eq!(style, TranslatorType::Yoda);
        }
        TranslationStep::Answer(_) => panic!("there is a description to translate"),
    }
    match after_lookup(Err(HttpClientError::ServiceUnavailable)) {
        TranslationStep::Answer(reply) => {
            assert!(matches!(reply.response, HttpResponse::ServiceUnavailable));
            assert_eq!(
                reply.counters,
                vec![
                    Counter::TranslationsTotal,
                    Counter::ServiceUnavailableErrors,
                    Counter::TranslationsFailed
                ]
            );
        }
        TranslationStep::Translate { .. } => panic!("the lookup failed"),
    }
}
