//! What the service does about a request: which lookups it makes, and what
//! it answers once their results are in.
//!
//! Each request is decided in steps. A plan says whether anything is looked
//! up at all; the functions that follow turn what the lookups gave into an
//! answer and into the counters to advance for it. The two handlers at the
//! end run the steps against a source of records and a translator, each
//! behind a handle that records what is asked of it: their contracts say
//! what is asked, in which order, and what is made of each answer.

use vstd::prelude::*;
use vstd::string::*;
use crate::bridge::{
    accept_language_order, accept_language_parse, has_nan_quality, names_nan_quality, spaceless,
    writes_nan,
};
use crate::constants::DEFAULT_LANGUAGE;
use crate::http::client::{HttpClientError, TranslatorType};
use crate::http::response::{failure_of, HttpResponse};
use crate::metrics::Counter;
use crate::pokemon_api::client::{
    looked_up_once, result_view, translator_for, Pokemon, PokemonRecord, PokemonResult, RecordedApi,
};
use crate::text::{
    blank, chars_of, find_in_range, is_blank, lemma_split_step, ranges_split, split, split_ranges,
    str_eq, texts,
};
use crate::translator::client::{
    translated_once, translation_view, RecordedTranslator, TranslationResponse,
};

verus! {

/// An answer, and the counters to advance for it, in order.
#[derive(Debug)]
pub struct Reply<T> {
    pub response: HttpResponse<T>,
    pub counters: Vec<Counter>,
}

/// The tags that name a language: all but the wildcard.
pub open spec fn named_languages(tags: Seq<Seq<char>>) -> Seq<Seq<char>> {
    tags.filter(|tag: Seq<char>| tag != "*"@)
}

/// Whether the wildcard is among the tags.
pub open spec fn accepts_any(tags: Seq<Seq<char>>) -> bool {
    tags.contains("*"@)
}

/// What a client prefers, given the `Accept-Language` header it sent, if
/// any: the languages it names, most wanted first, and whether it accepts
/// any other. A client that sent no header accepts any language; a header
/// in which a tag has a quality that is not a number counts as not sent.
pub open spec fn preference_of(header: Option<Seq<char>>) -> (Seq<Seq<char>>, bool) {
    match header {
        Some(header) => if names_nan_quality(header) {
            (Seq::empty(), true)
        } else {
            (
                named_languages(accept_language_order(header)),
                accepts_any(accept_language_order(header)),
            )
        },
        None => (Seq::empty(), true),
    }
}

/// A header that may be missing, as its sequence of characters.
pub open spec fn header_text(header: Option<&str>) -> Option<Seq<char>> {
    match header {
        Some(header) => Some(header@),
        None => None,
    }
}

/// Adding a tag to a list adds it to the languages the list names, unless
/// it is the wildcard.
proof fn lemma_named_languages_push(tags: Seq<Seq<char>>, tag: Seq<char>)
    ensures
        named_languages(tags.push(tag)) == if tag != "*"@ {
            named_languages(tags).push(tag)
        } else {
            named_languages(tags)
        },
{
    reveal(Seq::filter);
    assert(tags.push(tag).drop_last() =~= tags);
}

/// Adding a character to a string adds it to the string without spaces,
/// unless it is a space.
proof fn lemma_spaceless_push(s: Seq<char>, c: char)
    ensures
        spaceless(s.push(c)) == if c != ' ' {
            spaceless(s).push(c)
        } else {
            spaceless(s)
        },
{
    reveal(Seq::filter);
    assert(s.push(c).drop_last() =~= s);
}

/// Parts the wildcard from the languages a client names.
pub fn split_wildcard(tags: Vec<String>) -> (preference: (Vec<String>, bool))
    ensures
        texts(preference.0@) == named_languages(texts(tags@)),
        preference.1 == accepts_any(texts(tags@)),
{
    let ghost all = texts(tags@);
    let mut named: Vec<String> = Vec::new();
    let mut any = false;
    let mut i: usize = 0;
    proof {
        reveal(Seq::filter);
    }
    while i < tags.len()
        invariant
            i <= tags.len(),
            all == texts(tags@),
            texts(named@) == named_languages(all.take(i as int)),
            any == accepts_any(all.take(i as int)),
        decreases tags.len() - i,
    {
        let ghost before = all.take(i as int);
        let ghost tag = tags@[i as int]@;
        proof {
            assert(all.take(i + 1) =~= before.push(tag));
            lemma_named_languages_push(before, tag);
        }
        if str_eq(tags[i].as_str(), "*") {
            any = true;
            assert(before.push(tag)[i as int] == "*"@);
        } else {
            named.push(tags[i].clone());
            assert(accepts_any(before.push(tag)) == accepts_any(before));
        }
        i = i + 1;
    }
    assert(all.take(i as int) =~= all);
    (named, any)
}

/// Whether the characters from `lo` up to `hi` write the number that is not
/// a number.
fn nan_in_range(chars: &Vec<char>, lo: usize, hi: usize) -> (r: bool)
    requires
        lo <= hi <= chars.len(),
    ensures
        r == writes_nan(chars@.subrange(lo as int, hi as int)),
{
    let ghost written = chars@.subrange(lo as int, hi as int);
    let signed = lo < hi && (chars[lo] == '+' || chars[lo] == '-');
    let start: usize = if signed { lo + 1 } else { lo };
    let ghost letters = if signed { written.drop_first() } else { written };
    assert(letters =~= chars@.subrange(start as int, hi as int));
    hi - start == 3 && (chars[start] == 'n' || chars[start] == 'N') && (chars[start + 1] == 'a'
        || chars[start + 1] == 'A') && (chars[start + 2] == 'n' || chars[start + 2] == 'N')
}

/// Whether the tag that `lo..hi` marks has a quality that is not a number.
fn tag_has_nan_quality(chars: &Vec<char>, lo: usize, hi: usize) -> (r: bool)
    requires
        lo <= hi <= chars.len(),
    ensures
        r == has_nan_quality(chars@.subrange(lo as int, hi as int)),
{
    let ghost tag = chars@.subrange(lo as int, hi as int);
    let first_end = find_in_range(chars, lo, hi, ';');
    proof {
        lemma_split_step(tag, ';');
    }
    if first_end == hi {
        return false;
    }
    let ghost after = tag.skip(first_end - lo + 1);
    assert(after =~= chars@.subrange(first_end + 1, hi as int));
    let second_end = find_in_range(chars, first_end + 1, hi, ';');
    let ghost second = chars@.subrange(first_end + 1, second_end as int);
    proof {
        lemma_split_step(after, ';');
        assert(split(tag, ';')[1] == split(tag, ';').drop_first()[0]);
        assert(second =~= after.take(second_end - first_end - 1));
        assert(split(tag, ';')[1] == second);
    }
    let equals = find_in_range(chars, first_end + 1, second_end, '=');
    proof {
        lemma_split_step(second, '=');
    }
    if equals == second_end {
        return false;
    }
    let ghost quality = second.skip(equals - first_end);
    assert(quality =~= chars@.subrange(equals + 1, second_end as int));
    let next_equals = find_in_range(chars, equals + 1, second_end, '=');
    proof {
        lemma_split_step(quality, '=');
        assert(split(second, '=').len() == 1 + split(quality, '=').len());
        assert(split(second, '=')[1] == split(second, '=').drop_first()[0]);
    }
    if next_equals != second_end {
        return false;
    }
    assert(quality.take(quality.len() as int) =~= quality);
    nan_in_range(chars, equals + 1, second_end)
}

/// Whether some tag of `header` has a quality that is not a number.
fn mentions_nan(header: &str) -> (found: bool)
    ensures
        found == names_nan_quality(header@),
{
    let chars = chars_of(header);
    let mut bare: Vec<char> = Vec::new();
    let mut i: usize = 0;
    proof {
        reveal(Seq::filter);
    }
    while i < chars.len()
        invariant
            i <= chars.len(),
            bare@ == spaceless(chars@.take(i as int)),
        decreases chars.len() - i,
    {
        proof {
            assert(chars@.take(i + 1) =~= chars@.take(i as int).push(chars@[i as int]));
            lemma_spaceless_push(chars@.take(i as int), chars@[i as int]);
        }
        if chars[i] != ' ' {
            bare.push(chars[i]);
        }
        i = i + 1;
    }
    assert(chars@.take(i as int) =~= chars@);
    let ranges = split_ranges(&bare, ',');
    let ghost tags = split(spaceless(header@), ',');
    let mut k: usize = 0;
    while k < ranges.len()
        invariant
            k <= ranges.len(),
            bare@ == spaceless(header@),
            tags == split(spaceless(header@), ','),
            ranges_split(ranges@, bare@, ','),
            forall|j: int| 0 <= j < k ==> !has_nan_quality(#[trigger] tags[j]),
        decreases ranges.len() - k,
    {
        let (lo, hi) = ranges[k];
        assert(ranges@[k as int] == (lo, hi));
        assert(bare@.subrange(lo as int, hi as int) == tags[k as int]);
        if tag_has_nan_quality(&bare, lo, hi) {
            return true;
        }
        k = k + 1;
    }
    false
}

/// Reads what a client prefers out of the `Accept-Language` header it sent,
/// if any.
pub fn parse_accept_language(header: Option<&str>) -> (preference: (Vec<String>, bool))
    ensures
        (texts(preference.0@), preference.1) == preference_of(header_text(header)),
{
    match header {
        Some(header) => {
            if mentions_nan(header) {
                let none: Vec<String> = Vec::new();
                (none, true)
            } else {
                let tags = accept_language_parse(header);
                split_wildcard(tags)
            }
        },
        None => {
            let none: Vec<String> = Vec::new();
            (none, true)
        },
    }
}

/// What to do about a request, before anything is looked up.
#[derive(Debug)]
pub enum Plan {
    /// Answer at once that nothing was found. No gateway is asked.
    Refuse,
    /// Look the Pokemon up for a client with these preferences.
    Lookup { languages: Vec<String>, has_wildcard: bool },
}

/// Plans a request for the Pokemon called `name`. A name that is empty or
/// white space throughout is refused at once; any other is looked up with
/// what the client's `Accept-Language` header prefers.
pub fn plan_pokemon(name: &str, accept_language: Option<&str>) -> (plan: Plan)
    ensures
        is_blank(name@) <==> plan is Refuse,
        plan matches Plan::Lookup { languages, has_wildcard } ==> (texts(languages@), has_wildcard)
            == preference_of(header_text(accept_language)),
{
    if blank(name) {
        Plan::Refuse
    } else {
        let (languages, has_wildcard) = parse_accept_language(accept_language);
        Plan::Lookup { languages, has_wildcard }
    }
}

/// Plans a request for the translated description of the Pokemon called
/// `name`. A name that is empty or white space throughout is refused at
/// once; any other is looked up in the default language alone.
pub fn plan_translation(name: &str) -> (plan: Plan)
    ensures
        is_blank(name@) <==> plan is Refuse,
        plan matches Plan::Lookup { languages, has_wildcard } ==> texts(languages@)
            == seq![DEFAULT_LANGUAGE@] && !has_wildcard,
{
    if blank(name) {
        Plan::Refuse
    } else {
        let mut languages: Vec<String> = Vec::new();
        languages.push(DEFAULT_LANGUAGE.to_owned());
        Plan::Lookup { languages, has_wildcard: false }
    }
}

/// Whether `response` answers a request for a Pokemon whose lookup gave
/// `result`: with the record in its language, or with the failure that
/// stands for the error.
pub open spec fn answers_lookup(
    response: HttpResponse<Pokemon>,
    result: Result<(Seq<char>, PokemonRecord), HttpClientError>,
) -> bool {
    match result {
        Ok((language, record)) => response matches HttpResponse::Success(l, p) && l@ == language
            && p@ == record,
        Err(error) => response == failure_of::<Pokemon>(error),
    }
}

/// The counters that an answer to a request for a Pokemon advances, after
/// the one that counts all such requests.
pub open spec fn lookup_counters<T>(response: HttpResponse<T>) -> Seq<Counter> {
    match response {
        HttpResponse::Success(_, _) => seq![Counter::PokemonRequestsFound],
        HttpResponse::NotFound => seq![Counter::PokemonRequestsNotFound],
        HttpResponse::ServiceUnavailable => seq![Counter::ServiceUnavailableErrors],
        HttpResponse::NotAcceptable => Seq::empty(),
        HttpResponse::InternalError => Seq::empty(),
    }
}

/// Answers a request for a Pokemon, given what the lookup gave.
pub fn pokemon_reply(result: PokemonResult) -> (reply: Reply<Pokemon>)
    ensures
        answers_lookup(reply.response, result_view(result)),
        reply.counters@ == seq![Counter::PokemonRequestsTotal] + lookup_counters(reply.response),
{
    let mut counters: Vec<Counter> = Vec::new();
    counters.push(Counter::PokemonRequestsTotal);
    let response = match result {
        Ok((language, pokemon)) => HttpResponse::Success(language, pokemon),
        Err(error) => HttpResponse::from(error),
    };
    match &response {
        HttpResponse::Success(_, _) => {
            counters.push(Counter::PokemonRequestsFound);
        },
        HttpResponse::NotFound => {
            counters.push(Counter::PokemonRequestsNotFound);
        },
        HttpResponse::ServiceUnavailable => {
            counters.push(Counter::ServiceUnavailableErrors);
        },
        HttpResponse::NotAcceptable => {},
        HttpResponse::InternalError => {},
    }
    Reply { response, counters }
}

/// The counters that an answer to a request for a translation advances,
/// after the one that counts all such requests.
pub open spec fn translation_counters<T>(response: HttpResponse<T>) -> Seq<Counter> {
    match response {
        HttpResponse::Success(_, _) => seq![Counter::TranslationsSucceeded],
        HttpResponse::ServiceUnavailable => seq![
            Counter::ServiceUnavailableErrors,
            Counter::TranslationsFailed,
        ],
        HttpResponse::NotFound => seq![Counter::TranslationsFailed],
        HttpResponse::NotAcceptable => seq![Counter::TranslationsFailed],
        HttpResponse::InternalError => seq![Counter::TranslationsFailed],
    }
}

/// Adds to `counters` those that `response` advances.
fn count_translation<T>(counters: &mut Vec<Counter>, response: &HttpResponse<T>)
    ensures
        final(counters)@ == old(counters)@ + translation_counters(*response),
{
    match response {
        HttpResponse::Success(_, _) => {
            counters.push(Counter::TranslationsSucceeded);
        },
        HttpResponse::ServiceUnavailable => {
            counters.push(Counter::ServiceUnavailableErrors);
            counters.push(Counter::TranslationsFailed);
        },
        HttpResponse::NotFound => {
            counters.push(Counter::TranslationsFailed);
        },
        HttpResponse::NotAcceptable => {
            counters.push(Counter::TranslationsFailed);
        },
        HttpResponse::InternalError => {
            counters.push(Counter::TranslationsFailed);
        },
    }
}

/// What comes after the lookup in a request for a translation.
#[derive(Debug)]
pub enum TranslationStep {
    /// Answer; the translator is not asked.
    Answer(Reply<String>),
    /// Ask the translator to put `text` into `style`.
    Translate { language: String, text: String, style: TranslatorType },
}

/// Decides what comes after the lookup in a request for a translation. A
/// record with a description goes to the translator, in the style the
/// record calls for. A record without one is answered as not found, and a
/// failed lookup with the failure that stands for the error.
pub fn after_lookup(result: PokemonResult) -> (step: TranslationStep)
    ensures
        match result_view(result) {
            Ok((language, record)) => match record.description {
                Some(text) => step matches TranslationStep::Translate { language: l, text: t, style }
                    && l@ == language && t@ == text && style == translator_for(
                    record.habitat,
                    record.is_legendary,
                ),
                None => step matches TranslationStep::Answer(reply) && reply.response
                    is NotFound && reply.counters@ == seq![
                    Counter::TranslationsTotal,
                    Counter::TranslationsFailed,
                ],
            },
            Err(error) => step matches TranslationStep::Answer(reply) && reply.response
                == failure_of::<String>(error) && reply.counters@ == seq![
                Counter::TranslationsTotal,
            ] + translation_counters(reply.response),
        },
{
    let failure: HttpResponse<String> = match result {
        Ok((language, pokemon)) => {
            let style = pokemon.get_translator();
            match pokemon.description {
                Some(text) => {
                    return TranslationStep::Translate { language, text, style };
                },
                None => HttpResponse::NotFound,
            }
        },
        Err(error) => HttpResponse::from(error),
    };
    let mut counters: Vec<Counter> = Vec::new();
    counters.push(Counter::TranslationsTotal);
    count_translation(&mut counters, &failure);
    TranslationStep::Answer(Reply { response: failure, counters })
}

/// Whether `reply` answers a request for a translation whose description,
/// written in `language`, the translator made `result` of: with the
/// translated text in the language of the description, or with the failure
/// that stands for the error; and with the counters of either, a throttled
/// translator being counted apart.
pub open spec fn answers_translation(
    reply: Reply<String>,
    language: Seq<char>,
    result: Result<Seq<char>, HttpClientError>,
) -> bool {
    match result {
        Ok(translated) => {
            &&& reply.response matches HttpResponse::Success(l, t) && l@ == language && t@
                == translated
            &&& reply.counters@ == seq![Counter::TranslationsTotal, Counter::TranslationsSucceeded]
        },
        Err(error) => {
            &&& reply.response == failure_of::<String>(error)
            &&& reply.counters@ == seq![Counter::TranslationsTotal] + (if error
                == HttpClientError::RateLimited {
                seq![Counter::RateLimitedErrors]
            } else {
                Seq::empty()
            }) + translation_counters(reply.response)
        },
    }
}

/// Answers a request for a translation, given the language of the
/// description and what the translator gave.
pub fn translation_reply(
    language: String,
    result: Result<TranslationResponse, HttpClientError>,
) -> (reply: Reply<String>)
    ensures
        answers_translation(reply, language@, translation_view(result)),
{
    let mut counters: Vec<Counter> = Vec::new();
    counters.push(Counter::TranslationsTotal);
    let response = match result {
        Ok(translation) => HttpResponse::Success(language, translation.contents.translated),
        Err(error) => {
            match error {
                HttpClientError::RateLimited => {
                    counters.push(Counter::RateLimitedErrors);
                },
                _ => {},
            }
            HttpResponse::from(error)
        },
    };
    let ghost counted = counters@;
    assert(counted =~= seq![Counter::TranslationsTotal] + (if result == Err::<
        TranslationResponse,
        HttpClientError,
    >(HttpClientError::RateLimited) {
        seq![Counter::RateLimitedErrors]
    } else {
        Seq::empty()
    }));
    count_translation(&mut counters, &response);
    assert(result is Ok ==> counters@ =~= seq![
        Counter::TranslationsTotal,
        Counter::TranslationsSucceeded,
    ]);
    Reply { response, counters }
}

/// Handles a request for the Pokemon called `name`.
///
/// A name that is empty or white space throughout is answered as not found:
/// nothing is looked up and nothing is counted. Any other name is looked up
/// once, with what the client's `Accept-Language` header prefers, and what
/// the lookup gives is answered and counted.
pub fn get_pokemon(api: &mut RecordedApi, name: &str, accept_language: Option<&str>) -> (reply: Reply<
    Pokemon,
>)
    ensures
        is_blank(name@) ==> {
            &&& reply.response is NotFound
            &&& reply.counters@.len() == 0
            &&& final(api).lookups() == old(api).lookups()
        },
        !is_blank(name@) ==> {
            &&& looked_up_once(
                old(api).lookups(),
                final(api).lookups(),
                name@,
                preference_of(header_text(accept_language)).0,
                preference_of(header_text(accept_language)).1,
            )
            &&& answers_lookup(reply.response, final(api).lookups().last().result)
            &&& reply.counters@ == seq![Counter::PokemonRequestsTotal] + lookup_counters(
                reply.response,
            )
        },
{
    match plan_pokemon(name, accept_language) {
        Plan::Refuse => Reply { response: HttpResponse::NotFound, counters: Vec::new() },
        Plan::Lookup { languages, has_wildcard } => {
            let ghost before = api.lookups();
            let result = api.get_pokemon(name, languages.as_slice(), has_wildcard);
            assert(api.lookups().drop_last() =~= before);
            pokemon_reply(result)
        },
    }
}

/// Handles a request for the translated description of the Pokemon called
/// `name`.
///
/// A name that is empty or white space throughout is answered as not found:
/// nothing is looked up, nothing is translated and nothing is counted. Any
/// other name is looked up once, in the default language alone. A failed
/// lookup is answered with its failure, and a record without a description
/// as not found; neither is translated. A description is handed to the
/// translator once, in the style its record calls for, and what the
/// translator gives is answered.
pub fn get_pokemon_translation(
    api: &mut RecordedApi,
    translator: &mut RecordedTranslator,
    name: &str,
) -> (reply: Reply<String>)
    ensures
        is_blank(name@) ==> {
            &&& reply.response is NotFound
            &&& reply.counters@.len() == 0
            &&& final(api).lookups() == old(api).lookups()
            &&& final(translator).translations() == old(translator).translations()
        },
        !is_blank(name@) ==> {
            &&& looked_up_once(
                old(api).lookups(),
                final(api).lookups(),
                name@,
                seq![DEFAULT_LANGUAGE@],
                false,
            )
            &&& match final(api).lookups().last().result {
                Ok((language, record)) => match record.description {
                    Some(text) => {
                        &&& translated_once(
                            old(translator).translations(),
                            final(translator).translations(),
                            text,
                            translator_for(record.habitat, record.is_legendary),
                        )
                        &&& answers_translation(
                            reply,
                            language,
                            final(translator).translations().last().result,
                        )
                    },
                    None => {
                        &&& final(translator).translations() == old(translator).translations()
                        &&& reply.response is NotFound
                        &&& reply.counters@ == seq![
                            Counter::TranslationsTotal,
                            Counter::TranslationsFailed,
                        ]
                    },
                },
                Err(error) => {
                    &&& final(translator).translations() == old(translator).translations()
                    &&& reply.response == failure_of::<String>(error)
                    &&& reply.counters@ == seq![Counter::TranslationsTotal] + translation_counters(
                        reply.response,
                    )
                },
            }
        },
{
    match plan_translation(name) {
        Plan::Refuse => Reply { response: HttpResponse::NotFound, counters: Vec::new() },
        Plan::Lookup { languages, has_wildcard } => {
            let ghost looked_up = api.lookups();
            let result = api.get_pokemon(name, languages.as_slice(), has_wildcard);
            assert(api.lookups().drop_last() =~= looked_up);
            match after_lookup(result) {
                TranslationStep::Answer(reply) => reply,
                TranslationStep::Translate { language, text, style } => {
                    let ghost translated = translator.translations();
                    let translation = translator.translate(text.as_str(), style);
                    assert(translator.translations().drop_last() =~= translated);
                    translation_reply(language, translation)
                },
            }
        },
    }
}

} // verus!
