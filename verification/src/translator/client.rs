//! Translations of a text into one of the styles the translation service
//! offers.

use vstd::prelude::*;
use vstd::string::*;
use crate::http::client::{Exchange, HttpClientError, TranslatorType};

verus! {

/// The part of a translation that holds the text.
#[derive(Debug)]
pub struct TranslationContents {
    /// The text, in the style that was asked for.
    pub translated: String,
}

/// What the translation service sends.
#[derive(Debug)]
pub struct TranslationResponse {
    pub contents: TranslationContents,
}

/// A translator of texts.
pub trait Translator: Send + Sync {
    /// Translates `text` into the given style.
    fn translate(&self, text: &str, translator_type: TranslatorType) -> Result<
        TranslationResponse,
        HttpClientError,
    >;
}

/// One translation asked of a translator: the text and the style, and the
/// translated text that came back.
pub struct Translation {
    pub text: Seq<char>,
    pub style: TranslatorType,
    pub result: Result<Seq<char>, HttpClientError>,
}

/// What a translator gave, with the translated text as a sequence of
/// characters.
pub open spec fn translation_view(r: Result<TranslationResponse, HttpClientError>) -> Result<
    Seq<char>,
    HttpClientError,
> {
    match r {
        Ok(translation) => Ok(translation.contents.translated@),
        Err(error) => Err(error),
    }
}

/// A translator, with a record of the translations asked of it. The
/// translator itself cannot be reached from outside this module: what holds
/// such a handle can have texts translated only by `translate` below, and
/// every such request is recorded.
pub struct RecordedTranslator<'a> {
    translator: &'a dyn Translator,
    translations: Ghost<Seq<Translation>>,
}

impl<'a> RecordedTranslator<'a> {
    /// The translations asked for through this handle, first to last.
    pub closed spec fn translations(&self) -> Seq<Translation> {
        self.translations@
    }

    /// A handle on `translator` through which nothing was asked yet.
    pub fn new(translator: &'a dyn Translator) -> (recorded: RecordedTranslator<'a>)
        ensures
            recorded.translations() == Seq::<Translation>::empty(),
    {
        RecordedTranslator { translator, translations: Ghost(Seq::empty()) }
    }

    /// Translates `text` into the given style, and records the request.
    pub fn translate(&mut self, text: &str, translator_type: TranslatorType) -> (r: Result<
        TranslationResponse,
        HttpClientError,
    >)
        ensures
            final(self).translations() == old(self).translations().push(
                Translation { text: text@, style: translator_type, result: translation_view(r) },
            ),
    {
        let r = self.translator.translate(text, translator_type);
        self.translations = Ghost(
            self.translations@.push(
                Translation { text: text@, style: translator_type, result: translation_view(r) },
            ),
        );
        r
    }
}

/// Whether exactly one translation was asked for between `before` and
/// `after`, and that one of the given text into the given style.
pub open spec fn translated_once(
    before: Seq<Translation>,
    after: Seq<Translation>,
    text: Seq<char>,
    style: TranslatorType,
) -> bool {
    &&& after.len() == before.len() + 1
    &&& after.drop_last() == before
    &&& after.last().text == text
    &&& after.last().style == style
}

/// The form field that carries the text to translate.
pub const TEXT_FIELD: &'static str = "text";

/// Where the translation service takes texts for a style.
pub open spec fn translation_url_of(base_url: Seq<char>, style: TranslatorType) -> Seq<char> {
    base_url + "/"@ + style.label() + ".json"@
}

/// Where the translation service takes texts for a style.
pub fn translation_url(base_url: &str, translator_type: TranslatorType) -> (url: String)
    ensures
        url@ == translation_url_of(base_url@, translator_type),
{
    let mut url = String::from_str(base_url);
    url.append("/");
    url.append(translator_type.as_str());
    url.append(".json");
    url
}

/// What an answer of the translation service comes to. No answer is a failed
/// request. Status 404 means not found, 429 throttled, 503 unavailable, and
/// 500 a failure on the service's side. Under any other status the body
/// decides: a parse error where it cannot be decoded.
pub open spec fn translation_reply<T>(exchange: Exchange<T>) -> Result<T, HttpClientError> {
    match exchange {
        Exchange::Unanswered => Err(HttpClientError::RequestFailed),
        Exchange::Answered { status, body } => if status == 404 {
            Err(HttpClientError::NotFound)
        } else if status == 503 {
            Err(HttpClientError::ServiceUnavailable)
        } else if status == 429 {
            Err(HttpClientError::RateLimited)
        } else if status == 500 {
            Err(HttpClientError::ServerError)
        } else {
            match body {
                Some(body) => Ok(body),
                None => Err(HttpClientError::ParseError),
            }
        },
    }
}

/// Reads an answer of the translation service.
pub fn read_translation_reply<T>(exchange: Exchange<T>) -> (r: Result<T, HttpClientError>)
    ensures
        r == translation_reply(exchange),
{
    match exchange {
        Exchange::Unanswered => Err(HttpClientError::RequestFailed),
        Exchange::Answered { status, body } => if status == 404 {
            Err(HttpClientError::NotFound)
        } else if status == 503 {
            Err(HttpClientError::ServiceUnavailable)
        } else if status == 429 {
            Err(HttpClientError::RateLimited)
        } else if status == 500 {
            Err(HttpClientError::ServerError)
        } else {
            match body {
                Some(body) => Ok(body),
                None => Err(HttpClientError::ParseError),
            }
        },
    }
}

} // verus!
