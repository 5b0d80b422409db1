//! Pokemon records, put together from what the data service sends.
//!
//! A record's description is chosen by language. The languages the client
//! prefers are tried in order; then the default language; and where the
//! client accepts any language, the first description the service sent is
//! taken. Where the service sent several descriptions in one language, the
//! last of them stands for that language.

use vstd::prelude::*;
use vstd::string::*;
use crate::constants::DEFAULT_LANGUAGE;
use crate::http::client::{is_success, Exchange, HttpClientError, TranslatorType};
use crate::text::{str_eq, text_or_none, texts};

verus! {

/// A Pokemon as the service's clients see it.
#[derive(Debug, Clone)]
pub struct Pokemon {
    pub id: i32,
    pub name: String,
    pub habitat: Option<String>,
    pub is_legendary: bool,
    pub description: Option<String>,
}

/// A `Pokemon`, with its texts as sequences of characters.
pub struct PokemonRecord {
    pub id: i32,
    pub name: Seq<char>,
    pub habitat: Option<Seq<char>>,
    pub is_legendary: bool,
    pub description: Option<Seq<char>>,
}

impl View for Pokemon {
    type V = PokemonRecord;

    open spec fn view(&self) -> PokemonRecord {
        PokemonRecord {
            id: self.id,
            name: self.name@,
            habitat: text_or_none(self.habitat),
            is_legendary: self.is_legendary,
            description: text_or_none(self.description),
        }
    }
}

/// The style a Pokemon's description is translated into: Yoda's for one that
/// lives in a cave, and for a legendary one; Shakespeare's for the rest.
pub open spec fn translator_for(habitat: Option<Seq<char>>, is_legendary: bool) -> TranslatorType {
    if habitat == Some("cave"@) || is_legendary {
        TranslatorType::Yoda
    } else {
        TranslatorType::Shakespeare
    }
}

impl Pokemon {
    /// The style this Pokemon's description is translated into.
    pub fn get_translator(&self) -> (style: TranslatorType)
        ensures
            style == translator_for(self@.habitat, self@.is_legendary),
    {
        let in_cave = match &self.habitat {
            Some(habitat) => str_eq(habitat.as_str(), "cave"),
            None => false,
        };
        if in_cave || self.is_legendary {
            TranslatorType::Yoda
        } else {
            TranslatorType::Shakespeare
        }
    }
}

/// A Pokemon record together with the language of its description, or why
/// there is none.
pub type PokemonResult = Result<(String, Pokemon), HttpClientError>;

/// A `PokemonResult`, with its texts as sequences of characters.
pub open spec fn result_view(r: PokemonResult) -> Result<(Seq<char>, PokemonRecord), HttpClientError> {
    match r {
        Ok((language, pokemon)) => Ok((language@, pokemon@)),
        Err(error) => Err(error),
    }
}

/// Where the data service keeps a Pokemon's species.
#[derive(Debug)]
pub struct SpeciesReference {
    pub url: String,
}

/// What the data service sends for a Pokemon.
#[derive(Debug)]
pub struct BasePokemonResponse {
    pub id: i32,
    pub name: String,
    pub species: SpeciesReference,
}

/// A habitat, by name.
#[derive(Debug)]
pub struct HabitatReference {
    pub name: String,
}

/// A language, by code.
#[derive(Debug)]
pub struct LanguageReference {
    pub name: String,
}

/// A description of a species in one language.
#[derive(Debug)]
pub struct FlavorTextEntry {
    pub flavor_text: String,
    pub language: LanguageReference,
}

/// What the data service sends for a species.
#[derive(Debug)]
pub struct SpeciesResponse {
    pub habitat: Option<HabitatReference>,
    pub is_legendary: bool,
    pub flavor_text_entries: Vec<FlavorTextEntry>,
}

/// A description and its language, as sequences of characters.
pub struct Description {
    pub language: Seq<char>,
    pub text: Seq<char>,
}

impl View for FlavorTextEntry {
    type V = Description;

    open spec fn view(&self) -> Description {
        Description { language: self.language.name@, text: self.flavor_text@ }
    }
}

/// A list of entries, each as a description.
pub open spec fn descriptions(entries: Seq<FlavorTextEntry>) -> Seq<Description> {
    Seq::new(entries.len(), |i: int| entries[i]@)
}

/// The name of a habitat that may be missing.
pub open spec fn habitat_name(habitat: Option<HabitatReference>) -> Option<Seq<char>> {
    match habitat {
        Some(reference) => Some(reference.name@),
        None => None,
    }
}

/// The text on offer in `language`: that of the last description in it.
pub open spec fn offered(descriptions: Seq<Description>, language: Seq<char>) -> Option<Seq<char>>
    decreases descriptions.len(),
{
    if descriptions.len() == 0 {
        None
    } else if descriptions.last().language == language {
        Some(descriptions.last().text)
    } else {
        offered(descriptions.drop_last(), language)
    }
}

/// The first of `languages` in which a text is on offer.
pub open spec fn first_offered(descriptions: Seq<Description>, languages: Seq<Seq<char>>) -> Option<
    Seq<char>,
>
    decreases languages.len(),
{
    if languages.len() == 0 {
        None
    } else if offered(descriptions, languages[0]) is Some {
        Some(languages[0])
    } else {
        first_offered(descriptions, languages.drop_first())
    }
}

/// The language and text chosen for a client. With no description at all,
/// nothing is found. Otherwise the first preferred language on offer is
/// taken; failing that, the default language; failing that, the first
/// description as it was sent, if the client accepts any language.
pub open spec fn negotiated(
    descriptions: Seq<Description>,
    languages: Seq<Seq<char>>,
    has_wildcard: bool,
) -> Result<(Seq<char>, Seq<char>), HttpClientError> {
    if descriptions.len() == 0 {
        Err(HttpClientError::NotFound)
    } else if first_offered(descriptions, languages) is Some {
        let language = first_offered(descriptions, languages)->0;
        Ok((language, offered(descriptions, language)->0))
    } else if offered(descriptions, DEFAULT_LANGUAGE@) is Some {
        Ok((DEFAULT_LANGUAGE@, offered(descriptions, DEFAULT_LANGUAGE@)->0))
    } else if has_wildcard {
        Ok((descriptions[0].language, descriptions[0].text))
    } else {
        Err(HttpClientError::NotAcceptable)
    }
}

/// A language is on offer exactly when some description is in it, and the
/// text on offer is then that of the last such description.
pub proof fn offered_is_last_in_language(descriptions: Seq<Description>, language: Seq<char>)
    ensures
        offered(descriptions, language) is Some <==> exists|i: int|
            0 <= i < descriptions.len() && (#[trigger] descriptions[i]).language == language,
        offered(descriptions, language) is Some ==> exists|i: int|
            {
                &&& 0 <= i < descriptions.len()
                &&& (#[trigger] descriptions[i]).language == language
                &&& descriptions[i].text == offered(descriptions, language)->0
                &&& forall|j: int|
                    i < j < descriptions.len() ==> (#[trigger] descriptions[j]).language != language
            },
    decreases descriptions.len(),
{
    if descriptions.len() > 0 && descriptions.last().language != language {
        let shorter = descriptions.drop_last();
        offered_is_last_in_language(shorter, language);
        if offered(shorter, language) is Some {
            let i = choose|i: int|
                {
                    &&& 0 <= i < shorter.len()
                    &&& (#[trigger] shorter[i]).language == language
                    &&& shorter[i].text == offered(shorter, language)->0
                    &&& forall|j: int|
                        i < j < shorter.len() ==> (#[trigger] shorter[j]).language != language
                };
            assert forall|j: int| i < j < descriptions.len() implies (
            #[trigger] descriptions[j]).language != language by {
                if j < shorter.len() {
                    assert(descriptions[j] == shorter[j]);
                }
            }
        } else {
            assert forall|i: int| 0 <= i < descriptions.len() implies (
            #[trigger] descriptions[i]).language != language by {
                if i < shorter.len() {
                    assert(descriptions[i] == shorter[i]);
                }
            }
        }
    }
}

/// A preferred language is chosen exactly when one of them is on offer, and
/// none before the chosen one is.
pub proof fn first_offered_is_first_on_offer(descriptions: Seq<Description>, languages: Seq<Seq<char>>)
    ensures
        first_offered(descriptions, languages) is Some <==> exists|k: int|
            0 <= k < languages.len() && offered(descriptions, #[trigger] languages[k]) is Some,
        first_offered(descriptions, languages) is Some ==> exists|k: int|
            {
                &&& 0 <= k < languages.len()
                &&& #[trigger] languages[k] == first_offered(descriptions, languages)->0
                &&& offered(descriptions, languages[k]) is Some
                &&& forall|j: int| 0 <= j < k ==> offered(descriptions, #[trigger] languages[j]) is None
            },
    decreases languages.len(),
{
    if languages.len() > 0 && offered(descriptions, languages[0]) is None {
        let rest = languages.drop_first();
        first_offered_is_first_on_offer(descriptions, rest);
        if first_offered(descriptions, rest) is Some {
            let k = choose|k: int|
                {
                    &&& 0 <= k < rest.len()
                    &&& #[trigger] rest[k] == first_offered(descriptions, rest)->0
                    &&& offered(descriptions, rest[k]) is Some
                    &&& forall|j: int| 0 <= j < k ==> offered(descriptions, #[trigger] rest[j]) is None
                };
            assert forall|j: int| 0 <= j < k + 1 implies offered(
                descriptions,
                #[trigger] languages[j],
            ) is None by {
                if j > 0 {
                    assert(languages[j] == rest[j - 1]);
                }
            }
        } else {
            assert forall|k: int| 0 <= k < languages.len() implies offered(
                descriptions,
                #[trigger] languages[k],
            ) is None by {
                if k > 0 {
                    assert(languages[k] == rest[k - 1]);
                }
            }
        }
    }
}

/// Whether some description is in `language`.
pub open spec fn has_language(descriptions: Seq<Description>, language: Seq<char>) -> bool {
    exists|i: int| 0 <= i < descriptions.len() && (#[trigger] descriptions[i]).language == language
}

/// Whether some description is in one of `languages`.
pub open spec fn overlaps(descriptions: Seq<Description>, languages: Seq<Seq<char>>) -> bool {
    exists|k: int| 0 <= k < languages.len() && has_language(descriptions, #[trigger] languages[k])
}

/// With no description at all, nothing is found, whatever the client prefers
/// or accepts.
pub proof fn nothing_offered_is_not_found(languages: Seq<Seq<char>>, has_wildcard: bool)
    ensures
        negotiated(Seq::empty(), languages, has_wildcard) == Err::<
            (Seq<char>, Seq<char>),
            HttpClientError,
        >(HttpClientError::NotFound),
{
}

/// A client that states no preference and accepts no other language is
/// given the description in the default language wherever there is one.
pub proof fn default_language_needs_no_wildcard(descriptions: Seq<Description>)
    requires
        has_language(descriptions, DEFAULT_LANGUAGE@),
    ensures
        negotiated(descriptions, Seq::empty(), false) == Ok::<
            (Seq<char>, Seq<char>),
            HttpClientError,
        >((DEFAULT_LANGUAGE@, offered(descriptions, DEFAULT_LANGUAGE@)->0)),
        exists|i: int|
            0 <= i < descriptions.len() && (#[trigger] descriptions[i]).language
                == DEFAULT_LANGUAGE@ && descriptions[i].text == offered(
                descriptions,
                DEFAULT_LANGUAGE@,
            )->0,
{
    offered_is_last_in_language(descriptions, DEFAULT_LANGUAGE@);
}

/// Where there are descriptions, but none in a language the client prefers
/// and none in the default language, a client that accepts no other language
/// is told that nothing is acceptable.
pub proof fn no_overlap_is_not_acceptable(
    descriptions: Seq<Description>,
    languages: Seq<Seq<char>>,
)
    requires
        descriptions.len() > 0,
        !overlaps(descriptions, languages),
        !has_language(descriptions, DEFAULT_LANGUAGE@),
    ensures
        negotiated(descriptions, languages, false) == Err::<(Seq<char>, Seq<char>), HttpClientError>(
            HttpClientError::NotAcceptable,
        ),
{
    offered_is_last_in_language(descriptions, DEFAULT_LANGUAGE@);
    first_offered_is_first_on_offer(descriptions, languages);
    assert forall|k: int| 0 <= k < languages.len() implies offered(
        descriptions,
        #[trigger] languages[k],
    ) is None by {
        offered_is_last_in_language(descriptions, languages[k]);
    }
}

/// A client that states no preference and accepts any language is given the
/// first description as it was sent, where none is in the default language.
pub proof fn wildcard_takes_first(descriptions: Seq<Description>)
    requires
        descriptions.len() > 0,
        !has_language(descriptions, DEFAULT_LANGUAGE@),
    ensures
        negotiated(descriptions, Seq::empty(), true) == Ok::<(Seq<char>, Seq<char>), HttpClientError>(
            (descriptions[0].language, descriptions[0].text),
        ),
{
    offered_is_last_in_language(descriptions, DEFAULT_LANGUAGE@);
}

/// A negotiated language and text, as sequences of characters.
pub open spec fn choice_view(r: Result<(String, String), HttpClientError>) -> Result<
    (Seq<char>, Seq<char>),
    HttpClientError,
> {
    match r {
        Ok((language, text)) => Ok((language@, text@)),
        Err(error) => Err(error),
    }
}

/// The index of the last entry in `language`, if there is one.
fn last_offer(entries: &Vec<FlavorTextEntry>, language: &str) -> (at: Option<usize>)
    ensures
        at is Some == offered(descriptions(entries@), language@) is Some,
        at matches Some(i) ==> i < entries.len() && offered(descriptions(entries@), language@)
            == Some(entries[i as int].flavor_text@),
{
    let ghost all = descriptions(entries@);
    let mut i: usize = entries.len();
    assert(all.take(i as int) =~= all);
    while i > 0
        invariant
            i <= entries.len(),
            all == descriptions(entries@),
            offered(all, language@) == offered(all.take(i as int), language@),
        decreases i,
    {
        let ghost upto = all.take(i as int);
        i = i - 1;
        assert(upto.drop_last() =~= all.take(i as int));
        if str_eq(entries[i].language.name.as_str(), language) {
            return Some(i);
        }
    }
    None
}

/// Chooses the description for a client that prefers `languages`, in that
/// order, and that accepts any language where `has_wildcard` is set.
///
/// With no description at all, nothing is found. A client without
/// preferences is given the default language where it is on offer, wildcard
/// or not, and with a wildcard the first description where it is not. A
/// client without a wildcard whose languages, the default included, are all
/// missing is told that nothing is acceptable.
#[verifier::loop_isolation(false)]
pub fn negotiate(entries: &Vec<FlavorTextEntry>, languages: &[String], has_wildcard: bool) -> (r:
    Result<(String, String), HttpClientError>)
    ensures
        choice_view(r) == negotiated(descriptions(entries@), texts(languages@), has_wildcard),
        entries@.len() == 0 ==> r == Err::<(String, String), HttpClientError>(
            HttpClientError::NotFound,
        ),
        languages@.len() == 0 && !has_wildcard && has_language(
            descriptions(entries@),
            DEFAULT_LANGUAGE@,
        ) ==> choice_view(r) == Ok::<(Seq<char>, Seq<char>), HttpClientError>(
            (DEFAULT_LANGUAGE@, offered(descriptions(entries@), DEFAULT_LANGUAGE@)->0),
        ),
        entries@.len() > 0 && !has_wildcard && !overlaps(descriptions(entries@), texts(languages@))
            && !has_language(descriptions(entries@), DEFAULT_LANGUAGE@) ==> r == Err::<
            (String, String),
            HttpClientError,
        >(HttpClientError::NotAcceptable),
        entries@.len() > 0 && languages@.len() == 0 && has_wildcard && !has_language(
            descriptions(entries@),
            DEFAULT_LANGUAGE@,
        ) ==> choice_view(r) == Ok::<(Seq<char>, Seq<char>), HttpClientError>(
            (entries@[0]@.language, entries@[0]@.text),
        ),
{
    let ghost all = descriptions(entries@);
    let ghost wanted = texts(languages@);
    proof {
        if languages@.len() == 0 {
            if has_language(all, DEFAULT_LANGUAGE@) {
                default_language_needs_no_wildcard(all);
            } else if entries@.len() > 0 {
                wildcard_takes_first(all);
            }
        }
        if entries@.len() > 0 && !overlaps(all, wanted) && !has_language(all, DEFAULT_LANGUAGE@) {
            no_overlap_is_not_acceptable(all, wanted);
        }
    }
    if entries.len() == 0 {
        return Err(HttpClientError::NotFound);
    }
    let mut k: usize = 0;
    assert(wanted.skip(0) =~= wanted);
    while k < languages.len()
        invariant
            k <= languages.len(),
            all == descriptions(entries@),
            wanted == texts(languages@),
            entries.len() > 0,
            first_offered(all, wanted) == first_offered(all, wanted.skip(k as int)),
        decreases languages.len() - k,
    {
        let ghost rest = wanted.skip(k as int);
        assert(rest.drop_first() =~= wanted.skip(k + 1));
        match last_offer(entries, languages[k].as_str()) {
            Some(i) => {
                return Ok((languages[k].clone(), entries[i].flavor_text.clone()));
            },
            None => {},
        }
        k = k + 1;
    }
    match last_offer(entries, DEFAULT_LANGUAGE) {
        Some(i) => {
            return Ok((DEFAULT_LANGUAGE.to_owned(), entries[i].flavor_text.clone()));
        },
        None => {},
    }
    if has_wildcard {
        Ok((entries[0].language.name.clone(), entries[0].flavor_text.clone()))
    } else {
        Err(HttpClientError::NotAcceptable)
    }
}

/// What the data service sends for a Pokemon, as sequences of characters.
pub struct BaseData {
    pub id: i32,
    pub name: Seq<char>,
    pub species_url: Seq<char>,
}

impl View for BasePokemonResponse {
    type V = BaseData;

    open spec fn view(&self) -> BaseData {
        BaseData { id: self.id, name: self.name@, species_url: self.species.url@ }
    }
}

/// What the data service sends for a species, as sequences of characters.
pub struct SpeciesData {
    pub habitat: Option<Seq<char>>,
    pub is_legendary: bool,
    pub descriptions: Seq<Description>,
}

impl View for SpeciesResponse {
    type V = SpeciesData;

    open spec fn view(&self) -> SpeciesData {
        SpeciesData {
            habitat: habitat_name(self.habitat),
            is_legendary: self.is_legendary,
            descriptions: descriptions(self.flavor_text_entries@),
        }
    }
}

/// The record made of a Pokemon and its species: the Pokemon's number and
/// name, the species' habitat and rank, and the description negotiated
/// among the species' descriptions, with the language that was chosen.
pub open spec fn resolved(
    base: BaseData,
    species: SpeciesData,
    languages: Seq<Seq<char>>,
    has_wildcard: bool,
) -> Result<(Seq<char>, PokemonRecord), HttpClientError> {
    match negotiated(species.descriptions, languages, has_wildcard) {
        Ok((language, text)) => Ok(
            (
                language,
                PokemonRecord {
                    id: base.id,
                    name: base.name,
                    habitat: species.habitat,
                    is_legendary: species.is_legendary,
                    description: Some(text),
                },
            ),
        ),
        Err(error) => Err(error),
    }
}

/// Makes a record of a Pokemon and its species, for a client that prefers
/// `languages`, in that order, and that accepts any language where
/// `has_wildcard` is set.
pub fn resolve(
    base: BasePokemonResponse,
    species: SpeciesResponse,
    languages: &[String],
    has_wildcard: bool,
) -> (r: PokemonResult)
    ensures
        result_view(r) == resolved(base@, species@, texts(languages@), has_wildcard),
{
    match negotiate(&species.flavor_text_entries, languages, has_wildcard) {
        Ok((language, text)) => {
            let habitat = match species.habitat {
                Some(reference) => Some(reference.name),
                None => None,
            };
            Ok(
                (
                    language,
                    Pokemon {
                        id: base.id,
                        name: base.name,
                        habitat,
                        is_legendary: species.is_legendary,
                        description: Some(text),
                    },
                ),
            )
        },
        Err(error) => Err(error),
    }
}

/// A source of Pokemon records.
pub trait PokemonApi: Send + Sync {
    /// Looks up the Pokemon called `name` for a client that prefers
    /// `languages`, in that order, and that accepts any language where
    /// `has_wildcard` is set.
    fn get_pokemon(&self, name: &str, languages: &[String], has_wildcard: bool) -> PokemonResult;
}

/// One lookup made of a source of records: what was asked, and what came
/// back.
pub struct Lookup {
    pub name: Seq<char>,
    pub languages: Seq<Seq<char>>,
    pub has_wildcard: bool,
    pub result: Result<(Seq<char>, PokemonRecord), HttpClientError>,
}

/// A source of Pokemon records, with a record of the lookups made through
/// it. The source itself cannot be reached from outside this module: what
/// holds such a handle can look Pokemon up only by `get_pokemon` below, and
/// every such lookup is recorded.
pub struct RecordedApi<'a> {
    api: &'a dyn PokemonApi,
    lookups: Ghost<Seq<Lookup>>,
}

impl<'a> RecordedApi<'a> {
    /// The lookups made through this handle, first to last.
    pub closed spec fn lookups(&self) -> Seq<Lookup> {
        self.lookups@
    }

    /// A handle on `api` through which nothing was looked up yet.
    pub fn new(api: &'a dyn PokemonApi) -> (recorded: RecordedApi<'a>)
        ensures
            recorded.lookups() == Seq::<Lookup>::empty(),
    {
        RecordedApi { api, lookups: Ghost(Seq::empty()) }
    }

    /// Looks up the Pokemon called `name`, and records the lookup.
    pub fn get_pokemon(&mut self, name: &str, languages: &[String], has_wildcard: bool) -> (r:
        PokemonResult)
        ensures
            final(self).lookups() == old(self).lookups().push(
                Lookup {
                    name: name@,
                    languages: texts(languages@),
                    has_wildcard,
                    result: result_view(r),
                },
            ),
    {
        let r = self.api.get_pokemon(name, languages, has_wildcard);
        self.lookups = Ghost(
            self.lookups@.push(
                Lookup {
                    name: name@,
                    languages: texts(languages@),
                    has_wildcard,
                    result: result_view(r),
                },
            ),
        );
        r
    }
}

/// The data service, one request at a time.
pub trait PokemonApiProxy: Send + Sync {
    /// Asks for the Pokemon called `name`.
    fn get_base_pokemon(&self, name: &str) -> Result<BasePokemonResponse, HttpClientError>;

    /// Asks for the species kept at `species_url`.
    fn get_species(&self, species_url: &str) -> Result<SpeciesResponse, HttpClientError>;
}

/// Whether exactly one lookup was made between `before` and `after`, and
/// that one with the given name and preferences.
pub open spec fn looked_up_once(
    before: Seq<Lookup>,
    after: Seq<Lookup>,
    name: Seq<char>,
    languages: Seq<Seq<char>>,
    has_wildcard: bool,
) -> bool {
    &&& after.len() == before.len() + 1
    &&& after.drop_last() == before
    &&& after.last().name == name
    &&& after.last().languages == languages
    &&& after.last().has_wildcard == has_wildcard
}

/// A request made of the data service, with what it answered.
pub enum Request {
    Base { name: Seq<char>, pokemon: Result<BaseData, HttpClientError> },
    Species { url: Seq<char>, species: Result<SpeciesData, HttpClientError> },
}

/// An answer to a request for a Pokemon, as sequences of characters.
pub open spec fn base_view(r: Result<BasePokemonResponse, HttpClientError>) -> Result<
    BaseData,
    HttpClientError,
> {
    match r {
        Ok(base) => Ok(base@),
        Err(error) => Err(error),
    }
}

/// An answer to a request for a species, as sequences of characters.
pub open spec fn species_view(r: Result<SpeciesResponse, HttpClientError>) -> Result<
    SpeciesData,
    HttpClientError,
> {
    match r {
        Ok(species) => Ok(species@),
        Err(error) => Err(error),
    }
}

/// The data service, with a record of the requests made of it. The service
/// itself cannot be reached from outside this module: what holds such a
/// handle can ask only by the two functions below, and every request is
/// recorded with its answer.
pub struct RecordedProxy<'a> {
    proxy: &'a dyn PokemonApiProxy,
    requests: Ghost<Seq<Request>>,
}

impl<'a> RecordedProxy<'a> {
    /// The requests made through this handle, first to last.
    pub closed spec fn requests(&self) -> Seq<Request> {
        self.requests@
    }

    /// A handle on `proxy` through which nothing was asked yet.
    pub fn new(proxy: &'a dyn PokemonApiProxy) -> (recorded: RecordedProxy<'a>)
        ensures
            recorded.requests() == Seq::<Request>::empty(),
    {
        RecordedProxy { proxy, requests: Ghost(Seq::empty()) }
    }

    /// Asks for the Pokemon called `name`, and records the request.
    pub fn get_base_pokemon(&mut self, name: &str) -> (r: Result<
        BasePokemonResponse,
        HttpClientError,
    >)
        ensures
            final(self).requests() == old(self).requests().push(
                Request::Base { name: name@, pokemon: base_view(r) },
            ),
    {
        let r = self.proxy.get_base_pokemon(name);
        self.requests = Ghost(
            self.requests@.push(Request::Base { name: name@, pokemon: base_view(r) }),
        );
        r
    }

    /// Asks for the species kept at `species_url`, and records the request.
    pub fn get_species(&mut self, species_url: &str) -> (r: Result<SpeciesResponse, HttpClientError>)
        ensures
            final(self).requests() == old(self).requests().push(
                Request::Species { url: species_url@, species: species_view(r) },
            ),
    {
        let r = self.proxy.get_species(species_url);
        self.requests = Ghost(
            self.requests@.push(Request::Species { url: species_url@, species: species_view(r) }),
        );
        r
    }
}

/// The requests that one lookup makes, given how the data service answers:
/// first for the Pokemon by its name and then, if that was answered, for the
/// species at the address the answer gave.
pub open spec fn requests_made(
    name: Seq<char>,
    base: Result<BaseData, HttpClientError>,
    species: Result<SpeciesData, HttpClientError>,
) -> Seq<Request> {
    match base {
        Ok(found) => seq![
            Request::Base { name, pokemon: base },
            Request::Species { url: found.species_url, species },
        ],
        Err(_) => seq![Request::Base { name, pokemon: base }],
    }
}

/// What one lookup comes to, given how the data service answers: the first
/// failure as it is, and otherwise the record made of the two answers.
pub open spec fn aggregated(
    base: Result<BaseData, HttpClientError>,
    species: Result<SpeciesData, HttpClientError>,
    languages: Seq<Seq<char>>,
    has_wildcard: bool,
) -> Result<(Seq<char>, PokemonRecord), HttpClientError> {
    match base {
        Ok(found) => match species {
            Ok(kind) => resolved(found, kind, languages, has_wildcard),
            Err(error) => Err(error),
        },
        Err(error) => Err(error),
    }
}

/// Looks up the Pokemon called `name` for a client that prefers
/// `languages`, in that order, and that accepts any language where
/// `has_wildcard` is set.
///
/// The data service is asked for the Pokemon and then, unless that failed,
/// for its species; nothing else is asked. A failure of either request is
/// passed on as it is, and two answers are made into a record.
pub fn aggregate(
    proxy: &mut RecordedProxy,
    name: &str,
    languages: &[String],
    has_wildcard: bool,
) -> (r: PokemonResult)
    ensures
        exists|base: Result<BaseData, HttpClientError>, species: Result<SpeciesData, HttpClientError>|
            {
                &&& final(proxy).requests() == old(proxy).requests() + #[trigger] requests_made(
                    name@,
                    base,
                    species,
                )
                &&& result_view(r) == aggregated(base, species, texts(languages@), has_wildcard)
            },
{
    let ghost before = proxy.requests();
    let first = proxy.get_base_pokemon(name);
    let ghost base = base_view(first);
    let found = match first {
        Ok(found) => found,
        Err(error) => {
            proof {
                let species = Err::<SpeciesData, HttpClientError>(error);
                assert(proxy.requests() =~= before + requests_made(name@, base, species));
            }
            return Err(error);
        },
    };
    let second = proxy.get_species(found.species.url.as_str());
    let ghost species = species_view(second);
    assert(proxy.requests() =~= before + requests_made(name@, base, species));
    let kind = match second {
        Ok(kind) => kind,
        Err(error) => {
            return Err(error);
        },
    };
    let r = resolve(found, kind, languages, has_wildcard);
    r
}

/// Pokemon records, made of what a data service sends.
pub struct PokeApiClient {
    client: Box<dyn PokemonApiProxy>,
}

impl PokeApiClient {
    /// A source of records over the given data service.
    pub fn new(client: Box<dyn PokemonApiProxy>) -> (api: PokeApiClient) {
        PokeApiClient { client }
    }
}

impl PokemonApi for PokeApiClient {
    /// Looks the Pokemon up as `aggregate` does.
    ///
    /// What the data service answers is not known here. Whatever it
    /// answers, a record that is returned has a description, in a language
    /// the client prefers, or in the default language, or in any language if
    /// the client accepts any.
    fn get_pokemon(&self, name: &str, languages: &[String], has_wildcard: bool) -> (r: PokemonResult)
        ensures
            exists|base: Result<BaseData, HttpClientError>, species: Result<SpeciesData, HttpClientError>|
                result_view(r) == #[trigger] aggregated(
                    base,
                    species,
                    texts(languages@),
                    has_wildcard,
                ),
            r matches Ok((language, pokemon)) ==> {
                &&& pokemon.description is Some
                &&& texts(languages@).contains(language@) || language@ == DEFAULT_LANGUAGE@
                    || has_wildcard
            },
    {
        let mut proxy = RecordedProxy::new(&*self.client);
        let r = aggregate(&mut proxy, name, languages, has_wildcard);
        proof {
            let (base, species) = choose|
                base: Result<BaseData, HttpClientError>,
                species: Result<SpeciesData, HttpClientError>,
            |
                {
                    &&& proxy.requests() == Seq::<Request>::empty() + #[trigger] requests_made(
                        name@,
                        base,
                        species,
                    )
                    &&& result_view(r) == aggregated(
                        base,
                        species,
                        texts(languages@),
                        has_wildcard,
                    )
                };
            if r is Ok {
                first_offered_is_first_on_offer(species->Ok_0.descriptions, texts(languages@));
            }
        }
        r
    }
}

/// Where the data service keeps the Pokemon called `name`.
pub open spec fn pokemon_url_of(base_url: Seq<char>, name: Seq<char>) -> Seq<char> {
    base_url + "/pokemon/"@ + name
}

/// Where the data service keeps the Pokemon called `name`.
pub fn pokemon_url(base_url: &str, name: &str) -> (url: String)
    ensures
        url@ == pokemon_url_of(base_url@, name@),
{
    let mut url = String::from_str(base_url);
    url.append("/pokemon/");
    url.append(name);
    url
}

/// What an answer of the data service comes to. No answer is a failed
/// request. Status 404 means not found and 503 unavailable; any other status
/// short of success, and a body that cannot be decoded, is a parse error.
pub open spec fn data_reply<T>(exchange: Exchange<T>) -> Result<T, HttpClientError> {
    match exchange {
        Exchange::Unanswered => Err(HttpClientError::RequestFailed),
        Exchange::Answered { status, body } => if status == 404 {
            Err(HttpClientError::NotFound)
        } else if status == 503 {
            Err(HttpClientError::ServiceUnavailable)
        } else if !is_success(status) {
            Err(HttpClientError::ParseError)
        } else {
            match body {
                Some(body) => Ok(body),
                None => Err(HttpClientError::ParseError),
            }
        },
    }
}

/// Reads an answer of the data service.
pub fn read_data_reply<T>(exchange: Exchange<T>) -> (r: Result<T, HttpClientError>)
    ensures
        r == data_reply(exchange),
{
    match exchange {
        Exchange::Unanswered => Err(HttpClientError::RequestFailed),
        Exchange::Answered { status, body } => if status == 404 {
            Err(HttpClientError::NotFound)
        } else if status == 503 {
            Err(HttpClientError::ServiceUnavailable)
        } else if status < 200 || status > 299 {
            Err(HttpClientError::ParseError)
        } else {
            match body {
                Some(body) => Ok(body),
                None => Err(HttpClientError::ParseError),
            }
        },
    }
}

} // verus!
