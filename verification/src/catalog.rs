//! The greeting catalog: a two-level lookup table from language code and
//! profanity level to a greeting template, built from an embedded document.

use crate::assoc::{assoc_map, keys_unique, lemma_assoc_map_domain, lemma_assoc_map_index};
use crate::decimal::{dec_of, u8_to_dec};
use crate::subst::{subst_spec, substitute};
use vstd::prelude::*;
use vstd::string::*;

verus! {

/// The catalog could not be built from the embedded document.
#[derive(Debug, PartialEq, Eq, Structural, Clone, Copy)]
pub struct LoadError;

/// Why a greeting could not be resolved.
#[derive(Debug, PartialEq, Eq, Structural, Clone, Copy)]
pub enum GreetError {
    /// The requested language has no entry in the catalog.
    UnsupportedLanguage,
    /// The requested profanity level has no entry for the language.
    UnsupportedProfanityLevel,
}

/// The level rows of one language, as character sequences.
pub open spec fn rows_view(rows: Seq<(String, String)>) -> Seq<(Seq<char>, Seq<char>)> {
    rows.map_values(|r: (String, String)| (r.0@, r.1@))
}

/// The language entries of a catalog, as character sequences.
pub open spec fn entries_view(es: Seq<(String, Vec<(String, String)>)>) -> Seq<
    (Seq<char>, Seq<(Seq<char>, Seq<char>)>),
> {
    es.map_values(|e: (String, Vec<(String, String)>)| (e.0@, rows_view(e.1@)))
}

/// No language code collides, and within each language no level key does.
pub open spec fn entries_unique(es: Seq<(Seq<char>, Seq<(Seq<char>, Seq<char>)>)>) -> bool {
    keys_unique(es) && forall|i: int| 0 <= i < es.len() ==> keys_unique(#[trigger] es[i].1)
}

/// The two-level map the language entries denote.
pub open spec fn catalog_of(es: Seq<(Seq<char>, Seq<(Seq<char>, Seq<char>)>)>) -> Map<
    Seq<char>,
    Map<Seq<char>, Seq<char>>,
> {
    assoc_map(es.map_values(|e: (Seq<char>, Seq<(Seq<char>, Seq<char>)>)| (e.0, assoc_map(e.1))))
}

/// What resolving yields on a catalog: the template for the language and the
/// level's decimal form, with the name substituted in, or the error naming
/// what is missing.
pub open spec fn resolve_spec(
    cat: Map<Seq<char>, Map<Seq<char>, Seq<char>>>,
    language: Seq<char>,
    profanity: u8,
    name: Seq<char>,
) -> Result<Seq<char>, GreetError> {
    if !cat.contains_key(language) {
        Err(GreetError::UnsupportedLanguage)
    } else if !cat[language].contains_key(dec_of(profanity as nat)) {
        Err(GreetError::UnsupportedProfanityLevel)
    } else {
        Ok(subst_spec(cat[language][dec_of(profanity as nat)], name))
    }
}

/// A resolved greeting as a character sequence, errors unchanged.
pub open spec fn greeting_view(r: Result<String, GreetError>) -> Result<Seq<char>, GreetError> {
    match r {
        Ok(s) => Ok(s@),
        Err(e) => Err(e),
    }
}

/// Resolving is pure: two results of resolving the same catalog with
/// identical arguments are identical.
pub proof fn lemma_resolve_deterministic(
    cat: Map<Seq<char>, Map<Seq<char>, Seq<char>>>,
    language: Seq<char>,
    profanity: u8,
    name: Seq<char>,
    r1: Result<Seq<char>, GreetError>,
    r2: Result<Seq<char>, GreetError>,
)
    requires
        r1 == resolve_spec(cat, language, profanity, name),
        r2 == resolve_spec(cat, language, profanity, name),
    ensures
        r1 == r2,
{
}

/// What `serde_json::from_str` makes of a document read as a catalog: the
/// language entries with their level rows, or nothing where the document is
/// not a JSON object of objects of strings.
pub uninterp spec fn json_entries(doc: Seq<char>) -> Option<
    Seq<(Seq<char>, Seq<(Seq<char>, Seq<char>)>)>,
>;

/// Relies on `serde_json::from_str`: a JSON object of objects of strings
/// parses into those entries, keys in sorted order, a later duplicate
/// winning; any other document is refused. The result depends on the
/// document alone.
#[verifier::external_body]
fn parse_catalog(doc: &str) -> (r: Option<Vec<(String, Vec<(String, String)>)>>)
    ensures
        match r {
            Some(v) => json_entries(doc@) == Some(entries_view(v@)),
            None => json_entries(doc@) is None,
        },
{
    match serde_json::from_str::<
        std::collections::BTreeMap<String, std::collections::BTreeMap<String, String>>,
    >(doc) {
        Ok(m) => Some(m.into_iter().map(|(code, t)| (code, t.into_iter().collect())).collect()),
        Err(_) => None,
    }
}

/// The embedded greeting table: four languages, three profanity levels each.
pub open spec fn spec_greetings_document() -> Seq<char> {
    "{\"de\":{\"0\":\"Hallo {name}!\",\"1\":\"Hallo {name}! Verdammt!\",\"2\":\"Hallo {name}, du Arsch!\"},\"en\":{\"0\":\"Hello {name}!\",\"1\":\"Hey {name}! Damn!\",\"2\":\"Hey {name}, you bastard!\"},\"es\":{\"0\":\"Hola {name}!\",\"1\":\"Hola {name}! Joder!\",\"2\":\"Hola {name} y que te jodan!\"},\"fr\":{\"0\":\"Bonjour {name}!\",\"1\":\"Salut {name}! Putain!\",\"2\":\"Salut {name}, espece de con!\"}}"@
}

fn greetings_document() -> (r: &'static str)
    ensures
        r@ == spec_greetings_document(),
{
    "{\"de\":{\"0\":\"Hallo {name}!\",\"1\":\"Hallo {name}! Verdammt!\",\"2\":\"Hallo {name}, du Arsch!\"},\"en\":{\"0\":\"Hello {name}!\",\"1\":\"Hey {name}! Damn!\",\"2\":\"Hey {name}, you bastard!\"},\"es\":{\"0\":\"Hola {name}!\",\"1\":\"Hola {name}! Joder!\",\"2\":\"Hola {name} y que te jodan!\"},\"fr\":{\"0\":\"Bonjour {name}!\",\"1\":\"Salut {name}! Putain!\",\"2\":\"Salut {name}, espece de con!\"}}"
}

/// The embedded document parses into language entries free of collisions.
pub open spec fn load_succeeds() -> bool {
    json_entries(spec_greetings_document()) matches Some(es) && entries_unique(es)
}

/// An immutable two-level lookup table: language code, then the decimal form
/// of a profanity level, to greeting template.
pub struct GreetingData {
    langs: Vec<(String, Vec<(String, String)>)>,
}

impl View for GreetingData {
    type V = Map<Seq<char>, Map<Seq<char>, Seq<char>>>;

    closed spec fn view(&self) -> Self::V {
        catalog_of(entries_view(self.langs@))
    }
}

/// The index of the first entry whose key reads as `key`, if any.
fn find_key<V>(rows: &Vec<(String, V)>, key: &String) -> (r: Option<usize>)
    ensures
        match r {
            Some(i) => i < rows@.len() && rows@[i as int].0@ == key@,
            None => forall|j: int| 0 <= j < rows@.len() ==> rows@[j].0@ != key@,
        },
{
    let mut i: usize = 0;
    while i < rows.len()
        invariant
            i <= rows@.len(),
            forall|j: int| 0 <= j < i ==> rows@[j].0@ != key@,
        decreases rows@.len() - i,
    {
        if rows[i].0 == *key {
            return Some(i);
        }
        i = i + 1;
    }
    None
}

/// Whether the string keys of the rows are pairwise distinct.
fn check_unique<V>(rows: &Vec<(String, V)>) -> (r: bool)
    ensures
        r == (forall|i: int, j: int|
            0 <= i < j < rows@.len() ==> rows@[i].0@ != rows@[j].0@),
{
    let mut i: usize = 0;
    while i < rows.len()
        invariant
            i <= rows@.len(),
            forall|x: int, y: int| 0 <= x < y < rows@.len() && x < i ==> rows@[x].0@ != rows@[y].0@,
        decreases rows@.len() - i,
    {
        let mut j: usize = i + 1;
        while j < rows.len()
            invariant
                i < rows@.len(),
                j <= rows@.len(),
                i + 1 <= j,
                forall|y: int| i < y < j ==> rows@[i as int].0@ != rows@[y].0@,
            decreases rows@.len() - j,
        {
            if rows[i].0 == rows[j].0 {
                return false;
            }
            j = j + 1;
        }
        i = i + 1;
    }
    true
}

impl GreetingData {
    #[verifier::type_invariant]
    spec fn wf(&self) -> bool {
        entries_unique(entries_view(self.langs@))
    }

    /// Builds a catalog from language entries, refusing a shape whose
    /// language codes or level keys collide.
    pub fn from_entries(langs: Vec<(String, Vec<(String, String)>)>) -> (r: Result<
        GreetingData,
        LoadError,
    >)
        ensures
            match r {
                Ok(d) => entries_unique(entries_view(langs@)) && d@ == catalog_of(
                    entries_view(langs@),
                ),
                Err(_) => !entries_unique(entries_view(langs@)),
            },
    {
        let ghost es = entries_view(langs@);
        if !check_unique(&langs) {
            proof {
                let (x, y) = choose|x: int, y: int|
                    0 <= x < y < langs@.len() && langs@[x].0@ == langs@[y].0@;
                assert(es[x].0 == es[y].0);
                assert(!keys_unique(es));
            }
            return Err(LoadError);
        }
        let mut i: usize = 0;
        while i < langs.len()
            invariant
                i <= langs@.len(),
                es == entries_view(langs@),
                forall|k: int| 0 <= k < i ==> keys_unique(#[trigger] es[k].1),
            decreases langs@.len() - i,
        {
            if !check_unique(&langs[i].1) {
                proof {
                    let rows = langs@[i as int].1@;
                    let (x, y) = choose|x: int, y: int|
                        0 <= x < y < rows.len() && rows[x].0@ == rows[y].0@;
                    assert(es[i as int].1[x].0 == es[i as int].1[y].0);
                    assert(!keys_unique(es[i as int].1));
                }
                return Err(LoadError);
            }
            proof {
                let rows = langs@[i as int].1@;
                assert forall|x: int, y: int|
                    0 <= x < y < es[i as int].1.len() implies es[i as int].1[x].0
                    != es[i as int].1[y].0 by {
                    assert(es[i as int].1[x].0 == rows[x].0@);
                    assert(es[i as int].1[y].0 == rows[y].0@);
                }
            }
            i = i + 1;
        }
        proof {
            assert forall|x: int, y: int| 0 <= x < y < es.len() implies es[x].0 != es[y].0 by {
                assert(es[x].0 == langs@[x].0@);
                assert(es[y].0 == langs@[y].0@);
            }
        }
        Ok(GreetingData { langs })
    }

    /// Builds the catalog from the embedded document.
    pub fn load() -> (r: Result<GreetingData, LoadError>)
        ensures
            match r {
                Ok(d) => load_succeeds() && (json_entries(spec_greetings_document()) matches Some(
                    es,
                ) && d@ == catalog_of(es)),
                Err(_) => !load_succeeds(),
            },
    {
        let doc = greetings_document();
        match parse_catalog(doc) {
            Some(v) => GreetingData::from_entries(v),
            None => Err(LoadError),
        }
    }

    /// The language's index and, through the catalog map, its level table.
    fn find_language(&self, language: &String) -> (r: Option<usize>)
        ensures
            match r {
                Some(i) => i < self.langs@.len() && self.langs@[i as int].0@ == language@
                    && self@.contains_key(language@) && self@[language@] == assoc_map(
                    rows_view(self.langs@[i as int].1@),
                ),
                None => !self@.contains_key(language@),
            },
    {
        proof {
            use_type_invariant(self);
        }
        let ghost es = entries_view(self.langs@);
        let ghost mapped = es.map_values(
            |e: (Seq<char>, Seq<(Seq<char>, Seq<char>)>)| (e.0, assoc_map(e.1)),
        );
        proof {
            assert forall|k: int| 0 <= k < mapped.len() implies mapped[k].0 == self.langs@[k].0@ by {
                assert(es[k].0 == self.langs@[k].0@);
            }
        }
        let r = find_key(&self.langs, language);
        match r {
            Some(i) => {
                proof {
                    assert forall|x: int, y: int|
                        0 <= x < y < mapped.len() implies mapped[x].0 != mapped[y].0 by {
                        assert(es[x].0 == mapped[x].0);
                        assert(es[y].0 == mapped[y].0);
                    }
                    lemma_assoc_map_index(mapped, i as int);
                    assert(mapped[i as int].1 == assoc_map(es[i as int].1));
                    assert(es[i as int].1 == rows_view(self.langs@[i as int].1@));
                }
                Some(i)
            },
            None => {
                proof {
                    lemma_assoc_map_domain(mapped, language@);
                }
                None
            },
        }
    }

    /// Whether the catalog has any templates for `language`.
    pub fn has_language(&self, language: &str) -> (r: bool)
        ensures
            r == self@.contains_key(language@),
    {
        let key = language.to_owned();
        self.find_language(&key).is_some()
    }

    /// Resolves a greeting: the template for `language` at the decimal form
    /// of `profanity`, with every placeholder occurrence replaced by `name`;
    /// or the error naming whichever lookup failed.
    pub fn get_greeting(&self, language: &str, profanity: u8, name: &str) -> (r: Result<
        String,
        GreetError,
    >)
        ensures
            greeting_view(r) == resolve_spec(self@, language@, profanity, name@),
    {
        proof {
            use_type_invariant(self);
        }
        let key = language.to_owned();
        let i = match self.find_language(&key) {
            Some(i) => i,
            None => {
                return Err(GreetError::UnsupportedLanguage);
            },
        };
        let ghost rows = rows_view(self.langs@[i as int].1@);
        proof {
            assert(keys_unique(entries_view(self.langs@)[i as int].1));
            assert(entries_view(self.langs@)[i as int].1 == rows);
        }
        let level_key = u8_to_dec(profanity);
        let j = match find_key(&self.langs[i].1, &level_key) {
            Some(j) => j,
            None => {
                proof {
                    lemma_assoc_map_domain(rows, level_key@);
                    assert forall|k: int| 0 <= k < rows.len() implies rows[k].0 != level_key@ by {
                        assert(rows[k].0 == self.langs@[i as int].1@[k].0@);
                    }
                }
                return Err(GreetError::UnsupportedProfanityLevel);
            },
        };
        proof {
            assert(rows[j as int].0 == self.langs@[i as int].1@[j as int].0@);
            assert(rows[j as int].1 == self.langs@[i as int].1@[j as int].1@);
            lemma_assoc_map_index(rows, j as int);
        }
        let template = &self.langs[i].1[j].1;
        let out = substitute(template.as_str(), name);
        Ok(out)
    }
}

/// The report for an unsupported language, naming the supported set.
pub fn unsupported_language_message(language: &str) -> (r: String)
    ensures
        r@ == "Language '"@ + language@ + "' not supported. Available: en, fr, es, de"@,
{
    let mut s = String::from_str("Language '");
    s.append(language);
    s.append("' not supported. Available: en, fr, es, de");
    s
}

/// The report for an unsupported profanity level, naming the valid range.
pub fn unsupported_profanity_message(profanity: u8) -> (r: String)
    ensures
        r@ == "Profanity level '"@ + dec_of(profanity as nat) + "' not supported. Use 0-2"@,
{
    let mut s = String::from_str("Profanity level '");
    let d = u8_to_dec(profanity);
    s.append(d.as_str());
    s.append("' not supported. Use 0-2");
    s
}

} // verus!
