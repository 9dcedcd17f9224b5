//! Requests that create translations, and collecting translations by
//! language.

use vstd::prelude::*;
use crate::keys::{UUID_V4_BITS, UUID_V4_MASK, new_random_key};

verus! {

/// The languages a text can be translated into.
#[derive(Clone, Copy, Debug, PartialEq, Eq, Structural)]
pub enum Language {
    Nl,
    En,
    Fr,
    De,
}

/// The data needed to make a new translation.
#[derive(Clone, Debug)]
pub struct TranslationRequest {
    pub language: Language,
    pub text: String,
}

/// A translation ready to be stored: the key shared by all translations of
/// one text, the language and the text.
#[derive(Clone, Debug)]
pub struct NewTranslation {
    pub key: u128,
    pub language: Language,
    pub text: String,
}

/// The texts of one text in several languages.
#[derive(Clone, Debug)]
pub struct BulkTranslationsRequest(pub Vec<(Language, String)>);

/// Translations collected by language.
#[derive(Clone, Debug)]
pub struct BulkTranslationsResponse<T> {
    pub nl: Option<T>,
    pub en: Option<T>,
    pub fr: Option<T>,
    pub de: Option<T>,
}

impl TranslationRequest {
    /// The translation to store for this request under `key`.
    pub fn into_new_translation_with_key(self, key: u128) -> (r: NewTranslation)
        ensures
            r.key == key,
            r.language == self.language,
            r.text == self.text,
    {
        NewTranslation { key, language: self.language, text: self.text }
    }

    /// The translation to store for this request, under a fresh random key.
    pub fn into_new_translation(self) -> (r: NewTranslation)
        ensures
            r.key & UUID_V4_MASK == UUID_V4_BITS,
            r.language == self.language,
            r.text == self.text,
    {
        let key = new_random_key();
        self.into_new_translation_with_key(key)
    }
}

impl BulkTranslationsRequest {
    /// The translations to store for this request, all under `key`, in the
    /// order of the request.
    pub fn into_new_translations_with_key(self, key: u128) -> (r: Vec<NewTranslation>)
        ensures
            r@.len() == self.0@.len(),
            forall|i: int|
                0 <= i < r@.len() ==> (#[trigger] r@[i]).key == key && r@[i].language
                    == self.0@[i].0 && r@[i].text == self.0@[i].1,
    {
        let ghost items = self.0@;
        let mut rest = self.0;
        let n = rest.len();
        let mut rev: Vec<NewTranslation> = Vec::new();
        while rest.len() > 0
            invariant
                rest@.len() + rev@.len() == n,
                n == items.len(),
                rest@ == items.take(rest@.len() as int),
                forall|j: int|
                    0 <= j < rev@.len() ==> (#[trigger] rev@[j]).key == key && rev@[j].language
                        == items[n - 1 - j].0 && rev@[j].text == items[n - 1 - j].1,
            decreases rest@.len(),
        {
            let (language, text) = rest.pop().unwrap();
            rev.push(NewTranslation { key, language, text });
            assert(rest@ =~= items.take(rest@.len() as int));
        }
        let mut out: Vec<NewTranslation> = Vec::new();
        while rev.len() > 0
            invariant
                out@.len() + rev@.len() == n,
                n == items.len(),
                forall|j: int|
                    0 <= j < rev@.len() ==> (#[trigger] rev@[j]).key == key && rev@[j].language
                        == items[n - 1 - j].0 && rev@[j].text == items[n - 1 - j].1,
                forall|i: int|
                    0 <= i < out@.len() ==> (#[trigger] out@[i]).key == key && out@[i].language
                        == items[i].0 && out@[i].text == items[i].1,
            decreases rev@.len(),
        {
            let t = rev.pop().unwrap();
            out.push(t);
        }
        out
    }

    /// The translations to store for this request, all under one fresh
    /// random key.
    pub fn into_new_translations(self) -> (r: Vec<NewTranslation>)
        ensures
            r@.len() == self.0@.len(),
            forall|i: int, j: int| 0 <= i < r@.len() && 0 <= j < r@.len() ==> r@[i].key == r@[j].key,
            forall|i: int|
                0 <= i < r@.len() ==> (#[trigger] r@[i]).key & UUID_V4_MASK == UUID_V4_BITS
                    && r@[i].language == self.0@[i].0 && r@[i].text == self.0@[i].1,
    {
        let key = new_random_key();
        self.into_new_translations_with_key(key)
    }
}

/// The value of the last item in `items` with language `l`.
pub open spec fn last_for<T>(items: Seq<(Language, T)>, l: Language) -> Option<T>
    decreases items.len(),
{
    if items.len() == 0 {
        None
    } else if items.last().0 == l {
        Some(items.last().1)
    } else {
        last_for(items.drop_last(), l)
    }
}

impl<T> BulkTranslationsResponse<T> {
    /// The translation stored for language `l`.
    pub open spec fn get(self, l: Language) -> Option<T> {
        match l {
            Language::Nl => self.nl,
            Language::En => self.en,
            Language::Fr => self.fr,
            Language::De => self.de,
        }
    }

    /// Collect translations by language; a later translation in the same
    /// language replaces an earlier one.
    pub fn from_translations(items: Vec<(Language, T)>) -> (r: Self)
        ensures
            forall|l: Language| #[trigger] r.get(l) == last_for(items@, l),
    {
        let ghost all = items@;
        let mut rest = items;
        let mut r = BulkTranslationsResponse { nl: None, en: None, fr: None, de: None };
        // Walking from the back, the first item seen per language is the
        // last one in the list.
        while rest.len() > 0
            invariant
                rest@ == all.take(rest@.len() as int),
                rest@.len() <= all.len(),
                forall|l: Language|
                    last_for(all, l) == match #[trigger] r.get(l) {
                        Some(t) => Some(t),
                        None => last_for(all.take(rest@.len() as int), l),
                    },
            decreases rest@.len(),
        {
            let ghost k = (rest@.len() - 1) as int;
            let (language, t) = rest.pop().unwrap();
            proof {
                assert(all.take(k + 1).drop_last() =~= all.take(k));
                assert(rest@ =~= all.take(k));
                assert(all.take(k + 1).last() == (language, t));
            }
            let ghost old_r = r;
            match language {
                Language::Nl => if r.nl.is_none() { r.nl = Some(t); },
                Language::En => if r.en.is_none() { r.en = Some(t); },
                Language::Fr => if r.fr.is_none() { r.fr = Some(t); },
                Language::De => if r.de.is_none() { r.de = Some(t); },
            }
            proof {
                assert forall|l: Language|
                    last_for(all, l) == match #[trigger] r.get(l) {
                        Some(x) => Some(x),
                        None => last_for(all.take(k), l),
                    } by {
                    assert(last_for(all.take(k + 1), l) == if language == l {
                        Some(t)
                    } else {
                        last_for(all.take(k), l)
                    });
                    if l != language {
                        assert(r.get(l) == old_r.get(l));
                    } else if old_r.get(l) is None {
                        assert(r.get(l) == Some(t));
                    } else {
                        assert(r.get(l) == old_r.get(l));
                    }
                }
            }
        }
        assert(all.take(0) =~= Seq::<(Language, T)>::empty());
        r
    }
}

} // verus!
