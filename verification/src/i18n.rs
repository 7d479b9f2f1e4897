//! Interface texts in several languages, looked up by key.
use vstd::prelude::*;
use crate::json::{find_member, json_member, member, members_model, obj_get, JsonValue, JsonView};
use crate::text::{chars_of, copy_text};

verus! {

/// The interface texts of each locale and the locale in use.
pub struct I18n {
    translations: Vec<(String, JsonValue)>,
    current_locale: String,
}

/// The text of `key` in the locale `current`: the locale's string for the
/// key, or the key itself when the locale, the key or a string is missing.
pub open spec fn translated(
    ts: Seq<(Seq<char>, JsonView)>,
    current: Seq<char>,
    key: Seq<char>,
) -> Seq<char> {
    match obj_get(ts, current) {
        Some(doc) => match json_member(doc, key) {
            Some(JsonView::Str(s)) => s,
            _ => key,
        },
        None => key,
    }
}

impl I18n {
    /// The texts of each locale, by locale.
    pub closed spec fn locales(&self) -> Seq<(Seq<char>, JsonView)> {
        members_model(self.translations@)
    }

    /// The locale in use.
    pub closed spec fn locale(&self) -> Seq<char> {
        self.current_locale@
    }

    /// Texts for the given locales (locale name, document of texts), with
    /// English in use.
    pub fn with_translations(translations: Vec<(String, JsonValue)>) -> (r: Self)
        ensures
            r.locales() == members_model(translations@),
            r.locale() == "en"@,
    {
        I18n { translations, current_locale: copy_text("en") }
    }

    /// The locale in use.
    pub fn current_locale(&self) -> (r: String)
        ensures
            r@ == self.locale(),
    {
        self.current_locale.clone()
    }

    /// Uses `locale` when there are texts for it; otherwise nothing changes.
    pub fn set_locale(&mut self, locale: &str)
        ensures
            final(self).locales() == old(self).locales(),
            final(self).locale() == if obj_get(old(self).locales(), locale@) is Some {
                locale@
            } else {
                old(self).locale()
            },
    {
        match find_member(&self.translations, &chars_of(locale)) {
            Some(_) => {
                self.current_locale = copy_text(locale);
            },
            None => {},
        }
    }

    /// The text of `key` in the locale in use, or the key itself.
    pub fn t(&self, key: &str) -> (r: String)
        ensures
            r@ == translated(self.locales(), self.locale(), key@),
    {
        proof {
            crate::json::lemma_members_model(self.translations@);
        }
        match find_member(&self.translations, &chars_of(self.current_locale.as_str())) {
            Some(i) => {
                let doc = &self.translations[i].1;
                match member(doc, key) {
                    Some(JsonValue::Str(s)) => s.clone(),
                    _ => copy_text(key),
                }
            },
            None => copy_text(key),
        }
    }
}

} // verus!
