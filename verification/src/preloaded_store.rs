//! What the forum's front page preloads for the browser; of it, the table of
//! custom emoji.

use vstd::prelude::*;
use vstd::string::*;
use crate::error::Error;
use crate::html::{decode_html, html_decoded, html_selected_attributes, select_attributes};
use crate::text::push_string;

verus! {

/// A custom emoji: its name and the address of its image.
#[derive(Debug, Clone)]
pub struct Emoji {
    pub name: String,
    pub url: String,
}

/// The table of custom emoji, fetched once per run.
#[derive(Debug, Clone)]
pub struct PreloadedStore {
    custom_emoji: Vec<Emoji>,
}

/// The address that the last of the first `n` entries named `name` gives.
pub open spec fn spec_lookup(entries: Seq<Emoji>, name: Seq<char>, n: int) -> Option<Seq<char>>
    decreases n,
{
    if n <= 0 || n > entries.len() {
        None
    } else if entries[n - 1].name@ == name {
        Some(entries[n - 1].url@)
    } else {
        spec_lookup(entries, name, n - 1)
    }
}

/// What selects the element that carries the preloaded data.
pub open spec fn preloaded_selector() -> Seq<char> {
    "#data-preloaded"@
}

/// The attribute that carries the preloaded data.
pub open spec fn preloaded_attribute() -> Seq<char> {
    "data-preloaded"@
}

/// The one value that was read: that of the only element found, where it
/// has the attribute.
pub open spec fn spec_preloaded_value(found: Seq<Seq<Option<Seq<char>>>>) -> Option<Seq<char>> {
    if found.len() == 1 && found[0].len() == 1 {
        found[0][0]
    } else {
        None
    }
}

/// Picks the preloaded data out of what was read of the page: `found`
/// holds, for each element that carries the mark, the value of its
/// attribute. There has to be one such element, with the attribute.
pub fn preloaded_value(found: &Vec<Vec<Option<String>>>) -> (value: Option<&str>)
    ensures
        match value {
            Some(text) => spec_preloaded_value(found.deep_view()) == Some(text@),
            None => spec_preloaded_value(found.deep_view()) is None,
        },
{
    if found.len() != 1 {
        return None;
    }
    assert(found.deep_view()[0] == found@[0].deep_view());
    if found[0].len() != 1 {
        return None;
    }
    assert(found@[0].deep_view()[0] == found@[0]@[0].deep_view());
    match &found[0][0] {
        Some(value) => Some(value.as_str()),
        None => None,
    }
}

/// The preloaded data of a front page, as JSON text: the value of the one
/// `data-preloaded` attribute, with its character references resolved.
/// `None` where the page holds no such element or more than one, where the
/// element lacks the attribute, or where the value cannot be decoded.
pub open spec fn spec_preloaded_json(body: Seq<char>) -> Option<Seq<char>> {
    match html_selected_attributes(body, preloaded_selector(), seq![preloaded_attribute()]) {
        Some(found) => match spec_preloaded_value(found) {
            Some(value) => html_decoded(value),
            None => None,
        },
        None => None,
    }
}

impl PreloadedStore {
    /// The entries, in the order in which they were given.
    pub closed spec fn entries(&self) -> Seq<Emoji> {
        self.custom_emoji@
    }

    /// The address of the custom emoji `name`; of several entries with one
    /// name the last counts.
    pub open spec fn spec_custom_emoji(&self, name: Seq<char>) -> Option<Seq<char>> {
        spec_lookup(self.entries(), name, self.entries().len() as int)
    }

    /// The table that holds `emojis`.
    pub fn from_emojis(emojis: Vec<Emoji>) -> (store: PreloadedStore)
        ensures
            store.entries() == emojis@,
    {
        PreloadedStore { custom_emoji: emojis }
    }

    /// Takes the preloaded data out of the forum's front page, as JSON
    /// text. Fails with `Error::Json` where the page does not carry it in
    /// the one place expected.
    pub fn from_client(body: &str) -> (r: Result<String, Error>)
        ensures
            match r {
                Ok(json) => spec_preloaded_json(body@) == Some(json@),
                Err(e) => e == Error::Json && spec_preloaded_json(body@) is None,
            },
    {
        let mut names: Vec<String> = Vec::new();
        push_string(&mut names, "data-preloaded".to_string());
        assert(names.deep_view() =~= seq![preloaded_attribute()]);
        let found = match select_attributes(body, "#data-preloaded", &names) {
            Some(found) => found,
            None => {
                return Err(Error::Json);
            },
        };
        match preloaded_value(&found) {
            Some(value) => match decode_html(value) {
                Some(json) => Ok(json),
                None => Err(Error::Json),
            },
            None => Err(Error::Json),
        }
    }

    /// The address of the custom emoji `name`, if the forum has one.
    pub fn custom_emoji(&self, name: &str) -> (r: Option<&str>)
        ensures
            match r {
                Some(url) => self.spec_custom_emoji(name@) == Some(url@),
                None => self.spec_custom_emoji(name@) is None,
            },
    {
        let key = String::from_str(name);
        let mut n: usize = self.custom_emoji.len();
        while n > 0
            invariant
                n <= self.custom_emoji.len(),
                key@ == name@,
                self.spec_custom_emoji(name@) == spec_lookup(self.entries(), name@, n as int),
            decreases n,
        {
            if self.custom_emoji[n - 1].name == key {
                return Some(self.custom_emoji[n - 1].url.as_str());
            }
            n -= 1;
        }
        None
    }
}

} // verus!
