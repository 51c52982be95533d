//! Proxy providers as the command-line scraper's configuration describes
//! them; the provider's name must be a string here.

use vstd::prelude::*;
use crate::provider::clone_option_string;
use crate::text::option_view;
use crate::value::{
    is_str, optional_entry, optional_text, source_readable, sources_of, sources_readable,
    str_text, string_entry, value_get, ConfigValue,
};

verus! {

/// A proxy source: where the chain of pages starts (first source only),
/// which elements to read, and which links to follow.
#[derive(Debug)]
pub struct ProviderSource {
    pub url: Option<String>,
    pub selector: String,
    pub regex: Option<String>,
}

/// A proxy provider: its name and its chain of sources.
#[derive(Debug)]
pub struct Provider {
    pub name: String,
    pub sources: Vec<ProviderSource>,
}

/// The configuration: the providers to scrape.
#[derive(Debug)]
pub struct Config {
    pub providers: Vec<Provider>,
}

/// Whether `src` holds what the source table `v` gives.
pub open spec fn source_read_from(src: ProviderSource, v: ConfigValue) -> bool {
    &&& option_view(src.url) == optional_text(value_get(v, "url"@))
    &&& src.selector@ == str_text(value_get(v, "selector"@))
    &&& option_view(src.regex) == optional_text(value_get(v, "regex"@))
}

/// Whether a table can be read as a provider: a readable `sources` array
/// and a string `name`.
pub open spec fn provider_readable(v: ConfigValue) -> bool {
    &&& sources_readable(v)
    &&& is_str(value_get(v, "name"@))
}

impl ProviderSource {
    /// Reads a source from its table: `url` and `regex` where present, and
    /// `selector`.
    pub fn from(value: &ConfigValue) -> (r: Self)
        requires
            source_readable(*value),
        ensures
            source_read_from(r, *value),
    {
        let url = optional_entry(value, "url");
        let selector = string_entry(value, "selector");
        let regex = optional_entry(value, "regex");
        ProviderSource { url, selector, regex }
    }
}

impl Clone for ProviderSource {
    fn clone(&self) -> (r: Self)
        ensures
            r == *self,
    {
        ProviderSource {
            url: clone_option_string(&self.url),
            selector: self.selector.clone(),
            regex: clone_option_string(&self.regex),
        }
    }
}

impl Provider {
    /// Reads a provider from its table: each element of `sources` as a
    /// source, and the string `name`.
    pub fn from(value: &ConfigValue) -> (r: Self)
        requires
            provider_readable(*value),
        ensures
            r.sources.len() == sources_of(*value).len(),
            forall|i: int|
                0 <= i < r.sources.len() ==> source_read_from(
                    #[trigger] r.sources@[i],
                    sources_of(*value)[i],
                ),
            r.name@ == str_text(value_get(*value, "name"@)),
    {
        let mut sources: Vec<ProviderSource> = Vec::new();
        if let Some(ConfigValue::Array(items)) = value.get("sources") {
            let mut i: usize = 0;
            while i < items.len()
                invariant
                    i <= items.len(),
                    items@ == sources_of(*value),
                    sources_readable(*value),
                    sources.len() == i,
                    forall|j: int|
                        0 <= j < i ==> source_read_from(#[trigger] sources@[j], items@[j]),
                decreases items.len() - i,
            {
                assert(source_readable(sources_of(*value)[i as int]));
                sources.push(ProviderSource::from(&items[i]));
                i = i + 1;
            }
        }
        let name = string_entry(value, "name");
        Provider { name, sources }
    }
}

} // verus!
