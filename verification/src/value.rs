//! A model of TOML values as the configuration logic reads them: strings,
//! integers, booleans, arrays and tables; floats and datetimes are kept
//! only as `Other`, since nothing reads inside them.

use vstd::prelude::*;
use crate::text::str_equal;

verus! {

/// A TOML value. A table lists its entries in order; TOML keeps its keys
/// distinct, and lookups take the first entry with the key.
#[derive(Debug)]
pub enum ConfigValue {
    Str(String),
    Integer(i64),
    Boolean(bool),
    Array(Vec<ConfigValue>),
    Table(Vec<(String, ConfigValue)>),
    /// A float or a datetime.
    Other,
}

/// The value of the first entry with key `key`.
pub open spec fn lookup(entries: Seq<(String, ConfigValue)>, key: Seq<char>) -> Option<ConfigValue>
    decreases entries.len(),
{
    if entries.len() == 0 {
        None
    } else if entries[0].0@ == key {
        Some(entries[0].1)
    } else {
        lookup(entries.drop_first(), key)
    }
}

/// The entry `key` of a table; `None` for a missing key or a value that is
/// not a table (as `toml::Value::get` with a string key).
pub open spec fn value_get(v: ConfigValue, key: Seq<char>) -> Option<ConfigValue> {
    match v {
        ConfigValue::Table(entries) => lookup(entries@, key),
        _ => None,
    }
}

/// Whether `v` is present and a string.
pub open spec fn is_str(v: Option<ConfigValue>) -> bool {
    v matches Some(ConfigValue::Str(_))
}

/// The text of a string value (empty for any other value).
pub open spec fn str_text(v: Option<ConfigValue>) -> Seq<char> {
    match v {
        Some(ConfigValue::Str(s)) => s@,
        _ => Seq::empty(),
    }
}

/// The text of an optional entry that is a string when present.
pub open spec fn optional_text(v: Option<ConfigValue>) -> Option<Seq<char>> {
    match v {
        Some(x) => Some(str_text(Some(x))),
        None => None,
    }
}

/// Whether the entry `key` of `v`, where present, is a string.
pub open spec fn str_if_present(v: ConfigValue, key: Seq<char>) -> bool {
    value_get(v, key) is Some ==> is_str(value_get(v, key))
}

/// Whether a table can be read as a proxy source: its `selector` is a
/// string, and its `url` and `regex` are strings where present.
pub open spec fn source_readable(v: ConfigValue) -> bool {
    &&& str_if_present(v, "url"@)
    &&& is_str(value_get(v, "selector"@))
    &&& str_if_present(v, "regex"@)
}

/// The `sources` entry of a provider table, as the array it must be.
pub open spec fn sources_of(v: ConfigValue) -> Seq<ConfigValue> {
    match value_get(v, "sources"@) {
        Some(ConfigValue::Array(a)) => a@,
        _ => Seq::empty(),
    }
}

/// Whether a table has a `sources` array whose every element can be read as
/// a proxy source.
pub open spec fn sources_readable(v: ConfigValue) -> bool {
    &&& value_get(v, "sources"@) matches Some(ConfigValue::Array(_))
    &&& forall|i: int| 0 <= i < sources_of(v).len() ==> source_readable(#[trigger] sources_of(v)[i])
}

impl ConfigValue {
    /// The entry `key` of a table (`None` if it is missing or if this is not
    /// a table).
    pub fn get(&self, key: &str) -> (r: Option<&ConfigValue>)
        ensures
            match r {
                Some(v) => value_get(*self, key@) == Some(*v),
                None => value_get(*self, key@) is None,
            },
    {
        match self {
            ConfigValue::Table(entries) => {
                let mut i: usize = 0;
                assert(entries@.skip(0) =~= entries@);
                assert(value_get(*self, key@) == lookup(entries@, key@));
                while i < entries.len()
                    invariant
                        i <= entries.len(),
                        value_get(*self, key@) == lookup(entries@, key@),
                        lookup(entries@, key@) == lookup(entries@.skip(i as int), key@),
                    decreases entries.len() - i,
                {
                    assert(entries@.skip(i as int)[0] == entries@[i as int]);
                    assert(entries@.skip(i as int).drop_first() =~= entries@.skip(i + 1));
                    if str_equal(entries[i].0.as_str(), key) {
                        assert(entries@[i as int].0@ == key@);
                        assert(lookup(entries@.skip(i as int), key@) == Some(entries@[i as int].1));
                        return Some(&entries[i].1);
                    }
                    i = i + 1;
                }
                assert(entries@.skip(i as int) =~= Seq::<(String, ConfigValue)>::empty());
                None
            },
            _ => None,
        }
    }

    /// The text of a string value.
    pub fn as_str(&self) -> (r: Option<&str>)
        ensures
            match r {
                Some(s) => is_str(Some(*self)) && s@ == str_text(Some(*self)),
                None => !is_str(Some(*self)),
            },
    {
        match self {
            ConfigValue::Str(s) => Some(s.as_str()),
            _ => None,
        }
    }
}

/// Looking up a key finds the first entry with that key; the entries
/// before it do not count, and no entries give nothing.
pub proof fn lemma_lookup_first(k: String, v: ConfigValue, rest: Seq<(String, ConfigValue)>, key: Seq<char>)
    ensures
        lookup(Seq::empty(), key) is None,
        k@ == key ==> lookup(seq![(k, v)] + rest, key) == Some(v),
        k@ != key ==> lookup(seq![(k, v)] + rest, key) == lookup(rest, key),
{
    assert((seq![(k, v)] + rest)[0] == (k, v));
    assert((seq![(k, v)] + rest).drop_first() =~= rest);
}

/// Only a table has entries.
pub proof fn lemma_get_only_tables(v: ConfigValue, key: Seq<char>)
    ensures
        !(v is Table) ==> value_get(v, key) is None,
{
}

/// The optional string entry `key` of a table.
pub fn optional_entry(value: &ConfigValue, key: &str) -> (r: Option<String>)
    requires
        str_if_present(*value, key@),
    ensures
        crate::text::option_view(r) == optional_text(value_get(*value, key@)),
{
    match value.get(key) {
        Some(v) => match v.as_str() {
            Some(s) => Some(s.to_owned()),
            None => Some(String::new()),
        },
        None => None,
    }
}

/// The string entry `key` of a table, which must be present.
pub fn string_entry(value: &ConfigValue, key: &str) -> (r: String)
    requires
        is_str(value_get(*value, key@)),
    ensures
        r@ == str_text(value_get(*value, key@)),
{
    match value.get(key) {
        Some(v) => match v.as_str() {
            Some(s) => s.to_owned(),
            None => String::new(),
        },
        None => String::new(),
    }
}

} // verus!
