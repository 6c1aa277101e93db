//! The translation registry: the loaded key-to-message table. Entries keep
//! their insertion order and keys are unique; only string-valued entries
//! carry a message in the translation language, any other JSON leaf is an
//! inert entry.
use crate::extract::{collect_variables_and_options, opts_view, sp_extract};
use crate::parse::Parser;
use crate::text::{str_eq, strs};
use vstd::prelude::*;

verus! {

#[derive(Debug, PartialEq, Clone)]
pub enum TranslationValue {
    /// A string entry: a message in the translation language.
    Message(String),
    /// A non-string leaf: present in the registry but carrying no message.
    Inert,
}

/// Model of a registry value.
pub enum TvModel {
    Message(Seq<char>),
    Inert,
}

impl View for TranslationValue {
    type V = TvModel;

    open spec fn view(&self) -> TvModel {
        match self {
            TranslationValue::Message(s) => TvModel::Message(s@),
            TranslationValue::Inert => TvModel::Inert,
        }
    }
}

/// View of a registry entry list.
pub open spec fn entries_view(v: Seq<(String, TranslationValue)>) -> Seq<(Seq<char>, TvModel)> {
    v.map_values(|p: (String, TranslationValue)| (p.0@, p.1@))
}

/// The value under `key`, scanning entries in order.
pub open spec fn sp_lookup(entries: Seq<(Seq<char>, TvModel)>, key: Seq<char>) -> Option<TvModel>
    decreases entries.len(),
{
    if entries.len() == 0 {
        None
    } else if entries[0].0 == key {
        Some(entries[0].1)
    } else {
        sp_lookup(entries.drop_first(), key)
    }
}

/// Replace the value under an existing key, or append a new entry.
pub open spec fn sp_store(
    entries: Seq<(Seq<char>, TvModel)>,
    key: Seq<char>,
    value: TvModel,
) -> Seq<(Seq<char>, TvModel)>
    decreases entries.len(),
{
    if entries.len() == 0 {
        seq![(key, value)]
    } else if entries[0].0 == key {
        seq![(key, value)] + entries.drop_first()
    } else {
        seq![entries[0]] + sp_store(entries.drop_first(), key, value)
    }
}

/// The configuration surface the core consumes: where the translation
/// files live.
#[derive(Debug, Clone)]
pub struct BackendConfig {
    pub translations_dir: String,
}

impl Default for BackendConfig {
    /// An empty directory path.
    fn default() -> (r: BackendConfig)
        ensures
            r.translations_dir@ == Seq::<char>::empty(),
    {
        BackendConfig { translations_dir: String::new() }
    }
}

/// The key-to-message table the language features read.
pub struct TypedKeyTranslations {
    entries: Vec<(String, TranslationValue)>,
}

impl TypedKeyTranslations {
    /// The entries in insertion order.
    pub closed spec fn entries(&self) -> Seq<(Seq<char>, TvModel)> {
        entries_view(self.entries@)
    }

    /// An empty registry.
    pub fn new() -> (r: TypedKeyTranslations)
        ensures
            r.entries() == Seq::<(Seq<char>, TvModel)>::empty(),
    {
        let r = TypedKeyTranslations { entries: Vec::new() };
        proof {
            assert(r.entries() =~= Seq::<(Seq<char>, TvModel)>::empty());
        }
        r
    }

    /// Store a value under a key: replaces the value of an existing key,
    /// appends a new entry otherwise.
    pub fn insert(&mut self, key: String, value: TranslationValue)
        ensures
            final(self).entries() == sp_store(old(self).entries(), key@, value@),
    {
        let ghost e0 = entries_view(self.entries@);
        let _ = store_entry(&mut self.entries, key, value, 0);
        proof {
            assert(e0.skip(0) =~= e0);
            assert(e0.take(0) =~= Seq::<(Seq<char>, TvModel)>::empty());
            assert(e0.take(0) + sp_store(e0.skip(0), key@, value@) =~= sp_store(e0, key@, value@));
        }
    }

    /// The value under `key`, if any.
    pub fn get(&self, key: &str) -> (r: Option<&TranslationValue>)
        ensures
            match r {
                Some(v) => sp_lookup(self.entries(), key@) == Some(v@),
                None => sp_lookup(self.entries(), key@) is None,
            },
    {
        proof {
            assert(entries_view(self.entries@).skip(0) =~= entries_view(self.entries@));
        }
        lookup_entry(&self.entries, key, 0)
    }

    /// All entries, in insertion order.
    pub fn get_translation_keys(&self) -> (r: &Vec<(String, TranslationValue)>)
        ensures
            entries_view(r@) == self.entries(),
    {
        &self.entries
    }

    /// The number of entries.
    pub fn len(&self) -> (r: usize)
        ensures
            r == self.entries().len(),
    {
        self.entries.len()
    }
}

fn lookup_entry<'a>(entries: &'a Vec<(String, TranslationValue)>, key: &str, i: usize) -> (r:
    Option<&'a TranslationValue>)
    requires
        i <= entries@.len(),
    ensures
        match r {
            Some(v) => sp_lookup(entries_view(entries@).skip(i as int), key@) == Some(v@),
            None => sp_lookup(entries_view(entries@).skip(i as int), key@) is None,
        },
    decreases entries@.len() - i,
{
    let ghost tail = entries_view(entries@).skip(i as int);
    if i >= entries.len() {
        proof {
            assert(tail =~= Seq::<(Seq<char>, TvModel)>::empty());
        }
        None
    } else {
        proof {
            assert(tail[0] == (entries@[i as int].0@, entries@[i as int].1@));
            assert(tail.drop_first() =~= entries_view(entries@).skip(i + 1));
        }
        if str_eq(entries[i].0.as_str(), key) {
            Some(&entries[i].1)
        } else {
            lookup_entry(entries, key, i + 1)
        }
    }
}

fn store_entry(
    entries: &mut Vec<(String, TranslationValue)>,
    key: String,
    value: TranslationValue,
    i: usize,
) -> (replaced: bool)
    requires
        i <= old(entries)@.len(),
    ensures
        entries_view(final(entries)@) == entries_view(old(entries)@).take(i as int) + sp_store(
            entries_view(old(entries)@).skip(i as int),
            key@,
            value@,
        ),
    decreases old(entries)@.len() - i,
{
    let ghost e0 = entries@;
    let ghost tail = entries_view(e0).skip(i as int);
    if i >= entries.len() {
        let ghost kv = key@;
        let ghost vv = value@;
        entries.push((key, value));
        proof {
            assert(tail =~= Seq::<(Seq<char>, TvModel)>::empty());
            assert(sp_store(tail, kv, vv) == seq![(kv, vv)]);
            assert(entries_view(entries@) =~= entries_view(e0).take(i as int) + seq![(kv, vv)]);
        }
        false
    } else {
        proof {
            assert(tail[0] == (e0[i as int].0@, e0[i as int].1@));
            assert(tail.drop_first() =~= entries_view(e0).skip(i + 1));
        }
        if str_eq(entries[i].0.as_str(), key.as_str()) {
            let ghost kv = key@;
            let ghost vv = value@;
            entries.set(i, (key, value));
            proof {
                assert(entries_view(entries@) =~= entries_view(e0).take(i as int) + (seq![
                    (kv, vv),
                ] + tail.drop_first()));
            }
            true
        } else {
            let r = store_entry(entries, key, value, i + 1);
            proof {
                assert(entries_view(entries@) =~= entries_view(e0).take(i as int) + (seq![
                    tail[0],
                ] + sp_store(tail.drop_first(), key@, value@))) by {
                    assert(entries_view(old(entries)@).take(i + 1) =~= entries_view(
                        old(entries)@,
                    ).take(i as int).push(tail[0]));
                    assert(entries_view(old(entries)@).take(i as int).push(tail[0]) + sp_store(
                        tail.drop_first(),
                        key@,
                        value@,
                    ) =~= entries_view(old(entries)@).take(i as int) + (seq![tail[0]] + sp_store(
                        tail.drop_first(),
                        key@,
                        value@,
                    )));
                }
            }
            r
        }
    }
}

/// The variables and the label map of a registry value: the extraction
/// result of its message, or empty lists when the value is inert or does
/// not parse.
pub fn extract_variables_and_options(value: &TranslationValue) -> (r: (Vec<String>, Vec<
    (String, Vec<String>),
>))
    ensures
        match value@ {
            TvModel::Message(m) => match sp_extract(m) {
                Some(e) => strs(r.0@) == e.0 && opts_view(r.1@) == e.1,
                None => strs(r.0@).len() == 0 && opts_view(r.1@).len() == 0,
            },
            TvModel::Inert => strs(r.0@).len() == 0 && opts_view(r.1@).len() == 0,
        },
{
    match value {
        TranslationValue::Message(s) => {
            let parser = Parser::new(s.as_str());
            match parser.parse() {
                Ok(ast) => collect_variables_and_options(&ast),
                Err(_) => (Vec::new(), Vec::new()),
            }
        },
        TranslationValue::Inert => (Vec::new(), Vec::new()),
    }
}

} // verus!
