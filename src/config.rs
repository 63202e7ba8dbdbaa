use vstd::prelude::*;
use crate::types::ConfigFile;

verus! {

/// Why a configuration value could not be read.
#[derive(Clone, Copy, Debug, PartialEq, Eq, Structural)]
pub enum ConfigError {
    /// No value is stored under the key.
    NotFound,
}

/// The four configuration values; a key that has no value is missing.
pub struct ConfigStore {
    repo: Option<String>,
    editor: Option<String>,
    author: Option<String>,
    title: Option<String>,
}

impl ConfigStore {
    /// The field that holds the value of `key`.
    pub closed spec fn slot(&self, key: ConfigFile) -> Option<String> {
        match key {
            ConfigFile::Repo => self.repo,
            ConfigFile::Editor => self.editor,
            ConfigFile::Author => self.author,
            ConfigFile::Title => self.title,
        }
    }
}

impl View for ConfigStore {
    type V = Map<ConfigFile, Seq<char>>;

    closed spec fn view(&self) -> Map<ConfigFile, Seq<char>> {
        Map::new(|k: ConfigFile| self.slot(k) is Some, |k: ConfigFile| self.slot(k).unwrap()@)
    }
}

/// Every one of the four values is stored.
pub open spec fn all_present(m: Map<ConfigFile, Seq<char>>) -> bool {
    m.contains_key(ConfigFile::Repo) && m.contains_key(ConfigFile::Editor)
        && m.contains_key(ConfigFile::Author) && m.contains_key(ConfigFile::Title)
}

/// None of the four values is stored.
pub open spec fn none_present(m: Map<ConfigFile, Seq<char>>) -> bool {
    !m.contains_key(ConfigFile::Repo) && !m.contains_key(ConfigFile::Editor)
        && !m.contains_key(ConfigFile::Author) && !m.contains_key(ConfigFile::Title)
}

/// What `read` reports for `key` when the store holds `m`.
pub open spec fn read_of(m: Map<ConfigFile, Seq<char>>, key: ConfigFile) -> Result<Seq<char>, ConfigError> {
    if m.contains_key(key) {
        Ok(m[key])
    } else {
        Err(ConfigError::NotFound)
    }
}

impl ConfigStore {
    /// A store with no value in it.
    pub fn new() -> (r: ConfigStore)
        ensures
            r@ == Map::<ConfigFile, Seq<char>>::empty(),
    {
        let r = ConfigStore { repo: None, editor: None, author: None, title: None };
        assert(r@ =~= Map::<ConfigFile, Seq<char>>::empty());
        r
    }

    /// The value stored under `key`.
    pub fn read(&self, key: ConfigFile) -> (r: Result<String, ConfigError>)
        ensures
            match r {
                Ok(v) => read_of(self@, key) == Ok::<Seq<char>, ConfigError>(v@),
                Err(e) => read_of(self@, key) == Err::<Seq<char>, ConfigError>(e),
            },
    {
        let slot = match key {
            ConfigFile::Repo => &self.repo,
            ConfigFile::Editor => &self.editor,
            ConfigFile::Author => &self.author,
            ConfigFile::Title => &self.title,
        };
        match slot {
            Some(v) => Ok(v.clone()),
            None => Err(ConfigError::NotFound),
        }
    }

    /// Whether a value is stored under `key`.
    pub fn contains(&self, key: ConfigFile) -> (r: bool)
        ensures
            r == self@.contains_key(key),
    {
        match key {
            ConfigFile::Repo => self.repo.is_some(),
            ConfigFile::Editor => self.editor.is_some(),
            ConfigFile::Author => self.author.is_some(),
            ConfigFile::Title => self.title.is_some(),
        }
    }

    /// Stores `value` under `key`, replacing what was there.
    pub fn write(&mut self, key: ConfigFile, value: String)
        ensures
            final(self)@ == old(self)@.insert(key, value@),
    {
        match key {
            ConfigFile::Repo => self.repo = Some(value),
            ConfigFile::Editor => self.editor = Some(value),
            ConfigFile::Author => self.author = Some(value),
            ConfigFile::Title => self.title = Some(value),
        }
        assert(self@ =~= old(self)@.insert(key, value@));
    }

    /// Drops the value stored under `key`, if any.
    pub fn remove(&mut self, key: ConfigFile)
        ensures
            final(self)@ == old(self)@.remove(key),
    {
        match key {
            ConfigFile::Repo => self.repo = None,
            ConfigFile::Editor => self.editor = None,
            ConfigFile::Author => self.author = None,
            ConfigFile::Title => self.title = None,
        }
        assert(self@ =~= old(self)@.remove(key));
    }

    /// Whether at least one of the four values is missing.
    pub fn is_config_missing(&self) -> (r: bool)
        ensures
            r == !all_present(self@),
    {
        !(self.contains(ConfigFile::Repo) && self.contains(ConfigFile::Editor)
            && self.contains(ConfigFile::Author) && self.contains(ConfigFile::Title))
    }

    /// Whether all four values are missing, as before the first run.
    pub fn is_first_time_run(&self) -> (r: bool)
        ensures
            r == none_present(self@),
    {
        !self.contains(ConfigFile::Repo) && !self.contains(ConfigFile::Editor)
            && !self.contains(ConfigFile::Author) && !self.contains(ConfigFile::Title)
    }
}

/// Reading a key after writing a value under it gives back exactly that value;
/// after removing it, reading reports that nothing is stored.
pub proof fn lemma_read_after_write_and_remove(m: Map<ConfigFile, Seq<char>>, key: ConfigFile, v: Seq<char>)
    ensures
        read_of(m.insert(key, v), key) == Ok::<Seq<char>, ConfigError>(v),
        read_of(m.remove(key), key) == Err::<Seq<char>, ConfigError>(ConfigError::NotFound),
{
}

} // verus!
