//! The store of named profiles, the choice of one of them, and the order in
//! which the places of a configuration file are tried.

use crate::profile::{first_present, merged, Profile, ProfileView};
use vstd::prelude::*;
use vstd::string::*;

verus! {

/// The named profiles of a configuration, and the name to use where none is
/// asked for.
#[derive(Debug, Clone, PartialEq, Eq)]
pub struct Config {
    pub default: Option<String>,
    /// Each profile under its name. No name occurs twice.
    pub profile: Vec<(String, Profile)>,
}

/// Why no profile could be chosen.
#[derive(Debug, Clone, PartialEq, Eq)]
pub enum SelectionError {
    /// No name was asked for and the store names no default.
    Undetermined,
    /// The store has no profile of this name.
    Missing(String),
}

/// The text of an optional string.
pub open spec fn text_of(s: Option<String>) -> Option<Seq<char>> {
    match s {
        Some(name) => Some(name@),
        None => None,
    }
}

impl SelectionError {
    pub open spec fn text(self) -> Seq<char> {
        match self {
            SelectionError::Undetermined => "cannot determine which profile to use"@,
            SelectionError::Missing(name) => "the profile "@ + name@ + " does not exist"@,
        }
    }

    /// The error in words; a missing profile is named.
    pub fn message(&self) -> (r: String)
        ensures
            r@ == self.text(),
    {
        match self {
            SelectionError::Undetermined => String::from_str(
                "cannot determine which profile to use",
            ),
            SelectionError::Missing(name) => {
                let mut out = String::from_str("the profile ");
                out.append(name.as_str());
                out.append(" does not exist");
                out
            },
        }
    }
}

impl Config {
    /// The names of the stored profiles, in the order of storage.
    pub open spec fn names(&self) -> Seq<Seq<char>> {
        Seq::new(self.profile@.len(), |i: int| self.profile@[i].0@)
    }

    /// No name occurs twice.
    pub open spec fn wf(&self) -> bool {
        self.names().no_duplicates()
    }

    /// The store as a map from names to profiles.
    pub open spec fn entries(&self) -> Map<Seq<char>, ProfileView> {
        Map::new(
            |name: Seq<char>| self.names().contains(name),
            |name: Seq<char>| self.profile@[self.names().index_of(name)].1@,
        )
    }

    /// Whether no name occurs twice.
    pub fn unique_names(&self) -> (r: bool)
        ensures
            r == self.wf(),
    {
        let mut i: usize = 0;
        while i < self.profile.len()
            invariant
                i <= self.profile.len(),
                forall|a: int, b: int| 0 <= a < b < i ==> self.names()[a] != self.names()[b],
            decreases self.profile.len() - i,
        {
            let mut j: usize = 0;
            while j < i
                invariant
                    j <= i < self.profile.len(),
                    forall|a: int| 0 <= a < j ==> self.names()[a] != self.names()[i as int],
                decreases i - j,
            {
                if self.profile[j].0 == self.profile[i].0 {
                    assert(self.names()[j as int] == self.names()[i as int]);
                    return false;
                }
                j += 1;
            }
            i += 1;
        }
        proof {
            let names = self.names();
            assert forall|a: int, b: int|
                0 <= a < names.len() && 0 <= b < names.len() && a != b implies names[a]
                != names[b] by {
                if a < b {
                    assert(names[a] != names[b]);
                } else {
                    assert(names[b] != names[a]);
                }
            }
        }
        true
    }

    /// The name to look for: the requested one, else the default.
    pub open spec fn chosen_name(&self, requested: Option<String>) -> Option<Seq<char>> {
        first_present(text_of(requested), text_of(self.default))
    }

    /// The store holds a profile under `name`, which is the name to look for.
    pub open spec fn offers(&self, requested: Option<String>, name: Seq<char>) -> bool {
        &&& self.chosen_name(requested) == Some(name)
        &&& self.entries().contains_key(name)
    }

    /// The error `e` is owed: there is no name to look for, or the store
    /// holds no profile under the name that `e` gives, the one to look for.
    pub open spec fn refuses(&self, requested: Option<String>, e: SelectionError) -> bool {
        match e {
            SelectionError::Undetermined => self.chosen_name(requested) is None,
            SelectionError::Missing(name) => {
                &&& self.chosen_name(requested) == Some(name@)
                &&& !self.entries().contains_key(name@)
            },
        }
    }

    /// Takes out of the store the profile that `requested` names, or, where
    /// nothing is requested, the one that the store's default names. Returns
    /// the profile with the name it was found under. On an error the store
    /// is as it was.
    pub fn select(&mut self, requested: Option<String>) -> (r: Result<
        (Profile, String),
        SelectionError,
    >)
        requires
            old(self).wf(),
        ensures
            final(self).wf(),
            final(self).default == old(self).default,
            match r {
                Ok((profile, name)) => {
                    &&& old(self).offers(requested, name@)
                    &&& profile@ == old(self).entries()[name@]
                    &&& final(self).entries() == old(self).entries().remove(name@)
                },
                Err(e) => old(self).refuses(requested, e) && *final(self) == *old(self),
            },
    {
        let name: String = match requested {
            Some(name) => name,
            None => match &self.default {
                Some(name) => name.clone(),
                None => {
                    return Err(SelectionError::Undetermined);
                },
            },
        };
        let mut i: usize = 0;
        while i < self.profile.len()
            invariant
                *self == *old(self),
                self.wf(),
                self.chosen_name(requested) == Some(name@),
                i <= self.profile.len(),
                forall|j: int| 0 <= j < i ==> self.names()[j] != name@,
            decreases self.profile.len() - i,
        {
            if self.profile[i].0 == name {
                let ghost before = self.names();
                assert(before[i as int] == name@);
                let (_, profile) = self.profile.remove(i);
                proof {
                    let after = self.names();
                    assert(after =~= before.remove(i as int));
                    assert(before.index_of(name@) == i);
                    assert forall|a: int, b: int|
                        0 <= a < after.len() && 0 <= b < after.len() && a != b implies after[a]
                        != after[b] by {
                        let aa = if a < i { a } else { a + 1 };
                        let bb = if b < i { b } else { b + 1 };
                        assert(before[aa] != before[bb]);
                    }
                    assert forall|k: Seq<char>| #[trigger]
                        self.entries().contains_key(k) == old(self).entries().remove(
                            name@,
                        ).contains_key(k) by {
                        if after.contains(k) {
                            let j = after.index_of(k);
                            let jj = if j < i {
                                j
                            } else {
                                j + 1
                            };
                            assert(before[jj] == k);
                        }
                        if before.contains(k) && k != name@ {
                            let j = before.index_of(k);
                            let jj = if j < i {
                                j
                            } else {
                                j - 1
                            };
                            assert(after[jj] == k);
                        }
                    }
                    assert forall|k: Seq<char>| #[trigger]
                        self.entries().contains_key(k) implies self.entries()[k] == old(
                            self,
                        ).entries().remove(name@)[k] by {
                        let j = after.index_of(k);
                        let jj = if j < i {
                            j
                        } else {
                            j + 1
                        };
                        assert(before[jj] == k);
                        assert(before.index_of(k) == jj);
                    }
                    assert(self.entries() =~= old(self).entries().remove(name@));
                }
                return Ok((profile, name));
            }
            i += 1;
        }
        Err(SelectionError::Missing(name))
    }

    /// Resolves what will be submitted: takes the selected profile out of the
    /// store and lays `overrides` over it.
    pub fn resolve(&mut self, requested: Option<String>, overrides: Profile) -> (r: Result<
        (Profile, String),
        SelectionError,
    >)
        requires
            old(self).wf(),
        ensures
            final(self).wf(),
            final(self).default == old(self).default,
            match r {
                Ok((profile, name)) => {
                    &&& old(self).offers(requested, name@)
                    &&& profile@ == merged(old(self).entries()[name@], overrides@)
                    &&& final(self).entries() == old(self).entries().remove(name@)
                },
                Err(e) => old(self).refuses(requested, e) && *final(self) == *old(self),
            },
    {
        match self.select(requested) {
            Ok((stored, name)) => Ok((stored.overwrite(overrides), name)),
            Err(e) => Err(e),
        }
    }
}

/// The place where a configuration file was found.
#[derive(Debug, Clone, Copy, PartialEq, Eq, Structural)]
pub enum ConfigSource {
    /// The path that was given.
    Explicit,
    /// The dotfile in the working directory (0) or in its ancestor of this
    /// distance.
    Ancestor(usize),
    /// The file in the configuration directory of the platform.
    ConfigDir,
    /// The dotfile in the home directory.
    HomeDir,
}

/// No place holds a configuration file.
#[derive(Debug, Clone, Copy, PartialEq, Eq, Structural)]
pub struct NotFoundError;

impl NotFoundError {
    /// The error in words.
    pub fn message(&self) -> (r: String)
        ensures
            r@ == "config file not found"@,
    {
        String::from_str("config file not found")
    }
}

/// The search falls through the given path: none is given, or none is there.
pub open spec fn explicit_absent(explicit: Option<bool>) -> bool {
    explicit != Some(true)
}

/// No directory from the working directory outward holds the dotfile.
pub open spec fn no_ancestor(ancestors: Seq<bool>) -> bool {
    forall|j: int| 0 <= j < ancestors.len() ==> !ancestors[j]
}

/// Whether `r` is the outcome of the search. The places are tried in this
/// order and the first that exists wins: the given path; the dotfile in the
/// working directory and in each ancestor, outward; the file in the
/// configuration directory; the dotfile in the home directory.
pub open spec fn is_located(
    explicit: Option<bool>,
    ancestors: Seq<bool>,
    base: Option<(bool, bool)>,
    r: Result<ConfigSource, NotFoundError>,
) -> bool {
    match r {
        Ok(ConfigSource::Explicit) => explicit == Some(true),
        Ok(ConfigSource::Ancestor(i)) => {
            &&& explicit_absent(explicit)
            &&& i < ancestors.len()
            &&& ancestors[i as int]
            &&& no_ancestor(ancestors.take(i as int))
        },
        Ok(ConfigSource::ConfigDir) => {
            &&& explicit_absent(explicit)
            &&& no_ancestor(ancestors)
            &&& base is Some
            &&& base->Some_0.0
        },
        Ok(ConfigSource::HomeDir) => {
            &&& explicit_absent(explicit)
            &&& no_ancestor(ancestors)
            &&& base is Some
            &&& !base->Some_0.0
            &&& base->Some_0.1
        },
        Err(_) => {
            &&& explicit_absent(explicit)
            &&& no_ancestor(ancestors)
            &&& (base is None || (!base->Some_0.0 && !base->Some_0.1))
        },
    }
}

/// Decides where the configuration file is, from what exists. `explicit`
/// says whether the given path exists, if one was given; `ancestors` says for
/// the working directory and each ancestor, outward, whether it holds the
/// dotfile; `base` says the same of the configuration directory's file and of
/// the home directory's dotfile, where the platform has such directories.
pub fn get_config_path(
    explicit: Option<bool>,
    ancestors: &Vec<bool>,
    base: Option<(bool, bool)>,
) -> (r: Result<ConfigSource, NotFoundError>)
    ensures
        is_located(explicit, ancestors@, base, r),
{
    match explicit {
        Some(true) => {
            return Ok(ConfigSource::Explicit);
        },
        _ => {},
    }
    let mut i: usize = 0;
    while i < ancestors.len()
        invariant
            i <= ancestors.len(),
            explicit_absent(explicit),
            no_ancestor(ancestors@.take(i as int)),
        decreases ancestors.len() - i,
    {
        if ancestors[i] {
            return Ok(ConfigSource::Ancestor(i));
        }
        proof {
            let next = ancestors@.take(i + 1);
            assert forall|j: int| 0 <= j < next.len() implies !#[trigger] next[j] by {
                if j < i {
                    assert(ancestors@.take(i as int)[j] == ancestors@[j]);
                }
            }
        }
        i += 1;
    }
    assert(ancestors@.take(i as int) == ancestors@);
    match base {
        Some((true, _)) => Ok(ConfigSource::ConfigDir),
        Some((false, true)) => Ok(ConfigSource::HomeDir),
        _ => Err(NotFoundError),
    }
}

/// The name of the dotfile looked for in the working directory, its
/// ancestors and the home directory.
pub fn dotfile_name(program: &str) -> (r: String)
    ensures
        r@ == "."@ + program@ + ".toml"@,
{
    let mut name = String::from_str(".");
    name.append(program);
    name.append(".toml");
    name
}

/// The name of the file looked for in the configuration directory.
pub fn config_file_name(program: &str) -> (r: String)
    ensures
        r@ == program@ + ".toml"@,
{
    let mut name = String::from_str(program);
    name.append(".toml");
    name
}

/// A given path that does not exist changes nothing: the search goes on as
/// if no path had been given.
pub proof fn lemma_missing_explicit_falls_through(
    ancestors: Seq<bool>,
    base: Option<(bool, bool)>,
    r: Result<ConfigSource, NotFoundError>,
)
    ensures
        is_located(Some(false), ancestors, base, r) == is_located(None, ancestors, base, r),
{
}

/// The search has one outcome.
pub proof fn lemma_located_once(
    explicit: Option<bool>,
    ancestors: Seq<bool>,
    base: Option<(bool, bool)>,
    a: Result<ConfigSource, NotFoundError>,
    b: Result<ConfigSource, NotFoundError>,
)
    requires
        is_located(explicit, ancestors, base, a),
        is_located(explicit, ancestors, base, b),
    ensures
        a == b,
{
    match (a, b) {
        (Ok(ConfigSource::Ancestor(i)), Ok(ConfigSource::Ancestor(j))) => {
            if i < j {
                assert(ancestors.take(j as int)[i as int] == ancestors[i as int]);
            }
            if j < i {
                assert(ancestors.take(i as int)[j as int] == ancestors[j as int]);
            }
        },
        (Err(x), Err(y)) => {
            assert(x == y);
        },
        _ => {},
    }
}

} // verus!
