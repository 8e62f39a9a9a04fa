//! The local app registry: named apps with a pinned source and version,
//! cached under the agent's home directory.  Loading and saving the
//! registry file, and running an app, are the caller's I/O; the table
//! logic lives here.

use vstd::prelude::*;
use vstd::string::StringExecFns;

verus! {

/// The name of an installed app.
#[derive(Debug)]
pub struct AppName(pub String);

impl AppName {
    pub fn as_str(&self) -> (r: &str)
        ensures
            r@ == self.0@,
    {
        self.0.as_str()
    }
}

/// What an app declares about itself: its name, description and commands.
#[derive(Debug)]
pub struct AppConfig {
    pub name: String,
    pub description: String,
    pub commands: Vec<(String, CommandConfig)>,
}

/// One command an app offers.
#[derive(Debug)]
pub struct CommandConfig {
    pub run: String,
    pub description: String,
}

/// One installed app: its name, where it came from, and its version.
#[derive(Debug)]
pub struct RegistryEntry {
    pub name: AppName,
    pub source: String,
    pub version: String,
}

/// The registry file's shape: a format version and the installed apps.
#[derive(Debug)]
pub struct Registry {
    pub version: u32,
    pub app: Vec<RegistryEntry>,
}

/// One entry as a triple of character sequences: name, source, version.
pub open spec fn entry_model(e: RegistryEntry) -> (Seq<char>, Seq<char>, Seq<char>) {
    (e.name.0@, e.source@, e.version@)
}

pub open spec fn registry_view(es: Seq<RegistryEntry>) -> Seq<(Seq<char>, Seq<char>, Seq<char>)> {
    es.map_values(|e: RegistryEntry| entry_model(e))
}

/// The first entry of `name`, if any.
pub open spec fn registry_lookup(
    es: Seq<(Seq<char>, Seq<char>, Seq<char>)>,
    name: Seq<char>,
) -> Option<(Seq<char>, Seq<char>, Seq<char>)>
    decreases es.len(),
{
    if es.len() == 0 {
        None
    } else if es[0].0 == name {
        Some(es[0])
    } else {
        registry_lookup(es.drop_first(), name)
    }
}

/// Where `name` first stands, or -1.
pub open spec fn registry_index(
    es: Seq<(Seq<char>, Seq<char>, Seq<char>)>,
    name: Seq<char>,
) -> int
    decreases es.len(),
{
    if es.len() == 0 {
        -1
    } else if es[0].0 == name {
        0
    } else {
        let r = registry_index(es.drop_first(), name);
        if r < 0 {
            -1
        } else {
            r + 1
        }
    }
}

proof fn lemma_registry_index_found(
    es: Seq<(Seq<char>, Seq<char>, Seq<char>)>,
    name: Seq<char>,
    i: int,
)
    requires
        0 <= i < es.len(),
        forall|j: int| 0 <= j < i ==> (#[trigger] es[j]).0 != name,
        es[i].0 == name,
    ensures
        registry_index(es, name) == i,
        registry_lookup(es, name) == Some(es[i]),
    decreases i,
{
    if i == 0 {
    } else {
        assert(es.drop_first()[i - 1] == es[i]);
        assert forall|j: int| 0 <= j < i - 1 implies (#[trigger] es.drop_first()[j]).0 != name by {
            assert(es.drop_first()[j] == es[j + 1]);
        }
        lemma_registry_index_found(es.drop_first(), name, i - 1);
    }
}

proof fn lemma_registry_index_none(es: Seq<(Seq<char>, Seq<char>, Seq<char>)>, name: Seq<char>)
    requires
        forall|j: int| 0 <= j < es.len() ==> (#[trigger] es[j]).0 != name,
    ensures
        registry_index(es, name) == -1,
        registry_lookup(es, name) is None,
    decreases es.len(),
{
    if es.len() > 0 {
        assert forall|j: int| 0 <= j < es.drop_first().len() implies (#[trigger] es.drop_first()[j]).0
            != name by {
            assert(es.drop_first()[j] == es[j + 1]);
        }
        lemma_registry_index_none(es.drop_first(), name);
    }
}

fn clone_entry(e: &RegistryEntry) -> (r: RegistryEntry)
    ensures
        entry_model(r) == entry_model(*e),
{
    RegistryEntry {
        name: AppName(e.name.0.clone()),
        source: e.source.clone(),
        version: e.version.clone(),
    }
}

/// The registry of installed apps and the home directory their sources are
/// cached under.
#[derive(Debug)]
pub struct AppsCache {
    pub home: String,
    pub registry: Vec<RegistryEntry>,
}

impl AppsCache {
    /// A cache over an already-loaded registry.
    pub fn new(home: String, registry: Vec<RegistryEntry>) -> (r: Self)
        ensures
            r.home == home,
            r.registry == registry,
    {
        AppsCache { home, registry }
    }

    /// The agent's home directory.
    pub fn home(&self) -> (r: &str)
        ensures
            r@ == self.home@,
    {
        self.home.as_str()
    }

    /// A path under the home directory.
    pub fn make_path(&self, path: &str) -> (r: String)
        ensures
            r@ == self.home@ + "/"@ + path@,
    {
        let mut s = self.home.clone();
        s.append("/");
        s.append(path);
        s
    }

    /// Where an app's module source is cached.
    pub fn local_cache_path(&self, name: &AppName) -> (r: String)
        ensures
            r@ == self.home@ + "/"@ + ("cache/"@ + name.0@ + "/mod.ts"@),
    {
        let mut p = String::from_str("cache/");
        p.append(name.0.as_str());
        p.append("/mod.ts");
        self.make_path(p.as_str())
    }

    /// The registry entry of `name`, if the app is installed.
    pub fn get_entry(&self, name: &AppName) -> (r: Option<RegistryEntry>)
        ensures
            match r {
                Some(e) => registry_lookup(registry_view(self.registry@), name.0@) == Some(
                    entry_model(e),
                ),
                None => registry_lookup(registry_view(self.registry@), name.0@) is None,
            },
    {
        let ghost rv = registry_view(self.registry@);
        let mut i: usize = 0;
        while i < self.registry.len()
            invariant
                rv == registry_view(self.registry@),
                0 <= i <= self.registry@.len(),
                forall|j: int| 0 <= j < i ==> (#[trigger] rv[j]).0 != name.0@,
            decreases self.registry@.len() - i,
        {
            if self.registry[i].name.0.eq(&name.0) {
                proof {
                    lemma_registry_index_found(rv, name.0@, i as int);
                }
                return Some(clone_entry(&self.registry[i]));
            }
            i = i + 1;
        }
        proof {
            lemma_registry_index_none(rv, name.0@);
        }
        None
    }

    /// Install or update an entry: an entry of the same name is replaced
    /// (and handed back); a new name is appended.  The caller saves the
    /// registry afterwards.
    pub fn insert(&mut self, entry: RegistryEntry) -> (r: Option<RegistryEntry>)
        ensures
            ({
                let rv = registry_view(old(self).registry@);
                let i = registry_index(rv, entry.name.0@);
                &&& final(self).home == old(self).home
                &&& if i >= 0 {
                    r is Some && entry_model(r->0) == rv[i] && registry_view(
                        final(self).registry@,
                    ) == rv.update(i, entry_model(entry))
                } else {
                    r is None && registry_view(final(self).registry@) == rv.push(
                        entry_model(entry),
                    )
                }
            }),
    {
        let ghost rv = registry_view(self.registry@);
        let mut i: usize = 0;
        while i < self.registry.len()
            invariant
                self.registry@ == old(self).registry@,
                self.home == old(self).home,
                rv == registry_view(self.registry@),
                0 <= i <= self.registry@.len(),
                forall|j: int| 0 <= j < i ==> (#[trigger] rv[j]).0 != entry.name.0@,
            decreases self.registry@.len() - i,
    {
            if self.registry[i].name.0.eq(&entry.name.0) {
                proof {
                    lemma_registry_index_found(rv, entry.name.0@, i as int);
                }
                let displaced = self.registry.remove(i);
                self.registry.insert(i, entry);
                proof {
                    assert(registry_view(self.registry@) =~= rv.update(
                        i as int,
                        entry_model(self.registry@[i as int]),
                    ));
                }
                return Some(displaced);
            }
            i = i + 1;
        }
        proof {
            lemma_registry_index_none(rv, entry.name.0@);
        }
        self.registry.push(entry);
        proof {
            assert(registry_view(self.registry@) =~= rv.push(
                entry_model(self.registry@.last()),
            ));
        }
        None
    }

    /// Uninstall an entry: the first entry of the name leaves the table
    /// and is handed back; an unknown name changes nothing.
    pub fn remove(&mut self, name: &AppName) -> (r: Option<RegistryEntry>)
        ensures
            ({
                let rv = registry_view(old(self).registry@);
                let i = registry_index(rv, name.0@);
                &&& final(self).home == old(self).home
                &&& if i >= 0 {
                    r is Some && entry_model(r->0) == rv[i] && registry_view(
                        final(self).registry@,
                    ) == rv.remove(i)
                } else {
                    r is None && final(self).registry@ == old(self).registry@
                }
            }),
    {
        let ghost rv = registry_view(self.registry@);
        let mut i: usize = 0;
        while i < self.registry.len()
            invariant
                self.registry@ == old(self).registry@,
                self.home == old(self).home,
                rv == registry_view(self.registry@),
                0 <= i <= self.registry@.len(),
                forall|j: int| 0 <= j < i ==> (#[trigger] rv[j]).0 != name.0@,
            decreases self.registry@.len() - i,
        {
            if self.registry[i].name.0.eq(&name.0) {
                proof {
                    lemma_registry_index_found(rv, name.0@, i as int);
                }
                let removed = self.registry.remove(i);
                proof {
                    assert(registry_view(self.registry@) =~= rv.remove(i as int));
                }
                return Some(removed);
            }
            i = i + 1;
        }
        proof {
            lemma_registry_index_none(rv, name.0@);
        }
        None
    }
}

/// A request to run one command of an installed app.
#[derive(Debug)]
pub struct RunCommand {
    pub app: AppName,
    pub command: String,
}

/// What running a command produced.
#[derive(Debug)]
pub struct CommandOutput {
    pub output: String,
}

} // verus!
