//! The provider configuration and the registry mapping each domain name to
//! its one domain controller.
//!
//! The registry is built once at startup; duplicate domain names are a fatal
//! configuration error, not a runtime one.

use vstd::prelude::*;

use crate::epik::Epik;
use crate::helpers::str_eq;

verus! {

/// The index of the first occurrence of `name` in `names`, or `-1`.
pub open spec fn first_index_of(names: Seq<Seq<char>>, name: Seq<char>) -> int
    decreases names.len(),
{
    if names.len() == 0 {
        -1
    } else if names[0] == name {
        0
    } else {
        let rest = first_index_of(names.drop_first(), name);
        if rest < 0 {
            -1
        } else {
            rest + 1
        }
    }
}

/// `first_index_of` finds the first occurrence: a valid index bearing the
/// name, with no earlier occurrence — or `-1` exactly when the name is
/// nowhere.
pub proof fn lemma_first_index_of(names: Seq<Seq<char>>, name: Seq<char>)
    ensures
        first_index_of(names, name) >= 0 ==> 0 <= first_index_of(names, name) < names.len()
            && names[first_index_of(names, name)] == name,
        first_index_of(names, name) < 0 ==> forall|j: int|
            0 <= j < names.len() ==> names[j] != name,
        forall|j: int| 0 <= j < first_index_of(names, name) ==> names[j] != name,
    decreases names.len(),
{
    if names.len() > 0 {
        let rest = names.drop_first();
        lemma_first_index_of(rest, name);
        assert(forall|j: int| 0 <= j < rest.len() ==> rest[j] == names[j + 1]);
        if names[0] != name {
            let fr = first_index_of(rest, name);
            if fr < 0 {
                assert forall|j: int| 0 <= j < names.len() implies names[j] != name by {
                    if j > 0 {
                        assert(rest[j - 1] != name);
                    }
                }
            } else {
                assert(first_index_of(names, name) == fr + 1);
                assert forall|j: int| 0 <= j < fr + 1 implies names[j] != name by {
                    if j > 0 {
                        assert(rest[j - 1] != name);
                    }
                }
            }
        }
    }
}

/// One registry entry: a domain name and its controller.
#[derive(Debug, Clone)]
pub struct ControllerEntry<T> {
    pub domain_name: String,
    pub controller: T,
}

/// The registry of domain controllers, keyed by domain name. Construction
/// rejects duplicate names, so each domain is owned by exactly one
/// controller.
#[derive(Debug)]
pub struct DomainControllers<T> {
    entries: Vec<ControllerEntry<T>>,
}

/// The error raised when a registry cannot be built from a configuration.
#[derive(Debug, Clone, PartialEq, Eq, Structural)]
pub enum ConfigError {
    /// Two configured providers claim the same domain name.
    DuplicateDomainNames,
}

impl<T> DomainControllers<T> {
    /// The configured domain names, in configuration order.
    pub closed spec fn names(&self) -> Seq<Seq<char>> {
        self.entries@.map_values(|e: ControllerEntry<T>| e.domain_name@)
    }

    /// The controller at a registry position.
    pub closed spec fn controller_at(&self, i: int) -> T {
        self.entries@[i].controller
    }

    /// Well-formedness: no domain name occurs twice.
    pub open spec fn wf(&self) -> bool {
        forall|i: int, j: int|
            0 <= i < j < self.names().len() ==> self.names()[i] != self.names()[j]
    }

    /// How many controllers are registered.
    pub fn len(&self) -> (r: usize)
        ensures
            r == self.names().len(),
    {
        self.entries.len()
    }

    /// The position of the controller for a domain name, if any.
    pub fn find(&self, name: &str) -> (r: Option<usize>)
        ensures
            r matches Some(i) ==> i == first_index_of(self.names(), name@),
            r is None ==> first_index_of(self.names(), name@) < 0,
    {
        proof {
            lemma_first_index_of(self.names(), name@);
        }
        let mut i: usize = 0;
        while i < self.entries.len()
            invariant
                i <= self.entries.len(),
                self.names().len() == self.entries@.len(),
                forall|j: int| 0 <= j < i ==> self.names()[j] != name@,
            decreases self.entries.len() - i,
        {
            if str_eq(self.entries[i].domain_name.as_str(), name) {
                proof {
                    lemma_first_index_prefix(self.names(), name@, i as int);
                }
                return Some(i);
            }
            i += 1;
        }
        proof {
            lemma_first_index_of(self.names(), name@);
            if first_index_of(self.names(), name@) >= 0 {
                assert(false);
            }
        }
        None
    }

    /// Build the registry, rejecting duplicate domain names.
    pub fn from_entries(entries: Vec<ControllerEntry<T>>) -> (r: Result<
        DomainControllers<T>,
        ConfigError,
    >)
        ensures
            r matches Ok(reg) ==> reg.wf() && reg.names() == entries@.map_values(
                |e: ControllerEntry<T>| e.domain_name@,
            ) && forall|i: int|
                0 <= i < entries@.len() ==> reg.controller_at(i) == entries@[i].controller,
            r is Err ==> exists|i: int, j: int|
                0 <= i < j < entries@.len() && entries@[i].domain_name@ == entries@[j].domain_name@,
    {
        let mut i: usize = 0;
        while i < entries.len()
            invariant
                i <= entries.len(),
                forall|a: int, b: int|
                    0 <= a < b < i ==> entries@[a].domain_name@ != entries@[b].domain_name@,
            decreases entries.len() - i,
        {
            let mut j: usize = 0;
            while j < i
                invariant
                    j <= i < entries.len(),
                    forall|b: int|
                        0 <= b < j ==> entries@[b].domain_name@ != entries@[i as int].domain_name@,
                decreases i - j,
            {
                if str_eq(
                    entries[j].domain_name.as_str(),
                    entries[i].domain_name.as_str(),
                ) {
                    return Err(ConfigError::DuplicateDomainNames);
                }
                j += 1;
            }
            i += 1;
        }
        let reg = DomainControllers { entries };
        Ok(reg)
    }

    /// Take the controller at a position out of the registry, to operate on
    /// it; `restore` puts it back.
    pub fn take_at(&mut self, i: usize) -> (r: ControllerEntry<T>)
        requires
            0 <= i < old(self).names().len(),
        ensures
            r.domain_name@ == old(self).names()[i as int],
            r.controller == old(self).controller_at(i as int),
            final(self).names() == old(self).names().remove(i as int),
            forall|j: int|
                0 <= j < i ==> final(self).controller_at(j) == old(self).controller_at(j),
            forall|j: int|
                i <= j < final(self).names().len() ==> final(self).controller_at(j) == old(
                    self,
                ).controller_at(j + 1),
    {
        let e = self.entries.remove(i);
        proof {
            assert(self.names() =~= old(self).names().remove(i as int));
        }
        e
    }

    /// Put a controller back at the position `take_at` removed it from.
    pub fn restore(&mut self, i: usize, entry: ControllerEntry<T>)
        requires
            0 <= i <= old(self).names().len(),
        ensures
            final(self).names() == old(self).names().insert(i as int, entry.domain_name@),
            final(self).controller_at(i as int) == entry.controller,
            forall|j: int|
                0 <= j < i ==> final(self).controller_at(j) == old(self).controller_at(j),
            forall|j: int|
                i < j < final(self).names().len() ==> final(self).controller_at(j) == old(
                    self,
                ).controller_at(j - 1),
    {
        self.entries.insert(i, entry);
        proof {
            assert(self.names() =~= old(self).names().insert(
                i as int,
                self.entries@[i as int].domain_name@,
            ));
        }
    }
}

proof fn lemma_first_index_prefix(names: Seq<Seq<char>>, name: Seq<char>, i: int)
    requires
        0 <= i < names.len(),
        names[i] == name,
        forall|j: int| 0 <= j < i ==> names[j] != name,
    ensures
        first_index_of(names, name) == i,
    decreases i,
{
    if i > 0 {
        assert(forall|j: int|
            0 <= j < names.drop_first().len() ==> names.drop_first()[j] == names[j + 1]);
        lemma_first_index_prefix(names.drop_first(), name, i - 1);
    } else {
        assert(names[0] == name);
    }
}

/// The configuration: the list of configured providers.
#[derive(Debug, Clone)]
pub struct Config {
    /// The Epik provider configurations.
    pub epik_configs: Vec<Epik>,
}

impl Config {
    /// Turn the configuration into a registry keyed by domain name,
    /// rejecting duplicate domains as a fatal configuration error.
    pub fn into_domain_controllers(self) -> (r: Result<DomainControllers<Epik>, ConfigError>)
        ensures
            r matches Ok(reg) ==> reg.wf() && reg.names() == self.epik_configs@.map_values(
                |e: Epik| e.domain_name_view(),
            ) && forall|i: int|
                0 <= i < self.epik_configs@.len() ==> reg.controller_at(i) == self.epik_configs@[i],
            r is Err ==> exists|i: int, j: int|
                0 <= i < j < self.epik_configs@.len() && self.epik_configs@[i].domain_name_view()
                    == self.epik_configs@[j].domain_name_view(),
    {
        let ghost cfgs = self.epik_configs@;
        let mut entries: Vec<ControllerEntry<Epik>> = Vec::new();
        let mut configs = self.epik_configs;
        while configs.len() > 0
            invariant
                entries@.len() + configs@.len() == cfgs.len(),
                configs@ == cfgs.skip(entries@.len() as int),
                forall|j: int| #![auto] 0 <= j < entries@.len() ==> entries@[j].controller
                    == cfgs[j],
                forall|j: int| #![auto] 0 <= j < entries@.len() ==> entries@[j].domain_name@
                    == cfgs[j].domain_name_view(),
            decreases configs.len(),
        {
            let ghost done = entries@.len() as int;
            let controller = configs.remove(0);
            proof {
                assert(controller == cfgs[done]);
                assert(configs@ =~= cfgs.skip(done + 1));
            }
            let name = controller.domain_name().clone();
            entries.push(ControllerEntry { domain_name: name, controller });
        }
        match DomainControllers::from_entries(entries) {
            Ok(reg) => {
                proof {
                    assert(reg.names() =~= cfgs.map_values(|e: Epik| e.domain_name_view()));
                }
                Ok(reg)
            },
            Err(e) => {
                proof {
                    let (a, b): (int, int) = choose|a: int, b: int|
                        0 <= a < b < entries@.len() && entries@[a].domain_name@
                            == entries@[b].domain_name@;
                    assert(cfgs[a].domain_name_view() == cfgs[b].domain_name_view());
                }
                Err(e)
            },
        }
    }
}

} // verus!
