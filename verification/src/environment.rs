//! A snapshot of the process environment.

use crate::platform::{Platform, PlatformView};
use vstd::prelude::*;

verus! {

/// One variable as it was set: later settings of a name hide earlier ones.
struct Binding {
    name: String,
    value: Vec<u8>,
}

/// The environment a search is made in: the platform's conventions, the
/// variables with their values as the system holds them, and the user's home
/// directory where the platform could tell it.
pub struct Environment {
    platform: Platform,
    bindings: Vec<Binding>,
    home_dir: Option<Vec<u8>>,
}

/// The mathematical content of an `Environment`.
pub struct EnvironmentView {
    pub platform: PlatformView,
    /// The value of each variable that is set.
    pub variables: Map<Seq<char>, Seq<u8>>,
    /// The user's home directory, if it is known.
    pub home_dir: Option<Seq<u8>>,
}

/// The value that the latest binding of `name` gives it.
spec fn lookup(bindings: Seq<Binding>, name: Seq<char>) -> Option<Seq<u8>>
    decreases bindings.len(),
{
    if bindings.len() == 0 {
        None
    } else if bindings.last().name@ == name {
        Some(bindings.last().value@)
    } else {
        lookup(bindings.drop_last(), name)
    }
}

impl View for Environment {
    type V = EnvironmentView;

    closed spec fn view(&self) -> EnvironmentView {
        EnvironmentView {
            platform: self.platform@,
            variables: Map::new(
                |name: Seq<char>| lookup(self.bindings@, name) is Some,
                |name: Seq<char>| lookup(self.bindings@, name)->0,
            ),
            home_dir: match self.home_dir {
                Some(home) => Some(home@),
                None => None,
            },
        }
    }
}

impl Environment {
    /// An environment on `platform` in which no variable is set and the home
    /// directory is unknown.
    pub fn new(platform: Platform) -> (env: Environment)
        ensures
            env@ == (EnvironmentView {
                platform: platform@,
                variables: Map::<Seq<char>, Seq<u8>>::empty(),
                home_dir: None,
            }),
    {
        let env = Environment { platform, bindings: Vec::new(), home_dir: None };
        assert(env@.variables =~= Map::<Seq<char>, Seq<u8>>::empty());
        env
    }

    /// Sets the variable `name` to `value`, replacing any earlier value.
    pub fn set_var(&mut self, name: String, value: Vec<u8>)
        ensures
            final(self)@ == (EnvironmentView {
                variables: old(self)@.variables.insert(name@, value@),
                ..old(self)@
            }),
    {
        let ghost before = self.bindings@;
        self.bindings.push(Binding { name, value });
        proof {
            assert(self.bindings@.drop_last() =~= before);
            assert(self@.variables =~= old(self)@.variables.insert(name@, value@));
        }
    }

    /// Records `home` as the user's home directory.
    pub fn set_home_dir(&mut self, home: Vec<u8>)
        ensures
            final(self)@ == (EnvironmentView { home_dir: Some(home@), ..old(self)@ }),
    {
        self.home_dir = Some(home);
    }

    /// The value of the variable `name`, if it is set.
    pub fn var(&self, name: &str) -> (value: Option<Vec<u8>>)
        ensures
            value is Some <==> self@.variables.contains_key(name@),
            value matches Some(v) ==> v@ == self@.variables[name@],
    {
        let wanted = name.to_owned();
        let mut i: usize = self.bindings.len();
        assert(self.bindings@.take(i as int) =~= self.bindings@);
        while i > 0
            invariant
                i <= self.bindings@.len(),
                wanted@ == name@,
                lookup(self.bindings@, name@) == lookup(self.bindings@.take(i as int), name@),
            decreases i,
        {
            i = i - 1;
            proof {
                assert(self.bindings@.take(i + 1).drop_last() =~= self.bindings@.take(i as int));
            }
            if self.bindings[i].name == wanted {
                let value = self.bindings[i].value.clone();
                assert(value@ =~= self.bindings@[i as int].value@);
                return Some(value);
            }
        }
        None
    }

    /// The user's home directory, if it is known.
    pub fn home_dir(&self) -> (home: Option<Vec<u8>>)
        ensures
            home is Some <==> self@.home_dir is Some,
            home matches Some(h) ==> h@ == self@.home_dir->0,
    {
        match &self.home_dir {
            Some(home) => {
                let copy = home.clone();
                assert(copy@ =~= home@);
                Some(copy)
            },
            None => None,
        }
    }

    /// The platform's conventions.
    pub fn platform(&self) -> (platform: &Platform)
        ensures
            platform@ == self@.platform,
    {
        &self.platform
    }
}

} // verus!
