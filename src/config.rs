//! The user configuration the session reads: where it lives, and the service
//! URL of each profile.

use vstd::prelude::*;
use vstd::string::StringExecFns;
use crate::session::{has_prefix, same_text, starts_with, TunnelError};

verus! {

/// Where the configuration lives, under the user's configuration directory.
pub const USER_PATH: &'static str = "dotunnel/config.toml";

/// The settings of one profile.
#[derive(Debug, Clone, PartialEq, Eq)]
pub struct ProfileConfig {
    pub service_url: String,
}

/// The configuration: profiles by name.
#[derive(Debug, Clone, PartialEq, Eq)]
pub struct Config {
    profile: Vec<(String, ProfileConfig)>,
}

/// `dir` joined with the relative path `p`.
pub open spec fn joined(dir: Seq<char>, p: Seq<char>) -> Seq<char> {
    if dir.len() == 0 || dir.last() == '/' {
        dir + p
    } else {
        dir + "/"@ + p
    }
}

/// The index of the first profile named `name`, if any.
pub open spec fn profile_index(entries: Seq<(String, ProfileConfig)>, name: Seq<char>) -> Option<int> {
    if exists|i: int| 0 <= i < entries.len() && (#[trigger] entries[i]).0@ == name {
        let i = choose|i: int|
            0 <= i < entries.len() && (#[trigger] entries[i]).0@ == name && forall|j: int|
                0 <= j < i ==> (#[trigger] entries[j]).0@ != name;
        Some(i)
    } else {
        None
    }
}

impl Config {
    pub closed spec fn entries(&self) -> Seq<(String, ProfileConfig)> {
        self.profile@
    }

    /// A configuration without profiles.
    pub fn new() -> (r: Config)
        ensures
            r.entries().len() == 0,
    {
        Config { profile: Vec::new() }
    }

    /// The location of the configuration relative to the configuration directory.
    pub fn user_path() -> (r: &'static str)
        ensures
            r@ == USER_PATH@,
    {
        USER_PATH
    }

    /// The configuration file under `config_dir`; `None` without a directory.
    pub fn load(config_dir: Option<String>) -> (r: Option<String>)
        ensures
            match config_dir {
                None => r is None,
                Some(d) => r is Some && r.unwrap()@ == joined(d@, USER_PATH@),
            },
    {
        match config_dir {
            None => None,
            Some(d) => {
                let n = d.as_str().unicode_len();
                if n == 0 || d.as_str().get_char(n - 1) == '/' {
                    Some(d.concat(USER_PATH))
                } else {
                    Some(d.concat("/").concat(USER_PATH))
                }
            },
        }
    }

    /// Adds or replaces the profile `name`.
    pub fn set_profile(&mut self, name: String, p: ProfileConfig)
        ensures
            profile_index(final(self).entries(), name@) is Some,
            final(self).entries()[profile_index(final(self).entries(), name@).unwrap()].1 == p,
    {
        let mut i: usize = 0;
        while i < self.profile.len()
            invariant
                i <= self.profile@.len(),
                forall|j: int| 0 <= j < i ==> (#[trigger] self.profile@[j]).0@ != name@,
            decreases self.profile@.len() - i,
        {
            if self.profile[i].0 == name {
                let ghost before = self.profile@;
                self.profile.set(i, (name, p));
                proof {
                    let e = self.profile@;
                    assert(e[i as int].0@ == name@);
                    assert forall|j: int| 0 <= j < i implies (#[trigger] e[j]).0@ != name@ by {
                        assert(e[j] == before[j]);
                    }
                    let k = choose|k: int|
                        0 <= k < e.len() && (#[trigger] e[k]).0@ == name@ && forall|j: int|
                            0 <= j < k ==> (#[trigger] e[j]).0@ != name@;
                    if k < i {
                        assert(e[k].0@ != name@);
                    }
                    if k > i {
                        assert(e[i as int].0@ != name@);
                    }
                }
                return;
            }
            i = i + 1;
        }
        let ghost before = self.profile@;
        let ghost nm = name@;
        self.profile.push((name, p));
        proof {
            let e = self.profile@;
            let last = (e.len() - 1) as int;
            assert(e[last].0@ == nm);
            assert forall|j: int| 0 <= j < last implies (#[trigger] e[j]).0@ != nm by {
                assert(e[j] == before[j]);
            }
            let k = choose|k: int|
                0 <= k < e.len() && (#[trigger] e[k]).0@ == nm && forall|j: int|
                    0 <= j < k ==> (#[trigger] e[j]).0@ != nm;
            if k < last {
                assert(e[k].0@ != nm);
            }
        }
    }

    /// The first profile named `name`.
    pub fn get_profile(&self, name: &str) -> (r: Option<&ProfileConfig>)
        ensures
            match profile_index(self.entries(), name@) {
                Some(i) => r is Some && *r.unwrap() == self.entries()[i].1,
                None => r is None,
            },
    {
        let mut i: usize = 0;
        while i < self.profile.len()
            invariant
                i <= self.profile@.len(),
                forall|j: int| 0 <= j < i ==> (#[trigger] self.profile@[j]).0@ != name@,
            decreases self.profile@.len() - i,
        {
            if same_text(self.profile[i].0.as_str(), name) {
                proof {
                    let e = self.profile@;
                    assert(0 <= i < e.len() && e[i as int].0@ == name@ && forall|j: int|
                        0 <= j < i ==> (#[trigger] e[j]).0@ != name@);
                    let k = choose|k: int|
                        0 <= k < e.len() && (#[trigger] e[k]).0@ == name@ && forall|j: int|
                            0 <= j < k ==> (#[trigger] e[j]).0@ != name@;
                    if k < i {
                        assert(e[k].0@ != name@);
                    }
                    if k > i {
                        assert(e[i as int].0@ != name@);
                    }
                }
                return Some(&self.profile[i].1);
            }
            i = i + 1;
        }
        None
    }
}

/// The service URL of the session: the one given, else the profile's;
/// `ConfigMissing` when there is neither.
pub fn resolve_service_url(given: &Option<String>, config: &Config, profile: &str) -> (r: Result<
    String,
    TunnelError,
>)
    ensures
        given is Some ==> (r matches Ok(u) && u@ == given.unwrap()@),
        given is None ==> match profile_index(config.entries(), profile@) {
            Some(i) => r matches Ok(u) && u@ == config.entries()[i].1.service_url@,
            None => r matches Err(TunnelError::ConfigMissing(_)),
        },
{
    match given {
        Some(u) => Ok(u.clone()),
        None => match config.get_profile(profile) {
            Some(p) => Ok(p.service_url.clone()),
            None => Err(
                TunnelError::ConfigMissing(
                    String::from_str(
                        "No service URL configured. Run 'dotunnel login --service-url <URL>' first.",
                    ),
                ),
            ),
        },
    }
}

/// The user's configuration directory on Unix: `XDG_CONFIG_HOME` when it is
/// an absolute path, else `.config` under the home directory.
pub open spec fn config_dir_of(xdg: Option<Seq<char>>, home: Option<Seq<char>>) -> Option<Seq<char>> {
    match xdg {
        Some(x) if has_prefix(x, "/"@) => Some(x),
        _ => match home {
            Some(h) => Some(joined(h, ".config"@)),
            None => None,
        },
    }
}

/// Chooses the configuration directory from the values of `XDG_CONFIG_HOME`
/// and of the home directory.
pub fn config_dir_from(xdg: Option<String>, home: Option<String>) -> (r: Option<String>)
    ensures
        match config_dir_of(
            match xdg {
                Some(x) => Some(x@),
                None => None,
            },
            match home {
                Some(h) => Some(h@),
                None => None,
            },
        ) {
            Some(d) => r is Some && r.unwrap()@ == d,
            None => r is None,
        },
{
    if let Some(x) = &xdg {
        if starts_with(x.as_str(), "/") {
            return xdg;
        }
    }
    match home {
        None => None,
        Some(h) => {
            let n = h.as_str().unicode_len();
            if n == 0 || h.as_str().get_char(n - 1) == '/' {
                Some(h.concat(".config"))
            } else {
                Some(h.concat("/").concat(".config"))
            }
        },
    }
}

} // verus!
