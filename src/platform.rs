use vstd::prelude::*;

verus! {

/// Operating systems a rule or a natives table can name.
#[derive(Debug, Clone, Copy, PartialEq, Eq, Hash, Structural)]
pub enum OsName {
    Linux,
    Windows,
    Osx,
}

/// Processor architectures a rule can name.
#[derive(Debug, Clone, Copy, PartialEq, Eq, Hash, Structural)]
pub enum Arch {
    X86_64,
    X86,
    ARM64,
}

/// The host the launcher runs on.
#[derive(Debug, Clone, Copy, PartialEq, Eq, Structural)]
pub struct Platform {
    pub os: OsName,
    pub arch: Arch,
}

/// An operating-system filter of a rule: each present field must equal the host's.
#[derive(Debug, Clone, Copy, PartialEq, Eq, Structural)]
pub struct Os {
    pub name: Option<OsName>,
    pub arch: Option<Arch>,
}

impl Os {
    pub open spec fn spec_matches(&self, platform: Platform) -> bool {
        &&& (self.name is None || self.name == Some(platform.os))
        &&& (self.arch is None || self.arch == Some(platform.arch))
    }

    /// True when every field present in the filter equals the host's.
    pub fn matches(&self, platform: &Platform) -> (r: bool)
        ensures
            r == self.spec_matches(*platform),
    {
        let name_ok = match self.name {
            None => true,
            Some(n) => n == platform.os,
        };
        let arch_ok = match self.arch {
            None => true,
            Some(a) => a == platform.arch,
        };
        name_ok && arch_ok
    }
}

impl Platform {
    pub open spec fn spec_path_list_separator(&self) -> Seq<char> {
        if self.os == OsName::Windows {
            seq![';']
        } else {
            seq![':']
        }
    }

    /// The separator between entries of a path list such as a classpath.
    pub fn path_list_separator(&self) -> (r: &'static str)
        ensures
            r@ == self.spec_path_list_separator(),
    {
        proof {
            reveal_strlit(";");
            reveal_strlit(":");
        }
        if self.os == OsName::Windows {
            ";"
        } else {
            ":"
        }
    }
}

} // verus!
