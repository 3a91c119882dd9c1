//! The target triple model: closed vocabularies for architecture,
//! vendor, operating system and environment/ABI, and the canonical
//! dash-separated string form of a triple.

use vstd::prelude::*;
use vstd::string::StringExecFns;

verus! {

/// Architecture component of a target triple.
#[derive(Debug, Clone, Copy, PartialEq, Eq, Hash, Structural)]
pub enum Arch {
    X86_64,
    Aarch64,
    I686,
}

/// Vendor component of a target triple.
#[derive(Debug, Clone, Copy, PartialEq, Eq, Hash, Structural)]
pub enum Vendor {
    Unknown,
    Apple,
    Pc,
}

/// Operating-system component of a target triple.
#[derive(Debug, Clone, Copy, PartialEq, Eq, Hash, Structural)]
pub enum Os {
    Linux,
    Windows,
    Darwin,
}

/// Environment/ABI component of a target triple. `NoEnv` renders as
/// the empty string and is omitted from the canonical form.
#[derive(Debug, Clone, Copy, PartialEq, Eq, Hash, Structural)]
pub enum Env {
    Gnu,
    Msvc,
    NoEnv,
}

impl Arch {
    /// Canonical lowercase token of this architecture.
    pub open spec fn spec_str(self) -> Seq<char> {
        match self {
            Arch::X86_64 => "x86_64"@,
            Arch::Aarch64 => "aarch64"@,
            Arch::I686 => "i686"@,
        }
    }

    pub fn as_str(&self) -> (r: &'static str)
        ensures
            r@ == self.spec_str(),
    {
        match self {
            Arch::X86_64 => "x86_64",
            Arch::Aarch64 => "aarch64",
            Arch::I686 => "i686",
        }
    }
}

impl Vendor {
    /// Canonical lowercase token of this vendor.
    pub open spec fn spec_str(self) -> Seq<char> {
        match self {
            Vendor::Unknown => "unknown"@,
            Vendor::Apple => "apple"@,
            Vendor::Pc => "pc"@,
        }
    }

    pub fn as_str(&self) -> (r: &'static str)
        ensures
            r@ == self.spec_str(),
    {
        match self {
            Vendor::Unknown => "unknown",
            Vendor::Apple => "apple",
            Vendor::Pc => "pc",
        }
    }
}

impl Os {
    /// Canonical lowercase token of this operating system, usable as a
    /// map key or as an argument to an external tool.
    pub open spec fn spec_str(self) -> Seq<char> {
        match self {
            Os::Linux => "linux"@,
            Os::Windows => "windows"@,
            Os::Darwin => "darwin"@,
        }
    }

    pub fn as_str(&self) -> (r: &'static str)
        ensures
            r@ == self.spec_str(),
    {
        match self {
            Os::Linux => "linux",
            Os::Windows => "windows",
            Os::Darwin => "darwin",
        }
    }
}

impl Env {
    /// Canonical lowercase token of this environment; `NoEnv` has the
    /// empty string.
    pub open spec fn spec_str(self) -> Seq<char> {
        match self {
            Env::Gnu => "gnu"@,
            Env::Msvc => "msvc"@,
            Env::NoEnv => ""@,
        }
    }

    pub fn as_str(&self) -> (r: &'static str)
        ensures
            r@ == self.spec_str(),
    {
        match self {
            Env::Gnu => "gnu",
            Env::Msvc => "msvc",
            Env::NoEnv => "",
        }
    }
}

/// An immutable target platform identifier. Two triples are equal
/// exactly when all four fields are equal.
#[derive(Debug, Clone, Copy, PartialEq, Eq, Hash, Structural)]
pub struct TargetTriple {
    pub arch: Arch,
    pub vendor: Vendor,
    pub os: Os,
    pub env: Env,
}

/// The canonical string of a triple: `arch-vendor-os` when the
/// environment is absent, `arch-vendor-os-env` otherwise.
pub open spec fn spec_format(t: TargetTriple) -> Seq<char> {
    if t.env == Env::NoEnv {
        t.arch.spec_str() + "-"@ + t.vendor.spec_str() + "-"@ + t.os.spec_str()
    } else {
        t.arch.spec_str() + "-"@ + t.vendor.spec_str() + "-"@ + t.os.spec_str() + "-"@
            + t.env.spec_str()
    }
}

impl TargetTriple {
    /// Renders the canonical dash-separated string form of this triple.
    pub fn format(&self) -> (r: String)
        ensures
            r@ == spec_format(*self),
    {
        let mut s = String::new();
        s.append(self.arch.as_str());
        s.append("-");
        s.append(self.vendor.as_str());
        s.append("-");
        s.append(self.os.as_str());
        if !(self.env == Env::NoEnv) {
            s.append("-");
            s.append(self.env.as_str());
        }
        s
    }
}

/// Number of dash separators occurring in a string.
pub open spec fn dash_count(s: Seq<char>) -> nat
    decreases s.len(),
{
    if s.len() == 0 {
        0
    } else {
        dash_count(s.drop_last()) + if s.last() == '-' {
            1nat
        } else {
            0nat
        }
    }
}

/// Dashes in a concatenation are the dashes of the parts.
proof fn lemma_dash_count_add(a: Seq<char>, b: Seq<char>)
    ensures
        dash_count(a + b) == dash_count(a) + dash_count(b),
    decreases b.len(),
{
    if b.len() == 0 {
        assert(a + b =~= a);
    } else {
        lemma_dash_count_add(a, b.drop_last());
        assert((a + b).drop_last() =~= a + b.drop_last());
    }
}

/// A string without a dash has a dash count of zero.
proof fn lemma_dash_count_zero(s: Seq<char>)
    requires
        forall|i: int| 0 <= i < s.len() ==> s[i] != '-',
    ensures
        dash_count(s) == 0,
    decreases s.len(),
{
    if s.len() > 0 {
        lemma_dash_count_zero(s.drop_last());
    }
}

proof fn lemma_dash_count_dash()
    ensures
        dash_count("-"@) == 1,
{
    reveal_strlit("-");
    reveal_with_fuel(dash_count, 3);
    assert("-"@.drop_last() =~= Seq::<char>::empty());
}

proof fn lemma_arch_str_no_dash(a: Arch)
    ensures
        dash_count(a.spec_str()) == 0,
{
    reveal_strlit("x86_64");
    reveal_strlit("aarch64");
    reveal_strlit("i686");
    lemma_dash_count_zero(a.spec_str());
}

proof fn lemma_vendor_str_no_dash(v: Vendor)
    ensures
        dash_count(v.spec_str()) == 0,
{
    reveal_strlit("unknown");
    reveal_strlit("apple");
    reveal_strlit("pc");
    lemma_dash_count_zero(v.spec_str());
}

proof fn lemma_os_str_no_dash(o: Os)
    ensures
        dash_count(o.spec_str()) == 0,
{
    reveal_strlit("linux");
    reveal_strlit("windows");
    reveal_strlit("darwin");
    lemma_dash_count_zero(o.spec_str());
}

proof fn lemma_env_str_no_dash(e: Env)
    ensures
        dash_count(e.spec_str()) == 0,
{
    reveal_strlit("gnu");
    reveal_strlit("msvc");
    reveal_strlit("");
    lemma_dash_count_zero(e.spec_str());
}

/// Law: the canonical string of a triple without an environment has
/// exactly two dash separators, so it has three segments.
pub proof fn lemma_format_env_none_two_dashes(t: TargetTriple)
    requires
        t.env == Env::NoEnv,
    ensures
        dash_count(spec_format(t)) == 2,
{
    let a = t.arch.spec_str();
    let v = t.vendor.spec_str();
    let o = t.os.spec_str();
    let d = "-"@;
    lemma_arch_str_no_dash(t.arch);
    lemma_vendor_str_no_dash(t.vendor);
    lemma_os_str_no_dash(t.os);
    lemma_dash_count_dash();
    lemma_dash_count_add(a, d);
    lemma_dash_count_add(a + d, v);
    lemma_dash_count_add(a + d + v, d);
    lemma_dash_count_add(a + d + v + d, o);
}

/// Law: the canonical string of a triple with an environment has
/// exactly three dash separators (four segments) and ends with the
/// environment's string form.
pub proof fn lemma_format_env_some_three_dashes(t: TargetTriple)
    requires
        t.env != Env::NoEnv,
    ensures
        dash_count(spec_format(t)) == 3,
        t.env.spec_str().len() <= spec_format(t).len(),
        spec_format(t).skip(spec_format(t).len() - t.env.spec_str().len())
            == t.env.spec_str(),
{
    let a = t.arch.spec_str();
    let v = t.vendor.spec_str();
    let o = t.os.spec_str();
    let e = t.env.spec_str();
    let d = "-"@;
    lemma_arch_str_no_dash(t.arch);
    lemma_vendor_str_no_dash(t.vendor);
    lemma_os_str_no_dash(t.os);
    lemma_env_str_no_dash(t.env);
    lemma_dash_count_dash();
    lemma_dash_count_add(a, d);
    lemma_dash_count_add(a + d, v);
    lemma_dash_count_add(a + d + v, d);
    lemma_dash_count_add(a + d + v + d, o);
    lemma_dash_count_add(a + d + v + d + o, d);
    lemma_dash_count_add(a + d + v + d + o + d, e);
    let prefix = a + d + v + d + o + d;
    assert(spec_format(t) == prefix + e);
    assert((prefix + e).skip(prefix.len() as int) =~= e);
}

} // verus!

