//! The supported target registry: the fixed, ordered list of every
//! target triple the system recognizes.

use vstd::prelude::*;

use crate::triple::Arch;
use crate::triple::Env;
use crate::triple::Os;
use crate::triple::TargetTriple;
use crate::triple::Vendor;
use crate::triple::spec_format;

verus! {

/// The fixed registry of supported triples, in declaration order.
/// Each entry is a released first-tier toolchain target.
pub open spec fn spec_registry() -> Seq<TargetTriple> {
    seq![
        TargetTriple { arch: Arch::Aarch64, vendor: Vendor::Apple, os: Os::Darwin, env: Env::NoEnv },
        TargetTriple { arch: Arch::Aarch64, vendor: Vendor::Pc, os: Os::Windows, env: Env::Msvc },
        TargetTriple { arch: Arch::Aarch64, vendor: Vendor::Unknown, os: Os::Linux, env: Env::Gnu },
        TargetTriple { arch: Arch::I686, vendor: Vendor::Pc, os: Os::Windows, env: Env::Msvc },
        TargetTriple { arch: Arch::I686, vendor: Vendor::Unknown, os: Os::Linux, env: Env::Gnu },
        TargetTriple { arch: Arch::X86_64, vendor: Vendor::Pc, os: Os::Windows, env: Env::Gnu },
        TargetTriple { arch: Arch::X86_64, vendor: Vendor::Pc, os: Os::Windows, env: Env::Msvc },
        TargetTriple { arch: Arch::X86_64, vendor: Vendor::Unknown, os: Os::Linux, env: Env::Gnu },
    ]
}

/// The supported target registry as a vector, in declaration order.
pub fn supported_targets() -> (r: Vec<TargetTriple>)
    ensures
        r@ == spec_registry(),
{
    let mut r: Vec<TargetTriple> = Vec::new();
    r.push(TargetTriple { arch: Arch::Aarch64, vendor: Vendor::Apple, os: Os::Darwin, env: Env::NoEnv });
    r.push(TargetTriple { arch: Arch::Aarch64, vendor: Vendor::Pc, os: Os::Windows, env: Env::Msvc });
    r.push(TargetTriple { arch: Arch::Aarch64, vendor: Vendor::Unknown, os: Os::Linux, env: Env::Gnu });
    r.push(TargetTriple { arch: Arch::I686, vendor: Vendor::Pc, os: Os::Windows, env: Env::Msvc });
    r.push(TargetTriple { arch: Arch::I686, vendor: Vendor::Unknown, os: Os::Linux, env: Env::Gnu });
    r.push(TargetTriple { arch: Arch::X86_64, vendor: Vendor::Pc, os: Os::Windows, env: Env::Gnu });
    r.push(TargetTriple { arch: Arch::X86_64, vendor: Vendor::Pc, os: Os::Windows, env: Env::Msvc });
    r.push(TargetTriple { arch: Arch::X86_64, vendor: Vendor::Unknown, os: Os::Linux, env: Env::Gnu });
    assert(r@ =~= spec_registry());
    r
}

/// Law: the registry holds no two entries with identical
/// (architecture, vendor, operating system, environment).
pub proof fn lemma_registry_distinct()
    ensures
        forall|i: int, j: int|
            0 <= i < spec_registry().len() && 0 <= j < spec_registry().len() && i != j
                ==> spec_registry()[i] != spec_registry()[j],
{
}

/// The canonical strings of the registry entries are pairwise
/// distinct, so a canonical string identifies at most one entry.
pub proof fn lemma_registry_strings_distinct()
    ensures
        forall|i: int, j: int|
            0 <= i < spec_registry().len() && 0 <= j < spec_registry().len() && i != j
                ==> spec_format(spec_registry()[i]) != spec_format(spec_registry()[j]),
{
    reveal_strlit("x86_64");
    reveal_strlit("aarch64");
    reveal_strlit("i686");
    reveal_strlit("unknown");
    reveal_strlit("apple");
    reveal_strlit("pc");
    reveal_strlit("linux");
    reveal_strlit("windows");
    reveal_strlit("darwin");
    reveal_strlit("gnu");
    reveal_strlit("msvc");
    reveal_strlit("-");
    let s0 = spec_format(spec_registry()[0]);
    let s1 = spec_format(spec_registry()[1]);
    let s2 = spec_format(spec_registry()[2]);
    let s3 = spec_format(spec_registry()[3]);
    let s4 = spec_format(spec_registry()[4]);
    let s5 = spec_format(spec_registry()[5]);
    let s6 = spec_format(spec_registry()[6]);
    let s7 = spec_format(spec_registry()[7]);
    assert(s0.len() == 20);
    assert(s1.len() == 23);
    assert(s2.len() == 25);
    assert(s3.len() == 20);
    assert(s4.len() == 22);
    assert(s5.len() == 21);
    assert(s6.len() == 22);
    assert(s7.len() == 24);
    assert(s0[0] == 'a');
    assert(s3[0] == 'i');
    assert(s4[0] == 'i');
    assert(s6[0] == 'x');
}

} // verus!
