use std::str::FromStr;

use cargo_platform::Cfg;

use target_cfg::Arch;
use target_cfg::Env;
use target_cfg::Os;
use target_cfg::PredicateCache;
use target_cfg::TargetTriple;
use target_cfg::Vendor;
use target_cfg::supported_targets;

fn dashes(s: &str) -> usize {
    s.chars().filter(|&c| c == '-').count()
}

#[test]
fn format_windows_msvc() {
    let t = TargetTriple { arch: Arch::X86_64, vendor: Vendor::Pc, os: Os::Windows, env: Env::Msvc };
    assert_eq!(t.format(), "x86_64-pc-windows-msvc");
}

#[test]
fn format_apple_darwin() {
    let t = TargetTriple {
        arch: Arch::Aarch64,
        vendor: Vendor::Apple,
        os: Os::Darwin,
        env: Env::NoEnv,
    };
    assert_eq!(t.format(), "aarch64-apple-darwin");
}

#[test]
fn format_without_env_has_two_dashes() {
    let t = TargetTriple {
        arch: Arch::I686,
        vendor: Vendor::Unknown,
        os: Os::Linux,
        env: Env::NoEnv,
    };
    assert_eq!(dashes(&t.format()), 2);
    for target in supported_targets() {
        if target.env == Env::NoEnv {
            assert_eq!(dashes(&target.format()), 2);
        }
    }
}

#[test]
fn format_with_env_has_three_dashes_and_env_suffix() {
    let t = TargetTriple { arch: Arch::X86_64, vendor: Vendor::Pc, os: Os::Windows, env: Env::Gnu };
    let s = t.format();
    assert_eq!(dashes(&s), 3);
    assert!(s.ends_with("gnu"));
    for target in supported_targets() {
        if target.env != Env::NoEnv {
            let s = target.format();
            assert_eq!(dashes(&s), 3);
            assert!(s.ends_with(target.env.as_str()));
        }
    }
}

#[test]
fn os_as_str() {
    assert_eq!(Os::Linux.as_str(), "linux");
    assert_eq!(Os::Windows.as_str(), "windows");
    assert_eq!(Os::Darwin.as_str(), "darwin");
}

#[test]
fn registry_has_eight_distinct_entries() {
    let targets = supported_targets();
    assert_eq!(targets.len(), 8);
    for i in 0..targets.len() {
        for j in 0..targets.len() {
            if i != j {
                assert_ne!(targets[i], targets[j]);
                assert_ne!(targets[i].format(), targets[j].format());
            }
        }
    }
}

#[test]
fn registry_order_is_fixed() {
    let targets = supported_targets();
    assert_eq!(targets[0].format(), "aarch64-apple-darwin");
    assert_eq!(targets[1].format(), "aarch64-pc-windows-msvc");
    assert_eq!(targets[2].format(), "aarch64-unknown-linux-gnu");
    assert_eq!(targets[3].format(), "i686-pc-windows-msvc");
    assert_eq!(targets[4].format(), "i686-unknown-linux-gnu");
    assert_eq!(targets[5].format(), "x86_64-pc-windows-gnu");
    assert_eq!(targets[6].format(), "x86_64-pc-windows-msvc");
    assert_eq!(targets[7].format(), "x86_64-unknown-linux-gnu");
}

/// A stand-in for the external toolchain query: counts how many
/// invocations were made and yields fixed output lines per triple.
fn stub_outcomes(fail_for: Option<&str>, invocations: &mut usize) -> Vec<Option<Vec<String>>> {
    let mut outcomes = Vec::new();
    for target in supported_targets() {
        let triple = target.format();
        *invocations += 1;
        if Some(triple.as_str()) == fail_for {
            outcomes.push(None);
        } else {
            outcomes.push(Some(vec![
                "unix".to_string(),
                format!("target_os = \"{}\"", target.os.as_str()),
            ]));
        }
    }
    outcomes
}

#[test]
fn lookup_is_idempotent_without_second_invocation() {
    let mut invocations = 0usize;
    let outcomes = stub_outcomes(None, &mut invocations);
    let mut cache = PredicateCache::new();
    cache.populate(&outcomes);
    assert_eq!(invocations, 8);
    let first = cache.get_cfg_set("x86_64-unknown-linux-gnu").cloned();
    let second = cache.get_cfg_set("x86_64-unknown-linux-gnu").cloned();
    assert!(first.is_some());
    assert_eq!(first, second);
    // No further query was made by either lookup.
    assert_eq!(invocations, 8);
}

#[test]
fn lookup_returns_parsed_predicates() {
    let mut invocations = 0usize;
    let outcomes = stub_outcomes(None, &mut invocations);
    let mut cache = PredicateCache::new();
    cache.populate(&outcomes);
    let cfgs = cache.get_cfg_set("aarch64-apple-darwin").unwrap();
    let expected = vec![
        Cfg::from_str("unix").unwrap(),
        Cfg::from_str("target_os = \"darwin\"").unwrap(),
    ];
    assert_eq!(cfgs, &expected);
}

#[test]
fn single_failure_leaves_other_entries_populated() {
    let mut invocations = 0usize;
    let outcomes = stub_outcomes(Some("i686-pc-windows-msvc"), &mut invocations);
    let mut cache = PredicateCache::new();
    cache.populate(&outcomes);
    assert!(cache.get_cfg_set("i686-pc-windows-msvc").is_none());
    for target in supported_targets() {
        let triple = target.format();
        if triple != "i686-pc-windows-msvc" {
            let cfgs = cache.get_cfg_set(&triple).unwrap();
            assert_eq!(cfgs.len(), 2);
        }
    }
}

#[test]
fn unsupported_triple_is_absent_before_and_after_population() {
    let cache = PredicateCache::new();
    assert!(cache.get_cfg_set("riscv64gc-unknown-linux-gnu").is_none());
    assert!(cache.get_cfg_set("x86_64-unknown-linux-gnu").is_none());

    let mut invocations = 0usize;
    let outcomes = stub_outcomes(None, &mut invocations);
    let mut cache = PredicateCache::new();
    cache.populate(&outcomes);
    assert!(cache.get_cfg_set("riscv64gc-unknown-linux-gnu").is_none());
    assert!(cache.get_cfg_set("").is_none());
}

#[test]
fn malformed_line_is_skipped_not_fatal() {
    let mut outcomes: Vec<Option<Vec<String>>> = Vec::new();
    for (i, _) in supported_targets().iter().enumerate() {
        if i == 0 {
            outcomes.push(Some(vec![
                "unix".to_string(),
                "this is not a predicate".to_string(),
                "target_vendor = \"apple\"".to_string(),
            ]));
        } else {
            outcomes.push(None);
        }
    }
    let mut cache = PredicateCache::new();
    cache.populate(&outcomes);
    let cfgs = cache.get_cfg_set("aarch64-apple-darwin").unwrap();
    let expected = vec![
        Cfg::from_str("unix").unwrap(),
        Cfg::from_str("target_vendor = \"apple\"").unwrap(),
    ];
    assert_eq!(cfgs, &expected);
}

#[test]
fn key_value_predicates_parse_with_their_value() {
    let mut outcomes: Vec<Option<Vec<String>>> = Vec::new();
    for (i, _) in supported_targets().iter().enumerate() {
        if i == 7 {
            outcomes.push(Some(vec!["target_pointer_width = \"64\"".to_string()]));
        } else {
            outcomes.push(None);
        }
    }
    let mut cache = PredicateCache::new();
    cache.populate(&outcomes);
    let cfgs = cache.get_cfg_set("x86_64-unknown-linux-gnu").unwrap();
    assert_eq!(cfgs.len(), 1);
    match &cfgs[0] {
        Cfg::KeyPair(key, value) => {
            assert_eq!(key.name, "target_pointer_width");
            assert_eq!(value, "64");
        },
        other => panic!("expected a key/value predicate, got {:?}", other),
    }
}
