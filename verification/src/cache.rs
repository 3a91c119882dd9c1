//! The predicate cache: maps each canonical triple string to the
//! configuration predicates an external toolchain reported for that
//! platform.
//!
//! The cache is populated at most once per process, from the outcome
//! of one external query per registry entry, in registry order. A
//! failed query is skipped silently: the triple stays absent and the
//! remaining entries are still populated. Lookups never fail: a
//! string without an entry yields an absent result.
//!
//! When a query succeeds but one of its output lines does not parse
//! as a predicate, that line is skipped and the rest of the entry is
//! kept; a malformed line never fails the whole population pass.

use vstd::prelude::*;

use cargo_platform::Cfg;

use crate::registry::spec_registry;
use crate::registry::supported_targets;
use crate::registry::lemma_registry_strings_distinct;
use crate::triple::spec_format;

verus! {

/// cargo_platform's parsed configuration predicate, carried through
/// this module as an opaque token.
#[verifier::external_type_specification]
#[verifier::external_body]
pub struct ExCfg(cargo_platform::Cfg);

/// What cargo_platform::Cfg::from_str yields for one line: the parse
/// is a pure function of the characters alone; `None` stands for a
/// line that does not parse as a predicate.
pub uninterp spec fn cfg_parse(line: Seq<char>) -> Option<Cfg>;

/// Relies on cargo_platform::Cfg::from_str: parses one predicate
/// token, deciding success and the parsed value from the input
/// characters alone.
#[verifier::external_body]
fn parse_cfg(line: &str) -> (r: Option<Cfg>)
    ensures
        r == cfg_parse(line@),
{
    <Cfg as core::str::FromStr>::from_str(line).ok()
}

/// The predicate sequence read from the raw output lines of one
/// successful query: each line parsed in order, lines that do not
/// parse skipped.
pub open spec fn parse_lines(lines: Seq<Seq<char>>) -> Seq<Cfg>
    decreases lines.len(),
{
    if lines.len() == 0 {
        Seq::empty()
    } else {
        match cfg_parse(lines.last()) {
            Option::Some(c) => parse_lines(lines.drop_last()).push(c),
            Option::None => parse_lines(lines.drop_last()),
        }
    }
}

/// Parses the raw lines of one successful query, skipping lines that
/// do not parse.
fn parse_lines_exec(lines: &Vec<String>) -> (r: Vec<Cfg>)
    ensures
        r@ == parse_lines(lines@.map_values(|l: String| l@)),
{
    let mut r: Vec<Cfg> = Vec::new();
    let mut i: usize = 0;
    while i < lines.len()
        invariant
            i <= lines@.len(),
            r@ == parse_lines(lines@.subrange(0, i as int).map_values(|l: String| l@)),
        decreases lines@.len() - i,
    {
        let parsed = parse_cfg(lines[i].as_str());
        match parsed {
            Option::Some(c) => r.push(c),
            Option::None => {},
        }
        proof {
            let prev = lines@.subrange(0, i as int).map_values(|l: String| l@);
            let cur = lines@.subrange(0, i as int + 1).map_values(|l: String| l@);
            assert(cur.drop_last() =~= prev);
            assert(cur.last() == lines@[i as int]@);
        }
        i += 1;
    }
    proof {
        assert(lines@.subrange(0, lines@.len() as int) =~= lines@);
    }
    r
}

/// The view of one query outcome: the raw output lines as character
/// sequences, or `None` for a failed invocation.
pub open spec fn outcome_view(o: Option<Vec<String>>) -> Option<Seq<Seq<char>>> {
    match o {
        Option::Some(lines) => Option::Some(lines@.map_values(|l: String| l@)),
        Option::None => Option::None,
    }
}

/// The views of a whole vector of query outcomes, in registry order.
pub open spec fn outcomes_view(outs: Seq<Option<Vec<String>>>) -> Seq<Option<Seq<Seq<char>>>> {
    outs.map_values(|o: Option<Vec<String>>| outcome_view(o))
}

/// The canonical strings cached after attempting the first `n`
/// registry entries with the given query outcomes, in registry order;
/// a failed outcome adds no entry.
pub open spec fn populated_keys(outs: Seq<Option<Seq<Seq<char>>>>, n: int) -> Seq<Seq<char>>
    decreases n,
{
    if n <= 0 {
        Seq::empty()
    } else {
        let rest = populated_keys(outs, n - 1);
        match outs[n - 1] {
            Option::Some(_) => rest.push(spec_format(spec_registry()[n - 1])),
            Option::None => rest,
        }
    }
}

/// The predicate sequences cached after attempting the first `n`
/// registry entries, parallel to `populated_keys`.
pub open spec fn populated_vals(outs: Seq<Option<Seq<Seq<char>>>>, n: int) -> Seq<Seq<Cfg>>
    decreases n,
{
    if n <= 0 {
        Seq::empty()
    } else {
        let rest = populated_vals(outs, n - 1);
        match outs[n - 1] {
            Option::Some(lines) => rest.push(parse_lines(lines)),
            Option::None => rest,
        }
    }
}

/// Whether some cached key equals `s`.
pub open spec fn contains_key_in(keys: Seq<Seq<char>>, s: Seq<char>) -> bool {
    exists|i: int| 0 <= i < keys.len() && keys[i] == s
}

/// What a lookup of `s` yields over parallel key and value sequences:
/// the value beside the matching key, or absent.
pub open spec fn lookup_in(keys: Seq<Seq<char>>, vals: Seq<Seq<Cfg>>, s: Seq<char>) -> Option<
    Seq<Cfg>,
> {
    if contains_key_in(keys, s) {
        Option::Some(vals[choose|i: int| 0 <= i < keys.len() && keys[i] == s])
    } else {
        Option::None
    }
}

proof fn lemma_populated_len(outs: Seq<Option<Seq<Seq<char>>>>, n: int)
    ensures
        populated_keys(outs, n).len() == populated_vals(outs, n).len(),
    decreases n,
{
    if n > 0 {
        lemma_populated_len(outs, n - 1);
    }
}

/// Every cached key written by population is the canonical string of
/// a registry entry whose query succeeded, beside its parsed value.
proof fn lemma_populated_elem_source(outs: Seq<Option<Seq<Seq<char>>>>, n: int, k: int)
    requires
        0 <= k < populated_keys(outs, n).len(),
    ensures
        exists|j: int|
            0 <= j < n && outs[j] is Some && populated_keys(outs, n)[k] == spec_format(
                spec_registry()[j],
            ) && populated_vals(outs, n)[k] == parse_lines(outs[j]->Some_0),
    decreases n,
{
    lemma_populated_len(outs, n);
    if outs[n - 1] is Some && k == populated_keys(outs, n).len() - 1 {
        let j = n - 1;
        assert(0 <= j < n && outs[j] is Some && populated_keys(outs, n)[k] == spec_format(
            spec_registry()[j],
        ) && populated_vals(outs, n)[k] == parse_lines(outs[j]->Some_0));
    } else {
        lemma_populated_len(outs, n - 1);
        lemma_populated_elem_source(outs, n - 1, k);
        let m = n - 1;
        let prevk = populated_keys(outs, m);
        let prevv = populated_vals(outs, m);
        let j = choose|j: int|
            0 <= j < m && #[trigger] outs[j] is Some && prevk[k] == spec_format(spec_registry()[j])
                && prevv[k] == parse_lines(outs[j]->Some_0);
        assert(0 <= j < n && outs[j] is Some && populated_keys(outs, n)[k] == spec_format(
            spec_registry()[j],
        ) && populated_vals(outs, n)[k] == parse_lines(outs[j]->Some_0));
    }
}

/// The keys written by population are pairwise distinct.
proof fn lemma_populated_distinct(outs: Seq<Option<Seq<Seq<char>>>>, n: int)
    requires
        n <= spec_registry().len(),
    ensures
        forall|k1: int, k2: int|
            0 <= k1 < populated_keys(outs, n).len() && 0 <= k2 < populated_keys(outs, n).len()
                && k1 != k2 ==> populated_keys(outs, n)[k1] != populated_keys(outs, n)[k2],
    decreases n,
{
    if n > 0 {
        lemma_populated_distinct(outs, n - 1);
        let prev = populated_keys(outs, n - 1);
        let cur = populated_keys(outs, n);
        if outs[n - 1] is Some {
            let f = spec_format(spec_registry()[n - 1]);
            assert(cur == prev.push(f));
            lemma_registry_strings_distinct();
            assert forall|k: int| 0 <= k < prev.len() implies prev[k] != f by {
                lemma_populated_elem_source(outs, n - 1, k);
            }
            assert forall|k1: int, k2: int|
                0 <= k1 < cur.len() && 0 <= k2 < cur.len() && k1 != k2 implies cur[k1]
                    != cur[k2] by {
                if k1 < prev.len() {
                    assert(cur[k1] == prev[k1]);
                } else {
                    assert(cur[k1] == f);
                }
                if k2 < prev.len() {
                    assert(cur[k2] == prev[k2]);
                } else {
                    assert(cur[k2] == f);
                }
            }
        } else {
            assert(cur == prev);
        }
    }
}

/// A registry entry whose query succeeded stands in the populated
/// keys, beside its parsed predicate sequence.
proof fn lemma_populated_contains(outs: Seq<Option<Seq<Seq<char>>>>, n: int, j: int)
    requires
        0 <= j < n,
        outs[j] is Some,
    ensures
        exists|k: int|
            0 <= k < populated_keys(outs, n).len() && populated_keys(outs, n)[k] == spec_format(
                spec_registry()[j],
            ) && populated_vals(outs, n)[k] == parse_lines(outs[j]->Some_0),
    decreases n,
{
    lemma_populated_len(outs, n);
    if j == n - 1 {
        let k = populated_keys(outs, n).len() - 1;
        assert(0 <= k < populated_keys(outs, n).len() && populated_keys(outs, n)[k] == spec_format(
            spec_registry()[j],
        ) && populated_vals(outs, n)[k] == parse_lines(outs[j]->Some_0));
    } else {
        lemma_populated_len(outs, n - 1);
        lemma_populated_contains(outs, n - 1, j);
        let m = n - 1;
        let prevk = populated_keys(outs, m);
        let prevv = populated_vals(outs, m);
        let k = choose|k: int|
            0 <= k < prevk.len() && #[trigger] prevk[k] == spec_format(spec_registry()[j])
                && prevv[k] == parse_lines(outs[j]->Some_0);
        assert(0 <= k < populated_keys(outs, n).len() && populated_keys(outs, n)[k] == spec_format(
            spec_registry()[j],
        ) && populated_vals(outs, n)[k] == parse_lines(outs[j]->Some_0));
    }
}

/// After a full population pass, the canonical string of a registry
/// entry whose query succeeded maps to its parsed predicate sequence,
/// and the string of one whose query failed is absent.
pub proof fn lemma_populated_lookup(outs: Seq<Option<Seq<Seq<char>>>>, j: int)
    requires
        outs.len() == spec_registry().len(),
        0 <= j < outs.len(),
    ensures
        outs[j] is Some ==> lookup_in(
            populated_keys(outs, outs.len() as int),
            populated_vals(outs, outs.len() as int),
            spec_format(spec_registry()[j]),
        ) == Option::Some(parse_lines(outs[j]->Some_0)),
        outs[j] is None ==> lookup_in(
            populated_keys(outs, outs.len() as int),
            populated_vals(outs, outs.len() as int),
            spec_format(spec_registry()[j]),
        ) is None,
{
    let n = outs.len() as int;
    let keys = populated_keys(outs, n);
    let vals = populated_vals(outs, n);
    let s = spec_format(spec_registry()[j]);
    lemma_registry_strings_distinct();
    lemma_populated_distinct(outs, n);
    if outs[j] is Some {
        lemma_populated_contains(outs, n, j);
        assert(contains_key_in(keys, s));
        let i = choose|i: int| 0 <= i < keys.len() && keys[i] == s;
        lemma_populated_elem_source(outs, n, i);
        let j2 = choose|j2: int|
            0 <= j2 < n && outs[j2] is Some && keys[i] == spec_format(spec_registry()[j2])
                && vals[i] == parse_lines(outs[j2]->Some_0);
        assert(j2 == j);
    } else {
        if contains_key_in(keys, s) {
            let i = choose|i: int| 0 <= i < keys.len() && keys[i] == s;
            lemma_populated_elem_source(outs, n, i);
            let j2 = choose|j2: int|
                0 <= j2 < n && outs[j2] is Some && keys[i] == spec_format(spec_registry()[j2])
                    && vals[i] == parse_lines(outs[j2]->Some_0);
            assert(j2 == j);
            assert(false);
        }
    }
}

/// The in-memory predicate cache: canonical triple strings beside
/// their predicate sequences, with a flag saying whether the one-time
/// population pass has happened. Entries, once written, are never
/// changed or removed for the life of the value.
pub struct PredicateCache {
    populated: bool,
    keys: Vec<String>,
    vals: Vec<Vec<Cfg>>,
}

impl PredicateCache {
    /// Whether the one-time population pass has happened.
    pub closed spec fn spec_populated(self) -> bool {
        self.populated
    }

    /// The cached canonical triple strings, in insertion order.
    pub closed spec fn spec_keys(self) -> Seq<Seq<char>> {
        self.keys@.map_values(|k: String| k@)
    }

    /// The cached predicate sequences, parallel to `spec_keys`.
    pub closed spec fn spec_vals(self) -> Seq<Seq<Cfg>> {
        self.vals@.map_values(|v: Vec<Cfg>| v@)
    }

    /// Well-formedness: keys and values run parallel, no key repeats,
    /// every key is the canonical string of a registry entry, and an
    /// unpopulated cache holds nothing.
    pub open spec fn wf(self) -> bool {
        &&& self.spec_keys().len() == self.spec_vals().len()
        &&& (forall|i: int, j: int|
            0 <= i < self.spec_keys().len() && 0 <= j < self.spec_keys().len() && i != j
                ==> self.spec_keys()[i] != self.spec_keys()[j])
        &&& (forall|i: int|
            0 <= i < self.spec_keys().len() ==> exists|j: int|
                0 <= j < spec_registry().len() && #[trigger] self.spec_keys()[i] == spec_format(
                    spec_registry()[j],
                ))
        &&& (!self.spec_populated() ==> self.spec_keys().len() == 0)
    }

    /// What a lookup of `s` yields on this cache.
    pub open spec fn lookup_spec(self, s: Seq<char>) -> Option<Seq<Cfg>> {
        lookup_in(self.spec_keys(), self.spec_vals(), s)
    }

    /// A cache in its unpopulated state: it holds no entries.
    pub fn new() -> (r: PredicateCache)
        ensures
            r.wf(),
            !r.spec_populated(),
            r.spec_keys() == Seq::<Seq<char>>::empty(),
    {
        let r = PredicateCache { populated: false, keys: Vec::new(), vals: Vec::new() };
        proof {
            assert(r.spec_keys() =~= Seq::<Seq<char>>::empty());
            assert(r.spec_vals() =~= Seq::<Seq<Cfg>>::empty());
        }
        r
    }

    /// The one-time population pass. Takes the outcome of one
    /// external query per registry entry, in registry order: a
    /// successful outcome inserts that entry's canonical string with
    /// the predicates parsed from the output lines; a failed outcome
    /// is skipped silently, so that triple stays absent while every
    /// other entry is still attempted. No failure is surfaced to the
    /// caller.
    pub fn populate(&mut self, outcomes: &Vec<Option<Vec<String>>>)
        requires
            old(self).wf(),
            !old(self).spec_populated(),
            outcomes@.len() == spec_registry().len(),
        ensures
            final(self).wf(),
            final(self).spec_populated(),
            final(self).spec_keys() == populated_keys(
                outcomes_view(outcomes@),
                spec_registry().len() as int,
            ),
            final(self).spec_vals() == populated_vals(
                outcomes_view(outcomes@),
                spec_registry().len() as int,
            ),
            forall|j: int|
                0 <= j < spec_registry().len() ==> match #[trigger] outcomes@[j] {
                    Option::Some(lines) => final(self).lookup_spec(
                        spec_format(spec_registry()[j]),
                    ) == Option::Some(parse_lines(lines@.map_values(|l: String| l@))),
                    Option::None => final(self).lookup_spec(spec_format(spec_registry()[j])) is None,
                },
    {
        let ghost outs = outcomes_view(outcomes@);
        let targets = supported_targets();
        let mut keys: Vec<String> = Vec::new();
        let mut vals: Vec<Vec<Cfg>> = Vec::new();
        let mut i: usize = 0;
        proof {
            assert(keys@.map_values(|k: String| k@) =~= populated_keys(outs, 0));
            assert(vals@.map_values(|v: Vec<Cfg>| v@) =~= populated_vals(outs, 0));
        }
        while i < targets.len()
            invariant
                targets@ == spec_registry(),
                outcomes@.len() == spec_registry().len(),
                outs == outcomes_view(outcomes@),
                i <= targets@.len(),
                keys@.map_values(|k: String| k@) == populated_keys(outs, i as int),
                vals@.map_values(|v: Vec<Cfg>| v@) == populated_vals(outs, i as int),
            decreases targets@.len() - i,
        {
            proof {
                assert(outs[i as int] == outcome_view(outcomes@[i as int]));
            }
            match &outcomes[i] {
                Option::Some(lines) => {
                    let key = targets[i].format();
                    let cfgs = parse_lines_exec(lines);
                    proof {
                        assert((keys@.push(key)).map_values(|k: String| k@) =~= keys@.map_values(
                            |k: String| k@,
                        ).push(key@));
                        assert((vals@.push(cfgs)).map_values(|v: Vec<Cfg>| v@) =~= vals@.map_values(
                            |v: Vec<Cfg>| v@,
                        ).push(cfgs@));
                    }
                    keys.push(key);
                    vals.push(cfgs);
                },
                Option::None => {},
            }
            i += 1;
        }
        self.populated = true;
        self.keys = keys;
        self.vals = vals;
        proof {
            lemma_populated_len(outs, outs.len() as int);
            lemma_populated_distinct(outs, outs.len() as int);
            assert forall|k: int| 0 <= k < final(self).spec_keys().len() implies exists|j: int|
                0 <= j < spec_registry().len() && #[trigger] final(self).spec_keys()[k]
                    == spec_format(spec_registry()[j]) by {
                lemma_populated_elem_source(outs, outs.len() as int, k);
            }
            assert forall|j: int| 0 <= j < spec_registry().len() implies match #[trigger] outcomes@[j] {
                Option::Some(lines) => final(self).lookup_spec(spec_format(spec_registry()[j]))
                    == Option::Some(parse_lines(lines@.map_values(|l: String| l@))),
                Option::None => final(self).lookup_spec(spec_format(spec_registry()[j])) is None,
            } by {
                lemma_populated_lookup(outs, j);
                assert(outs[j] == outcome_view(outcomes@[j]));
            }
        }
    }

    /// Looks a canonical triple string up. Returns the cached
    /// predicate sequence, or absent when the cache holds no entry
    /// for that string — because the string names no supported
    /// triple, because that triple's query failed, or because the
    /// cache is not yet populated. Absence is a valid result, never
    /// an error.
    pub fn get_cfg_set<'a>(&'a self, target_triple: &str) -> (r: Option<&'a Vec<Cfg>>)
        requires
            self.wf(),
        ensures
            match r {
                Option::Some(v) => self.lookup_spec(target_triple@) == Option::Some(v@),
                Option::None => self.lookup_spec(target_triple@) is None,
            },
    {
        let key: String = target_triple.to_owned();
        let mut i: usize = 0;
        while i < self.keys.len()
            invariant
                self.wf(),
                key@ == target_triple@,
                i <= self.spec_keys().len(),
                forall|j: int| 0 <= j < i ==> self.spec_keys()[j] != target_triple@,
            decreases self.spec_keys().len() - i,
        {
            if self.keys[i] == key {
                proof {
                    let s = target_triple@;
                    assert(self.spec_keys()[i as int] == s);
                    assert(contains_key_in(self.spec_keys(), s));
                    let k = choose|k: int|
                        0 <= k < self.spec_keys().len() && self.spec_keys()[k] == s;
                    assert(k == i as int);
                    assert(self.spec_vals()[i as int] == self.vals@[i as int]@);
                }
                return Option::Some(&self.vals[i]);
            }
            i += 1;
        }
        proof {
            assert(!contains_key_in(self.spec_keys(), target_triple@));
        }
        Option::None
    }
}

/// Law: a lookup is a function of the cache value and the looked-up
/// string alone, so two lookups of the same string on the same cache
/// yield identical predicate sequences, and neither changes the
/// cache.
pub proof fn lemma_lookup_idempotent(
    c: PredicateCache,
    s: Seq<char>,
    r1: Option<Seq<Cfg>>,
    r2: Option<Seq<Cfg>>,
)
    requires
        r1 == c.lookup_spec(s),
        r2 == c.lookup_spec(s),
    ensures
        r1 == r2,
{
}

/// Law: when exactly one registry entry's query fails, that triple is
/// absent from the populated cache while every other registry entry
/// is present with its parsed predicate sequence.
pub proof fn lemma_single_failure_isolated(outs: Seq<Option<Seq<Seq<char>>>>, f: int)
    requires
        outs.len() == spec_registry().len(),
        0 <= f < outs.len(),
        outs[f] is None,
        forall|j: int| 0 <= j < outs.len() && j != f ==> outs[j] is Some,
    ensures
        lookup_in(
            populated_keys(outs, outs.len() as int),
            populated_vals(outs, outs.len() as int),
            spec_format(spec_registry()[f]),
        ) is None,
        forall|j: int|
            0 <= j < outs.len() && j != f ==> lookup_in(
                populated_keys(outs, outs.len() as int),
                populated_vals(outs, outs.len() as int),
                spec_format(#[trigger] spec_registry()[j]),
            ) == Option::Some(parse_lines(outs[j]->Some_0)),
{
    lemma_populated_lookup(outs, f);
    assert forall|j: int| 0 <= j < outs.len() && j != f implies lookup_in(
        populated_keys(outs, outs.len() as int),
        populated_vals(outs, outs.len() as int),
        spec_format(#[trigger] spec_registry()[j]),
    ) == Option::Some(parse_lines(outs[j]->Some_0)) by {
        lemma_populated_lookup(outs, j);
    }
}

/// Law: a string that is not the canonical form of any registry entry
/// is absent from every well-formed cache — before population, when
/// the cache is empty, and after it alike.
pub proof fn lemma_lookup_unsupported(c: PredicateCache, s: Seq<char>)
    requires
        c.wf(),
        forall|j: int|
            0 <= j < spec_registry().len() ==> spec_format(#[trigger] spec_registry()[j]) != s,
    ensures
        c.lookup_spec(s) is None,
{
    if contains_key_in(c.spec_keys(), s) {
        let i = choose|i: int| 0 <= i < c.spec_keys().len() && c.spec_keys()[i] == s;
        let j = choose|j: int|
            0 <= j < spec_registry().len() && c.spec_keys()[i] == spec_format(spec_registry()[j]);
        assert(false);
    }
}

/// Law: before population the cache holds nothing, so every lookup
/// returns absent.
pub proof fn lemma_unpopulated_lookup_none(c: PredicateCache, s: Seq<char>)
    requires
        c.wf(),
        !c.spec_populated(),
    ensures
        c.lookup_spec(s) is None,
{
}

} // verus!
