//! Finding the configuration file: the decisions of the walk from the
//! starting directory up to the root.
//!
//! The caller looks at the disk: for each directory of the walk, the
//! starting directory first, it reports which of the candidate files are
//! there. The walk goes all the way up. Two candidates in one directory
//! are an ambiguity, and so are two directories with a candidate each:
//! a file higher up is never ignored in silence.

use vstd::prelude::*;

verus! {

/// A candidate file: the directory it lies in, counted from the starting
/// directory upwards, and which of the candidate extensions it has.
#[derive(Debug, Clone, Copy, PartialEq, Eq, Structural)]
pub struct Candidate {
    pub level: usize,
    pub format: usize,
}

/// Two candidate files between which the walk cannot choose.
#[derive(Debug, Clone, Copy, PartialEq, Eq, Structural)]
pub enum DiscoveryAmbiguity {
    /// One directory holds candidates with two extensions.
    SameDirectory { level: usize, first: usize, second: usize },
    /// Two directories of the walk hold a candidate each.
    AcrossDirectories { lower: Candidate, upper: Candidate },
}

/// The exit code of a process that ends on an ambiguous discovery.
pub const AMBIGUITY_EXIT_CODE: i32 = 2;

/// What an ambiguity says to the user: which kind it is, and the paths of
/// the two files.
pub open spec fn ambiguity_message(e: DiscoveryAmbiguity, first: Seq<char>, second: Seq<char>) -> Seq<
    char,
> {
    match e {
        DiscoveryAmbiguity::SameDirectory { .. } => "Error: multiple config files in same dir: "@
            + first + " and "@ + second,
        DiscoveryAmbiguity::AcrossDirectories { .. } =>
            "Error: multiple config files found walking up: "@ + first + " and "@ + second,
    }
}

impl DiscoveryAmbiguity {
    /// The diagnostic for the ambiguity, where `first` and `second` are
    /// the paths of the two files between which the walk cannot choose.
    pub fn message(&self, first: &str, second: &str) -> (r: String)
        ensures
            r@ == ambiguity_message(*self, first@, second@),
    {
        let head = match self {
            DiscoveryAmbiguity::SameDirectory { .. } =>
                "Error: multiple config files in same dir: ".to_owned(),
            DiscoveryAmbiguity::AcrossDirectories { .. } =>
                "Error: multiple config files found walking up: ".to_owned(),
        };
        head.concat(first).concat(" and ").concat(second)
    }

    /// The two candidates between which the walk cannot choose, the one
    /// that the walk met first in front.
    pub fn candidates(&self) -> (r: (Candidate, Candidate))
        ensures
            r == conflicting(*self),
    {
        match self {
            DiscoveryAmbiguity::SameDirectory { level, first, second } => (
                Candidate { level: *level, format: *first },
                Candidate { level: *level, format: *second },
            ),
            DiscoveryAmbiguity::AcrossDirectories { lower, upper } => (*lower, *upper),
        }
    }
}

/// The two candidates of an ambiguity.
pub open spec fn conflicting(e: DiscoveryAmbiguity) -> (Candidate, Candidate) {
    match e {
        DiscoveryAmbiguity::SameDirectory { level, first, second } => (
            Candidate { level, format: first },
            Candidate { level, format: second },
        ),
        DiscoveryAmbiguity::AcrossDirectories { lower, upper } => (lower, upper),
    }
}

/// The least index from `from` on at which `flags` is set, or the length
/// of `flags` when there is none.
pub open spec fn first_present(flags: Seq<bool>, from: int) -> int
    decreases flags.len() - from,
{
    if from >= flags.len() {
        flags.len() as int
    } else if from >= 0 && flags[from] {
        from
    } else {
        first_present(flags, from + 1)
    }
}

/// What one directory adds to the walk: `found` is the candidate of the
/// directories below, `flags` says which candidates this directory holds.
pub open spec fn step_model(found: Option<Candidate>, level: usize, flags: Seq<bool>) -> Result<
    Option<Candidate>,
    DiscoveryAmbiguity,
> {
    let first = first_present(flags, 0);
    let second = first_present(flags, first + 1);
    if first >= flags.len() {
        Ok(found)
    } else if second < flags.len() {
        Err(
            DiscoveryAmbiguity::SameDirectory {
                level,
                first: first as usize,
                second: second as usize,
            },
        )
    } else {
        match found {
            Some(lower) => Err(
                DiscoveryAmbiguity::AcrossDirectories {
                    lower,
                    upper: Candidate { level, format: first as usize },
                },
            ),
            None => Ok(Some(Candidate { level, format: first as usize })),
        }
    }
}

/// The walk over the directories from `from` on.
pub open spec fn walk_model(table: Seq<Seq<bool>>, from: int, found: Option<Candidate>) -> Result<
    Option<Candidate>,
    DiscoveryAmbiguity,
>
    decreases table.len() - from,
{
    if from < 0 || from >= table.len() {
        Ok(found)
    } else {
        match step_model(found, from as usize, table[from]) {
            Ok(next) => walk_model(table, from + 1, next),
            Err(e) => Err(e),
        }
    }
}

/// The outcome of the whole walk.
pub open spec fn discovery_model(table: Seq<Seq<bool>>) -> Result<
    Option<Candidate>,
    DiscoveryAmbiguity,
> {
    walk_model(table, 0, None)
}

/// The name of a candidate file: the base name, a dot, the extension.
pub open spec fn candidate_name_model(base: Seq<char>, extension: Seq<char>) -> Seq<char> {
    base + seq!['.'] + extension
}

/// What `first_present` returns.
pub proof fn lemma_first_present(flags: Seq<bool>, from: int)
    requires
        0 <= from,
    ensures
        from <= first_present(flags, from) || first_present(flags, from) == flags.len(),
        first_present(flags, from) <= flags.len() || from > flags.len(),
        first_present(flags, from) < flags.len() ==> flags[first_present(flags, from)],
        forall|i: int| from <= i < first_present(flags, from) && i < flags.len() ==> !flags[i],
    decreases flags.len() - from,
{
    if from < flags.len() && !flags[from] {
        lemma_first_present(flags, from + 1);
    }
}

/// Whether the directory `level` holds the candidate with the `k`-th
/// extension.
pub open spec fn present_at(table: Seq<Seq<bool>>, level: int, k: int) -> bool {
    0 <= level < table.len() && 0 <= k < table[level].len() && table[level][k]
}

/// A table that a caller can hold: its lengths fit the machine's indices.
pub open spec fn table_fits(table: Seq<Seq<bool>>) -> bool {
    table.len() <= usize::MAX && forall|l: int|
        0 <= l < table.len() ==> (#[trigger] table[l]).len() <= usize::MAX
}

/// What one directory does to the walk, by the number of candidates in it.
proof fn lemma_step(found: Option<Candidate>, level: usize, flags: Seq<bool>)
    requires
        flags.len() <= usize::MAX,
    ensures
        (forall|k: int| 0 <= k < flags.len() ==> !flags[k]) ==> step_model(found, level, flags)
            == Ok::<Option<Candidate>, DiscoveryAmbiguity>(found),
        forall|a: int, b: int|
            0 <= a < b < flags.len() && flags[a] && flags[b] ==> step_model(
                found,
                level,
                flags,
            ) is Err,
        forall|a: int|
            0 <= a < flags.len() && flags[a] && found is Some ==> step_model(
                found,
                level,
                flags,
            ) is Err,
        forall|a: int|
            0 <= a < flags.len() && flags[a] && found is None && (forall|k: int|
                0 <= k < flags.len() && flags[k] ==> k == a) ==> step_model(found, level, flags)
                == Ok::<Option<Candidate>, DiscoveryAmbiguity>(
                Some(Candidate { level, format: a as usize }),
            ),
        forall|a: int|
            0 <= a < flags.len() && flags[a] ==> !(step_model(found, level, flags) matches Ok(
                None,
            )),
{
    let first = first_present(flags, 0);
    lemma_first_present(flags, 0);
    if first < flags.len() {
        lemma_first_present(flags, first + 1);
    }
}

/// Directories without a candidate leave the walk as it is.
proof fn lemma_walk_empty(table: Seq<Seq<bool>>, from: int, found: Option<Candidate>)
    requires
        0 <= from,
        table_fits(table),
        forall|l: int, k: int| from <= l ==> !present_at(table, l, k),
    ensures
        walk_model(table, from, found) == Ok::<Option<Candidate>, DiscoveryAmbiguity>(found),
    decreases table.len() - from,
{
    if from < table.len() {
        lemma_step(found, from as usize, table[from]);
        assert forall|k: int| 0 <= k < table[from].len() implies !table[from][k] by {
            assert(!present_at(table, from, k));
        }
        lemma_walk_empty(table, from + 1, found);
    }
}

/// Once a candidate is found, any candidate higher up is an ambiguity.
proof fn lemma_walk_second(
    table: Seq<Seq<bool>>,
    from: int,
    found: Option<Candidate>,
    level: int,
    k: int,
)
    requires
        0 <= from <= level,
        table_fits(table),
        found is Some,
        present_at(table, level, k),
    ensures
        walk_model(table, from, found) is Err,
    decreases table.len() - from,
{
    lemma_step(found, from as usize, table[from]);
    if from < level {
        match step_model(found, from as usize, table[from]) {
            Ok(next) => {
                lemma_walk_second(table, from + 1, next, level, k);
            },
            Err(_) => {},
        }
    }
}

/// Two candidates anywhere in the walk are an ambiguity.
proof fn lemma_walk_two(
    table: Seq<Seq<bool>>,
    from: int,
    found: Option<Candidate>,
    l1: int,
    a: int,
    l2: int,
    b: int,
)
    requires
        0 <= from <= l1 <= l2,
        table_fits(table),
        present_at(table, l1, a),
        present_at(table, l2, b),
        l1 != l2 || a != b,
    ensures
        walk_model(table, from, found) is Err,
    decreases table.len() - from,
{
    lemma_step(found, from as usize, table[from]);
    match step_model(found, from as usize, table[from]) {
        Ok(next) => {
            if from < l1 {
                lemma_walk_two(table, from + 1, next, l1, a, l2, b);
            } else if l1 < l2 {
                lemma_walk_second(table, from + 1, next, l2, b);
            }
        },
        Err(_) => {},
    }
}

/// The one candidate of a walk is found, wherever it lies.
proof fn lemma_walk_single(table: Seq<Seq<bool>>, from: int, level: int, k: int)
    requires
        0 <= from <= level,
        table_fits(table),
        present_at(table, level, k),
        forall|l: int, j: int| present_at(table, l, j) ==> l == level && j == k,
    ensures
        walk_model(table, from, None) == Ok::<Option<Candidate>, DiscoveryAmbiguity>(
            Some(Candidate { level: level as usize, format: k as usize }),
        ),
    decreases table.len() - from,
{
    lemma_step(None, from as usize, table[from]);
    if from < level {
        assert forall|j: int| 0 <= j < table[from].len() implies !table[from][j] by {
            assert(!present_at(table, from, j));
        }
        lemma_walk_single(table, from + 1, level, k);
    } else {
        assert forall|j: int| 0 <= j < table[from].len() && table[from][j] implies j == k by {
            assert(present_at(table, from, j));
        }
        lemma_walk_empty(
            table,
            from + 1,
            Some(Candidate { level: level as usize, format: k as usize }),
        );
    }
}

/// A walk that meets no candidate finds no file.
pub proof fn lemma_discovery_none(table: Seq<Seq<bool>>)
    requires
        table_fits(table),
        forall|l: int, k: int| !present_at(table, l, k),
    ensures
        discovery_model(table) == Ok::<Option<Candidate>, DiscoveryAmbiguity>(None),
{
    lemma_walk_empty(table, 0, None);
}

/// A walk that meets exactly one candidate finds it, in the starting
/// directory or in any directory above it.
pub proof fn lemma_discovery_single(table: Seq<Seq<bool>>, level: int, k: int)
    requires
        table_fits(table),
        present_at(table, level, k),
        forall|l: int, j: int| present_at(table, l, j) ==> l == level && j == k,
    ensures
        discovery_model(table) == Ok::<Option<Candidate>, DiscoveryAmbiguity>(
            Some(Candidate { level: level as usize, format: k as usize }),
        ),
{
    lemma_walk_single(table, 0, level, k);
}

/// A walk that meets two candidates, in one directory or in two, ends in
/// an ambiguity.
pub proof fn lemma_discovery_ambiguous(table: Seq<Seq<bool>>, l1: int, a: int, l2: int, b: int)
    requires
        table_fits(table),
        present_at(table, l1, a),
        present_at(table, l2, b),
        l1 != l2 || a != b,
    ensures
        discovery_model(table) is Err,
{
    if l1 <= l2 {
        lemma_walk_two(table, 0, None, l1, a, l2, b);
    } else {
        lemma_walk_two(table, 0, None, l2, b, l1, a);
    }
}

/// The least index from `from` on at which `flags` is set.
fn next_present(flags: &Vec<bool>, from: usize) -> (r: usize)
    requires
        from <= flags.len(),
    ensures
        r == first_present(flags@, from as int),
        from <= r <= flags.len(),
{
    let mut i: usize = from;
    while i < flags.len() && !flags[i]
        invariant
            from <= i <= flags.len(),
            first_present(flags@, from as int) == first_present(flags@, i as int),
        decreases flags.len() - i,
    {
        i += 1;
    }
    i
}

/// Takes one directory of the walk into account.
///
/// `found` is what the directories below gave, `level` counts this
/// directory from the starting directory, and `present[k]` says whether
/// the candidate with the `k`-th extension is a file here.
pub fn discovery_step(found: Option<Candidate>, level: usize, present: &Vec<bool>) -> (r: Result<
    Option<Candidate>,
    DiscoveryAmbiguity,
>)
    ensures
        r == step_model(found, level, present@),
{
    let first = next_present(present, 0);
    if first >= present.len() {
        return Ok(found);
    }
    let second = next_present(present, first + 1);
    if second < present.len() {
        return Err(DiscoveryAmbiguity::SameDirectory { level, first, second });
    }
    match found {
        Some(lower) => Err(
            DiscoveryAmbiguity::AcrossDirectories {
                lower,
                upper: Candidate { level, format: first },
            },
        ),
        None => Ok(Some(Candidate { level, format: first })),
    }
}

/// Decides the whole walk: `table[level][k]` says whether the directory
/// `level` steps above the starting directory holds the candidate with
/// the `k`-th extension.
///
/// The result is the one candidate of the walk, `None` when there is no
/// candidate, or the first ambiguity that the walk meets on its way up.
pub fn discover(table: &Vec<Vec<bool>>) -> (r: Result<Option<Candidate>, DiscoveryAmbiguity>)
    ensures
        r == discovery_model(table.deep_view()),
{
    let ghost model = table.deep_view();
    let mut found: Option<Candidate> = None;
    let mut level: usize = 0;
    while level < table.len()
        invariant
            0 <= level <= table.len(),
            model == table.deep_view(),
            discovery_model(model) == walk_model(model, level as int, found),
        decreases table.len() - level,
    {
        assert(model[level as int] == table[level as int]@);
        match discovery_step(found, level, &table[level]) {
            Ok(next) => {
                found = next;
            },
            Err(e) => {
                return Err(e);
            },
        }
        level += 1;
    }
    Ok(found)
}

/// The name of a candidate file.
pub fn candidate_name(base: &str, extension: &str) -> (r: String)
    ensures
        r@ == candidate_name_model(base@, extension@),
{
    let mut name = base.to_owned();
    proof {
        reveal_strlit(".");
    }
    name.append(".");
    name.append(extension);
    name
}

/// The names of the candidate files, one for each extension, in the order
/// of the extensions.
pub fn candidate_names(base: &str, extensions: &Vec<String>) -> (r: Vec<String>)
    ensures
        r.len() == extensions.len(),
        forall|k: int|
            0 <= k < r.len() ==> (#[trigger] r[k])@ == candidate_name_model(base@, extensions[k]@),
{
    let mut names: Vec<String> = Vec::new();
    let mut k: usize = 0;
    while k < extensions.len()
        invariant
            0 <= k <= extensions.len(),
            names.len() == k,
            forall|j: int|
                0 <= j < k ==> (#[trigger] names[j])@ == candidate_name_model(
                    base@,
                    extensions[j]@,
                ),
        decreases extensions.len() - k,
    {
        names.push(candidate_name(base, extensions[k].as_str()));
        k += 1;
    }
    names
}

} // verus!
