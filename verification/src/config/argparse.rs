//! The runner's command-line arguments and their validation against the
//! configured names.

use vstd::prelude::*;
use crate::text::{join_spec, join_strs, str_eq, str_views, string_views};

verus! {

/// The arguments the benchmark runner is started with.
pub struct Arguments {
    /// Only start Solr and Varnish.
    pub development: bool,
    /// Use remote images to run the benchmark.
    pub remote: bool,
    /// Build images locally to run the benchmark.
    pub local: bool,
    /// The host port that Varnish is forwarded to.
    pub port: u16,
    /// The frameworks to run.
    pub frameworks: Vec<String>,
    /// The benchmarks to run.
    pub benchmarks: Vec<String>,
    /// The backends to run.
    pub backends: Vec<String>,
    /// The setups to run.
    pub setups: Vec<String>,
}

/// The message that rejects `v` when it is not among `valid`.
pub open spec fn not_valid_message(v: Seq<char>, valid: Seq<Seq<char>>) -> Seq<char> {
    v + " is not a valid value, valid values are "@ + join_spec(valid, ", "@)
}

/// The rejection of the first of `values` from index `from` on that is not
/// among `valid`, or `None` when all of them are.
pub open spec fn first_rejection(values: Seq<Seq<char>>, valid: Seq<Seq<char>>, from: int) -> Option<
    Seq<char>,
>
    decreases values.len() - from,
{
    if from < 0 || from >= values.len() {
        None
    } else if valid.contains(values[from]) {
        first_rejection(values, valid, from + 1)
    } else {
        Some(not_valid_message(values[from], valid))
    }
}

/// The rejection that validating `args` against the four lists of valid
/// names gives: frameworks first, then benchmarks, backends and setups.
pub open spec fn arguments_rejection(
    args: Arguments,
    frameworks: Seq<Seq<char>>,
    benchmarks: Seq<Seq<char>>,
    backends: Seq<Seq<char>>,
    setups: Seq<Seq<char>>,
) -> Option<Seq<char>> {
    let f = first_rejection(string_views(args.frameworks@), frameworks, 0);
    let b = first_rejection(string_views(args.benchmarks@), benchmarks, 0);
    let k = first_rejection(string_views(args.backends@), backends, 0);
    let s = first_rejection(string_views(args.setups@), setups, 0);
    if f is Some {
        f
    } else if b is Some {
        b
    } else if k is Some {
        k
    } else {
        s
    }
}

proof fn lemma_first_rejection_from(values: Seq<Seq<char>>, valid: Seq<Seq<char>>, from: int)
    requires
        0 <= from <= values.len(),
    ensures
        first_rejection(values, valid, from) is None <==> forall|i: int|
            from <= i < values.len() ==> valid.contains(#[trigger] values[i]),
    decreases values.len() - from,
{
    if from < values.len() {
        lemma_first_rejection_from(values, valid, from + 1);
    }
}

/// A list of values passes validation exactly when every value is among
/// the valid ones.
pub proof fn lemma_rejection_iff_unlisted(values: Seq<Seq<char>>, valid: Seq<Seq<char>>)
    ensures
        first_rejection(values, valid, 0) is None <==> forall|i: int|
            0 <= i < values.len() ==> valid.contains(#[trigger] values[i]),
{
    lemma_first_rejection_from(values, valid, 0);
}

/// The arguments pass validation exactly when every requested framework,
/// benchmark, backend and setup is among the configured ones.
pub proof fn lemma_arguments_valid_iff_all_listed(
    args: Arguments,
    frameworks: Seq<Seq<char>>,
    benchmarks: Seq<Seq<char>>,
    backends: Seq<Seq<char>>,
    setups: Seq<Seq<char>>,
)
    ensures
        arguments_rejection(args, frameworks, benchmarks, backends, setups) is None <==> {
            &&& forall|i: int| 0 <= i < args.frameworks@.len() ==> frameworks.contains(#[trigger] args.frameworks@[i]@)
            &&& forall|i: int| 0 <= i < args.benchmarks@.len() ==> benchmarks.contains(#[trigger] args.benchmarks@[i]@)
            &&& forall|i: int| 0 <= i < args.backends@.len() ==> backends.contains(#[trigger] args.backends@[i]@)
            &&& forall|i: int| 0 <= i < args.setups@.len() ==> setups.contains(#[trigger] args.setups@[i]@)
        },
{
    lemma_strings_listed(args.frameworks@, frameworks);
    lemma_strings_listed(args.benchmarks@, benchmarks);
    lemma_strings_listed(args.backends@, backends);
    lemma_strings_listed(args.setups@, setups);
}

proof fn lemma_strings_listed(values: Seq<String>, valid: Seq<Seq<char>>)
    ensures
        first_rejection(string_views(values), valid, 0) is None <==> forall|i: int|
            0 <= i < values.len() ==> valid.contains(#[trigger] values[i]@),
{
    let views = string_views(values);
    lemma_rejection_iff_unlisted(views, valid);
    if forall|i: int| 0 <= i < values.len() ==> valid.contains(#[trigger] values[i]@) {
        assert forall|i: int| 0 <= i < views.len() implies valid.contains(#[trigger] views[i]) by {
            assert(views[i] == values[i]@);
        }
    }
    if forall|i: int| 0 <= i < views.len() ==> valid.contains(#[trigger] views[i]) {
        assert forall|i: int| 0 <= i < values.len() implies valid.contains(#[trigger] values[i]@) by {
            assert(views[i] == values[i]@);
        }
    }
}

proof fn lemma_first_rejection_is_first_from(values: Seq<Seq<char>>, valid: Seq<Seq<char>>, from: int)
    requires
        0 <= from <= values.len(),
    ensures
        first_rejection(values, valid, from) matches Some(m) ==> exists|i: int|
            from <= i < values.len() && !valid.contains(#[trigger] values[i]) && (forall|j: int|
                from <= j < i ==> valid.contains(values[j])) && m == values[i]
                + " is not a valid value, valid values are "@ + join_spec(valid, ", "@),
    decreases values.len() - from,
{
    if from < values.len() {
        lemma_first_rejection_is_first_from(values, valid, from + 1);
        if valid.contains(values[from]) {
            if first_rejection(values, valid, from) is Some {
                let i = choose|i: int|
                    from + 1 <= i < values.len() && !valid.contains(#[trigger] values[i]) && (forall|j: int|
                        from + 1 <= j < i ==> valid.contains(values[j])) && first_rejection(values, valid, from)->0
                        == values[i] + " is not a valid value, valid values are "@ + join_spec(valid, ", "@);
                assert(forall|j: int| from <= j < i ==> valid.contains(values[j]));
            }
        } else {
            assert(forall|j: int| from <= j < from ==> valid.contains(values[j]));
        }
    }
}

/// A rejected list is rejected for its first value that is not valid, with
/// the message "<value> is not a valid value, valid values are <valid
/// values joined by ", ">".
pub proof fn lemma_rejection_names_first_unlisted(values: Seq<Seq<char>>, valid: Seq<Seq<char>>)
    ensures
        first_rejection(values, valid, 0) matches Some(m) ==> exists|i: int|
            0 <= i < values.len() && !valid.contains(#[trigger] values[i]) && (forall|j: int|
                0 <= j < i ==> valid.contains(values[j])) && m == values[i]
                + " is not a valid value, valid values are "@ + join_spec(valid, ", "@),
{
    lemma_first_rejection_is_first_from(values, valid, 0);
}

impl Arguments {
    /// Checks every requested framework, benchmark, backend and setup
    /// against the names that the configuration offers.
    pub fn custom_validate(
        &self,
        framework_configs: &[&str],
        benchmarks_configs: &[&str],
        backends: &[&str],
        setups: &[&str],
    ) -> (res: Result<(), String>)
        ensures
            res is Ok <==> arguments_rejection(
                *self,
                str_views(framework_configs@),
                str_views(benchmarks_configs@),
                str_views(backends@),
                str_views(setups@),
            ) is None,
            res matches Err(e) ==> arguments_rejection(
                *self,
                str_views(framework_configs@),
                str_views(benchmarks_configs@),
                str_views(backends@),
                str_views(setups@),
            ) == Some(e@),
        ({
            let f = first_rejection(string_views(self.frameworks@), str_views(framework_configs@), 0);
            let b = first_rejection(string_views(self.benchmarks@), str_views(benchmarks_configs@), 0);
            let k = first_rejection(string_views(self.backends@), str_views(backends@), 0);
            let t = first_rejection(string_views(self.setups@), str_views(setups@), 0);
            &&& f is Some ==> (res matches Err(e) && f == Some(e@))
            &&& f is None && b is Some ==> (res matches Err(e) && b == Some(e@))
            &&& f is None && b is None && k is Some ==> (res matches Err(e) && k == Some(e@))
            &&& f is None && b is None && k is None && t is Some ==> (res matches Err(e) && t == Some(e@))
            &&& f is None && b is None && k is None && t is None ==> res is Ok
        }),
    {
        match validate_each(&self.frameworks, framework_configs) {
            Ok(()) => {},
            Err(e) => return Err(e),
        }
        match validate_each(&self.benchmarks, benchmarks_configs) {
            Ok(()) => {},
            Err(e) => return Err(e),
        }
        match validate_each(&self.backends, backends) {
            Ok(()) => {},
            Err(e) => return Err(e),
        }
        validate_each(&self.setups, setups)
    }
}

/// Validates each of `values` in turn, stopping at the first that is not
/// among `valid_values`.
fn validate_each(values: &Vec<String>, valid_values: &[&str]) -> (res: Result<(), String>)
    ensures
        res is Ok <==> first_rejection(string_views(values@), str_views(valid_values@), 0) is None,
        res matches Err(e) ==> first_rejection(string_views(values@), str_views(valid_values@), 0)
            == Some(e@),
{
    let ghost vs = string_views(values@);
    let ghost valid = str_views(valid_values@);
    let n = values.len();
    let mut i: usize = 0;
    while i < n
        invariant
            n == values@.len(),
            vs == string_views(values@),
            valid == str_views(valid_values@),
            i <= n,
            first_rejection(vs, valid, 0) == first_rejection(vs, valid, i as int),
        decreases n - i,
    {
        assert(vs[i as int] == values@[i as int]@);
        match validate_list(values[i].as_str(), valid_values) {
            Ok(()) => {},
            Err(e) => {
                return Err(e);
            },
        }
        i = i + 1;
    }
    Ok(())
}

/// Accepts `v` when it is one of `valid_values`, and otherwise rejects it
/// with a message that lists the valid values.
pub fn validate_list(v: &str, valid_values: &[&str]) -> (res: Result<(), String>)
    ensures
        res is Ok <==> str_views(valid_values@).contains(v@),
        res matches Err(e) ==> e@ == not_valid_message(v@, str_views(valid_values@)),
        res matches Err(e) ==> e@ == v@ + " is not a valid value, valid values are "@ + join_spec(
            str_views(valid_values@),
            ", "@,
        ),
{
    let ghost valid = str_views(valid_values@);
    let n = valid_values.len();
    let mut i: usize = 0;
    while i < n
        invariant
            n == valid_values@.len(),
            valid == str_views(valid_values@),
            i <= n,
            forall|j: int| 0 <= j < i ==> valid[j] != v@,
        decreases n - i,
    {
        if str_eq(valid_values[i], v) {
            assert(valid[i as int] == v@);
            return Ok(());
        }
        i = i + 1;
    }
    let joined = join_strs(valid_values, ", ");
    let mut msg = String::from_str(v);
    msg.append(" is not a valid value, valid values are ");
    msg.append(joined.as_str());
    Err(msg)
}

} // verus!
