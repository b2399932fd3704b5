//! One benchmark run: the load generator's command line and the handling
//! of its output.

use vstd::prelude::*;
use crate::backend::{runner_container, runner_container_plan, ContainerSpec, ImageType};
use crate::config::benchmark::{Benchmark, Setup};
use crate::config::framework::FrameworkConfig;
use crate::text::{
    all_digits, decimal, digits_value, join_spec, lemma_decimal_reads_back, lemma_join_push,
    lemma_join_split, lemma_split_concat, lemma_split_join, lemma_split_nonempty, push_decimal, split_spec,
};

verus! {

/// The `oha` command line that measures `url` followed by `path` for
/// `duration` seconds over `connections` connections, printing JSON.
pub open spec fn oha_command_spec(duration: u32, connections: u32, url: Seq<char>, path: Seq<char>) -> Seq<char> {
    "oha -z "@ + decimal(duration as nat) + "s -c "@ + decimal(connections as nat)
        + " --latency-correction --disable-keepalive --no-tui -j "@ + url + path
}

/// The words of the `oha` command line are `oha`, `-z`, the duration in
/// decimal digits followed by `s`, `-c`, the number of connections in
/// decimal digits, `--latency-correction`, `--disable-keepalive`,
/// `--no-tui` and `-j`; the digits read back as the setup's duration and
/// connections, whatever they are, and the remaining words joined with
/// spaces are the URL followed by the path.
pub proof fn lemma_oha_command_words(duration: u32, connections: u32, url: Seq<char>, path: Seq<char>)
    ensures
        ({
            let w = split_spec(oha_command_spec(duration, connections, url, path), ' ');
            &&& w.len() >= 10
            &&& w[0] == "oha"@
            &&& w[1] == "-z"@
            &&& w[2].len() >= 2
            &&& w[2].last() == 's'
            &&& all_digits(w[2].drop_last())
            &&& digits_value(w[2].drop_last()) == duration
            &&& w[3] == "-c"@
            &&& all_digits(w[4])
            &&& digits_value(w[4]) == connections
            &&& w[5] == "--latency-correction"@
            &&& w[6] == "--disable-keepalive"@
            &&& w[7] == "--no-tui"@
            &&& w[8] == "-j"@
            &&& join_spec(w.skip(9), seq![' ']) == url + path
        }),
{
    reveal_strlit("oha -z ");
    reveal_strlit("s -c ");
    reveal_strlit(" --latency-correction --disable-keepalive --no-tui -j ");
    reveal_strlit("oha");
    reveal_strlit("-z");
    reveal_strlit("-c");
    reveal_strlit("--latency-correction");
    reveal_strlit("--disable-keepalive");
    reveal_strlit("--no-tui");
    reveal_strlit("-j");
    let d = decimal(duration as nat);
    let c = decimal(connections as nat);
    lemma_decimal_reads_back(duration as nat);
    lemma_decimal_reads_back(connections as nat);
    let sp = seq![' '];
    let ds = d.push('s');
    let p1 = seq!["oha"@];
    let p2 = p1.push("-z"@);
    let p3 = p2.push(ds);
    let p4 = p3.push("-c"@);
    let p5 = p4.push(c);
    let p6 = p5.push("--latency-correction"@);
    let p7 = p6.push("--disable-keepalive"@);
    let p8 = p7.push("--no-tui"@);
    let parts = p8.push("-j"@);
    assert(join_spec(p1, sp) == "oha"@);
    lemma_join_push(p1, "-z"@, sp);
    lemma_join_push(p2, ds, sp);
    lemma_join_push(p3, "-c"@, sp);
    lemma_join_push(p4, c, sp);
    lemma_join_push(p5, "--latency-correction"@, sp);
    lemma_join_push(p6, "--disable-keepalive"@, sp);
    lemma_join_push(p7, "--no-tui"@, sp);
    lemma_join_push(p8, "-j"@, sp);
    let p = join_spec(parts, sp);
    let r = url + path;
    let cmd = oha_command_spec(duration, connections, url, path);
    assert(cmd =~= p + (sp + r));
    assert forall|i: int| 0 <= i < parts.len() implies !(#[trigger] parts[i]).contains(' ') by {
        if i == 2 {
            assert(parts[2] == ds);
            assert forall|k: int| 0 <= k < ds.len() implies ds[k] != ' ' by {
                if k < d.len() {
                    assert(ds[k] == d[k]);
                    assert(48 <= d[k] as int <= 57);
                }
            }
        } else if i == 4 {
            assert(parts[4] == c);
            assert forall|k: int| 0 <= k < c.len() implies c[k] != ' ' by {
                assert(48 <= c[k] as int <= 57);
            }
        } else {
            assert forall|k: int| 0 <= k < parts[i].len() implies parts[i][k] != ' ' by {}
        }
    }
    lemma_split_join(parts, ' ');
    assert(sp.drop_last() =~= Seq::<char>::empty());
    assert(sp.last() == ' ');
    assert(split_spec(Seq::<char>::empty(), ' ') == seq![Seq::<char>::empty()]);
    assert(split_spec(sp, ' ') == split_spec(Seq::<char>::empty(), ' ').push(Seq::<char>::empty()));
    assert(split_spec(sp, ' ') =~= seq![Seq::<char>::empty(), Seq::<char>::empty()]);
    lemma_split_concat(sp, r, ' ');
    lemma_split_nonempty(r, ' ');
    let sr = split_spec(r, ' ');
    assert(Seq::<char>::empty() + sr[0] =~= sr[0]);
    assert(split_spec(sp + r, ' ') =~= seq![Seq::<char>::empty()] + sr);
    lemma_split_concat(p, sp + r, ' ');
    let w = split_spec(cmd, ' ');
    assert(parts.last() + Seq::<char>::empty() =~= parts.last());
    assert(w =~= parts + sr);
    assert(w.skip(9) =~= sr);
    lemma_join_split(r, ' ');
    assert(ds.drop_last() =~= d);
}

/// The `oha` command line of a benchmark run.
pub fn oha_command(setup: &Setup, framework_url: &str, benchmark_path: &str) -> (cmd: String)
    ensures
        cmd@ == oha_command_spec(setup.duration, setup.connections, framework_url@, benchmark_path@),
        split_spec(cmd@, ' ').len() >= 5,
        split_spec(cmd@, ' ')[1] == "-z"@,
        digits_value(split_spec(cmd@, ' ')[2].drop_last()) == setup.duration,
        split_spec(cmd@, ' ')[3] == "-c"@,
        all_digits(split_spec(cmd@, ' ')[4]),
        digits_value(split_spec(cmd@, ' ')[4]) == setup.connections,
        join_spec(split_spec(cmd@, ' ').skip(9), seq![' ']) == framework_url@ + benchmark_path@,
{
    let mut cmd = String::from_str("oha -z ");
    push_decimal(&mut cmd, setup.duration as u64);
    cmd.append("s -c ");
    push_decimal(&mut cmd, setup.connections as u64);
    cmd.append(" --latency-correction --disable-keepalive --no-tui -j ");
    cmd.append(framework_url);
    cmd.append(benchmark_path);
    proof {
        lemma_oha_command_words(setup.duration, setup.connections, framework_url@, benchmark_path@);
    }
    cmd
}

/// The load generator container that runs `benchmark` against
/// `framework` with `setup`.
pub fn benchmark_runner(
    image_type: ImageType,
    framework: &FrameworkConfig,
    benchmark: &Benchmark,
    setup: &Setup,
) -> (c: ContainerSpec)
    ensures
        c@ == runner_container_plan(
            image_type,
            oha_command_spec(setup.duration, setup.connections, framework.url@, benchmark.path@),
        ),
{
    let cmd = oha_command(setup, framework.url.as_str(), benchmark.path.as_str());
    runner_container(image_type, cmd.as_str())
}

/// The views of a sequence of byte chunks.
pub open spec fn chunk_views(chunks: Seq<Vec<u8>>) -> Seq<Seq<u8>> {
    chunks.map_values(|c: Vec<u8>| c@)
}

/// The chunks of the runner's log laid end to end.
pub fn concat_logs(chunks: &Vec<Vec<u8>>) -> (all: Vec<u8>)
    ensures
        all@ == chunk_views(chunks@).flatten(),
{
    let mut all: Vec<u8> = Vec::new();
    let n = chunks.len();
    let mut i: usize = 0;
    assert(chunk_views(chunks@).take(0) =~= Seq::<Seq<u8>>::empty());
    while i < n
        invariant
            n == chunks@.len(),
            i <= n,
            all@ == chunk_views(chunks@).take(i as int).flatten(),
        decreases n - i,
    {
        let ghost before = all@;
        all.extend_from_slice(chunks[i].as_slice());
        proof {
            let views = chunk_views(chunks@);
            assert(views.take(i + 1) =~= views.take(i as int).push(chunks@[i as int]@));
            views.take(i as int).lemma_flatten_push(chunks@[i as int]@);
            assert(all@ =~= before + chunks@[i as int]@);
        }
        i = i + 1;
    }
    assert(chunk_views(chunks@).take(n as int) =~= chunk_views(chunks@));
    all
}

} // verus!
