//! Command lines: the counter tool's, and those of applications launched
//! under observation.
use vstd::prelude::*;
use crate::args::LaunchArgs;
use crate::digits::{dec_chars, push_decimal};
use crate::error::DiscoveryError;
use crate::probe::{
    EventCatalog, channel_views, grid_args, grid_probes, resolve_selectors, selector_channels,
    views,
};
use crate::topology::{mesh_fits, mesh_fits_width};
use crate::node_id::supported_width;

verus! {

/// The counter tool arguments that attach the selected events to every node
/// of the mesh: node by node as `grid_probes` orders them, and at each node
/// as `events_to_perf_events` does.
pub fn mesh_event_probes(
    catalog: &EventCatalog,
    mesh: (u16, u16),
    nodeid_length: u8,
    events: &Vec<String>,
) -> (r: Result<Vec<String>, DiscoveryError>)
    ensures
        !supported_width(nodeid_length) ==> r == Err::<Vec<String>, DiscoveryError>(
            DiscoveryError::UnsupportedWidth(nodeid_length),
        ),
        r is Ok <==> supported_width(nodeid_length) && selector_channels(views(events@), catalog@)
            is Some && mesh_fits(mesh, nodeid_length),
        r matches Ok(v) ==> views(v@) == grid_args(
            mesh.0 as nat,
            mesh.1 as nat,
            nodeid_length,
            selector_channels(views(events@), catalog@)->0,
        ),
        supported_width(nodeid_length) ==> (r matches Err(e) ==> (selector_channels(
            views(events@),
            catalog@,
        ) is None && e is UnknownEvent) || (selector_channels(views(events@), catalog@) is Some
            && e == DiscoveryError::MeshTooLarge(nodeid_length))),
{
    if !crate::node_id::width_supported(nodeid_length) {
        return Err(DiscoveryError::UnsupportedWidth(nodeid_length));
    }
    let chans = match resolve_selectors(events, catalog) {
        Ok(c) => c,
        Err(e) => return Err(e),
    };
    if !mesh_fits_width(mesh, nodeid_length) {
        return Err(DiscoveryError::MeshTooLarge(nodeid_length));
    }
    Ok(grid_probes(mesh, nodeid_length, &chans))
}

/// The counter tool's arguments for one sampling run: counts written
/// `;`-separated, the probes, then the workload to observe.
pub open spec fn perf_stat_spec(probes: Seq<Seq<char>>, workload: Seq<Seq<char>>) -> Seq<Seq<char>> {
    seq!["stat"@, "--field-separator"@, ";"@] + probes + workload
}

fn push_all(out: &mut Vec<String>, v: &Vec<String>)
    ensures
        views(final(out)@) == views(old(out)@) + views(v@),
{
    let ghost start = views(out@);
    let mut i: usize = 0;
    while i < v.len()
        invariant
            i <= v@.len(),
            views(out@) == start + views(v@.take(i as int)),
        decreases v@.len() - i,
    {
        let ghost before = out@;
        let s = v[i].clone();
        out.push(s);
        assert(out@ == before.push(s));
        assert(views(out@) =~= views(before).push(s@));
        assert(views(v@.take(i + 1)) =~= views(v@.take(i as int)).push(s@));
        i = i + 1;
        assert(views(out@) =~= start + views(v@.take(i as int)));
    }
    assert(v@.take(i as int) =~= v@);
}

/// The counter tool's arguments for one sampling run of `workload`.
pub fn perf_stat_args(probes: &Vec<String>, workload: &Vec<String>) -> (r: Vec<String>)
    ensures
        views(r@) == perf_stat_spec(views(probes@), views(workload@)),
{
    let mut r = vec![String::from_str("stat"), String::from_str("--field-separator"), String::from_str(";")];
    assert(views(r@) =~= seq!["stat"@, "--field-separator"@, ";"@]);
    push_all(&mut r, probes);
    push_all(&mut r, workload);
    assert(views(r@) =~= perf_stat_spec(views(probes@), views(workload@)));
    r
}

/// The CPU list of every core of a host with `cpu_count` cores.
pub open spec fn all_cpus(cpu_count: nat) -> Seq<char> {
    "0-"@ + dec_chars((cpu_count - 1) as nat)
}

/// The arguments of the core-pinning launcher: the CPU list (`core_map`, or
/// every core), the shell and its `-c` if one is given, then the program.
pub open spec fn taskset_spec(
    core_map: Option<Seq<char>>,
    cpu_count: nat,
    shell: Option<Seq<char>>,
    program: Seq<Seq<char>>,
) -> Seq<Seq<char>> {
    seq![
        "--cpu-list"@,
        match core_map {
            Some(m) => m,
            None => all_cpus(cpu_count),
        },
    ] + match shell {
        Some(sh) => seq![sh, "-c"@],
        None => Seq::empty(),
    } + program
}

pub open spec fn opt_view(o: Option<String>) -> Option<Seq<char>> {
    match o {
        Some(s) => Some(s@),
        None => None,
    }
}

/// The arguments of the core-pinning launcher that runs `program`.
pub fn taskset_args(
    core_map: &Option<String>,
    cpu_count: u32,
    shell: &Option<String>,
    program: &Vec<String>,
) -> (r: Vec<String>)
    requires
        cpu_count >= 1,
    ensures
        views(r@) == taskset_spec(
            opt_view(*core_map),
            cpu_count as nat,
            opt_view(*shell),
            views(program@),
        ),
{
    let cpus = match core_map {
        Some(m) => m.clone(),
        None => {
            let mut all = String::from_str("0-");
            push_decimal(&mut all, (cpu_count - 1) as u64);
            all
        },
    };
    let mut r = vec![String::from_str("--cpu-list"), cpus];
    match shell {
        Some(sh) => {
            r.push(sh.clone());
            r.push(String::from_str("-c"));
        },
        None => {},
    }
    assert(views(r@) =~= taskset_spec(
        opt_view(*core_map),
        cpu_count as nat,
        opt_view(*shell),
        Seq::empty(),
    ));
    push_all(&mut r, program);
    assert(views(r@) =~= taskset_spec(
        opt_view(*core_map),
        cpu_count as nat,
        opt_view(*shell),
        views(program@),
    ));
    r
}

/// What a launch runs: the counter tool around the application when there
/// are probes, else the application alone, with its arguments.
pub open spec fn launch_program_spec(
    probes: Seq<Seq<char>>,
    binary: Seq<char>,
    args: Option<Seq<Seq<char>>>,
) -> Seq<Seq<char>> {
    let app = seq![binary] + match args {
        Some(a) => a,
        None => Seq::empty(),
    };
    if probes.len() > 0 {
        seq!["perf"@] + perf_stat_spec(probes, app)
    } else {
        app
    }
}

/// What a launch of `args.binary` runs, observed by the given probes.
pub fn launch_program(args: &LaunchArgs, probes: &Vec<String>) -> (r: Vec<String>)
    ensures
        views(r@) == launch_program_spec(
            views(probes@),
            args.binary@,
            match args.args {
                Some(a) => Some(views(a@)),
                None => None,
            },
        ),
{
    let mut app = vec![args.binary.clone()];
    match &args.args {
        Some(a) => push_all(&mut app, a),
        None => {},
    }
    let ghost app_view = views(app@);
    assert(app_view =~= seq![args.binary@] + match args.args {
        Some(a) => views(a@),
        None => Seq::empty(),
    });
    if probes.len() > 0 {
        let mut r = vec![String::from_str("perf")];
        let rest = perf_stat_args(probes, &app);
        push_all(&mut r, &rest);
        assert(views(r@) =~= seq!["perf"@] + perf_stat_spec(views(probes@), app_view));
        r
    } else {
        app
    }
}

/// The first `'='` in `s` at or after `i`, or the end of `s`.
pub open spec fn eq_from(s: Seq<char>, i: int) -> int
    decreases s.len() - i,
{
    if 0 <= i < s.len() && s[i] != '=' {
        eq_from(s, i + 1)
    } else {
        i
    }
}

/// An environment entry `NAME=value`: the name, and the value up to any
/// further `'='`. `None` when the entry has no `'='`.
pub open spec fn env_entry(s: Seq<char>) -> Option<(Seq<char>, Seq<char>)> {
    let a = eq_from(s, 0);
    if a < s.len() {
        Some((s.subrange(0, a), s.subrange(a + 1, eq_from(s, a + 1))))
    } else {
        None
    }
}

fn find_eq(s: &Vec<char>, i: usize) -> (e: usize)
    requires
        i <= s@.len(),
    ensures
        e == eq_from(s@, i as int),
        i <= e <= s@.len(),
{
    let mut e = i;
    while e < s.len() && s[e] != '='
        invariant
            i <= e <= s@.len(),
            eq_from(s@, i as int) == eq_from(s@, e as int),
        decreases s@.len() - e,
    {
        e = e + 1;
    }
    e
}

/// Splits an environment entry `NAME=value`.
pub fn env_pair(entry: &str) -> (r: Option<(String, String)>)
    ensures
        r matches Some((k, v)) ==> env_entry(entry@) == Some((k@, v@)),
        r is None ==> env_entry(entry@) is None,
{
    let s = crate::text::chars_of(entry);
    let a = find_eq(&s, 0);
    if a >= s.len() {
        return None;
    }
    let b = find_eq(&s, a + 1);
    let name = String::from_str(entry.substring_char(0, a));
    let value = String::from_str(entry.substring_char(a + 1, b));
    Some((name, value))
}

} // verus!
