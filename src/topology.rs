//! The topology searches: which probes each one attaches, and how the
//! decoded events reduce to a finding.
use vstd::prelude::*;
use vstd::arithmetic::power2::{pow2, lemma2_to64, lemma_pow2_strictly_increases, lemma_pow2_unfold};
use crate::error::DiscoveryError;
use crate::event::Event;
use crate::args::NUMAConfig;
use crate::digits::dec_chars;
use crate::node_id::{coord_bits, supported_width};
use crate::probe::{
    Channel, EventCatalog, channel_views, grid_args, grid_probes, lookup_in, ports_valid, views,
};

verus! {

/// Routing-node counter whose presence marks a populated mesh position.
pub const MXP_NORTH: &'static str = "mxp_n_dat_txflit_valid";

pub const MXP_SOUTH: &'static str = "mxp_s_dat_txflit_valid";

pub const MXP_EAST: &'static str = "mxp_e_dat_txflit_valid";

pub const MXP_WEST: &'static str = "mxp_w_dat_txflit_valid";

/// Data flits leaving a routing node through its device ports 0 and 1.
pub const MXP_PORT0: &'static str = "mxp_p0_dat_txflit_valid";

pub const MXP_PORT1: &'static str = "mxp_p1_dat_txflit_valid";

/// Counters of the cache hub, the I/O hub and the hybrid request node.
pub const HNF_FULL: &'static str = "hnf_seq_full";

pub const HNI_BACKPRESSURE: &'static str = "hni_arready_no_arvalid";

pub const RNID_HYBRID: &'static str = "rnid_rdb_hybrid";

/// Whether identifiers of this width address every position of the mesh.
pub open spec fn mesh_fits(mesh: (u16, u16), width: u8) -> bool {
    (mesh.0 as int) <= pow2(width as nat) && (mesh.1 as int) <= pow2(width as nat)
}

/// Each wanted (port, event name) with the name resolved in the catalog;
/// `None` when a name is missing.
pub open spec fn resolve_all(
    cat: Seq<(Seq<char>, Seq<char>)>,
    names: Seq<(u16, Seq<char>)>,
) -> Option<Seq<(u16, Seq<char>)>>
    decreases names.len(),
{
    if names.len() == 0 {
        Some(Seq::empty())
    } else {
        match resolve_all(cat, names.drop_last()) {
            None => None,
            Some(prev) => match lookup_in(cat, names.last().1) {
                None => None,
                Some(spec) => Some(prev.push((names.last().0, spec))),
            },
        }
    }
}

fn fits_width(n: u16, width: u8) -> (r: bool)
    ensures
        r == ((n as int) <= pow2(width as nat)),
{
    proof {
        lemma2_to64();
    }
    if width >= 16 {
        proof {
            if width > 16 {
                lemma_pow2_strictly_increases(16, width as nat);
            }
        }
        return true;
    }
    let mut p: u32 = 1;
    let mut k: u8 = 0;
    while k < width
        invariant
            k <= width < 16,
            p == pow2(k as nat),
            p <= 32768,
        decreases width - k,
    {
        proof {
            lemma2_to64();
            lemma_pow2_unfold((k + 1) as nat);
            if k + 1 < 15 {
                lemma_pow2_strictly_increases((k + 1) as nat, 15);
            }
        }
        p = p * 2;
        k = k + 1;
    }
    (n as u32) <= p
}

/// Whether identifiers of this width address every position of the mesh.
pub fn mesh_fits_width(mesh: (u16, u16), nodeid_length: u8) -> (r: bool)
    ensures
        r == mesh_fits(mesh, nodeid_length),
{
    fits_width(mesh.0, nodeid_length) && fits_width(mesh.1, nodeid_length)
}

/// The counter tool arguments that attach each wanted counter (a port and an
/// event name) to every node of the mesh, for each node in turn.
pub fn counter_probes(
    catalog: &EventCatalog,
    mesh: (u16, u16),
    nodeid_length: u8,
    wanted: &Vec<Channel>,
) -> (r: Result<Vec<String>, DiscoveryError>)
    requires
        ports_valid(channel_views(wanted@)),
    ensures
        !supported_width(nodeid_length) ==> r == Err::<Vec<String>, DiscoveryError>(
            DiscoveryError::UnsupportedWidth(nodeid_length),
        ),
        r is Ok <==> supported_width(nodeid_length) && resolve_all(
            catalog@,
            channel_views(wanted@),
        ) is Some && mesh_fits(mesh, nodeid_length),
        r matches Ok(v) ==> views(v@) == grid_args(
            mesh.0 as nat,
            mesh.1 as nat,
            nodeid_length,
            resolve_all(catalog@, channel_views(wanted@))->0,
        ),
        supported_width(nodeid_length) ==> (r matches Err(e) ==> (resolve_all(
            catalog@,
            channel_views(wanted@),
        ) is None && e is UnknownEvent) || (resolve_all(catalog@, channel_views(wanted@)) is Some
            && e == DiscoveryError::MeshTooLarge(nodeid_length))),
{
    if !crate::node_id::width_supported(nodeid_length) {
        return Err(DiscoveryError::UnsupportedWidth(nodeid_length));
    }
    let mut chans: Vec<Channel> = Vec::new();
    let mut i: usize = 0;
    while i < wanted.len()
        invariant
            supported_width(nodeid_length),
            i <= wanted@.len(),
            ports_valid(channel_views(wanted@)),
            resolve_all(catalog@, channel_views(wanted@).take(i as int)) == Some(
                channel_views(chans@),
            ),
            ports_valid(channel_views(chans@)),
        decreases wanted@.len() - i,
    {
        assert(channel_views(wanted@).take(i + 1).drop_last() =~= channel_views(wanted@).take(
            i as int,
        ));
        let spec = match catalog.lookup(wanted[i].1.as_str()) {
            Ok(spec) => spec,
            Err(e) => {
                proof {
                    lemma_resolve_stuck(catalog@, channel_views(wanted@), i + 1);
                }
                return Err(e);
            },
        };
        let ghost old_chans = chans@;
        let item: Channel = (wanted[i].0, spec);
        chans.push(item);
        assert(channel_views(chans@) =~= channel_views(old_chans).push((item.0, item.1@)));
        assert(channel_views(wanted@)[i as int].0 <= 1);
        i = i + 1;
    }
    assert(channel_views(wanted@).take(i as int) =~= channel_views(wanted@));
    if !mesh_fits_width(mesh, nodeid_length) {
        return Err(DiscoveryError::MeshTooLarge(nodeid_length));
    }
    Ok(grid_probes(mesh, nodeid_length, &chans))
}

proof fn lemma_resolve_stuck(cat: Seq<(Seq<char>, Seq<char>)>, names: Seq<(u16, Seq<char>)>, n: int)
    requires
        0 < n <= names.len(),
        resolve_all(cat, names.take(n)) is None,
    ensures
        resolve_all(cat, names) is None,
    decreases names.len() - n,
{
    if n < names.len() {
        assert(names.take(n + 1).drop_last() =~= names.take(n));
        lemma_resolve_stuck(cat, names, n + 1);
    } else {
        assert(names.take(n) =~= names);
    }
}


/// A counter event at ports 1 and 0, in that order.
pub open spec fn both_ports(name: Seq<char>) -> Seq<(u16, Seq<char>)> {
    seq![(1u16, name), (0u16, name)]
}

/// The side of the square grid that the mesh-size search probes: every
/// position that identifiers of a supported width can address.
pub open spec fn grid_side(width: u8) -> u16 {
    pow2(coord_bits(width) as nat) as u16
}

fn both_ports_of(name: &str) -> (r: Vec<Channel>)
    ensures
        channel_views(r@) == both_ports(name@),
        ports_valid(channel_views(r@)),
{
    let r = vec![(1u16, String::from_str(name)), (0u16, String::from_str(name))];
    assert(channel_views(r@) =~= both_ports(name@));
    r
}

/// The probes of the mesh-size search: the routing-node counter, at both
/// ports, at every position of the largest grid that the width addresses.
/// A width that the addressing scheme does not define is refused.
pub fn mesh_probe_events(catalog: &EventCatalog, nodeid_length: u8) -> (r: Result<
    Vec<String>,
    DiscoveryError,
>)
    ensures
        !supported_width(nodeid_length) ==> r == Err::<Vec<String>, DiscoveryError>(
            DiscoveryError::UnsupportedWidth(nodeid_length),
        ),
        supported_width(nodeid_length) ==> (r is Ok <==> resolve_all(
            catalog@,
            both_ports(MXP_NORTH@),
        ) is Some),
        supported_width(nodeid_length) && r is Err ==> r->Err_0 is UnknownEvent,
        r matches Ok(v) ==> views(v@) == grid_args(
            grid_side(nodeid_length) as nat,
            grid_side(nodeid_length) as nat,
            nodeid_length,
            resolve_all(catalog@, both_ports(MXP_NORTH@))->0,
        ),
{
    if !crate::node_id::width_supported(nodeid_length) {
        return Err(DiscoveryError::UnsupportedWidth(nodeid_length));
    }
    proof {
        lemma2_to64();
    }
    let side: u16 = if nodeid_length == 7 {
        4
    } else if nodeid_length == 9 {
        8
    } else {
        16
    };
    counter_probes(catalog, (side, side), nodeid_length, &both_ports_of(MXP_NORTH))
}

/// The largest x coordinate among the events (zero for none).
pub open spec fn max_x(events: Seq<Event>) -> nat
    decreases events.len(),
{
    if events.len() == 0 {
        0
    } else {
        let m = max_x(events.drop_last());
        if events.last().node_id.x > m {
            events.last().node_id.x as nat
        } else {
            m
        }
    }
}

/// The largest y coordinate among the events (zero for none).
pub open spec fn max_y(events: Seq<Event>) -> nat
    decreases events.len(),
{
    if events.len() == 0 {
        0
    } else {
        let m = max_y(events.drop_last());
        if events.last().node_id.y > m {
            events.last().node_id.y as nat
        } else {
            m
        }
    }
}

/// The mesh dimensions that the events of the mesh-size search show: one
/// more than the largest populated x and y. `None` when no position answered,
/// which leaves the mesh unknown.
pub fn mesh_size(events: &Vec<Event>) -> (r: Option<(u16, u16)>)
    requires
        forall|i: int|
            0 <= i < events@.len() ==> #[trigger] events@[i].node_id.x < u16::MAX
                && events@[i].node_id.y < u16::MAX,
    ensures
        events@.len() == 0 ==> r is None,
        events@.len() > 0 ==> r == Some(
            ((max_x(events@) + 1) as u16, (max_y(events@) + 1) as u16),
        ),
{
    if events.len() == 0 {
        return None;
    }
    let mut mx: u16 = 0;
    let mut my: u16 = 0;
    let mut i: usize = 0;
    while i < events.len()
        invariant
            i <= events@.len(),
            mx == max_x(events@.take(i as int)),
            my == max_y(events@.take(i as int)),
            mx < u16::MAX,
            my < u16::MAX,
            forall|i: int|
                0 <= i < events@.len() ==> #[trigger] events@[i].node_id.x < u16::MAX
                    && events@[i].node_id.y < u16::MAX,
        decreases events@.len() - i,
    {
        assert(events@.take(i + 1).drop_last() =~= events@.take(i as int));
        if events[i].node_id.x > mx {
            mx = events[i].node_id.x;
        }
        if events[i].node_id.y > my {
            my = events[i].node_id.y;
        }
        i = i + 1;
    }
    assert(events@.take(i as int) =~= events@);
    Some((mx + 1, my + 1))
}

/// The event names of the node-placement search: the cache hub, the I/O
/// hub and the hybrid request node, in that order.
pub open spec fn node_event_names() -> Seq<Seq<char>> {
    seq![HNF_FULL@, HNI_BACKPRESSURE@, RNID_HYBRID@]
}

/// The probe batches of the node-placement search: for each of its three
/// counters in turn, that counter at both ports of every node of the mesh.
pub fn node_probe_batches(catalog: &EventCatalog, mesh: (u16, u16), nodeid_length: u8) -> (r:
    Result<Vec<Vec<String>>, DiscoveryError>)
    ensures
        r is Ok <==> supported_width(nodeid_length) && mesh_fits(mesh, nodeid_length) && forall|k: int|
            0 <= k < 3 ==> #[trigger] resolve_all(catalog@, both_ports(node_event_names()[k]))
                is Some,
        r matches Ok(b) ==> b@.len() == 3 && forall|k: int|
            0 <= k < 3 ==> #[trigger] views(b@[k]@) == grid_args(
                mesh.0 as nat,
                mesh.1 as nat,
                nodeid_length,
                resolve_all(catalog@, both_ports(node_event_names()[k]))->0,
            ),
{
    let names: Vec<&'static str> = vec![HNF_FULL, HNI_BACKPRESSURE, RNID_HYBRID];
    assert(names@.len() == 3);
    let mut batches: Vec<Vec<String>> = Vec::new();
    let mut k: usize = 0;
    while k < 3
        invariant
            k <= 3,
            names@ == seq![HNF_FULL, HNI_BACKPRESSURE, RNID_HYBRID],
            batches@.len() == k,
            k > 0 ==> mesh_fits(mesh, nodeid_length) && supported_width(nodeid_length),
            forall|j: int|
                0 <= j < k ==> #[trigger] resolve_all(catalog@, both_ports(node_event_names()[j]))
                    is Some,
            forall|j: int|
                0 <= j < k ==> #[trigger] views(batches@[j]@) == grid_args(
                    mesh.0 as nat,
                    mesh.1 as nat,
                    nodeid_length,
                    resolve_all(catalog@, both_ports(node_event_names()[j]))->0,
                ),
        decreases 3 - k,
    {
        assert(names@[k as int]@ == node_event_names()[k as int]);
        match counter_probes(catalog, mesh, nodeid_length, &both_ports_of(names[k])) {
            Ok(batch) => {
                batches.push(batch);
            },
            Err(e) => {
                return Err(e);
            },
        }
        k = k + 1;
    }
    Ok(batches)
}


/// The counters of the core-placement search: data flits out of device
/// ports 0 and 1, both read through port 0 of each node.
pub open spec fn core_channels() -> Seq<(u16, Seq<char>)> {
    seq![(0u16, MXP_PORT0@), (0u16, MXP_PORT1@)]
}

/// The counters of the edge-adjacency search: data flits out of each of the
/// four mesh links, north, south, east and west.
pub open spec fn edge_channels() -> Seq<(u16, Seq<char>)> {
    seq![(0u16, MXP_NORTH@), (0u16, MXP_SOUTH@), (0u16, MXP_EAST@), (0u16, MXP_WEST@)]
}

/// The probes of the core-placement search, at every node of the mesh.
pub fn core_probe_events(catalog: &EventCatalog, mesh: (u16, u16), nodeid_length: u8) -> (r:
    Result<Vec<String>, DiscoveryError>)
    ensures
        r is Ok <==> supported_width(nodeid_length) && resolve_all(catalog@, core_channels()) is Some && mesh_fits(
            mesh,
            nodeid_length,
        ),
        r matches Ok(v) ==> views(v@) == grid_args(
            mesh.0 as nat,
            mesh.1 as nat,
            nodeid_length,
            resolve_all(catalog@, core_channels())->0,
        ),
{
    let wanted = vec![(0u16, String::from_str(MXP_PORT0)), (0u16, String::from_str(MXP_PORT1))];
    assert(channel_views(wanted@) =~= core_channels());
    counter_probes(catalog, mesh, nodeid_length, &wanted)
}

/// The probes of the edge-adjacency search, at every node of the mesh.
pub fn edge_probe_events(catalog: &EventCatalog, mesh: (u16, u16), nodeid_length: u8) -> (r:
    Result<Vec<String>, DiscoveryError>)
    ensures
        r is Ok <==> supported_width(nodeid_length) && resolve_all(catalog@, edge_channels()) is Some && mesh_fits(
            mesh,
            nodeid_length,
        ),
        r matches Ok(v) ==> views(v@) == grid_args(
            mesh.0 as nat,
            mesh.1 as nat,
            nodeid_length,
            resolve_all(catalog@, edge_channels())->0,
        ),
{
    let wanted = vec![
        (0u16, String::from_str(MXP_NORTH)),
        (0u16, String::from_str(MXP_SOUTH)),
        (0u16, String::from_str(MXP_EAST)),
        (0u16, String::from_str(MXP_WEST)),
    ];
    assert(channel_views(wanted@) =~= edge_channels());
    counter_probes(catalog, mesh, nodeid_length, &wanted)
}

/// One run of the benchmark under observation: the name its events are
/// filed under, and the arguments that follow the benchmark's executable.
#[derive(Debug)]
pub struct ProbeRun {
    pub label: String,
    pub args: Vec<String>,
}

fn copy_strings(v: &Vec<String>) -> (r: Vec<String>)
    ensures
        views(r@) == views(v@),
{
    let mut r: Vec<String> = Vec::new();
    let mut i: usize = 0;
    while i < v.len()
        invariant
            i <= v@.len(),
            views(r@) == views(v@.take(i as int)),
        decreases v@.len() - i,
    {
        let ghost before = r@;
        let s = v[i].clone();
        r.push(s);
        assert(r@ == before.push(s));
        assert(views(v@.take(i + 1)) =~= views(v@.take(i as int)).push(s@));
        i = i + 1;
        assert(views(r@) =~= views(v@.take(i as int)));
    }
    assert(v@.take(i as int) =~= v@);
    r
}

/// How many clusters of `cores_per_dsu` cores `num_procs` cores make.
pub open spec fn cluster_count(num_procs: u32, cores_per_dsu: u16) -> int {
    num_procs as int / cores_per_dsu as int
}

/// The label of a core-placement run between core 0 and `target`.
pub open spec fn core_label(target: nat) -> Seq<char> {
    "cores_0_"@ + dec_chars(target)
}

/// The arguments of a core-placement run between core 0 and `target`.
pub open spec fn core_args(bench_args: Seq<Seq<char>>, target: nat) -> Seq<Seq<char>> {
    bench_args + seq!["--cores"@, "0,"@ + dec_chars(target)]
}

/// The runs of the core-placement search, one per cluster after the first:
/// the k-th pairs core 0 with the first core of cluster k + 1, with
/// `cores_per_dsu` cores to a cluster and `num_procs` cores in all.
pub fn core_runs(num_procs: u32, cores_per_dsu: u16, benchmark_args: &Vec<String>) -> (r: Result<
    Vec<ProbeRun>,
    DiscoveryError,
>)
    ensures
        r is Err <==> cores_per_dsu == 0,
        r matches Err(e) ==> e == DiscoveryError::NoCoresPerCluster,
        r matches Ok(v) ==> {
            &&& v@.len() + 1 == (if cluster_count(num_procs, cores_per_dsu) > 0 {
                cluster_count(num_procs, cores_per_dsu)
            } else {
                1
            })
            &&& forall|k: int|
                0 <= k < v@.len() ==> {
                    &&& #[trigger] v@[k].label@ == core_label((cores_per_dsu * (k + 1)) as nat)
                    &&& views(v@[k].args@) == core_args(
                        views(benchmark_args@),
                        (cores_per_dsu * (k + 1)) as nat,
                    )
                }
        },
{
    if cores_per_dsu == 0 {
        return Err(DiscoveryError::NoCoresPerCluster);
    }
    let num_dsus: u32 = num_procs / (cores_per_dsu as u32);
    let mut runs: Vec<ProbeRun> = Vec::new();
    let mut n: u32 = 1;
    while n < num_dsus
        invariant
            cores_per_dsu > 0,
            num_dsus == cluster_count(num_procs, cores_per_dsu),
            1 <= n,
            n <= num_dsus || n == 1,
            runs@.len() + 1 == n,
            forall|k: int|
                0 <= k < runs@.len() ==> {
                    &&& #[trigger] runs@[k].label@ == core_label((cores_per_dsu * (k + 1)) as nat)
                    &&& views(runs@[k].args@) == core_args(
                        views(benchmark_args@),
                        (cores_per_dsu * (k + 1)) as nat,
                    )
                },
        decreases num_dsus - n,
    {
        assert((cores_per_dsu as u64) * (n as u64) <= 0xffff * 0xffff_ffffu64) by (nonlinear_arith)
            requires
                cores_per_dsu <= 0xffff,
                n <= 0xffff_ffffu32,
        ;
        let target: u64 = (cores_per_dsu as u64) * (n as u64);
        let mut label = String::from_str("cores_0_");
        crate::digits::push_decimal(&mut label, target);
        let mut pair = String::from_str("0,");
        crate::digits::push_decimal(&mut pair, target);
        let mut args = copy_strings(benchmark_args);
        args.push(String::from_str("--cores"));
        args.push(pair);
        assert(views(args@) =~= core_args(views(benchmark_args@), target as nat));
        runs.push(ProbeRun { label, args });
        n = n + 1;
    }
    assert(runs@.len() + 1 == (if num_dsus > 0 { num_dsus as int } else { 1 }));
    Ok(runs)
}


/// How many core ids apart two clusters on one routing node are under a
/// NUMA grouping. These are the figures of one platform: treat them as
/// configuration.
pub open spec fn hub_separation(numa: NUMAConfig) -> nat {
    match numa {
        NUMAConfig::Monolithic => 64,
        NUMAConfig::Hemisphere => 32,
        NUMAConfig::Quadrant => 16,
    }
}

/// How many core ids apart two clusters on one routing node are under a
/// NUMA grouping.
pub fn hub_core_separation(numa: NUMAConfig) -> (r: u32)
    ensures
        r == hub_separation(numa),
{
    match numa {
        NUMAConfig::Monolithic => 64,
        NUMAConfig::Hemisphere => 32,
        NUMAConfig::Quadrant => 16,
    }
}

/// Whether clusters x and y (x < y) are `distance` clusters apart, and so
/// sit on one routing node.
pub open spec fn shares_hub(x: int, y: int, distance: int) -> bool {
    y >= distance && x == y - distance
}

/// The pairs (x, y) with x < y < n that do not share a routing node, by y.
pub open spec fn row_pairs(x: int, n: int, distance: int) -> Seq<(int, int)>
    decreases n - x,
{
    if n <= x + 1 {
        Seq::empty()
    } else {
        let prev = row_pairs(x, n - 1, distance);
        if shares_hub(x, n - 1, distance) {
            prev
        } else {
            prev.push((x, n - 1))
        }
    }
}

/// The pairs of clusters below `n` whose smaller member is below `m`, and
/// that do not share a routing node: by x, then by y.
pub open spec fn pair_list(m: int, n: int, distance: int) -> Seq<(int, int)>
    decreases m,
{
    if m <= 0 {
        Seq::empty()
    } else {
        pair_list(m - 1, n, distance) + row_pairs(m - 1, n, distance)
    }
}

pub open spec fn pair_views(v: Seq<(u32, u32)>) -> Seq<(int, int)> {
    v.map_values(|p: (u32, u32)| (p.0 as int, p.1 as int))
}

/// The cluster pairs that the edge-adjacency search measures: every
/// unordered pair of the `num_clusters` clusters except those `distance`
/// clusters apart, ordered by the smaller cluster, then the larger.
pub fn edge_pairs(num_clusters: u32, distance: u32) -> (r: Vec<(u32, u32)>)
    ensures
        pair_views(r@) == pair_list(num_clusters as int, num_clusters as int, distance as int),
{
    let mut out: Vec<(u32, u32)> = Vec::new();
    let mut x: u32 = 0;
    while x < num_clusters
        invariant
            x <= num_clusters,
            pair_views(out@) == pair_list(x as int, num_clusters as int, distance as int),
        decreases num_clusters - x,
    {
        let mut y: u32 = x + 1;
        while y < num_clusters
            invariant
                x < num_clusters,
                x < y <= num_clusters || y == x + 1,
                pair_views(out@) == pair_list(x as int, num_clusters as int, distance as int)
                    + row_pairs(x as int, y as int, distance as int),
            decreases num_clusters - y,
        {
            let ghost before = out@;
            if !(y >= distance && x == y - distance) {
                out.push((x, y));
                assert(pair_views(out@) =~= pair_views(before).push((x as int, y as int)));
            }
            y = y + 1;
        }
        assert(row_pairs(x as int, num_clusters as int, distance as int) == row_pairs(
            x as int,
            y as int,
            distance as int,
        ));
        x = x + 1;
    }
    out
}

proof fn lemma_row_members(x: int, m: int, distance: int, a: int, b: int)
    ensures
        row_pairs(x, m, distance).contains((a, b)) <==> a == x && x < b < m && !shares_hub(
            x,
            b,
            distance,
        ),
    decreases m - x,
{
    broadcast use vstd::seq_lib::lemma_seq_contains_after_push, vstd::seq_lib::lemma_seq_empty_contains_nothing;

    if m > x + 1 {
        lemma_row_members(x, m - 1, distance, a, b);
    }
}

proof fn lemma_pair_list_members(m: int, n: int, distance: int, a: int, b: int)
    ensures
        pair_list(m, n, distance).contains((a, b)) <==> 0 <= a < m && a < b < n && !shares_hub(
            a,
            b,
            distance,
        ),
    decreases m,
{
    broadcast use vstd::seq_lib::lemma_seq_concat_contains_all_elements, vstd::seq_lib::lemma_seq_empty_contains_nothing;

    if m > 0 {
        lemma_pair_list_members(m - 1, n, distance, a, b);
        lemma_row_members(m - 1, n, distance, a, b);
    }
}

/// The edge-adjacency search measures every unordered pair of the `n`
/// clusters except exactly the pairs `distance` clusters apart.
pub proof fn lemma_edge_pairs_members(n: int, distance: int, x: int, y: int)
    requires
        distance >= 0,
    ensures
        pair_list(n, n, distance).contains((x, y)) <==> 0 <= x < y < n && y - x != distance,
{
    lemma_pair_list_members(n, n, distance, x, y);
}

/// The label of an edge-adjacency run between cores `a` and `b`.
pub open spec fn edge_label(a: nat, b: nat) -> Seq<char> {
    "edges_"@ + dec_chars(a) + "_"@ + dec_chars(b)
}

/// The arguments of an edge-adjacency run between cores `a` and `b`: a
/// longer stimulus than the benchmark's default, for a sustained signal.
pub open spec fn edge_args(a: nat, b: nat) -> Seq<Seq<char>> {
    seq![
        "--num-samples"@,
        "2500"@,
        "--num-iterations"@,
        "25000"@,
        "--cores"@,
        dec_chars(a) + ","@ + dec_chars(b),
    ]
}

/// The runs of the edge-adjacency search: one per cluster pair of
/// `edge_pairs`, between the first cores of the two clusters.
pub fn edge_runs(num_procs: u32, cores_per_dsu: u16, numa: NUMAConfig) -> (r: Result<
    Vec<ProbeRun>,
    DiscoveryError,
>)
    ensures
        r is Err <==> cores_per_dsu == 0,
        r matches Err(e) ==> e == DiscoveryError::NoCoresPerCluster,
        r matches Ok(v) ==> {
            let pairs = pair_list(
                cluster_count(num_procs, cores_per_dsu),
                cluster_count(num_procs, cores_per_dsu),
                hub_separation(numa) as int / cores_per_dsu as int,
            );
            &&& v@.len() == pairs.len()
            &&& forall|k: int|
                0 <= k < v@.len() ==> {
                    &&& #[trigger] v@[k].label@ == edge_label(
                        (cores_per_dsu * pairs[k].0) as nat,
                        (cores_per_dsu * pairs[k].1) as nat,
                    )
                    &&& views(v@[k].args@) == edge_args(
                        (cores_per_dsu * pairs[k].0) as nat,
                        (cores_per_dsu * pairs[k].1) as nat,
                    )
                }
        },
{
    if cores_per_dsu == 0 {
        return Err(DiscoveryError::NoCoresPerCluster);
    }
    let num_dsus: u32 = num_procs / (cores_per_dsu as u32);
    let distance: u32 = hub_core_separation(numa) / (cores_per_dsu as u32);
    let pairs = edge_pairs(num_dsus, distance);
    let ghost spairs = pair_views(pairs@);
    let mut runs: Vec<ProbeRun> = Vec::new();
    let mut k: usize = 0;
    while k < pairs.len()
        invariant
            k <= pairs@.len(),
            cores_per_dsu > 0,
            spairs == pair_views(pairs@),
            forall|j: int|
                0 <= j < runs@.len() ==> {
                    &&& #[trigger] runs@[j].label@ == edge_label(
                        (cores_per_dsu * spairs[j].0) as nat,
                        (cores_per_dsu * spairs[j].1) as nat,
                    )
                    &&& views(runs@[j].args@) == edge_args(
                        (cores_per_dsu * spairs[j].0) as nat,
                        (cores_per_dsu * spairs[j].1) as nat,
                    )
                },
            runs@.len() == k,
        decreases pairs@.len() - k,
    {
        let (x, y) = pairs[k];
        assert(spairs[k as int] == (x as int, y as int));
        assert((cores_per_dsu as u64) * (x as u64) <= 0xffff * 0xffff_ffffu64) by (nonlinear_arith)
            requires
                cores_per_dsu <= 0xffff,
                x <= 0xffff_ffffu32,
        ;
        assert((cores_per_dsu as u64) * (y as u64) <= 0xffff * 0xffff_ffffu64) by (nonlinear_arith)
            requires
                cores_per_dsu <= 0xffff,
                y <= 0xffff_ffffu32,
        ;
        let a: u64 = (cores_per_dsu as u64) * (x as u64);
        let b: u64 = (cores_per_dsu as u64) * (y as u64);
        let mut label = String::from_str("edges_");
        crate::digits::push_decimal(&mut label, a);
        label.append("_");
        crate::digits::push_decimal(&mut label, b);
        let mut pair = String::new();
        crate::digits::push_decimal(&mut pair, a);
        pair.append(",");
        crate::digits::push_decimal(&mut pair, b);
        let args = vec![
            String::from_str("--num-samples"),
            String::from_str("2500"),
            String::from_str("--num-iterations"),
            String::from_str("25000"),
            String::from_str("--cores"),
            pair,
        ];
        assert(views(args@) =~= edge_args(a as nat, b as nat));
        assert(label@ =~= edge_label(a as nat, b as nat));
        runs.push(ProbeRun { label, args });
        k = k + 1;
    }
    Ok(runs)
}

} // verus!
