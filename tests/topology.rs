use cmn_topology::args::NUMAConfig;
use cmn_topology::cpuinfo::processor_count;
use cmn_topology::error::DiscoveryError;
use cmn_topology::topology::{core_runs, edge_pairs, edge_runs, hub_core_separation};

#[test]
fn edge_pairs_skip_shared_hubs() {
    // four clusters, full-chip grouping at 32 cores per cluster: 64 / 32 = 2
    let distance = hub_core_separation(NUMAConfig::Monolithic) / 32;
    assert_eq!(distance, 2);
    let pairs = edge_pairs(4, distance);
    assert_eq!(pairs, vec![(0, 1), (0, 3), (1, 2), (2, 3)]);
    for x in 0..4u32 {
        for y in (x + 1)..4 {
            assert_eq!(pairs.contains(&(x, y)), y - x != 2);
        }
    }
}

#[test]
fn edge_pairs_edge_cases() {
    assert!(edge_pairs(0, 2).is_empty());
    assert!(edge_pairs(1, 2).is_empty());
    assert_eq!(edge_pairs(3, 0).len(), 3);
    assert_eq!(hub_core_separation(NUMAConfig::Hemisphere), 32);
    assert_eq!(hub_core_separation(NUMAConfig::Quadrant), 16);
}

#[test]
fn edge_runs_between_first_cores() {
    let runs = edge_runs(128, 32, NUMAConfig::Monolithic).unwrap();
    let labels: Vec<&str> = runs.iter().map(|r| r.label.as_str()).collect();
    assert_eq!(labels, vec!["edges_0_32", "edges_0_96", "edges_32_64", "edges_64_96"]);
    assert_eq!(
        runs[1].args,
        vec!["--num-samples", "2500", "--num-iterations", "25000", "--cores", "0,96"]
    );
    assert_eq!(edge_runs(8, 0, NUMAConfig::Quadrant).unwrap_err(), DiscoveryError::NoCoresPerCluster);
}

#[test]
fn core_runs_pair_core_zero_with_each_cluster() {
    let bench = vec!["--num-samples".to_string(), "10".to_string()];
    let runs = core_runs(8, 2, &bench).unwrap();
    assert_eq!(runs.len(), 3);
    assert_eq!(runs[0].label, "cores_0_2");
    assert_eq!(runs[2].label, "cores_0_6");
    assert_eq!(runs[2].args, vec!["--num-samples", "10", "--cores", "0,6"]);
    assert!(core_runs(1, 2, &bench).unwrap().is_empty());
    assert!(core_runs(2, 2, &bench).unwrap().is_empty());
    assert_eq!(core_runs(8, 0, &bench).unwrap_err(), DiscoveryError::NoCoresPerCluster);
}

#[test]
fn processor_listing() {
    let listing = "processor\t: 0\nBogoMIPS\t: 50.00\n\nprocessor\t: 1\nmodel name : x\nprocessor\t: 79\n";
    assert_eq!(processor_count(listing), Some(80));
    assert_eq!(processor_count("processor : 3"), Some(4));
    assert_eq!(processor_count("processor: 5 \r\nprocessor:2\n"), Some(6));
    assert_eq!(processor_count("model name : x\n"), None);
    assert_eq!(processor_count(""), None);
    assert_eq!(processor_count("processor : x\n"), None);
}
