use cmn_topology::error::DiscoveryError;
use cmn_topology::launch::mesh_event_probes;
use cmn_topology::probe::{
    events_to_perf_events, get_event_string, grid_probes, parse_selector, resolve_selectors,
    EventCatalog,
};
use cmn_topology::topology::{
    core_probe_events, counter_probes, edge_probe_events, mesh_probe_events, node_probe_batches,
    MXP_NORTH,
};

fn catalog(names: &[&str]) -> EventCatalog {
    EventCatalog {
        entries: names
            .iter()
            .enumerate()
            .map(|(i, n)| (n.to_string(), format!("type=0x5,eventid={:#x}", i + 1)))
            .collect(),
    }
}

#[test]
fn probe_string_shape() {
    assert_eq!(
        get_event_string(0, 1, 2, 1, 9, "type=0x5,eventid=0x1"),
        "arm_cmn_0/type=0x5,eventid=0x1,bynodeid=0x1,nodeid=0x54/"
    );
    assert_eq!(
        get_event_string(12, 0, 0, 0, 9, "type=0x5,eventid=0x1"),
        "arm_cmn_12/type=0x5,eventid=0x1,bynodeid=0x1,nodeid=0x0/"
    );
    assert_eq!(
        get_event_string(0, 15, 15, 1, 11, "e"),
        "arm_cmn_0/e,bynodeid=0x1,nodeid=0x7fc/"
    );
}

#[test]
fn catalog_lookup() {
    let cat = catalog(&["a", "b", "a"]);
    assert_eq!(cat.lookup("a").unwrap(), "type=0x5,eventid=0x1");
    assert_eq!(cat.lookup("b").unwrap(), "type=0x5,eventid=0x2");
    assert_eq!(cat.lookup("c"), Err(DiscoveryError::UnknownEvent("c".to_string())));
}

#[test]
fn selectors() {
    assert_eq!(parse_selector("foo"), (vec![0], "foo".to_string()));
    assert_eq!(parse_selector("1:foo"), (vec![1], "foo".to_string()));
    assert_eq!(parse_selector("0:foo"), (vec![0], "foo".to_string()));
    assert_eq!(parse_selector("01:foo"), (vec![0, 1], "foo".to_string()));
    assert_eq!(parse_selector("10:foo:bar"), (vec![0, 1], "foo".to_string()));
    assert_eq!(parse_selector("2:foo"), (vec![], "foo".to_string()));
}

#[test]
fn perf_events_at_one_node() {
    let cat = catalog(&["foo", "bar"]);
    let events = vec!["01:foo".to_string(), "bar".to_string()];
    let args = events_to_perf_events(events, 1, 2, 9, &cat).unwrap();
    assert_eq!(
        args,
        vec![
            "-e",
            "arm_cmn_0/type=0x5,eventid=0x1,bynodeid=0x1,nodeid=0x50/",
            "-e",
            "arm_cmn_0/type=0x5,eventid=0x1,bynodeid=0x1,nodeid=0x54/",
            "-e",
            "arm_cmn_0/type=0x5,eventid=0x2,bynodeid=0x1,nodeid=0x50/",
        ]
    );
    // a selector that names no port gives no probe and is not looked up
    let none = events_to_perf_events(vec!["2:hnf_seq_full".to_string()], 0, 0, 9, &cat);
    assert_eq!(none, Ok(Vec::new()));
    let missing = events_to_perf_events(vec!["baz".to_string()], 0, 0, 9, &cat);
    assert_eq!(missing, Err(DiscoveryError::UnknownEvent("baz".to_string())));
    assert_eq!(resolve_selectors(&vec!["7:foo".to_string()], &cat).unwrap().len(), 0);
}

#[test]
fn grid_order_is_x_then_y_then_channel() {
    let chans = vec![(1u16, "p".to_string()), (0u16, "q".to_string())];
    let args = grid_probes((2, 3), 9, &chans);
    assert_eq!(args.len(), 2 * 2 * 3 * 2);
    assert_eq!(args[0], "-e");
    assert_eq!(args[1], "arm_cmn_0/p,bynodeid=0x1,nodeid=0x4/");
    assert_eq!(args[3], "arm_cmn_0/q,bynodeid=0x1,nodeid=0x0/");
    // node (0, 1)
    assert_eq!(args[5], "arm_cmn_0/p,bynodeid=0x1,nodeid=0xc/");
    // node (1, 0), after three nodes of column 0
    assert_eq!(args[13], "arm_cmn_0/p,bynodeid=0x1,nodeid=0x44/");
}

#[test]
fn mesh_search_probes() {
    let cat = catalog(&[MXP_NORTH]);
    assert_eq!(mesh_probe_events(&cat, 9).unwrap().len(), 8 * 8 * 2 * 2);
    assert_eq!(mesh_probe_events(&cat, 7).unwrap().len(), 4 * 4 * 2 * 2);
    assert_eq!(mesh_probe_events(&cat, 11).unwrap().len(), 16 * 16 * 2 * 2);
    assert_eq!(mesh_probe_events(&cat, 8), Err(DiscoveryError::UnsupportedWidth(8)));
    assert_eq!(
        mesh_probe_events(&catalog(&[]), 9),
        Err(DiscoveryError::UnknownEvent(MXP_NORTH.to_string()))
    );
}

#[test]
fn mesh_too_large_for_width() {
    let cat = catalog(&["foo"]);
    let wanted = vec![(0u16, "foo".to_string())];
    assert!(counter_probes(&cat, (128, 128), 7, &wanted).is_ok());
    assert_eq!(counter_probes(&cat, (129, 1), 7, &wanted), Err(DiscoveryError::MeshTooLarge(7)));
    assert_eq!(counter_probes(&cat, (1, 1), 8, &wanted), Err(DiscoveryError::UnsupportedWidth(8)));
    assert_eq!(counter_probes(&cat, (1, 1), 16, &wanted), Err(DiscoveryError::UnsupportedWidth(16)));
}

#[test]
fn search_batches() {
    let cat = catalog(&[
        "hnf_seq_full",
        "hni_arready_no_arvalid",
        "rnid_rdb_hybrid",
        "mxp_p0_dat_txflit_valid",
        "mxp_p1_dat_txflit_valid",
        "mxp_n_dat_txflit_valid",
        "mxp_s_dat_txflit_valid",
        "mxp_e_dat_txflit_valid",
        "mxp_w_dat_txflit_valid",
    ]);
    let batches = node_probe_batches(&cat, (3, 2), 9).unwrap();
    assert_eq!(batches.len(), 3);
    assert_eq!(batches[1][1], "arm_cmn_0/type=0x5,eventid=0x2,bynodeid=0x1,nodeid=0x4/");
    let cores = core_probe_events(&cat, (3, 2), 9).unwrap();
    assert_eq!(cores.len(), 3 * 2 * 2 * 2);
    assert_eq!(cores[3], "arm_cmn_0/type=0x5,eventid=0x5,bynodeid=0x1,nodeid=0x0/");
    let edges = edge_probe_events(&cat, (3, 2), 9).unwrap();
    assert_eq!(edges.len(), 3 * 2 * 4 * 2);
    assert_eq!(edges[7], "arm_cmn_0/type=0x5,eventid=0x9,bynodeid=0x1,nodeid=0x0/");
    assert!(node_probe_batches(&catalog(&["hnf_seq_full"]), (3, 2), 9).is_err());
    assert_eq!(node_probe_batches(&cat, (3, 2), 8), Err(DiscoveryError::UnsupportedWidth(8)));
    assert_eq!(core_probe_events(&cat, (3, 2), 10), Err(DiscoveryError::UnsupportedWidth(10)));
    assert_eq!(edge_probe_events(&cat, (3, 2), 12), Err(DiscoveryError::UnsupportedWidth(12)));
    let sel = vec!["mxp_n_dat_txflit_valid".to_string()];
    assert_eq!(mesh_event_probes(&cat, (2, 2), 8, &sel), Err(DiscoveryError::UnsupportedWidth(8)));
    assert_eq!(mesh_event_probes(&cat, (2, 2), 9, &sel).unwrap().len(), 2 * 2 * 2);
}
