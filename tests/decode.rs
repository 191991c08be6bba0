use cmn_topology::decode::perf_to_event_vec;
use cmn_topology::event::{Count, Event};
use cmn_topology::node_id::NodeID;
use cmn_topology::topology::mesh_size;

fn record(count: &str, x: u16, y: u16, port: u16) -> String {
    let id = NodeID { x, y, port, nodeid_length: 9 }.to_nodeid();
    format!("{count};;arm_cmn_0/type=0x5,eventid=0x1,bynodeid=0x1,nodeid={id:#x}/;1001234;100.00;;")
}

#[test]
fn unsupported_line_is_dropped_numeric_kept() {
    let text = format!("{}\n{}\n", record("<not supported>", 0, 1, 0), record("1234", 1, 2, 1));
    let events = perf_to_event_vec(&text, 9);
    assert_eq!(events.len(), 1);
    assert_eq!(
        events[0],
        Event {
            cmn_idx: 0,
            event_type: 5,
            event_id: 1,
            node_id: NodeID { x: 1, y: 2, port: 1, nodeid_length: 9 },
            counts: Count::Counted(1234),
        }
    );
}

#[test]
fn noise_line_between_records_is_skipped() {
    let text = format!(
        "{}\n Performance counter stats for 'sleep .01':\n{}\n\n       0.011 seconds time elapsed\n",
        record("7", 0, 0, 0),
        record("9", 2, 3, 0)
    );
    let events = perf_to_event_vec(&text, 9);
    assert_eq!(events.len(), 2);
    assert_eq!(events[0].counts, Count::Counted(7));
    assert_eq!((events[0].node_id.x, events[0].node_id.y), (0, 0));
    assert_eq!(events[1].counts, Count::Counted(9));
    assert_eq!((events[1].node_id.x, events[1].node_id.y), (2, 3));
}

#[test]
fn not_counted_reads_as_zero() {
    let events = perf_to_event_vec(&record("<not counted>", 3, 1, 0), 9);
    assert_eq!(events.len(), 1);
    assert_eq!(events[0].counts, Count::Counted(0));
}

#[test]
fn fields_read_in_hex() {
    let line = "42;;arm_cmn_1/type=0xa,eventid=0x1f,bynodeid=0x1,nodeid=0x68/";
    let events = perf_to_event_vec(line, 9);
    assert_eq!(events.len(), 1);
    let e = events[0];
    assert_eq!((e.cmn_idx, e.event_type, e.event_id), (1, 0xa, 0x1f));
    assert_eq!((e.node_id.x, e.node_id.y, e.node_id.port), (1, 5, 0));
    assert_eq!(e.counts, Count::Counted(42));
}

#[test]
fn malformed_records_are_skipped() {
    let lines = [
        "12;;arm_cmn_0/type=0x5,eventid=0x1,bynodeid=0x1,nodeid=0x8",
        "12;;arm_cmn_0/type=0xzz,eventid=0x1,bynodeid=0x1,nodeid=0x8/",
        "12;;arm_cmn_0/type=0x100,eventid=0x1,bynodeid=0x1,nodeid=0x8/",
        "99999999999999999999999;;arm_cmn_0/type=0x5,eventid=0x1,bynodeid=0x1,nodeid=0x8/",
        "12;arm_cmn_0/type=0x5,eventid=0x1,bynodeid=0x1,nodeid=0x8/",
        "",
    ];
    for l in lines {
        assert!(perf_to_event_vec(l, 9).is_empty(), "{l}");
    }
    assert!(perf_to_event_vec("", 9).is_empty());
}

#[test]
fn largest_count_is_kept() {
    let line = "18446744073709551615;;arm_cmn_0/type=0x5,eventid=0x1,bynodeid=0x1,nodeid=0x8/";
    assert_eq!(perf_to_event_vec(line, 9)[0].counts, Count::Counted(u64::MAX));
}

#[test]
fn mesh_of_four_by_four() {
    let mut text = String::new();
    for x in 0..8 {
        for y in 0..8 {
            for port in [1, 0] {
                let count = if x < 4 && y < 4 { "<not counted>" } else { "<not supported>" };
                text.push_str(&record(count, x, y, port));
                text.push('\n');
            }
        }
    }
    let events = perf_to_event_vec(&text, 9);
    assert_eq!(events.len(), 32);
    assert_eq!(mesh_size(&events), Some((4, 4)));
}

#[test]
fn mesh_of_nothing_is_unknown() {
    assert_eq!(mesh_size(&Vec::new()), None);
}

#[test]
fn one_line_records() {
    let line: Vec<char> = "<not supported>;;arm_cmn_0/type=0x5,eventid=0x1,bynodeid=0x1,nodeid=0x0x8/x"
        .chars()
        .collect();
    let e = Event::from_line(&line, 9).unwrap();
    assert_eq!(e.counts, Count::Unsupported);
    assert_eq!((e.node_id.x, e.node_id.y), (0, 1));
    let upper: Vec<char> = "5;;arm_cmn_0/type=0xA,eventid=0xFF,bynodeid=0x1,nodeid=0x8/".chars().collect();
    let e = Event::from_line(&upper, 9).unwrap();
    assert_eq!((e.event_type, e.event_id), (10, 255));
    let summary: Vec<char> = "       0.011 seconds time elapsed".chars().collect();
    assert_eq!(Event::from_line(&summary, 9), None);
}
