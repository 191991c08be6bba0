//! Probe construction: the counter specifiers handed to the counter tool,
//! one per node, port and event.
use vstd::prelude::*;
use vstd::arithmetic::power2::pow2;
use crate::digits::{dec_chars, hex_chars, push_decimal, push_hex};
use crate::node_id::{NodeID, encode, supported_width};
use crate::error::DiscoveryError;

verus! {

/// The views of a sequence of strings.
pub open spec fn views(v: Seq<String>) -> Seq<Seq<char>> {
    v.map_values(|s: String| s@)
}

/// The probe for one counter of one node: the mesh instance, the event's
/// specifier, the select-by-node flag and the node identifier in hex.
pub open spec fn probe_text(cmn_idx: u8, node: u16, event: Seq<char>) -> Seq<char> {
    "arm_cmn_"@ + dec_chars(cmn_idx as nat) + "/"@ + event + ",bynodeid=0x1,nodeid=0x"@
        + hex_chars(node as nat) + "/"@
}

/// Builds the probe for the counter `event` (a specifier from the catalog)
/// at node (x, y) and the given port.
pub fn get_event_string(cmn_idx: u8, x: u16, y: u16, port: u16, nodeid_length: u8, event: &str) -> (r:
    String)
    requires
        supported_width(nodeid_length),
        (x as int) < pow2(nodeid_length as nat),
        (y as int) < pow2(nodeid_length as nat),
        port <= 1,
    ensures
        r@ == probe_text(cmn_idx, encode(x, y, port, nodeid_length), event@),
{
    let node = NodeID { x, y, port, nodeid_length }.to_nodeid();
    let mut r = String::from_str("arm_cmn_");
    push_decimal(&mut r, cmn_idx as u64);
    r.append("/");
    r.append(event);
    r.append(",bynodeid=0x1,nodeid=0x");
    push_hex(&mut r, node as u64);
    r.append("/");
    r
}

/// A counter to attach at every node: the port, and the event's specifier.
pub type Channel = (u16, String);

pub open spec fn channel_views(chans: Seq<Channel>) -> Seq<(u16, Seq<char>)> {
    chans.map_values(|c: Channel| (c.0, c.1@))
}

/// The tool arguments for the first `k` channels at node (x, y): `-e` and
/// the probe, for each channel in order.
pub open spec fn node_args(x: u16, y: u16, width: u8, chans: Seq<(u16, Seq<char>)>, k: nat) -> Seq<
    Seq<char>,
>
    decreases k,
{
    if k == 0 {
        Seq::empty()
    } else {
        let c = chans[k - 1];
        node_args(x, y, width, chans, (k - 1) as nat) + seq![
            "-e"@,
            probe_text(0, encode(x, y, c.0, width), c.1),
        ]
    }
}

/// The tool arguments for nodes (x, 0) .. (x, n - 1), every channel at each.
pub open spec fn column_args(x: u16, n: nat, width: u8, chans: Seq<(u16, Seq<char>)>) -> Seq<
    Seq<char>,
>
    decreases n,
{
    if n == 0 {
        Seq::empty()
    } else {
        column_args(x, (n - 1) as nat, width, chans) + node_args(
            x,
            (n - 1) as u16,
            width,
            chans,
            chans.len(),
        )
    }
}

/// The tool arguments for every node of the first `m` columns of a grid with
/// `n` nodes per column: x outermost, then y, then channel.
pub open spec fn grid_args(m: nat, n: nat, width: u8, chans: Seq<(u16, Seq<char>)>) -> Seq<
    Seq<char>,
>
    decreases m,
{
    if m == 0 {
        Seq::empty()
    } else {
        grid_args((m - 1) as nat, n, width, chans) + column_args((m - 1) as u16, n, width, chans)
    }
}

/// Whether every channel names port 0 or 1.
pub open spec fn ports_valid(chans: Seq<(u16, Seq<char>)>) -> bool {
    forall|c: int| 0 <= c < chans.len() ==> #[trigger] chans[c].0 <= 1
}

/// Appends the tool arguments for every channel at node (x, y).
fn push_node_args(out: &mut Vec<String>, x: u16, y: u16, nodeid_length: u8, chans: &Vec<Channel>)
    requires
        supported_width(nodeid_length),
        (x as int) < pow2(nodeid_length as nat),
        (y as int) < pow2(nodeid_length as nat),
        ports_valid(channel_views(chans@)),
    ensures
        views(final(out)@) == views(old(out)@) + node_args(
            x,
            y,
            nodeid_length,
            channel_views(chans@),
            chans@.len(),
        ),
{
    let ghost start = views(out@);
    let mut k: usize = 0;
    while k < chans.len()
        invariant
            supported_width(nodeid_length),
            k <= chans@.len(),
            (x as int) < pow2(nodeid_length as nat),
            (y as int) < pow2(nodeid_length as nat),
            ports_valid(channel_views(chans@)),
            views(out@) == start + node_args(x, y, nodeid_length, channel_views(chans@), k as nat),
        decreases chans@.len() - k,
    {
        let ghost before = views(out@);
        assert(channel_views(chans@)[k as int].0 <= 1);
        let probe = get_event_string(0, x, y, chans[k].0, nodeid_length, chans[k].1.as_str());
        out.push(String::from_str("-e"));
        out.push(probe);
        k = k + 1;
        assert(views(out@) =~= before + seq!["-e"@, probe@]);
        assert(views(out@) =~= start + node_args(
            x,
            y,
            nodeid_length,
            channel_views(chans@),
            k as nat,
        ));
    }
}

/// The counter tool arguments that attach every channel to every node of a
/// `mesh.0` × `mesh.1` grid: for each node, x outermost, then y, and for each
/// channel in order, `-e` followed by the probe.
pub fn grid_probes(mesh: (u16, u16), nodeid_length: u8, chans: &Vec<Channel>) -> (r: Vec<String>)
    requires
        supported_width(nodeid_length),
        (mesh.0 as int) <= pow2(nodeid_length as nat),
        (mesh.1 as int) <= pow2(nodeid_length as nat),
        ports_valid(channel_views(chans@)),
    ensures
        views(r@) == grid_args(mesh.0 as nat, mesh.1 as nat, nodeid_length, channel_views(chans@)),
{
    let mut out: Vec<String> = Vec::new();
    let mut i: u16 = 0;
    assert(views(out@) =~= Seq::<Seq<char>>::empty());
    while i < mesh.0
        invariant
            supported_width(nodeid_length),
            i <= mesh.0,
            (mesh.0 as int) <= pow2(nodeid_length as nat),
            (mesh.1 as int) <= pow2(nodeid_length as nat),
            ports_valid(channel_views(chans@)),
            views(out@) == grid_args(i as nat, mesh.1 as nat, nodeid_length, channel_views(chans@)),
        decreases mesh.0 - i,
    {
        let mut j: u16 = 0;
        while j < mesh.1
            invariant
                supported_width(nodeid_length),
                i < mesh.0,
                j <= mesh.1,
                (mesh.0 as int) <= pow2(nodeid_length as nat),
                (mesh.1 as int) <= pow2(nodeid_length as nat),
                ports_valid(channel_views(chans@)),
                views(out@) == grid_args(i as nat, mesh.1 as nat, nodeid_length, channel_views(chans@))
                    + column_args(i, j as nat, nodeid_length, channel_views(chans@)),
            decreases mesh.1 - j,
        {
            push_node_args(&mut out, i, j, nodeid_length, chans);
            j = j + 1;
        }
        i = i + 1;
    }
    out
}


/// Event specifiers by symbolic name, as the platform's counter catalog
/// lists them: each entry is a name and its specifier.
#[derive(Debug)]
pub struct EventCatalog {
    pub entries: Vec<(String, String)>,
}

/// The specifier of the first entry named `name`.
pub open spec fn lookup_in(entries: Seq<(Seq<char>, Seq<char>)>, name: Seq<char>) -> Option<
    Seq<char>,
>
    decreases entries.len(),
{
    if entries.len() == 0 {
        None
    } else if entries[0].0 == name {
        Some(entries[0].1)
    } else {
        lookup_in(entries.drop_first(), name)
    }
}

impl View for EventCatalog {
    type V = Seq<(Seq<char>, Seq<char>)>;

    open spec fn view(&self) -> Seq<(Seq<char>, Seq<char>)> {
        self.entries@.map_values(|e: (String, String)| (e.0@, e.1@))
    }
}

impl EventCatalog {
    /// The specifier that the catalog gives for `name`.
    pub fn lookup(&self, name: &str) -> (r: Result<String, DiscoveryError>)
        ensures
            r matches Ok(s) ==> lookup_in(self@, name@) == Some(s@),
            r is Err ==> lookup_in(self@, name@) is None,
            r matches Err(e) ==> (e matches DiscoveryError::UnknownEvent(n) && n@ == name@),
    {
        let wanted = String::from_str(name);
        let mut i: usize = 0;
        assert(self@.skip(0) =~= self@);
        while i < self.entries.len()
            invariant
                i <= self@.len(),
                wanted@ == name@,
                lookup_in(self@, name@) == lookup_in(self@.skip(i as int), name@),
            decreases self@.len() - i,
        {
            assert(self@.skip(i as int).drop_first() =~= self@.skip(i + 1));
            if self.entries[i].0 == wanted {
                return Ok(self.entries[i].1.clone());
            }
            i = i + 1;
        }
        Err(DiscoveryError::UnknownEvent(wanted))
    }
}


/// The first `':'` in `s` at or after `i`, or the end of `s`.
pub open spec fn colon_from(s: Seq<char>, i: int) -> int
    decreases s.len() - i,
{
    if 0 <= i < s.len() && s[i] != ':' {
        colon_from(s, i + 1)
    } else {
        i
    }
}

/// The ports that a selector's prefix names: `0`, `1`, or both for `01`
/// and `10`; none for anything else.
pub open spec fn prefix_ports(p: Seq<char>) -> Seq<u16> {
    if p.len() == 1 && p[0] == '0' {
        seq![0u16]
    } else if p.len() == 1 && p[0] == '1' {
        seq![1u16]
    } else if p.len() == 2 && ((p[0] == '0' && p[1] == '1') || (p[0] == '1' && p[1] == '0')) {
        seq![0u16, 1u16]
    } else {
        Seq::empty()
    }
}

/// An event selector, `<ports>:<name>` or a bare `<name>` (port 0): its
/// ports and its event name. A name ends at the next `':'`.
pub open spec fn selector_parts(s: Seq<char>) -> (Seq<u16>, Seq<char>) {
    let a = colon_from(s, 0);
    if a >= s.len() {
        (seq![0u16], s)
    } else {
        (prefix_ports(s.subrange(0, a)), s.subrange(a + 1, colon_from(s, a + 1)))
    }
}

/// The channels that a list of selectors asks for, each name resolved in the
/// catalog: for each selector in order, one channel per port. A selector
/// that names no port gives no channel and is not looked up. `None` when a
/// looked-up name is missing from the catalog.
pub open spec fn selector_channels(sels: Seq<Seq<char>>, cat: Seq<(Seq<char>, Seq<char>)>) -> Option<
    Seq<(u16, Seq<char>)>,
>
    decreases sels.len(),
{
    if sels.len() == 0 {
        Some(Seq::empty())
    } else {
        match selector_channels(sels.drop_last(), cat) {
            None => None,
            Some(prev) => {
                let parts = selector_parts(sels.last());
                if parts.0.len() == 0 {
                    Some(prev)
                } else {
                    match lookup_in(cat, parts.1) {
                        None => None,
                        Some(spec) => Some(prev + parts.0.map_values(|p: u16| (p, spec))),
                    }
                }
            },
        }
    }
}

pub(crate) fn find_colon(s: &Vec<char>, i: usize) -> (e: usize)
    requires
        i <= s@.len(),
    ensures
        e == colon_from(s@, i as int),
        i <= e <= s@.len(),
{
    let mut e = i;
    while e < s.len() && s[e] != ':'
        invariant
            i <= e <= s@.len(),
            colon_from(s@, i as int) == colon_from(s@, e as int),
        decreases s@.len() - e,
    {
        e = e + 1;
    }
    e
}

/// Splits an event selector into its ports and its event name.
pub fn parse_selector(selector: &str) -> (r: (Vec<u16>, String))
    ensures
        r.0@ == selector_parts(selector@).0,
        r.1@ == selector_parts(selector@).1,
{
    let s = crate::text::chars_of(selector);
    let a = find_colon(&s, 0);
    if a >= s.len() {
        assert(s@ =~= selector@);
        return (vec![0u16], String::from_str(selector));
    }
    let b = find_colon(&s, a + 1);
    let name = String::from_str(selector.substring_char(a + 1, b));
    let ghost p = s@.subrange(0, a as int);
    assert(p.len() == a);
    assert(a >= 1 ==> p[0] == s@[0]);
    assert(a >= 2 ==> p[1] == s@[1]);
    let ports: Vec<u16> = if a == 1 && s[0] == '0' {
        vec![0u16]
    } else if a == 1 && s[0] == '1' {
        vec![1u16]
    } else if a == 2 && ((s[0] == '0' && s[1] == '1') || (s[0] == '1' && s[1] == '0')) {
        vec![0u16, 1u16]
    } else {
        Vec::new()
    };
    assert(ports@ =~= prefix_ports(p));
    (ports, name)
}

/// Resolves the event name of each selector in the catalog: the channels
/// that the selectors ask for, in order.
pub fn resolve_selectors(events: &Vec<String>, catalog: &EventCatalog) -> (r: Result<
    Vec<Channel>,
    DiscoveryError,
>)
    ensures
        r is Ok <==> selector_channels(views(events@), catalog@) is Some,
        r matches Ok(c) ==> selector_channels(views(events@), catalog@) == Some(channel_views(c@))
            && ports_valid(channel_views(c@)),
        r matches Err(e) ==> e is UnknownEvent,
{
    let mut chans: Vec<Channel> = Vec::new();
    let mut i: usize = 0;
    while i < events.len()
        invariant
            i <= events@.len(),
            selector_channels(views(events@.take(i as int)), catalog@) == Some(
                channel_views(chans@),
            ),
            ports_valid(channel_views(chans@)),
        decreases events@.len() - i,
    {
        let ghost before = channel_views(chans@);
        assert(views(events@.take(i + 1)).drop_last() =~= views(events@.take(i as int)));
        let (ports, name) = parse_selector(events[i].as_str());
        if ports.len() == 0 {
            i = i + 1;
            continue;
        }
        let spec = match catalog.lookup(name.as_str()) {
            Ok(spec) => spec,
            Err(e) => {
                proof {
                    lemma_selector_channels_stuck(views(events@), catalog@, i as int + 1);
                }
                return Err(e);
            },
        };
        let ghost want = ports@.map_values(|p: u16| (p, spec@));
        let mut k: usize = 0;
        while k < ports.len()
            invariant
                i < events@.len(),
                k <= ports@.len(),
                ports@ == selector_parts(events@[i as int]@).0,
                channel_views(chans@) == before + want.take(k as int),
                want == ports@.map_values(|p: u16| (p, spec@)),
                ports_valid(before),
            decreases ports@.len() - k,
        {
            assert(want[k as int] == (ports@[k as int], spec@));
            let ghost old_chans = chans@;
            let item: Channel = (ports[k], spec.clone());
            chans.push(item);
            assert(channel_views(chans@) =~= channel_views(old_chans).push((item.0, item.1@)));
            assert(want.take(k + 1) =~= want.take(k as int).push(want[k as int]));
            assert(channel_views(chans@) =~= before + want.take(k + 1));
            k = k + 1;
        }
        assert(want.take(k as int) =~= want);
        assert(ports_valid(channel_views(chans@))) by {
            assert forall|c: int| 0 <= c < channel_views(chans@).len() implies #[trigger] channel_views(
                chans@,
            )[c].0 <= 1 by {
                if c >= before.len() {
                    assert(channel_views(chans@)[c] == want[c - before.len()]);
                }
            }
        }
        i = i + 1;
    }
    assert(events@.take(i as int) =~= events@);
    Ok(chans)
}

/// The counter tool arguments that attach the selected events at node
/// (node_x, node_y): for each selector in order, for each of its ports, `-e`
/// followed by the probe, with each event name resolved in the catalog.
pub fn events_to_perf_events(
    events: Vec<String>,
    node_x: u16,
    node_y: u16,
    nodeid_length: u8,
    catalog: &EventCatalog,
) -> (r: Result<Vec<String>, DiscoveryError>)
    requires
        supported_width(nodeid_length),
        (node_x as int) < pow2(nodeid_length as nat),
        (node_y as int) < pow2(nodeid_length as nat),
    ensures
        r is Ok <==> selector_channels(views(events@), catalog@) is Some,
        r matches Ok(v) ==> views(v@) == node_args(
            node_x,
            node_y,
            nodeid_length,
            selector_channels(views(events@), catalog@)->0,
            selector_channels(views(events@), catalog@)->0.len(),
        ),
{
    let chans = match resolve_selectors(&events, catalog) {
        Ok(c) => c,
        Err(e) => return Err(e),
    };
    let mut out: Vec<String> = Vec::new();
    assert(views(out@) =~= Seq::<Seq<char>>::empty());
    push_node_args(&mut out, node_x, node_y, nodeid_length, &chans);
    assert(views(out@) =~= node_args(
        node_x,
        node_y,
        nodeid_length,
        channel_views(chans@),
        chans@.len(),
    ));
    Ok(out)
}

/// Once one selector's name is missing from the catalog, so is the channel
/// list of every longer list of selectors.
proof fn lemma_selector_channels_stuck(
    sels: Seq<Seq<char>>,
    cat: Seq<(Seq<char>, Seq<char>)>,
    n: int,
)
    requires
        0 < n <= sels.len(),
        selector_channels(sels.take(n), cat) is None,
    ensures
        selector_channels(sels, cat) is None,
    decreases sels.len() - n,
{
    if n < sels.len() {
        assert(sels.take(n + 1).drop_last() =~= sels.take(n));
        lemma_selector_channels_stuck(sels, cat, n + 1);
    } else {
        assert(sels.take(n) =~= sels);
    }
}

} // verus!
