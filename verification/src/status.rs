//! What the Unlim CLI reports of an instance, and which instance the connector shows.
use vstd::prelude::*;
use crate::paths::{same_path, UnlimPath};
use crate::text::{decimal, decimal_string, opt_view, same_text};

verus! {

/// One port mapping of an Unlim instance, as its status report gives it: the
/// protocol and the local port, each absent when the report has none of that type.
pub struct PortMapping {
    pub proto: Option<String>,
    pub local_port: Option<u64>,
}

/// The status report of one Unlim instance: its `mode` when that is text, and its
/// `port_mappings` when that is a list.
pub struct StatusValue {
    pub mode: Option<String>,
    pub port_mappings: Option<Vec<PortMapping>>,
}

/// The mode of an instance; a report without one counts as `idle`.
pub open spec fn mode_of(v: StatusValue) -> Seq<char> {
    match v.mode {
        Some(m) => m@,
        None => "idle"@,
    }
}

/// An instance is connected unless its mode is `idle`, `stopped`, `unknown` or `unavailable`.
pub open spec fn connected(v: StatusValue) -> bool {
    let m = mode_of(v);
    !(m == "idle"@ || m == "stopped"@ || m == "unknown"@ || m == "unavailable"@)
}

/// `m` maps a TCP port to the local port `p`.
pub open spec fn tcp_port_of(m: PortMapping) -> Option<u64> {
    match m.proto {
        Some(p) => if p@ == "tcp"@ {
            m.local_port
        } else {
            None
        },
        None => None,
    }
}

/// The least of the local TCP ports that `ms` map.
pub open spec fn least_tcp_port(ms: Seq<PortMapping>) -> Option<u64>
    decreases ms.len(),
{
    if ms.len() == 0 {
        None
    } else {
        let earlier = least_tcp_port(ms.drop_last());
        match tcp_port_of(ms.last()) {
            Some(p) => match earlier {
                Some(q) => if p < q {
                    Some(p)
                } else {
                    Some(q)
                },
                None => Some(p),
            },
            None => earlier,
        }
    }
}

/// The local port of an instance: the least local TCP port of its mappings.
pub open spec fn local_port_of(v: StatusValue) -> Option<u64> {
    match v.port_mappings {
        Some(ms) => least_tcp_port(ms@),
        None => None,
    }
}

/// The key by which connected instances are ranked: the local port, or the
/// largest `u64` where there is none.
pub open spec fn rank(v: StatusValue) -> u64 {
    match local_port_of(v) {
        Some(p) => p,
        None => u64::MAX,
    }
}

/// Among the first `n` instances, the first connected one of least rank.
pub open spec fn best_connected(vs: Seq<StatusValue>, n: int) -> Option<int>
    decreases n,
{
    if n <= 0 {
        None
    } else {
        let earlier = best_connected(vs, n - 1);
        if connected(vs[n - 1]) {
            match earlier {
                Some(j) => if rank(vs[n - 1]) < rank(vs[j]) {
                    Some(n - 1)
                } else {
                    Some(j)
                },
                None => Some(n - 1),
            }
        } else {
            earlier
        }
    }
}

/// The instance the connector reports: the first connected one of least rank, or
/// else the first one.
pub open spec fn preferred_index(vs: Seq<StatusValue>) -> Option<int> {
    match best_connected(vs, vs.len() as int) {
        Some(i) => Some(i),
        None => if vs.len() > 0 {
            Some(0)
        } else {
            None
        },
    }
}

/// Whether any instance is connected.
pub open spec fn any_connected(vs: Seq<StatusValue>) -> bool {
    exists|i: int| 0 <= i < vs.len() && connected(#[trigger] vs[i])
}

/// The mode of an instance.
pub fn status_mode(value: &StatusValue) -> (r: &str)
    ensures
        r@ == mode_of(*value),
{
    match &value.mode {
        Some(m) => m.as_str(),
        None => "idle",
    }
}

/// Whether an instance is connected.
pub fn status_connected(value: &StatusValue) -> (r: bool)
    ensures
        r == connected(*value),
{
    let m = status_mode(value);
    !(same_text(m, "idle") || same_text(m, "stopped") || same_text(m, "unknown") || same_text(
        m,
        "unavailable",
    ))
}

/// The local port of an instance, the least local TCP port of its mappings.
pub fn status_local_port(value: &StatusValue) -> (r: Option<u64>)
    ensures
        r == local_port_of(*value),
        match r {
            Some(p) => exists|i: int|
                0 <= i < value.port_mappings->0@.len() && tcp_port_of(
                    #[trigger] value.port_mappings->0@[i],
                ) == Some(p),
            None => true,
        },
        forall|i: int|
            value.port_mappings is Some && 0 <= i < value.port_mappings->0@.len() ==> match tcp_port_of(
                #[trigger] value.port_mappings->0@[i],
            ) {
                Some(q) => r is Some && r->0 <= q,
                None => true,
            },
{
    match &value.port_mappings {
        None => None,
        Some(ms) => {
            let mut best: Option<u64> = None;
            let mut i: usize = 0;
            while i < ms.len()
                invariant
                    i <= ms.len(),
                    best == least_tcp_port(ms@.take(i as int)),
                    match best {
                        Some(p) => exists|k: int| 0 <= k < i && tcp_port_of(#[trigger] ms@[k]) == Some(p),
                        None => true,
                    },
                    forall|k: int|
                        0 <= k < i ==> match tcp_port_of(#[trigger] ms@[k]) {
                            Some(q) => best is Some && best->0 <= q,
                            None => true,
                        },
                decreases ms.len() - i,
            {
                let m = &ms[i];
                assert(ms@.take(i + 1).drop_last() =~= ms@.take(i as int));
                assert(ms@.take(i + 1).last() == ms@[i as int]);
                let port = match &m.proto {
                    Some(p) => if same_text(p.as_str(), "tcp") {
                        m.local_port
                    } else {
                        None
                    },
                    None => None,
                };
                assert(port == tcp_port_of(ms@[i as int]));
                match port {
                    Some(p) => {
                        match best {
                            Some(q) => if p < q {
                                best = Some(p);
                            },
                            None => {
                                best = Some(p);
                            },
                        }
                    },
                    None => {},
                }
                i = i + 1;
            }
            assert(ms@.take(ms.len() as int) =~= ms@);
            best
        },
    }
}


/// The instance the connector reports.
pub fn preferred_status(values: &Vec<StatusValue>) -> (r: Option<&StatusValue>)
    ensures
        match r {
            Some(v) => preferred_index(values@) matches Some(i) && 0 <= i < values@.len() && *v
                == values@[i],
            None => preferred_index(values@) is None,
        },
{
    let mut best: Option<usize> = None;
    let mut best_rank: u64 = 0;
    let mut i: usize = 0;
    while i < values.len()
        invariant
            i <= values.len(),
            match best {
                Some(j) => best_connected(values@, i as int) == Some(j as int) && j < i
                    && best_rank == rank(values@[j as int]),
                None => best_connected(values@, i as int) is None,
            },
        decreases values.len() - i,
    {
        let v = &values[i];
        if status_connected(v) {
            let r = match status_local_port(v) {
                Some(p) => p,
                None => u64::MAX,
            };
            match best {
                Some(_) => if r < best_rank {
                    best = Some(i);
                    best_rank = r;
                },
                None => {
                    best = Some(i);
                    best_rank = r;
                },
            }
        }
        i = i + 1;
    }
    match best {
        Some(j) => Some(&values[j]),
        None => if values.len() > 0 {
            Some(&values[0])
        } else {
            None
        },
    }
}

/// The first `n` instances hold a connected one exactly when the search finds
/// one, and what it finds is connected, of least rank among them, and ahead of
/// every other of the same rank.
proof fn lemma_best_connected(vs: Seq<StatusValue>, n: int)
    requires
        0 <= n <= vs.len(),
    ensures
        best_connected(vs, n) is Some <==> exists|j: int| 0 <= j < n && connected(#[trigger] vs[j]),
        best_connected(vs, n) matches Some(i) ==> {
            &&& 0 <= i < n
            &&& connected(vs[i])
            &&& forall|j: int| 0 <= j < n && connected(#[trigger] vs[j]) ==> rank(vs[i]) <= rank(vs[j])
            &&& forall|j: int| 0 <= j < i && connected(#[trigger] vs[j]) ==> rank(vs[i]) < rank(vs[j])
        },
    decreases n,
{
    if n > 0 {
        lemma_best_connected(vs, n - 1);
    }
}

/// The reported instance: where some instance is connected, it is a connected one
/// whose local port is the least among the connected ones (an instance without a
/// local port ranks last), and no connected one ahead of it has the same rank;
/// where none is, it is the first instance, if there is one.
pub proof fn lemma_preferred_status_is_least_connected(vs: Seq<StatusValue>)
    ensures
        any_connected(vs) ==> (preferred_index(vs) matches Some(i) && 0 <= i < vs.len() && connected(
            vs[i],
        ) && (forall|j: int| 0 <= j < vs.len() && connected(#[trigger] vs[j]) ==> rank(vs[i]) <= rank(vs[j]))
            && (forall|j: int| 0 <= j < i && connected(#[trigger] vs[j]) ==> rank(vs[i]) < rank(vs[j]))),
        !any_connected(vs) ==> preferred_index(vs) == (if vs.len() > 0 {
            Some(0int)
        } else {
            None
        }),
{
    lemma_best_connected(vs, vs.len() as int);
}

/// Whether any Unlim instance is connected.
pub fn is_connected(values: &Vec<StatusValue>) -> (r: bool)
    ensures
        r == any_connected(values@),
{
    let mut i: usize = 0;
    while i < values.len()
        invariant
            i <= values.len(),
            forall|j: int| 0 <= j < i ==> !connected(#[trigger] values@[j]),
        decreases values.len() - i,
    {
        if status_connected(&values[i]) {
            return true;
        }
        i = i + 1;
    }
    false
}


/// What the connector shows of its state.
pub struct ConnectorStatus {
    pub installed: bool,
    pub connected: bool,
    pub detail: String,
    pub local_address: String,
    pub unlim_version: Option<String>,
    pub managed_unlim: bool,
    pub app_version: String,
}

/// The port Minecraft is told to use when no instance reports one.
pub open spec fn default_port() -> u64 {
    25565
}

/// The mode shown: that of the reported instance, or `idle`.
pub open spec fn shown_mode(vs: Seq<StatusValue>) -> Seq<char> {
    match preferred_index(vs) {
        Some(i) => mode_of(vs[i]),
        None => "idle"@,
    }
}

/// The local port shown: that of the reported instance, or the default port.
pub open spec fn shown_port(vs: Seq<StatusValue>) -> u64 {
    match preferred_index(vs) {
        Some(i) => match local_port_of(vs[i]) {
            Some(p) => p,
            None => default_port(),
        },
        None => default_port(),
    }
}

/// The line of text that describes the connection.
pub open spec fn detail_of(installed: bool, vs: Seq<StatusValue>) -> Seq<char> {
    if !installed {
        "Unlimを準備中"@
    } else if any_connected(vs) && vs.len() > 1 {
        "接続中 ("@ + shown_mode(vs) + " / "@ + decimal(vs.len()) + "重起動)"@
    } else if any_connected(vs) {
        "接続中 ("@ + shown_mode(vs) + ")"@
    } else {
        "未接続"@
    }
}

/// The state shown, given the Unlim executable found (if any), the status reports of
/// its instances, the version it reports, the executable the connector installs (if
/// its place is known) and the connector's own version. Without an executable the
/// reports and the version are not looked at.
pub fn connector_status(
    executable: Option<&UnlimPath>,
    values: &Vec<StatusValue>,
    version: Option<String>,
    managed: Option<&UnlimPath>,
    app_version: String,
) -> (r: ConnectorStatus)
    ensures
        r.installed == executable is Some,
        ({
            let vs = if executable is Some {
                values@
            } else {
                Seq::empty()
            };
            &&& r.connected == any_connected(vs)
            &&& r.detail@ == detail_of(r.installed, vs)
            &&& r.local_address@ == "127.0.0.1:"@ + decimal(shown_port(vs) as nat)
        }),
        opt_view(r.unlim_version) == if executable is Some {
            opt_view(version)
        } else {
            None
        },
        r.managed_unlim == (executable is Some && managed is Some && executable->0@ == managed->0@),
        r.app_version == app_version,
{
    let installed = executable.is_some();
    let none: Vec<StatusValue> = Vec::new();
    let vs: &Vec<StatusValue> = if installed {
        values
    } else {
        &none
    };
    let value = preferred_status(vs);
    let mode: &str = match value {
        Some(v) => status_mode(v),
        None => "idle",
    };
    let connected = is_connected(vs);
    let local_port: u64 = match value {
        Some(v) => match status_local_port(v) {
            Some(p) => p,
            None => 25565,
        },
        None => 25565,
    };
    let detail = if !installed {
        String::from_str("Unlimを準備中")
    } else if connected && vs.len() > 1 {
        let mut d = String::from_str("接続中 (");
        d.append(mode);
        d.append(" / ");
        let count = decimal_string(vs.len() as u64);
        d.append(count.as_str());
        d.append("重起動)");
        d
    } else if connected {
        let mut d = String::from_str("接続中 (");
        d.append(mode);
        d.append(")");
        d
    } else {
        String::from_str("未接続")
    };
    let mut local_address = String::from_str("127.0.0.1:");
    let port_text = decimal_string(local_port);
    local_address.append(port_text.as_str());
    let managed_unlim = match (executable, managed) {
        (Some(a), Some(b)) => same_path(a, b),
        _ => false,
    };
    ConnectorStatus {
        installed,
        connected,
        detail,
        local_address,
        unlim_version: if installed {
            version
        } else {
            None
        },
        managed_unlim,
        app_version,
    }
}


/// The port an instance's report tells Minecraft to use: its local port, or the
/// default one.
pub open spec fn port_or_default(v: StatusValue) -> u64 {
    match local_port_of(v) {
        Some(p) => p,
        None => default_port(),
    }
}

/// The port in the local address is that of a connected instance of least local
/// port, where any instance is connected (an instance without a local port ranks
/// last); otherwise that of the first instance; and the default port when there is
/// none.
pub proof fn lemma_shown_port_is_least_connected(vs: Seq<StatusValue>)
    ensures
        any_connected(vs) ==> exists|i: int|
            0 <= i < vs.len() && connected(#[trigger] vs[i]) && shown_port(vs) == port_or_default(
                vs[i],
            ) && (forall|j: int|
                0 <= j < vs.len() && connected(#[trigger] vs[j]) ==> rank(vs[i]) <= rank(vs[j])),
        !any_connected(vs) && vs.len() > 0 ==> shown_port(vs) == port_or_default(vs[0]),
        vs.len() == 0 ==> shown_port(vs) == default_port(),
{
    lemma_best_connected(vs, vs.len() as int);
    if any_connected(vs) {
        let i = preferred_index(vs)->0;
        assert(connected(vs[i]));
    }
}

} // verus!
