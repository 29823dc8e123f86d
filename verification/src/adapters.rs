//! Snapshots of the network adapters that are up.

use crate::text::{contains_text, split_text, str_contains, str_equal, str_split, string_views};
use vstd::prelude::*;

verus! {

/// How an adapter is attached to the network.
#[derive(Clone, Copy, Debug, PartialEq, Eq, Structural)]
pub enum ConnectionType {
    WiFi,
    Ethernet,
    Unknown,
}

/// What the operating system reported of one adapter, field by field, as
/// text. `"N/A"` stands for a field that the system could not supply.
#[derive(Clone, Debug)]
pub struct AdapterRecord {
    pub name: String,
    pub status: String,
    pub mac_address: String,
    pub ip_address: String,
    pub dns_servers: String,
    pub media_type: String,
    pub gateway: String,
}

/// Why a query for the adapters gave no records.
#[derive(Clone, Copy, Debug, PartialEq, Eq, Structural)]
pub enum AdapterQueryError {
    /// The query could not be run, or ended in failure.
    CommandFailed,
    /// The query ran, but its report could not be read.
    ParseFailed,
}

/// One adapter as it was at the moment of the query.
#[derive(Clone, Debug)]
pub struct NetworkAdapter {
    pub name: String,
    pub status: String,
    pub mac_address: String,
    pub ip_addresses: Vec<String>,
    pub dns_servers: Vec<String>,
    pub connection_type: ConnectionType,
    pub gateway: String,
    pub is_online: bool,
    /// Round trip to the gateway, in microseconds.
    pub ping_to_gateway: Option<u32>,
}

/// The mathematical value of an `AdapterRecord`.
pub struct AdapterRecordView {
    pub name: Seq<char>,
    pub status: Seq<char>,
    pub mac_address: Seq<char>,
    pub ip_address: Seq<char>,
    pub dns_servers: Seq<char>,
    pub media_type: Seq<char>,
    pub gateway: Seq<char>,
}

/// The mathematical value of a `NetworkAdapter`.
pub struct AdapterView {
    pub name: Seq<char>,
    pub status: Seq<char>,
    pub mac_address: Seq<char>,
    pub ip_addresses: Seq<Seq<char>>,
    pub dns_servers: Seq<Seq<char>>,
    pub connection_type: ConnectionType,
    pub gateway: Seq<char>,
    pub is_online: bool,
    pub ping_to_gateway: Option<u32>,
}

impl View for AdapterRecord {
    type V = AdapterRecordView;

    open spec fn view(&self) -> AdapterRecordView {
        AdapterRecordView {
            name: self.name@,
            status: self.status@,
            mac_address: self.mac_address@,
            ip_address: self.ip_address@,
            dns_servers: self.dns_servers@,
            media_type: self.media_type@,
            gateway: self.gateway@,
        }
    }
}

impl View for NetworkAdapter {
    type V = AdapterView;

    open spec fn view(&self) -> AdapterView {
        AdapterView {
            name: self.name@,
            status: self.status@,
            mac_address: self.mac_address@,
            ip_addresses: string_views(self.ip_addresses@),
            dns_servers: string_views(self.dns_servers@),
            connection_type: self.connection_type,
            gateway: self.gateway@,
            is_online: self.is_online,
            ping_to_gateway: self.ping_to_gateway,
        }
    }
}

/// The text that stands for a field the system could not supply.
pub open spec fn unavailable() -> Seq<char> {
    "N/A"@
}

/// The text shown for an adapter without an address.
pub open spec fn not_assigned() -> Seq<char> {
    "Не назначен"@
}

/// The text shown for an adapter without resolvers.
pub open spec fn not_configured() -> Seq<char> {
    "Не настроен"@
}

/// The name of the record that stands for a query that could not be run.
pub open spec fn command_error_name() -> Seq<char> {
    "Ошибка выполнения команды"@
}

/// The name of the record that stands for a report that could not be read.
pub open spec fn parse_error_name() -> Seq<char> {
    "Ошибка парсинга"@
}

/// Whether `text` names a wireless link.
pub open spec fn names_wifi(text: Seq<char>) -> bool {
    contains_text(text, "Wi-Fi"@) || contains_text(text, "WiFi"@) || contains_text(
        text,
        "Wireless"@,
    ) || contains_text(text, "WLAN"@) || contains_text(text, "802.11"@)
}

/// Whether `text` names a wired link.
pub open spec fn names_ethernet(text: Seq<char>) -> bool {
    contains_text(text, "Ethernet"@) || contains_text(text, "802.3"@)
}

/// The kind of link that an adapter's name and media type point to. A
/// wireless name wins over a wired one, and the adapter's name is asked
/// together with its media type. This is a guess from the wording only.
pub open spec fn classify(name: Seq<char>, media_type: Seq<char>) -> ConnectionType {
    if names_wifi(name) || names_wifi(media_type) {
        ConnectionType::WiFi
    } else if names_ethernet(name) || names_ethernet(media_type) {
        ConnectionType::Ethernet
    } else {
        ConnectionType::Unknown
    }
}

/// The adapter that stands for `record`: a missing address or resolver list
/// becomes its placeholder, the resolvers are cut at `", "`, and nothing is
/// known yet of the gateway's reachability.
pub open spec fn adapter_of(record: AdapterRecordView) -> AdapterView {
    AdapterView {
        name: record.name,
        status: record.status,
        mac_address: record.mac_address,
        ip_addresses: if record.ip_address == unavailable() {
            seq![not_assigned()]
        } else {
            seq![record.ip_address]
        },
        dns_servers: if record.dns_servers == unavailable() {
            seq![not_configured()]
        } else {
            split_text(record.dns_servers, ", "@)
        },
        connection_type: classify(record.name, record.media_type),
        gateway: record.gateway,
        is_online: false,
        ping_to_gateway: None,
    }
}

/// The record that is shown in place of the adapters when the query failed:
/// `name` says what went wrong, every other field is the placeholder.
pub open spec fn error_adapter(name: Seq<char>) -> AdapterView {
    AdapterView {
        name,
        status: unavailable(),
        mac_address: unavailable(),
        ip_addresses: seq![unavailable()],
        dns_servers: seq![unavailable()],
        connection_type: ConnectionType::Unknown,
        gateway: unavailable(),
        is_online: false,
        ping_to_gateway: None,
    }
}

/// The views of `records`, in order.
pub open spec fn record_views(records: Seq<AdapterRecord>) -> Seq<AdapterRecordView> {
    Seq::new(records.len(), |i: int| records[i]@)
}

/// The views of `adapters`, in order.
pub open spec fn adapter_views(adapters: Seq<NetworkAdapter>) -> Seq<AdapterView> {
    Seq::new(adapters.len(), |i: int| adapters[i]@)
}

/// What a query's outcome is shown as: one adapter per record, in the
/// records' order, or the one record that stands for the failure.
pub open spec fn discovered(query: Result<Seq<AdapterRecordView>, AdapterQueryError>) -> Seq<
    AdapterView,
> {
    match query {
        Ok(records) => Seq::new(records.len(), |i: int| adapter_of(records[i])),
        Err(AdapterQueryError::CommandFailed) => seq![error_adapter(command_error_name())],
        Err(AdapterQueryError::ParseFailed) => seq![error_adapter(parse_error_name())],
    }
}

/// The kind of link that `name` and `media_type` point to.
pub fn classify_connection(name: &str, media_type: &str) -> (kind: ConnectionType)
    ensures
        kind == classify(name@, media_type@),
{
    if names_wifi_text(name) || names_wifi_text(media_type) {
        ConnectionType::WiFi
    } else if names_ethernet_text(name) || names_ethernet_text(media_type) {
        ConnectionType::Ethernet
    } else {
        ConnectionType::Unknown
    }
}

fn names_wifi_text(text: &str) -> (r: bool)
    ensures
        r == names_wifi(text@),
{
    str_contains(text, "Wi-Fi") || str_contains(text, "WiFi") || str_contains(text, "Wireless")
        || str_contains(text, "WLAN") || str_contains(text, "802.11")
}

fn names_ethernet_text(text: &str) -> (r: bool)
    ensures
        r == names_ethernet(text@),
{
    str_contains(text, "Ethernet") || str_contains(text, "802.3")
}

/// The adapter that stands for `record`.
pub fn adapter_from_record(record: &AdapterRecord) -> (adapter: NetworkAdapter)
    ensures
        adapter@ == adapter_of(record@),
{
    let mut ip_addresses: Vec<String> = Vec::new();
    if str_equal(record.ip_address.as_str(), "N/A") {
        ip_addresses.push("Не назначен".to_owned());
    } else {
        ip_addresses.push(record.ip_address.clone());
    }
    let dns_servers: Vec<String> = if str_equal(record.dns_servers.as_str(), "N/A") {
        let mut servers: Vec<String> = Vec::new();
        servers.push("Не настроен".to_owned());
        servers
    } else {
        str_split(record.dns_servers.as_str(), ", ")
    };
    let adapter = NetworkAdapter {
        name: record.name.clone(),
        status: record.status.clone(),
        mac_address: record.mac_address.clone(),
        ip_addresses,
        dns_servers,
        connection_type: classify_connection(record.name.as_str(), record.media_type.as_str()),
        gateway: record.gateway.clone(),
        is_online: false,
        ping_to_gateway: None,
    };
    proof {
        assert(adapter@.ip_addresses =~= adapter_of(record@).ip_addresses);
        assert(adapter@.dns_servers =~= adapter_of(record@).dns_servers);
    }
    adapter
}

/// The record that stands for a query that failed with `error`.
pub fn error_record(error: AdapterQueryError) -> (adapter: NetworkAdapter)
    ensures
        adapter@ == error_adapter(
            match error {
                AdapterQueryError::CommandFailed => command_error_name(),
                AdapterQueryError::ParseFailed => parse_error_name(),
            },
        ),
{
    let name: String = match error {
        AdapterQueryError::CommandFailed => "Ошибка выполнения команды".to_owned(),
        AdapterQueryError::ParseFailed => "Ошибка парсинга".to_owned(),
    };
    let mut ip_addresses: Vec<String> = Vec::new();
    ip_addresses.push("N/A".to_owned());
    let mut dns_servers: Vec<String> = Vec::new();
    dns_servers.push("N/A".to_owned());
    let adapter = NetworkAdapter {
        name,
        status: "N/A".to_owned(),
        mac_address: "N/A".to_owned(),
        ip_addresses,
        dns_servers,
        connection_type: ConnectionType::Unknown,
        gateway: "N/A".to_owned(),
        is_online: false,
        ping_to_gateway: None,
    };
    proof {
        assert(adapter@.ip_addresses =~= seq![unavailable()]);
        assert(adapter@.dns_servers =~= seq![unavailable()]);
    }
    adapter
}

/// The adapters that a query's outcome is shown as. A query that failed
/// gives exactly one record, which names the failure and holds the
/// placeholder in every other field; it never gives an empty list.
pub fn get_network_adapters(query: Result<Vec<AdapterRecord>, AdapterQueryError>) -> (out: Vec<
    NetworkAdapter,
>)
    ensures
        adapter_views(out@) == discovered(
            match query {
                Ok(records) => Ok(record_views(records@)),
                Err(e) => Err(e),
            },
        ),
        query is Err ==> out@.len() == 1 && out@[0]@.status == unavailable()
            && out@[0]@.mac_address == unavailable() && out@[0]@.ip_addresses == seq![
            unavailable(),
        ] && out@[0]@.dns_servers == seq![unavailable()] && out@[0]@.gateway == unavailable(),
{
    let mut out: Vec<NetworkAdapter> = Vec::new();
    match query {
        Ok(records) => {
            let mut i: usize = 0;
            while i < records.len()
                invariant
                    i <= records.len(),
                    out@.len() == i,
                    forall|j: int| 0 <= j < i ==> out@[j]@ == adapter_of(#[trigger] records@[j]@),
                decreases records.len() - i,
            {
                let adapter = adapter_from_record(&records[i]);
                out.push(adapter);
                i += 1;
            }
            assert(adapter_views(out@) =~= discovered(Ok(record_views(records@))));
        },
        Err(e) => {
            let adapter = error_record(e);
            out.push(adapter);
            assert(adapter_views(out@) =~= discovered(Err(e)));
        },
    }
    out
}

impl NetworkAdapter {
    /// This adapter with the outcome of a probe of its gateway: the round
    /// trip in microseconds, or `None` where the gateway did not answer. The
    /// adapter is online exactly when the gateway answered.
    pub fn with_gateway_probe(self, ping: Option<u32>) -> (out: NetworkAdapter)
        ensures
            out@ == (AdapterView { is_online: ping is Some, ping_to_gateway: ping, ..self@ }),
    {
        NetworkAdapter {
            name: self.name,
            status: self.status,
            mac_address: self.mac_address,
            ip_addresses: self.ip_addresses,
            dns_servers: self.dns_servers,
            connection_type: self.connection_type,
            gateway: self.gateway,
            is_online: ping.is_some(),
            ping_to_gateway: ping,
        }
    }
}

impl Default for NetworkAdapter {
    /// An adapter of which nothing is known.
    fn default() -> (out: NetworkAdapter)
        ensures
            out@ == (AdapterView {
                name: Seq::<char>::empty(),
                status: Seq::<char>::empty(),
                mac_address: Seq::<char>::empty(),
                ip_addresses: Seq::<Seq<char>>::empty(),
                dns_servers: Seq::<Seq<char>>::empty(),
                connection_type: ConnectionType::Unknown,
                gateway: Seq::<char>::empty(),
                is_online: false,
                ping_to_gateway: None,
            }),
    {
        let out = NetworkAdapter {
            name: String::new(),
            status: String::new(),
            mac_address: String::new(),
            ip_addresses: Vec::new(),
            dns_servers: Vec::new(),
            connection_type: ConnectionType::Unknown,
            gateway: String::new(),
            is_online: false,
            ping_to_gateway: None,
        };
        assert(out@.ip_addresses =~= Seq::<Seq<char>>::empty());
        assert(out@.dns_servers =~= Seq::<Seq<char>>::empty());
        out
    }
}

} // verus!
