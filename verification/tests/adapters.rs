use dns_manager::adapters::{
    adapter_from_record, classify_connection, get_network_adapters, AdapterQueryError,
    AdapterRecord, ConnectionType,
};

fn record(name: &str, ip: &str, dns: &str, media: &str) -> AdapterRecord {
    AdapterRecord {
        name: name.to_string(),
        status: "Up".to_string(),
        mac_address: "AA-BB-CC-DD-EE-FF".to_string(),
        ip_address: ip.to_string(),
        dns_servers: dns.to_string(),
        media_type: media.to_string(),
        gateway: "192.168.1.254".to_string(),
    }
}

#[test]
fn a_record_becomes_an_adapter() {
    let adapter = adapter_from_record(&record("Ethernet 2", "192.168.1.5", "8.8.8.8, 1.1.1.1", "802.3"));
    assert_eq!(adapter.name, "Ethernet 2");
    assert_eq!(adapter.status, "Up");
    assert_eq!(adapter.mac_address, "AA-BB-CC-DD-EE-FF");
    assert_eq!(adapter.ip_addresses, vec!["192.168.1.5"]);
    assert_eq!(adapter.dns_servers, vec!["8.8.8.8", "1.1.1.1"]);
    assert_eq!(adapter.connection_type, ConnectionType::Ethernet);
    assert_eq!(adapter.gateway, "192.168.1.254");
    assert!(!adapter.is_online);
    assert_eq!(adapter.ping_to_gateway, None);
}

#[test]
fn missing_fields_get_their_placeholders() {
    let adapter = adapter_from_record(&record("vEthernet", "N/A", "N/A", ""));
    assert_eq!(adapter.ip_addresses, vec!["Не назначен"]);
    assert_eq!(adapter.dns_servers, vec!["Не настроен"]);
}

#[test]
fn resolvers_are_cut_at_comma_and_space_only() {
    let adapter = adapter_from_record(&record("x", "1.2.3.4", "8.8.8.8,1.1.1.1, 9.9.9.9", ""));
    assert_eq!(adapter.dns_servers, vec!["8.8.8.8,1.1.1.1", "9.9.9.9"]);
    let adapter = adapter_from_record(&record("x", "1.2.3.4", "", ""));
    assert_eq!(adapter.dns_servers, vec![""]);
}

#[test]
fn the_kind_of_link_is_guessed_from_the_wording() {
    assert_eq!(classify_connection("Wi-Fi", ""), ConnectionType::WiFi);
    assert_eq!(classify_connection("WiFi 2", "802.3"), ConnectionType::WiFi);
    assert_eq!(classify_connection("Intel Wireless-AC", ""), ConnectionType::WiFi);
    assert_eq!(classify_connection("adapter", "Native 802.11"), ConnectionType::WiFi);
    assert_eq!(classify_connection("WLAN", ""), ConnectionType::WiFi);
    assert_eq!(classify_connection("Ethernet", ""), ConnectionType::Ethernet);
    assert_eq!(classify_connection("Local", "802.3"), ConnectionType::Ethernet);
    assert_eq!(classify_connection("Ethernet over Wi-Fi", ""), ConnectionType::WiFi);
    assert_eq!(classify_connection("Bluetooth", ""), ConnectionType::Unknown);
    assert_eq!(classify_connection("", ""), ConnectionType::Unknown);
    assert_eq!(classify_connection("wifi", "ethernet"), ConnectionType::Unknown);
}

#[test]
fn records_become_adapters_in_order() {
    let adapters = get_network_adapters(Ok(vec![
        record("Wi-Fi", "10.0.0.2", "10.0.0.1", ""),
        record("Ethernet", "N/A", "N/A", ""),
    ]));
    assert_eq!(adapters.len(), 2);
    assert_eq!(adapters[0].name, "Wi-Fi");
    assert_eq!(adapters[0].connection_type, ConnectionType::WiFi);
    assert_eq!(adapters[1].name, "Ethernet");
    assert_eq!(adapters[1].ip_addresses, vec!["Не назначен"]);
    assert!(get_network_adapters(Ok(Vec::new())).is_empty());
}

#[test]
fn a_failed_query_gives_exactly_one_placeholder_record() {
    for (error, name) in [
        (AdapterQueryError::CommandFailed, "Ошибка выполнения команды"),
        (AdapterQueryError::ParseFailed, "Ошибка парсинга"),
    ] {
        let adapters = get_network_adapters(Err(error));
        assert_eq!(adapters.len(), 1);
        let a = &adapters[0];
        assert_eq!(a.name, name);
        assert_eq!(a.status, "N/A");
        assert_eq!(a.mac_address, "N/A");
        assert_eq!(a.ip_addresses, vec!["N/A"]);
        assert_eq!(a.dns_servers, vec!["N/A"]);
        assert_eq!(a.gateway, "N/A");
        assert_eq!(a.connection_type, ConnectionType::Unknown);
        assert!(!a.is_online);
        assert_eq!(a.ping_to_gateway, None);
    }
}

#[test]
fn an_adapter_is_online_when_its_gateway_answers() {
    let adapter = adapter_from_record(&record("Wi-Fi", "10.0.0.2", "10.0.0.1", ""));
    let online = adapter.with_gateway_probe(Some(1_500));
    assert!(online.is_online);
    assert_eq!(online.ping_to_gateway, Some(1_500));
    assert_eq!(online.name, "Wi-Fi");
    assert_eq!(online.dns_servers, vec!["10.0.0.1"]);
    let offline = online.with_gateway_probe(None);
    assert!(!offline.is_online);
    assert_eq!(offline.ping_to_gateway, None);
    assert_eq!(offline.ip_addresses, vec!["10.0.0.2"]);
}
