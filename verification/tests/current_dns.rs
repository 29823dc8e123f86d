use dns_manager::command::{
    cmd_invocation, cmd_result, failure_of, powershell_invocation, powershell_result,
    CommandOutcome,
};
use dns_manager::error::DnsError;
use dns_manager::providers::{
    current_dns_from_ipconfig, current_dns_from_powershell, current_dns_query, get_current_dns,
    get_dns_providers, ipconfig_query, is_dhcp_dns, reset_dns, set_dns, uses_public_dns,
};

fn finished(success: bool, stdout: &str, stderr: &str) -> CommandOutcome {
    CommandOutcome::Finished {
        success,
        stdout: stdout.to_string(),
        stderr: stderr.to_string(),
    }
}

fn ok(stdout: &str) -> CommandOutcome {
    finished(true, stdout, "")
}

#[test]
fn the_catalog_is_fixed() {
    let providers = get_dns_providers();
    let rows: Vec<(&str, &str, &str)> = providers
        .iter()
        .map(|p| (p.name.as_str(), p.primary.as_str(), p.secondary.as_str()))
        .collect();
    assert_eq!(
        rows,
        vec![
            ("Cloudflare", "1.1.1.1", "1.0.0.1"),
            ("Google", "8.8.8.8", "8.8.4.4"),
            ("Quad9", "9.9.9.9", "149.112.112.112"),
            ("OpenDNS", "208.67.222.222", "208.67.220.220"),
            ("AdGuard", "94.140.14.14", "94.140.15.15"),
            ("CleanBrowsing", "185.228.168.9", "185.228.169.9"),
        ]
    );
    assert_eq!(providers[0].description, "Быстрый и приватный DNS от Cloudflare");
    assert_eq!(providers[5].description, "Безопасный интернет для детей");
}

#[test]
fn the_catalog_has_no_name_twice_and_is_the_same_each_time() {
    let first = get_dns_providers();
    let second = get_dns_providers();
    for (i, a) in first.iter().enumerate() {
        assert_eq!(a.name, second[i].name);
        for b in first.iter().skip(i + 1) {
            assert_ne!(a.name, b.name);
        }
    }
}

#[test]
fn private_ranges_look_handed_out() {
    assert!(is_dhcp_dns("192.168.1.1"));
    assert!(is_dhcp_dns("10.0.0.1"));
    assert!(is_dhcp_dns("172.16.0.1"));
    assert!(is_dhcp_dns("8.8.8.8, 192.168.0.1"));
    assert!(is_dhcp_dns("8.8.8.8, 1.1.1.1, 10.1.2.3"));
    assert!(!is_dhcp_dns("8.8.8.8, 1.1.1.1"));
    assert!(!is_dhcp_dns(""));
}

#[test]
fn an_address_counts_by_how_it_begins() {
    assert!(!is_dhcp_dns("110.5.5.5"));
    assert!(!is_dhcp_dns("110.1.1.1"));
    assert!(!is_dhcp_dns("1.1.1.10."));
    assert!(!is_dhcp_dns("8.8.172.1"));
    assert!(!is_dhcp_dns("1.192.168.1"));
    assert!(!is_dhcp_dns("8.8.8.8, 210.1.1.1"));
    assert!(!is_dhcp_dns("192.169.1.1"));
    assert!(!is_dhcp_dns("10"));
    // The members stand with a comma and a space between them.
    assert!(!is_dhcp_dns("8.8.8.8,10.0.0.1"));
    assert!(!is_dhcp_dns(" 10.0.0.1"));
}

#[test]
fn the_structured_report_is_deduplicated_and_joined() {
    let out = ok("8.8.8.8\r\n8.8.4.4\r\n8.8.8.8\r\n\r\n8.8.4.4\n1.1.1.1");
    assert_eq!(current_dns_from_powershell(&out).unwrap(), "8.8.8.8, 8.8.4.4, 1.1.1.1");
}

#[test]
fn the_structured_report_marks_private_addresses() {
    let out = ok("  192.168.1.1 \n");
    assert_eq!(current_dns_from_powershell(&out).unwrap(), "Автопилот (DHCP): 192.168.1.1");
    let out = ok("8.8.8.8\n10.0.0.1\n");
    assert_eq!(
        current_dns_from_powershell(&out).unwrap(),
        "Автопилот (DHCP): 8.8.8.8, 10.0.0.1"
    );
}

#[test]
fn the_structured_report_leaves_public_addresses_unmarked() {
    assert_eq!(current_dns_from_powershell(&ok("110.5.5.5")).unwrap(), "110.5.5.5");
    assert_eq!(
        current_dns_from_powershell(&ok("1.1.1.10\n8.8.172.1")).unwrap(),
        "1.1.1.10, 8.8.172.1"
    );
    assert_eq!(
        get_current_dns(&ok("110.5.5.5"), &ok("")).unwrap(),
        "110.5.5.5"
    );
}

#[test]
fn an_empty_or_failed_structured_report_asks_for_the_fallback() {
    assert_eq!(current_dns_from_powershell(&ok("")), None);
    assert_eq!(current_dns_from_powershell(&ok(" \r\n\t ")), None);
    assert_eq!(current_dns_from_powershell(&finished(false, "8.8.8.8", "boom")), None);
    assert_eq!(current_dns_from_powershell(&CommandOutcome::LaunchDenied), None);
    assert_eq!(current_dns_from_powershell(&CommandOutcome::TimedOut), None);
}

#[test]
fn the_free_text_report_is_read_line_by_line() {
    let report = "Windows IP Configuration\r\n\r\n   Host Name . . . : box\r\n   DNS Servers . . . . . . . . . . . : 8.8.8.8, 0.0.0.0 , ,1.1.1.1\r\n   NetBIOS over Tcpip. . . . . . . . : Enabled\r\n   DNS Servers . . . : 9.9.9.9\r\n";
    assert_eq!(
        current_dns_from_ipconfig(&ok(report)).unwrap(),
        "8.8.8.8, 1.1.1.1, 9.9.9.9"
    );
}

#[test]
fn the_free_text_report_marks_what_the_network_handed_out() {
    let report = "   DNS servers configured through DHCP . : 10.0.0.1\n   DNS Servers . . . : 10.0.0.1\n";
    assert_eq!(
        current_dns_from_ipconfig(&ok(report)).unwrap(),
        "Автопилот (DHCP): 10.0.0.1"
    );
    let report = "   DNS servers configured through DHCP . : 8.8.8.8\n   DNS Servers . . . : 8.8.8.8\n";
    assert_eq!(
        current_dns_from_ipconfig(&ok(report)).unwrap(),
        "Автопилот (DHCP): 8.8.8.8"
    );
    let report = "   DNS Servers . . . : 8.8.8.8, 192.168.1.1\n";
    assert_eq!(
        current_dns_from_ipconfig(&ok(report)).unwrap(),
        "Автопилот (DHCP): 8.8.8.8, 192.168.1.1"
    );
    let report = "   DNS Servers . . . : 110.5.5.5\n";
    assert_eq!(current_dns_from_ipconfig(&ok(report)).unwrap(), "110.5.5.5");
}

#[test]
fn the_free_text_report_without_servers_is_an_error() {
    for report in ["", "nothing here", "   DNS Servers . . . : None\n", "   DNS Servers . . . : \n", "DNS Servers", "   DNS Servers . . . : 0.0.0.0\n"] {
        assert_eq!(
            current_dns_from_ipconfig(&ok(report)).unwrap_err(),
            "No DNS servers found",
            "{:?}",
            report
        );
    }
}

#[test]
fn no_address_from_either_report_is_an_error() {
    assert_eq!(get_current_dns(&ok(""), &ok("")).unwrap_err(), "No DNS servers found");
    assert_eq!(
        get_current_dns(&ok(" \r\n"), &ok("Windows IP Configuration\r\n")).unwrap_err(),
        "No DNS servers found"
    );
    assert_eq!(
        get_current_dns(&CommandOutcome::TimedOut, &ok("   DNS Servers . . . : None\n")).unwrap_err(),
        "No DNS servers found"
    );
    assert_eq!(
        get_current_dns(&ok(""), &CommandOutcome::LaunchDenied).unwrap_err(),
        "Permission denied. Please run as administrator."
    );
}

#[test]
fn the_free_text_report_that_could_not_be_had() {
    assert_eq!(
        current_dns_from_ipconfig(&finished(false, "x", "Access is denied")).unwrap_err(),
        "Command execution failed"
    );
    assert_eq!(
        current_dns_from_ipconfig(&CommandOutcome::LaunchDenied).unwrap_err(),
        "Permission denied. Please run as administrator."
    );
}

#[test]
fn the_structured_report_wins_over_the_free_text() {
    let ps = ok("8.8.8.8");
    let ipconfig = ok("   DNS Servers . . . : 9.9.9.9\n");
    assert_eq!(get_current_dns(&ps, &ipconfig).unwrap(), "8.8.8.8");
    assert_eq!(get_current_dns(&ok(""), &ipconfig).unwrap(), "9.9.9.9");
    assert_eq!(
        get_current_dns(&CommandOutcome::LaunchFailed("no such file".to_string()), &ipconfig).unwrap(),
        "9.9.9.9"
    );
    assert_eq!(
        get_current_dns(&ok(""), &finished(false, "", "")).unwrap_err(),
        "Command execution failed"
    );
}

#[test]
fn the_command_that_sets_resolvers() {
    assert_eq!(
        set_dns(" 1.1.1.1", "2001:DB8::1 ").unwrap(),
        "Get-NetAdapter | Where-Object { $_.Status -eq 'Up' } | ForEach-Object {\n    Set-DnsClientServerAddress -InterfaceAlias $_.Name -ServerAddresses ('1.1.1.1','2001:db8::1')\n}"
    );
}

#[test]
fn no_command_for_text_that_is_no_address() {
    assert_eq!(set_dns("1.1.1.1", "1.1.1.1'); Remove-Item x; ('").unwrap_err(), "Invalid IP address: 1.1.1.1'); Remove-Item x; ('");
    assert_eq!(set_dns("", "1.1.1.1").unwrap_err(), "Invalid IP address: ");
    assert_eq!(set_dns("a", "b").unwrap_err(), "Invalid IP address: a");
}

#[test]
fn the_commands_that_ask_and_reset() {
    assert_eq!(
        current_dns_query(),
        "Get-DnsClientServerAddress | Where-Object { $_.AddressFamily -eq 2 } | Select-Object -ExpandProperty ServerAddresses"
    );
    assert_eq!(ipconfig_query(), "ipconfig /all");
    let reset = reset_dns();
    assert!(reset.starts_with("Get-NetAdapter | Where-Object { $_.Status -eq 'Up' } | ForEach-Object {\n"));
    assert!(reset.contains("    Set-DnsClientServerAddress -InterfaceAlias $_.Name -ResetServerAddresses\n"));
    assert!(reset.ends_with("    Set-NetIPInterface -InterfaceAlias $_.Name -Dhcp Enabled\n}"));
}

#[test]
fn invocations_name_the_program_below_the_system_root() {
    let call = powershell_invocation(Some("D:\\Win"), "Get-Date");
    assert_eq!(call.program, "D:\\Win\\System32\\WindowsPowerShell\\v1.0\\powershell.exe");
    assert_eq!(call.args, vec!["-NoProfile", "-NonInteractive", "-Command", "Get-Date"]);
    let call = powershell_invocation(None, "x");
    assert_eq!(call.program, "C:\\Windows\\System32\\WindowsPowerShell\\v1.0\\powershell.exe");
    let call = cmd_invocation(None, "ipconfig /all");
    assert_eq!(call.program, "C:\\Windows\\System32\\cmd.exe");
    assert_eq!(call.args, vec!["/C", "ipconfig /all"]);
    let call = cmd_invocation(Some("E:\\W"), "ver");
    assert_eq!(call.program, "E:\\W\\System32\\cmd.exe");
}

#[test]
fn what_an_outcome_means() {
    assert_eq!(powershell_result(&ok("  hello \r\n")).unwrap(), "hello");
    assert_eq!(cmd_result(&ok("\n hi there\n")).unwrap(), "hi there");
    assert_eq!(
        powershell_result(&finished(false, "out", " Set-Dns : Access is denied. \n")).unwrap_err(),
        "Access denied. Administrator rights required."
    );
    assert_eq!(
        powershell_result(&finished(false, "secret", "secret detail")).unwrap_err(),
        "Command execution failed"
    );
    assert_eq!(
        cmd_result(&finished(false, "", "Access is denied")).unwrap_err(),
        "Command execution failed"
    );
    assert_eq!(
        powershell_result(&CommandOutcome::LaunchDenied).unwrap_err(),
        "Permission denied. Please run as administrator."
    );
    assert_eq!(
        powershell_result(&CommandOutcome::LaunchFailed("not found".to_string())).unwrap_err(),
        "Failed to execute command: not found"
    );
    assert_eq!(cmd_result(&CommandOutcome::TimedOut).unwrap_err(), "Operation timed out");
}

#[test]
fn failures_are_told_apart_by_kind() {
    assert!(failure_of(&ok("fine"), "cmd").is_none());
    assert!(matches!(failure_of(&CommandOutcome::LaunchDenied, "cmd"), Some(DnsError::PermissionDenied)));
    assert!(matches!(failure_of(&CommandOutcome::TimedOut, "cmd"), Some(DnsError::Timeout)));
    match failure_of(&CommandOutcome::LaunchFailed("no such file".to_string()), "cmd") {
        Some(DnsError::Other(message)) => assert_eq!(message, "Failed to execute command: no such file"),
        other => panic!("unexpected: {:?}", other),
    }
    assert!(matches!(
        failure_of(&finished(false, "", "x: Access is denied."), "cmd"),
        Some(DnsError::PermissionDenied)
    ));
    match failure_of(&finished(false, "out", "raw detail"), "Set-Thing") {
        Some(DnsError::CommandFailed { command, stderr }) => {
            assert_eq!(command, "Set-Thing");
            assert_eq!(stderr, "Command execution failed");
        }
        other => panic!("unexpected: {:?}", other),
    }
}

#[test]
fn public_resolvers_are_known_by_their_first_address() {
    assert!(uses_public_dns("1.1.1.1, 1.0.0.1"));
    assert!(uses_public_dns("Автопилот (DHCP): 10.0.0.1, 8.8.8.8"));
    assert!(uses_public_dns("9.9.9.9"));
    assert!(uses_public_dns("208.67.222.222"));
    assert!(uses_public_dns("94.140.14.14"));
    assert!(!uses_public_dns("185.228.168.9"));
    assert!(!uses_public_dns("192.168.1.1"));
    assert!(!uses_public_dns(""));
}
