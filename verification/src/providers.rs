//! The catalog of public resolvers, and the reading of the system's current
//! resolver configuration.

use crate::command::{
    cmd_meaning, cmd_result, option_view, powershell_meaning, powershell_result, result_view,
    CommandOutcome, OutcomeView,
};
use crate::text::{
    append, chars_of, contains, contains_text, dedup, distinct, join, joined, lines, matches_at,
    occurs_at, same_text, split, split_lines, split_text, split_words, string_of, trim, trimmed,
    views, words,
};
use crate::error::{error_message, DnsErrorView};
use crate::validation::{
    canonical_ip, canonical_ip_is_safe, is_ip_text, sanitize_powershell_arg, validate_dns_pair,
};
use vstd::prelude::*;

verus! {

/// A named public resolver service.
#[derive(Clone, Debug)]
pub struct DNSProvider {
    pub name: String,
    pub primary: String,
    /// Empty where the service has no second address.
    pub secondary: String,
    pub description: String,
}

/// The mathematical value of a `DNSProvider`.
pub struct ProviderView {
    pub name: Seq<char>,
    pub primary: Seq<char>,
    pub secondary: Seq<char>,
    pub description: Seq<char>,
}

impl View for DNSProvider {
    type V = ProviderView;

    open spec fn view(&self) -> ProviderView {
        ProviderView {
            name: self.name@,
            primary: self.primary@,
            secondary: self.secondary@,
            description: self.description@,
        }
    }
}

/// The views of `providers`, in order.
pub open spec fn provider_views(providers: Seq<DNSProvider>) -> Seq<ProviderView> {
    Seq::new(providers.len(), |i: int| providers[i]@)
}

/// The catalog: six services, in this order.
pub open spec fn catalog() -> Seq<ProviderView> {
    seq![
        ProviderView {
            name: "Cloudflare"@,
            primary: "1.1.1.1"@,
            secondary: "1.0.0.1"@,
            description: "Быстрый и приватный DNS от Cloudflare"@,
        },
        ProviderView {
            name: "Google"@,
            primary: "8.8.8.8"@,
            secondary: "8.8.4.4"@,
            description: "Надежный DNS от Google"@,
        },
        ProviderView {
            name: "Quad9"@,
            primary: "9.9.9.9"@,
            secondary: "149.112.112.112"@,
            description: "Защита от вредоносных сайтов"@,
        },
        ProviderView {
            name: "OpenDNS"@,
            primary: "208.67.222.222"@,
            secondary: "208.67.220.220"@,
            description: "Семейная фильтрация контента"@,
        },
        ProviderView {
            name: "AdGuard"@,
            primary: "94.140.14.14"@,
            secondary: "94.140.15.15"@,
            description: "Блокировка рекламы"@,
        },
        ProviderView {
            name: "CleanBrowsing"@,
            primary: "185.228.168.9"@,
            secondary: "185.228.169.9"@,
            description: "Безопасный интернет для детей"@,
        },
    ]
}

fn provider(name: &str, primary: &str, secondary: &str, description: &str) -> (p: DNSProvider)
    ensures
        p@ == (ProviderView {
            name: name@,
            primary: primary@,
            secondary: secondary@,
            description: description@,
        }),
{
    DNSProvider {
        name: name.to_owned(),
        primary: primary.to_owned(),
        secondary: secondary.to_owned(),
        description: description.to_owned(),
    }
}

/// A copy of `p`.
pub fn copy_provider(p: &DNSProvider) -> (out: DNSProvider)
    ensures
        out@ == p@,
{
    DNSProvider {
        name: p.name.clone(),
        primary: p.primary.clone(),
        secondary: p.secondary.clone(),
        description: p.description.clone(),
    }
}

/// A copy of `providers`.
pub fn copy_providers(providers: &Vec<DNSProvider>) -> (out: Vec<DNSProvider>)
    ensures
        provider_views(out@) == provider_views(providers@),
{
    let mut out: Vec<DNSProvider> = Vec::new();
    let mut i: usize = 0;
    while i < providers.len()
        invariant
            i <= providers.len(),
            out@.len() == i,
            forall|j: int| 0 <= j < i ==> (#[trigger] out@[j])@ == providers@[j]@,
        decreases providers.len() - i,
    {
        out.push(copy_provider(&providers[i]));
        i += 1;
    }
    assert(provider_views(out@) =~= provider_views(providers@));
    out
}

/// The catalog of resolver services, always the same and in the same order.
pub fn get_dns_providers() -> (out: Vec<DNSProvider>)
    ensures
        provider_views(out@) == catalog(),
{
    let mut out: Vec<DNSProvider> = Vec::new();
    out.push(provider("Cloudflare", "1.1.1.1", "1.0.0.1", "Быстрый и приватный DNS от Cloudflare"));
    out.push(provider("Google", "8.8.8.8", "8.8.4.4", "Надежный DNS от Google"));
    out.push(provider("Quad9", "9.9.9.9", "149.112.112.112", "Защита от вредоносных сайтов"));
    out.push(
        provider("OpenDNS", "208.67.222.222", "208.67.220.220", "Семейная фильтрация контента"),
    );
    out.push(provider("AdGuard", "94.140.14.14", "94.140.15.15", "Блокировка рекламы"));
    out.push(
        provider("CleanBrowsing", "185.228.168.9", "185.228.169.9", "Безопасный интернет для детей"),
    );
    assert(provider_views(out@) =~= catalog());
    out
}

/// No two services of the catalog have the same name.
pub proof fn catalog_names_are_unique()
    ensures
        forall|i: int, j: int|
            0 <= i < catalog().len() && 0 <= j < catalog().len() && i != j ==> catalog()[i].name
                != catalog()[j].name,
{
    reveal_strlit("Cloudflare");
    reveal_strlit("Google");
    reveal_strlit("Quad9");
    reveal_strlit("OpenDNS");
    reveal_strlit("AdGuard");
    reveal_strlit("CleanBrowsing");
    let c = catalog();
    assert(c[0].name[0] == 'C' && c[0].name.len() == 10);
    assert(c[1].name[0] == 'G');
    assert(c[2].name[0] == 'Q');
    assert(c[3].name[0] == 'O');
    assert(c[4].name[0] == 'A');
    assert(c[5].name[0] == 'C' && c[5].name.len() == 13);
}

/// What is put before addresses that the network handed out.
pub open spec fn dhcp_prefix() -> Seq<char> {
    "Автопилот (DHCP): "@
}

/// The message for a system of which neither report gave a resolver
/// address.
pub open spec fn no_addresses_message() -> Seq<char> {
    "No DNS servers found"@
}

/// Whether `address` begins as the addresses of the private ranges do: with
/// `10.`, `172.` or `192.168.`.
pub open spec fn in_private_range(address: Seq<char>) -> bool {
    occurs_at(address, "10."@, 0) || occurs_at(address, "172."@, 0) || occurs_at(
        address,
        "192.168."@,
        0,
    )
}

/// Whether one of `addresses` lies in a private range.
pub open spec fn any_in_private_range(addresses: Seq<Seq<char>>) -> bool {
    exists|i: int| 0 <= i < addresses.len() && in_private_range(#[trigger] addresses[i])
}

/// Whether the list `addresses`, whose members stand with `", "` between
/// them, looks as if the network handed it out: one of its members lies in a
/// private range. This is a guess and no more: a resolver that was set by
/// hand may lie in a private range too.
pub open spec fn looks_dhcp_assigned(addresses: Seq<char>) -> bool {
    any_in_private_range(split_text(addresses, ", "@))
}

/// The summary of the structured report `output`: its distinct words, joined
/// with `", "`, and marked where one of them lies in a private range. `None`
/// where the report holds no word.
pub open spec fn powershell_summary(output: Seq<char>) -> Option<Seq<char>> {
    if words(output).len() == 0 {
        None
    } else {
        let addresses = distinct(words(output));
        if any_in_private_range(addresses) {
            Some(dhcp_prefix() + joined(addresses, ", "@))
        } else {
            Some(joined(addresses, ", "@))
        }
    }
}

/// Of `items` from index `i` on, each one trimmed, but for those that are
/// then empty or `0.0.0.0`.
pub open spec fn cleaned_from(items: Seq<Seq<char>>, i: int) -> Seq<Seq<char>>
    decreases items.len() - i,
{
    if i < 0 || i >= items.len() {
        seq![]
    } else if trimmed(items[i]).len() == 0 || trimmed(items[i]) == "0.0.0.0"@ {
        cleaned_from(items, i + 1)
    } else {
        seq![trimmed(items[i])] + cleaned_from(items, i + 1)
    }
}

/// Whether `line` of the free-text report lists resolvers.
pub open spec fn lists_servers(line: Seq<char>) -> bool {
    contains_text(line, "DNS Servers"@) && !contains_text(line, "configured through DHCP"@)
}

/// The resolver addresses that `line` of the free-text report lists: what
/// stands between its first and second colon, cut at commas.
pub open spec fn line_servers(line: Seq<char>) -> Seq<Seq<char>> {
    let parts = split_text(line, ":"@);
    if lists_servers(line) && parts.len() > 1 && trimmed(parts[1]).len() > 0 && !contains_text(
        trimmed(parts[1]),
        "None"@,
    ) {
        cleaned_from(split_text(trimmed(parts[1]), ","@), 0)
    } else {
        seq![]
    }
}

/// The resolver addresses that the lines `ls` list from index `i` on.
pub open spec fn servers_from(ls: Seq<Seq<char>>, i: int) -> Seq<Seq<char>>
    decreases ls.len() - i,
{
    if i < 0 || i >= ls.len() {
        seq![]
    } else {
        line_servers(ls[i]) + servers_from(ls, i + 1)
    }
}

/// Whether a line of `ls` says that the resolvers came from the network.
pub open spec fn mentions_dhcp(ls: Seq<Seq<char>>) -> bool {
    exists|i: int| 0 <= i < ls.len() && contains_text(ls[i], "DNS servers configured through DHCP"@)
}

/// The summary of the free-text report `output`: the addresses that its
/// lines list, joined with `", "`, and marked where the report says that
/// they came from the network or where one of them lies in a private range.
/// `None` where the report lists no address.
pub open spec fn ipconfig_summary(output: Seq<char>) -> Option<Seq<char>> {
    let servers = servers_from(lines(output), 0);
    if servers.len() == 0 {
        None
    } else if mentions_dhcp(lines(output)) || any_in_private_range(servers) {
        Some(dhcp_prefix() + joined(servers, ", "@))
    } else {
        Some(joined(servers, ", "@))
    }
}

/// What the structured query's outcome says of the current resolvers, or
/// `None` where it says nothing and the free-text report is to be asked.
pub open spec fn primary_answer(outcome: OutcomeView) -> Option<Seq<char>> {
    match powershell_meaning(outcome) {
        Ok(output) => powershell_summary(output),
        Err(_) => None,
    }
}

/// What the free-text report's outcome says of the current resolvers. A
/// report that could not be had is an error, and so is one that lists no
/// address.
pub open spec fn fallback_answer(outcome: OutcomeView) -> Result<Seq<char>, Seq<char>> {
    match cmd_meaning(outcome) {
        Ok(output) => match ipconfig_summary(output) {
            Some(summary) => Ok(summary),
            None => Err(no_addresses_message()),
        },
        Err(message) => Err(message),
    }
}

/// The current resolvers, from the structured query where it answers, else
/// from the free-text report. Where neither gives an address the result is
/// an error.
pub open spec fn current_dns(powershell: OutcomeView, ipconfig: OutcomeView) -> Result<
    Seq<char>,
    Seq<char>,
> {
    match primary_answer(powershell) {
        Some(summary) => Ok(summary),
        None => fallback_answer(ipconfig),
    }
}

/// Whether the list `addresses`, whose members stand with `", "` between
/// them, looks as if the network handed it out.
pub fn is_dhcp_dns(addresses: &str) -> (r: bool)
    ensures
        r == looks_dhcp_assigned(addresses@),
{
    any_private(&split(&chars_of(addresses), &chars_of(", ")))
}

fn is_private(address: &Vec<char>) -> (r: bool)
    ensures
        r == in_private_range(address@),
{
    matches_at(address, &chars_of("10."), 0) || matches_at(address, &chars_of("172."), 0)
        || matches_at(address, &chars_of("192.168."), 0)
}

fn any_private(addresses: &Vec<Vec<char>>) -> (r: bool)
    ensures
        r == any_in_private_range(views(addresses@)),
{
    let mut i: usize = 0;
    while i < addresses.len()
        invariant
            i <= addresses.len(),
            forall|j: int| 0 <= j < i ==> !in_private_range(#[trigger] views(addresses@)[j]),
        decreases addresses.len() - i,
    {
        if is_private(&addresses[i]) {
            assert(in_private_range(views(addresses@)[i as int]));
            return true;
        }
        i += 1;
    }
    false
}

fn summarize_powershell(output: &Vec<char>) -> (r: Option<String>)
    ensures
        option_view(r) == powershell_summary(output@),
{
    let found = split_words(output);
    if found.len() == 0 {
        return None;
    }
    let addresses = dedup(&found);
    let text = join(&addresses, &chars_of(", "));
    if any_private(&addresses) {
        let mut marked = chars_of("Автопилот (DHCP): ");
        append(&mut marked, &text);
        Some(string_of(&marked))
    } else {
        Some(string_of(&text))
    }
}

fn clean_addresses(items: &Vec<Vec<char>>) -> (out: Vec<Vec<char>>)
    ensures
        views(out@) == cleaned_from(views(items@), 0),
{
    let mut out: Vec<Vec<char>> = Vec::new();
    let unspecified = chars_of("0.0.0.0");
    let mut i: usize = 0;
    while i < items.len()
        invariant
            i <= items.len(),
            unspecified@ == "0.0.0.0"@,
            views(out@) + cleaned_from(views(items@), i as int) == cleaned_from(views(items@), 0),
        decreases items.len() - i,
    {
        let item = trim(&items[i]);
        if item.len() != 0 && !same_text(&item, &unspecified) {
            proof {
                let rest = cleaned_from(views(items@), i + 1);
                assert(views(out@.push(item)) =~= views(out@) + seq![item@]);
                assert(views(out@) + (seq![item@] + rest) =~= views(out@) + seq![item@] + rest);
            }
            out.push(item);
        }
        i += 1;
    }
    assert(views(out@) + Seq::<Seq<char>>::empty() =~= views(out@));
    out
}

fn servers_of_line(line: &Vec<char>) -> (out: Vec<Vec<char>>)
    ensures
        views(out@) == line_servers(line@),
{
    if contains(line, &chars_of("DNS Servers")) && !contains(
        line,
        &chars_of("configured through DHCP"),
    ) {
        let parts = split(line, &chars_of(":"));
        if parts.len() > 1 {
            let ip_part = trim(&parts[1]);
            if ip_part.len() != 0 && !contains(&ip_part, &chars_of("None")) {
                return clean_addresses(&split(&ip_part, &chars_of(",")));
            }
        }
    }
    let out: Vec<Vec<char>> = Vec::new();
    assert(views(out@) =~= Seq::<Seq<char>>::empty());
    out
}

fn summarize_ipconfig(output: &Vec<char>) -> (r: Option<String>)
    ensures
        option_view(r) == ipconfig_summary(output@),
{
    let ls = split_lines(output);
    let marker = chars_of("DNS servers configured through DHCP");
    let mut servers: Vec<Vec<char>> = Vec::new();
    let mut is_dhcp = false;
    let mut i: usize = 0;
    while i < ls.len()
        invariant
            i <= ls.len(),
            marker@ == "DNS servers configured through DHCP"@,
            views(servers@) + servers_from(views(ls@), i as int) == servers_from(views(ls@), 0),
            is_dhcp == (exists|j: int| 0 <= j < i && contains_text(views(ls@)[j], marker@)),
        decreases ls.len() - i,
    {
        let ghost dhcp_before = is_dhcp;
        if contains(&ls[i], &marker) {
            is_dhcp = true;
        }
        let mut found = servers_of_line(&ls[i]);
        let ghost before = views(servers@);
        let ghost added = views(found@);
        let ghost rest = servers_from(views(ls@), i + 1);
        servers.append(&mut found);
        proof {
            assert(views(servers@) =~= before + added);
            assert(before + (added + rest) =~= before + added + rest);
            assert(is_dhcp == (exists|j: int|
                0 <= j < i + 1 && contains_text(views(ls@)[j], marker@))) by {
                if dhcp_before {
                    let j = choose|j: int| 0 <= j < i && contains_text(views(ls@)[j], marker@);
                    assert(0 <= j < i + 1 && contains_text(views(ls@)[j], marker@));
                }
                if contains_text(views(ls@)[i as int], marker@) {
                    assert(0 <= i < i + 1 && contains_text(views(ls@)[i as int], marker@));
                }
            }
        }
        i += 1;
    }
    proof {
        assert(views(servers@) + Seq::<Seq<char>>::empty() =~= views(servers@));
        assert(views(ls@) == lines(output@));
    }
    if servers.len() == 0 {
        None
    } else if is_dhcp || any_private(&servers) {
        let mut text = chars_of("Автопилот (DHCP): ");
        append(&mut text, &join(&servers, &chars_of(", ")));
        Some(string_of(&text))
    } else {
        Some(string_of(&join(&servers, &chars_of(", "))))
    }
}

/// What the structured query's outcome says of the current resolvers, or
/// `None` where the free-text report is to be asked instead.
pub fn current_dns_from_powershell(outcome: &CommandOutcome) -> (r: Option<String>)
    ensures
        option_view(r) == primary_answer(outcome@),
{
    match powershell_result(outcome) {
        Ok(output) => summarize_powershell(&chars_of(output.as_str())),
        Err(_) => None,
    }
}

/// What the free-text report's outcome says of the current resolvers. It
/// fails where the report could not be had and where it lists no address.
pub fn current_dns_from_ipconfig(outcome: &CommandOutcome) -> (r: Result<String, String>)
    ensures
        result_view(r) == fallback_answer(outcome@),
{
    match cmd_result(outcome) {
        Ok(output) => match summarize_ipconfig(&chars_of(output.as_str())) {
            Some(summary) => Ok(summary),
            None => Err("No DNS servers found".to_owned()),
        },
        Err(message) => Err(message),
    }
}

/// The current resolvers: from the structured query `powershell` where it
/// answers, else from the free-text report `ipconfig`. It fails exactly
/// when the first gives no address and the second could not be had or
/// gives none either.
pub fn get_current_dns(powershell: &CommandOutcome, ipconfig: &CommandOutcome) -> (r: Result<
    String,
    String,
>)
    ensures
        result_view(r) == current_dns(powershell@, ipconfig@),
{
    match current_dns_from_powershell(powershell) {
        Some(summary) => Ok(summary),
        None => current_dns_from_ipconfig(ipconfig),
    }
}

/// The command that asks for the resolvers of every IPv4 interface.
pub open spec fn current_dns_query_text() -> Seq<char> {
    "Get-DnsClientServerAddress | Where-Object { $_.AddressFamily -eq 2 } | Select-Object -ExpandProperty ServerAddresses"@
}

/// The command that asks for the free-text report.
pub open spec fn ipconfig_query_text() -> Seq<char> {
    "ipconfig /all"@
}

/// What stands before the first address in the command that sets resolvers.
pub open spec fn set_dns_opening() -> Seq<char> {
    "Get-NetAdapter | Where-Object { $_.Status -eq 'Up' } | ForEach-Object {\n    Set-DnsClientServerAddress -InterfaceAlias $_.Name -ServerAddresses ('"@
}

/// What stands between the two addresses.
pub open spec fn set_dns_between() -> Seq<char> {
    "','"@
}

/// What stands after the second address.
pub open spec fn set_dns_closing() -> Seq<char> {
    "')\n}"@
}

/// The command that gives every adapter that is up the two resolvers.
pub open spec fn set_dns_command(primary: Seq<char>, secondary: Seq<char>) -> Seq<char> {
    set_dns_opening() + primary + set_dns_between() + secondary + set_dns_closing()
}

/// The command that clears the resolvers of every adapter that is up and
/// has it take them from the network again.
pub open spec fn reset_dns_command() -> Seq<char> {
    "Get-NetAdapter | Where-Object { $_.Status -eq 'Up' } | ForEach-Object {\n    Set-DnsClientServerAddress -InterfaceAlias $_.Name -ResetServerAddresses\n    Set-NetIPInterface -InterfaceAlias $_.Name -Dhcp Enabled\n}"@
}

/// The address that is put into a command for `text`: its canonical text.
pub open spec fn command_address(text: Seq<char>) -> Seq<char> {
    canonical_ip(trimmed(text))
}

/// The PowerShell command that asks for the current resolvers.
pub fn current_dns_query() -> (command: String)
    ensures
        command@ == current_dns_query_text(),
{
    "Get-DnsClientServerAddress | Where-Object { $_.AddressFamily -eq 2 } | Select-Object -ExpandProperty ServerAddresses".to_owned()
}

/// The command of the command interpreter that asks for the free-text
/// report.
pub fn ipconfig_query() -> (command: String)
    ensures
        command@ == ipconfig_query_text(),
{
    "ipconfig /all".to_owned()
}

/// The PowerShell command that gives every adapter that is up the resolvers
/// `primary` and `secondary`, or the message of the error where one of the
/// two is no IP address. No text reaches the command but the canonical text
/// of a validated address, which the sanitizer is run over once more and
/// leaves as it is; where either address is refused there is no command at
/// all.
pub fn set_dns(primary: &str, secondary: &str) -> (r: Result<String, String>)
    ensures
        r is Ok <==> is_ip_text(trimmed(primary@)) && is_ip_text(trimmed(secondary@)),
        r matches Ok(command) ==> command@ == set_dns_command(
            command_address(primary@),
            command_address(secondary@),
        ),
        r matches Err(message) ==> message@ == error_message(
            DnsErrorView::InvalidIpAddress(
                if is_ip_text(trimmed(primary@)) {
                    trimmed(secondary@)
                } else {
                    trimmed(primary@)
                },
            ),
        ),
{
    match validate_dns_pair(primary, secondary) {
        Ok(pair) => {
            let safe_primary = sanitize_powershell_arg(pair.0.as_str());
            let safe_secondary = sanitize_powershell_arg(pair.1.as_str());
            proof {
                canonical_ip_is_safe(trimmed(primary@));
                canonical_ip_is_safe(trimmed(secondary@));
            }
            let mut text = chars_of(
                "Get-NetAdapter | Where-Object { $_.Status -eq 'Up' } | ForEach-Object {\n    Set-DnsClientServerAddress -InterfaceAlias $_.Name -ServerAddresses ('",
            );
            append(&mut text, &chars_of(safe_primary.as_str()));
            append(&mut text, &chars_of("','"));
            append(&mut text, &chars_of(safe_secondary.as_str()));
            append(&mut text, &chars_of("')\n}"));
            Ok(string_of(&text))
        },
        Err(error) => Err(error.to_message()),
    }
}

/// The PowerShell command that has every adapter that is up take its
/// resolvers from the network again.
pub fn reset_dns() -> (command: String)
    ensures
        command@ == reset_dns_command(),
{
    "Get-NetAdapter | Where-Object { $_.Status -eq 'Up' } | ForEach-Object {\n    Set-DnsClientServerAddress -InterfaceAlias $_.Name -ResetServerAddresses\n    Set-NetIPInterface -InterfaceAlias $_.Name -Dhcp Enabled\n}".to_owned()
}

/// Whether `current` names one of the well-known public resolvers: then a
/// switch back to the network's own resolvers is what is left to do.
pub open spec fn names_public_resolver(current: Seq<char>) -> bool {
    contains_text(current, "1.1.1.1"@) || contains_text(current, "8.8.8.8"@) || contains_text(
        current,
        "9.9.9.9"@,
    ) || contains_text(current, "208.67.222.222"@) || contains_text(current, "94.140.14.14"@)
}

/// Whether the summary `current` names one of the well-known public
/// resolvers.
pub fn uses_public_dns(current: &str) -> (r: bool)
    ensures
        r == names_public_resolver(current@),
{
    let text = chars_of(current);
    contains(&text, &chars_of("1.1.1.1")) || contains(&text, &chars_of("8.8.8.8")) || contains(
        &text,
        &chars_of("9.9.9.9"),
    ) || contains(&text, &chars_of("208.67.222.222")) || contains(&text, &chars_of("94.140.14.14"))
}

} // verus!
