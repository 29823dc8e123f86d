//! Probing a resolver: the command that measures the round trip, and the
//! reading of what it reports.
//!
//! A latency is a round trip in microseconds. Two report formats are read,
//! in this order: a bare number of milliseconds, and free text that holds a
//! reading such as `time=14ms`. A report that fits neither, or that gives
//! more than `MAX_LATENCY_MICROS`, gives no sample.

use crate::command::{powershell_meaning, powershell_result, CommandOutcome, OutcomeView};
use crate::text::{
    append, chars_of, matches_at, occurs_at, split, split_text, string_of, trim, trimmed,
};
use crate::validation::{
    canonical_ip, canonical_ip_is_safe, decimal_value, is_decimal_digit, is_digit, is_ip_text,
    sanitize_powershell_arg, validate_ip_address,
};
use vstd::prelude::*;

verus! {

/// The longest round trip that counts as a sample: one minute.
pub const MAX_LATENCY_MICROS: u32 = 60_000_000;

/// Whether `s` holds decimal digits only.
pub open spec fn all_digits(s: Seq<char>) -> bool {
    forall|i: int| 0 <= i < s.len() ==> is_digit(#[trigger] s[i])
}

/// The microseconds that the digits `f` after a decimal point of a number
/// of milliseconds are worth. Digits after the third are dropped.
pub open spec fn fraction_micros(f: Seq<char>) -> nat {
    if f.len() == 1 {
        decimal_value(f) * 100
    } else if f.len() == 2 {
        decimal_value(f) * 10
    } else {
        decimal_value(f.take(3))
    }
}

/// Whether `t` is a number: digits, and after them at most one point that is
/// followed by digits.
pub open spec fn is_number_text(t: Seq<char>) -> bool {
    let parts = split_text(t, seq!['.']);
    &&& parts.len() == 1 || parts.len() == 2
    &&& parts[0].len() > 0
    &&& all_digits(parts[0])
    &&& parts.len() == 2 ==> parts[1].len() > 0 && all_digits(parts[1])
}

/// The microseconds that the number of milliseconds `t` is worth.
pub open spec fn number_micros(t: Seq<char>) -> nat {
    let parts = split_text(t, seq!['.']);
    decimal_value(parts[0]) * 1000 + if parts.len() == 2 {
        fraction_micros(parts[1])
    } else {
        0
    }
}

/// What a report that is a bare number of milliseconds gives.
pub open spec fn numeric_latency(text: Seq<char>) -> Option<u32> {
    let t = trimmed(text);
    if is_number_text(t) && number_micros(t) <= MAX_LATENCY_MICROS {
        Some(number_micros(t) as u32)
    } else {
        None
    }
}

/// The first index at or after `i` that holds no digit, or the length.
pub open spec fn digits_end(s: Seq<char>, i: int) -> int
    decreases s.len() - i,
{
    if 0 <= i < s.len() && is_digit(s[i]) {
        digits_end(s, i + 1)
    } else {
        i
    }
}

/// Whether the unit of milliseconds stands in `s` at index `i`, in Latin or
/// in Cyrillic letters.
pub open spec fn unit_at(s: Seq<char>, i: int) -> bool {
    occurs_at(s, seq!['m', 's'], i) || occurs_at(s, seq!['м', 'с'], i)
}

/// Whether a reading begins in `s` at index `i`: a run of digits, with no
/// digit before it, that the unit follows at once.
pub open spec fn is_reading_at(s: Seq<char>, i: int) -> bool {
    &&& 0 <= i < s.len()
    &&& is_digit(s[i])
    &&& i == 0 || !is_digit(s[i - 1])
    &&& unit_at(s, digits_end(s, i))
}

/// The index at which the first reading at or after `i` begins.
pub open spec fn first_reading(s: Seq<char>, i: int) -> Option<int>
    decreases s.len() - i,
{
    if i < 0 || i >= s.len() {
        None
    } else if is_reading_at(s, i) {
        Some(i)
    } else {
        first_reading(s, i + 1)
    }
}

/// What a report in free text gives: its first reading, in microseconds.
pub open spec fn report_latency(text: Seq<char>) -> Option<u32> {
    match first_reading(text, 0) {
        Some(i) => {
            let millis = decimal_value(text.subrange(i, digits_end(text, i)));
            if millis * 1000 <= MAX_LATENCY_MICROS {
                Some((millis * 1000) as u32)
            } else {
                None
            }
        },
        None => None,
    }
}

/// What a report gives: read as a bare number where it is one, else as
/// free text.
pub open spec fn parsed_latency(text: Seq<char>) -> Option<u32> {
    match numeric_latency(text) {
        Some(v) => Some(v),
        None => report_latency(text),
    }
}

/// The digits of a part of a number are worth no more than all of them.
pub proof fn decimal_value_grows(s: Seq<char>, i: int)
    requires
        0 <= i <= s.len(),
        all_digits(s),
    ensures
        decimal_value(s.take(i)) <= decimal_value(s),
    decreases s.len(),
{
    if i == s.len() {
        assert(s.take(i) =~= s);
    } else {
        let shorter = s.drop_last();
        assert(shorter.take(i) =~= s.take(i));
        assert(all_digits(shorter)) by {
            assert forall|j: int| 0 <= j < shorter.len() implies is_digit(#[trigger] shorter[j]) by {
                assert(shorter[j] == s[j]);
            }
        }
        decimal_value_grows(shorter, i);
        assert(is_digit(s[s.len() - 1]));
    }
}

/// Whether `v[from..to]` holds digits only.
fn digits_only(v: &Vec<char>, from: usize, to: usize) -> (r: bool)
    requires
        from <= to <= v@.len(),
    ensures
        r == all_digits(v@.subrange(from as int, to as int)),
{
    let mut i: usize = from;
    while i < to
        invariant
            from <= i <= to <= v@.len(),
            forall|j: int| from <= j < i ==> is_digit(#[trigger] v@[j]),
        decreases to - i,
    {
        if !is_decimal_digit(v[i]) {
            assert(!is_digit(v@.subrange(from as int, to as int)[i - from]));
            return false;
        }
        i += 1;
    }
    assert forall|j: int| 0 <= j < to - from implies is_digit(
        #[trigger] v@.subrange(from as int, to as int)[j],
    ) by {
        assert(is_digit(v@[from + j]));
    }
    true
}

/// The number that the digits `v[from..to]` spell, where it is at most
/// `cap`.
fn value_up_to(v: &Vec<char>, from: usize, to: usize, cap: u64) -> (r: Option<u64>)
    requires
        from <= to <= v@.len(),
        all_digits(v@.subrange(from as int, to as int)),
        cap <= 1_000_000_000_000,
    ensures
        r is Some <==> decimal_value(v@.subrange(from as int, to as int)) <= cap,
        r matches Some(n) ==> n == decimal_value(v@.subrange(from as int, to as int)),
{
    let ghost digits = v@.subrange(from as int, to as int);
    let mut value: u64 = 0;
    let mut i: usize = from;
    while i < to
        invariant
            from <= i <= to <= v@.len(),
            digits == v@.subrange(from as int, to as int),
            all_digits(digits),
            cap <= 1_000_000_000_000,
            value == decimal_value(digits.take(i - from)),
            value <= cap,
        decreases to - i,
    {
        let c = v[i];
        proof {
            assert(digits.take(i - from + 1).drop_last() =~= digits.take(i - from));
            assert(digits[i - from] == c);
            assert(is_digit(digits[i - from]));
        }
        value = value * 10 + (c as u32 - '0' as u32) as u64;
        if value > cap {
            proof {
                decimal_value_grows(digits, i - from + 1);
            }
            return None;
        }
        i += 1;
    }
    proof {
        assert(digits.take(to - from) =~= digits);
    }
    Some(value)
}

/// Up to three digits are worth less than a thousand.
pub proof fn decimal_value_of_three(s: Seq<char>)
    requires
        s.len() <= 3,
        all_digits(s),
    ensures
        s.len() == 0 ==> decimal_value(s) == 0,
        s.len() == 1 ==> decimal_value(s) <= 9,
        s.len() == 2 ==> decimal_value(s) <= 99,
        decimal_value(s) <= 999,
    decreases s.len(),
{
    if s.len() > 0 {
        let shorter = s.drop_last();
        assert(all_digits(shorter)) by {
            assert forall|j: int| 0 <= j < shorter.len() implies is_digit(#[trigger] shorter[j]) by {
                assert(shorter[j] == s[j]);
            }
        }
        decimal_value_of_three(shorter);
        assert(is_digit(s[s.len() - 1]));
    }
}

/// What `report` gives where it is a bare number of milliseconds.
pub fn parse_numeric_report(report: &Vec<char>) -> (r: Option<u32>)
    ensures
        r == numeric_latency(report@),
{
    let t = trim(report);
    let mut dot: Vec<char> = Vec::new();
    dot.push('.');
    assert(dot@ =~= seq!['.']);
    let parts = split(&t, &dot);
    let ghost texts = split_text(t@, seq!['.']);
    if parts.len() != 1 && parts.len() != 2 {
        return None;
    }
    let whole = &parts[0];
    assert(whole@ == texts[0]);
    assert(whole@.subrange(0, whole@.len() as int) =~= whole@);
    if whole.len() == 0 || !digits_only(whole, 0, whole.len()) {
        return None;
    }
    let mut fraction: u64 = 0;
    if parts.len() == 2 {
        let f = &parts[1];
        assert(f@ == texts[1]);
        assert(f@.subrange(0, f@.len() as int) =~= f@);
        if f.len() == 0 || !digits_only(f, 0, f.len()) {
            return None;
        }
        let kept: usize = if f.len() < 3 {
            f.len()
        } else {
            3
        };
        proof {
            assert(f@.subrange(0, kept as int) =~= f@.take(kept as int));
            assert(all_digits(f@.take(kept as int))) by {
                assert forall|j: int| 0 <= j < kept implies is_digit(
                    #[trigger] f@.take(kept as int)[j],
                ) by {
                    assert(is_digit(f@[j]));
                }
            }
            decimal_value_of_three(f@.take(kept as int));
            if f@.len() < 3 {
                assert(f@.take(kept as int) =~= f@);
            }
        }
        match value_up_to(f, 0, kept, 999) {
            Some(n) => {
                fraction = if f.len() == 1 {
                    n * 100
                } else if f.len() == 2 {
                    n * 10
                } else {
                    n
                };
            },
            None => {
                return None;
            },
        }
        assert(fraction == fraction_micros(f@));
    }
    match value_up_to(whole, 0, whole.len(), 60_000) {
        Some(millis) => {
            let micros: u64 = millis * 1000 + fraction;
            if micros <= MAX_LATENCY_MICROS as u64 {
                Some(micros as u32)
            } else {
                None
            }
        },
        None => None,
    }
}

fn digit_run_end(v: &Vec<char>, i: usize) -> (end: usize)
    requires
        i <= v@.len(),
    ensures
        end == digits_end(v@, i as int),
        i <= end <= v@.len(),
        all_digits(v@.subrange(i as int, end as int)),
{
    let mut end: usize = i;
    while end < v.len() && is_decimal_digit(v[end])
        invariant
            i <= end <= v@.len(),
            digits_end(v@, end as int) == digits_end(v@, i as int),
            forall|j: int| i <= j < end ==> is_digit(#[trigger] v@[j]),
        decreases v@.len() - end,
    {
        end += 1;
    }
    assert forall|j: int| 0 <= j < end - i implies is_digit(
        #[trigger] v@.subrange(i as int, end as int)[j],
    ) by {
        assert(is_digit(v@[i + j]));
    }
    end
}

/// What `report` gives where it is free text that holds a reading.
pub fn parse_text_report(report: &Vec<char>) -> (r: Option<u32>)
    ensures
        r == report_latency(report@),
{
    let mut latin: Vec<char> = Vec::new();
    latin.push('m');
    latin.push('s');
    assert(latin@ =~= seq!['m', 's']);
    let mut cyrillic: Vec<char> = Vec::new();
    cyrillic.push('м');
    cyrillic.push('с');
    assert(cyrillic@ =~= seq!['м', 'с']);
    let mut i: usize = 0;
    while i < report.len()
        invariant
            i <= report@.len(),
            latin@ == seq!['m', 's'],
            cyrillic@ == seq!['м', 'с'],
            first_reading(report@, i as int) == first_reading(report@, 0),
        decreases report@.len() - i,
    {
        if is_decimal_digit(report[i]) && (i == 0 || !is_decimal_digit(report[i - 1])) {
            let end = digit_run_end(report, i);
            if matches_at(report, &latin, end) || matches_at(report, &cyrillic, end) {
                assert(is_reading_at(report@, i as int));
                return match value_up_to(report, i, end, 60_000) {
                    Some(millis) => Some((millis * 1000) as u32),
                    None => None,
                };
            }
        }
        i += 1;
    }
    None
}

/// What `report` gives: read as a bare number of milliseconds where it is
/// one, else as free text. `None` where neither reading gives a sample.
pub fn parse_latency(report: &str) -> (r: Option<u32>)
    ensures
        r == parsed_latency(report@),
{
    let chars = chars_of(report);
    match parse_numeric_report(&chars) {
        Some(v) => Some(v),
        None => parse_text_report(&chars),
    }
}

/// The command that probes `address` once.
pub open spec fn ping_command_text(address: Seq<char>) -> Seq<char> {
    "Test-Connection -ComputerName "@ + address
        + " -Count 1 | Select-Object -ExpandProperty ResponseTime"@
}

/// The sample that a probe of `ip` with the outcome given stands for. There
/// is none where `ip` is no address, where the probe did not run to a good
/// end, or where its report could not be read.
pub open spec fn probe_sample(ip: Seq<char>, outcome: OutcomeView) -> Option<u32> {
    if !is_ip_text(trimmed(ip)) {
        None
    } else {
        match powershell_meaning(outcome) {
            Ok(report) => parsed_latency(report),
            Err(_) => None,
        }
    }
}

/// The PowerShell command that probes `ip` once, or `None` where `ip` is no
/// IP address. The command holds the address in its canonical text and
/// nothing else of `ip`.
pub fn ping_command(ip: &str) -> (r: Option<String>)
    ensures
        r is Some <==> is_ip_text(trimmed(ip@)),
        r matches Some(command) ==> command@ == ping_command_text(canonical_ip(trimmed(ip@))),
{
    match validate_ip_address(ip) {
        Ok(address) => {
            let safe = sanitize_powershell_arg(address.as_str());
            proof {
                canonical_ip_is_safe(trimmed(ip@));
            }
            let mut text = chars_of("Test-Connection -ComputerName ");
            append(&mut text, &chars_of(safe.as_str()));
            append(
                &mut text,
                &chars_of(" -Count 1 | Select-Object -ExpandProperty ResponseTime"),
            );
            Some(string_of(&text))
        },
        Err(_) => None,
    }
}

/// The sample that a probe of `ip` gave, in microseconds. A probe that
/// failed, for whatever reason, gives no sample and no error.
pub fn ping_dns_server(ip: &str, outcome: &CommandOutcome) -> (r: Option<u32>)
    ensures
        r == probe_sample(ip@, outcome@),
{
    if validate_ip_address(ip).is_err() {
        return None;
    }
    match powershell_result(outcome) {
        Ok(report) => parse_latency(report.as_str()),
        Err(_) => None,
    }
}

} // verus!
