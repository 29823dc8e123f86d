//! Validation of IP address text.
//!
//! Nothing but the text of an IPv4 or IPv6 address passes `validate_ip_address`:
//! no host name, no address with anything before or after it. What passes is
//! handed back in one canonical spelling.

use crate::canonical::validation_is_idempotent;
use crate::error::{DnsError, DnsErrorView, DnsResult};
use crate::text::{
    append, chars_of, contains_text, find, join, join_rest, joined, occurs_at, slice_of, split,
    split_text, split_then_join, string_of, trim, trimmed, views,
};
use vstd::prelude::*;

verus! {

/// Whether `c` may stand in an argument of a command: an ASCII letter or
/// digit, a dot, a colon or a hyphen.
pub open spec fn is_safe_char(c: char) -> bool {
    ('a' <= c <= 'z') || ('A' <= c <= 'Z') || ('0' <= c <= '9') || c == '.' || c == ':' || c
        == '-'
}

/// `s` without the characters that may not stand in an argument.
pub open spec fn sanitized(s: Seq<char>) -> Seq<char>
    decreases s.len(),
{
    if s.len() == 0 {
        s
    } else if is_safe_char(s.last()) {
        sanitized(s.drop_last()).push(s.last())
    } else {
        sanitized(s.drop_last())
    }
}

/// Whether `c` is a decimal digit.
pub open spec fn is_digit(c: char) -> bool {
    '0' <= c <= '9'
}

/// The number that the decimal digits `s` spell.
pub open spec fn decimal_value(s: Seq<char>) -> nat
    decreases s.len(),
{
    if s.len() == 0 {
        0
    } else {
        (decimal_value(s.drop_last()) * 10 + (s.last() as u32 - '0' as u32)) as nat
    }
}

/// Whether `s` spells one part of a dotted address: one to three decimal
/// digits, without a zero in front of another digit, worth at most 255.
pub open spec fn is_octet_text(s: Seq<char>) -> bool {
    &&& 1 <= s.len() <= 3
    &&& forall|i: int| 0 <= i < s.len() ==> is_digit(#[trigger] s[i])
    &&& (s.len() == 1 || s[0] != '0')
    &&& decimal_value(s) <= 255
}

/// Whether `s` is the text of an IPv4 address: four parts with a dot between
/// each two.
pub open spec fn is_ipv4_text(s: Seq<char>) -> bool {
    let parts = split_text(s, seq!['.']);
    &&& parts.len() == 4
    &&& forall|i: int| 0 <= i < 4 ==> is_octet_text(#[trigger] parts[i])
}

/// Whether `c` may stand in an argument of a command.
pub fn is_safe(c: char) -> (r: bool)
    ensures
        r == is_safe_char(c),
{
    ('a' <= c && c <= 'z') || ('A' <= c && c <= 'Z') || ('0' <= c && c <= '9') || c == '.' || c
        == ':' || c == '-'
}

/// `arg` without every character that is no ASCII letter, digit, dot,
/// colon or hyphen; what is one of these stays, in its place and as often as
/// it stood there. This is a second line of defence for text that is put
/// into a command line; it does not replace validation.
pub fn sanitize_powershell_arg(arg: &str) -> (out: String)
    ensures
        out@ == sanitized(arg@),
        forall|i: int| 0 <= i < out@.len() ==> is_safe_char(#[trigger] out@[i]),
{
    let chars = chars_of(arg);
    let mut out: Vec<char> = Vec::new();
    let mut i: usize = 0;
    while i < chars.len()
        invariant
            i <= chars.len(),
            out@ == sanitized(chars@.take(i as int)),
        decreases chars.len() - i,
    {
        proof {
            assert(chars@.take(i + 1).drop_last() =~= chars@.take(i as int));
        }
        if is_safe(chars[i]) {
            out.push(chars[i]);
        }
        i += 1;
    }
    proof {
        assert(chars@.take(chars.len() as int) =~= chars@);
        sanitized_is_safe(arg@);
    }
    string_of(&out)
}

/// What is left after sanitizing holds only characters that may stand in an
/// argument.
pub proof fn sanitized_is_safe(s: Seq<char>)
    ensures
        forall|i: int| 0 <= i < sanitized(s).len() ==> is_safe_char(#[trigger] sanitized(s)[i]),
    decreases s.len(),
{
    if s.len() > 0 {
        sanitized_is_safe(s.drop_last());
        let inner = sanitized(s.drop_last());
        assert forall|i: int| 0 <= i < sanitized(s).len() implies is_safe_char(
            #[trigger] sanitized(s)[i],
        ) by {
            if i < inner.len() {
                assert(sanitized(s)[i] == inner[i]);
            }
        }
    }
}

/// Sanitizing twice gives what sanitizing once gives.
pub proof fn sanitize_is_idempotent(s: Seq<char>)
    ensures
        sanitized(sanitized(s)) == sanitized(s),
    decreases s.len(),
{
    if s.len() > 0 {
        sanitize_is_idempotent(s.drop_last());
        if is_safe_char(s.last()) {
            let inner = sanitized(s.drop_last());
            assert(inner.push(s.last()).drop_last() =~= inner);
        }
    }
}

/// Text that holds only characters that may stand in an argument is left as
/// it is.
pub proof fn sanitize_keeps_safe_text(s: Seq<char>)
    requires
        forall|i: int| 0 <= i < s.len() ==> is_safe_char(#[trigger] s[i]),
    ensures
        sanitized(s) == s,
    decreases s.len(),
{
    if s.len() > 0 {
        sanitize_keeps_safe_text(s.drop_last());
        assert(s.drop_last().push(s.last()) =~= s);
    }
}

/// Whether `c` is a decimal digit.
pub fn is_decimal_digit(c: char) -> (r: bool)
    ensures
        r == is_digit(c),
{
    '0' <= c && c <= '9'
}

/// The number that `part` spells as one part of a dotted address, if it
/// spells one.
pub fn parse_octet(part: &Vec<char>) -> (r: Option<u8>)
    ensures
        r is Some <==> is_octet_text(part@),
        r matches Some(v) ==> v == decimal_value(part@),
{
    if part.len() < 1 || part.len() > 3 {
        return None;
    }
    if part.len() > 1 && part[0] == '0' {
        return None;
    }
    let mut value: u32 = 0;
    let mut i: usize = 0;
    while i < part.len()
        invariant
            i <= part.len() <= 3,
            forall|j: int| 0 <= j < i ==> is_digit(#[trigger] part@[j]),
            value == decimal_value(part@.take(i as int)),
            value <= 999,
            i <= 2 ==> value <= 99,
            i <= 1 ==> value <= 9,
            i == 0 ==> value == 0,
        decreases part.len() - i,
    {
        let c = part[i];
        if !is_decimal_digit(c) {
            return None;
        }
        proof {
            assert(part@.take(i + 1).drop_last() =~= part@.take(i as int));
        }
        value = value * 10 + (c as u32 - '0' as u32);
        i += 1;
    }
    proof {
        assert(part@.take(part.len() as int) =~= part@);
    }
    if value <= 255 {
        Some(value as u8)
    } else {
        None
    }
}

/// The four parts of the IPv4 address that `text` spells, if it spells one.
pub fn parse_ipv4(text: &Vec<char>) -> (r: Option<[u8; 4]>)
    ensures
        r is Some <==> is_ipv4_text(text@),
        r matches Some(octets) ==> forall|i: int|
            0 <= i < 4 ==> octets[i] == decimal_value(#[trigger] split_text(text@, seq!['.'])[i]),
{
    let mut dot: Vec<char> = Vec::new();
    dot.push('.');
    assert(dot@ =~= seq!['.']);
    let parts = split(text, &dot);
    if parts.len() != 4 {
        return None;
    }
    let mut octets: [u8; 4] = [0, 0, 0, 0];
    let mut i: usize = 0;
    while i < 4
        invariant
            i <= 4,
            parts@.len() == 4,
            views(parts@) == split_text(text@, seq!['.']),
            forall|j: int| 0 <= j < i ==> is_octet_text(#[trigger] views(parts@)[j]),
            forall|j: int| 0 <= j < i ==> octets[j] == decimal_value(#[trigger] views(parts@)[j]),
        decreases 4 - i,
    {
        match parse_octet(&parts[i]) {
            Some(v) => {
                octets[i] = v;
            },
            None => {
                assert(!is_octet_text(views(parts@)[i as int]));
                return None;
            },
        }
        i += 1;
    }
    Some(octets)
}

/// Whether `c` is a hexadecimal digit, in either case.
pub open spec fn is_hex_digit(c: char) -> bool {
    ('0' <= c <= '9') || ('a' <= c <= 'f') || ('A' <= c <= 'F')
}

/// The worth of the hexadecimal digit `c`.
pub open spec fn hex_digit_value(c: char) -> nat {
    if '0' <= c <= '9' {
        (c as u32 - '0' as u32) as nat
    } else if 'a' <= c <= 'f' {
        (c as u32 - 'a' as u32 + 10) as nat
    } else {
        (c as u32 - 'A' as u32 + 10) as nat
    }
}

/// The number that the hexadecimal digits `s` spell.
pub open spec fn hex_value(s: Seq<char>) -> nat
    decreases s.len(),
{
    if s.len() == 0 {
        0
    } else {
        hex_value(s.drop_last()) * 16 + hex_digit_value(s.last())
    }
}

/// Whether `s` spells one group of an IPv6 address: one to four hexadecimal
/// digits.
pub open spec fn is_group_text(s: Seq<char>) -> bool {
    &&& 1 <= s.len() <= 4
    &&& forall|i: int| 0 <= i < s.len() ==> is_hex_digit(#[trigger] s[i])
}

/// The pieces of `text` between its colons; none where `text` is empty.
pub open spec fn colon_pieces(text: Seq<char>) -> Seq<Seq<char>> {
    if text.len() == 0 {
        Seq::empty()
    } else {
        split_text(text, seq![':'])
    }
}

/// Whether every one of `pieces` spells a group.
pub open spec fn all_groups(pieces: Seq<Seq<char>>) -> bool {
    forall|i: int| 0 <= i < pieces.len() ==> is_group_text(#[trigger] pieces[i])
}

/// Whether the last of `pieces` is a dotted address.
pub open spec fn ends_in_ipv4(pieces: Seq<Seq<char>>) -> bool {
    pieces.len() > 0 && is_ipv4_text(pieces.last())
}

/// Whether `pieces` spell groups, but for the last, which may be a dotted
/// address in place of two groups.
pub open spec fn is_group_list(pieces: Seq<Seq<char>>) -> bool {
    if ends_in_ipv4(pieces) {
        all_groups(pieces.drop_last())
    } else {
        all_groups(pieces)
    }
}

/// How many groups `pieces` stand for: a dotted address counts for two.
pub open spec fn group_count(pieces: Seq<Seq<char>>) -> int {
    if ends_in_ipv4(pieces) {
        pieces.len() as int + 1
    } else {
        pieces.len() as int
    }
}

/// The two groups that the dotted address `text` stands for.
pub open spec fn ipv4_groups(text: Seq<char>) -> Seq<nat> {
    let parts = split_text(text, seq!['.']);
    seq![
        decimal_value(parts[0]) * 256 + decimal_value(parts[1]),
        decimal_value(parts[2]) * 256 + decimal_value(parts[3]),
    ]
}

/// The numbers that the groups `pieces` spell.
pub open spec fn hex_values(pieces: Seq<Seq<char>>) -> Seq<nat> {
    Seq::new(pieces.len(), |i: int| hex_value(pieces[i]))
}

/// The numbers of the groups that `pieces` stand for.
pub open spec fn group_values(pieces: Seq<Seq<char>>) -> Seq<nat> {
    if ends_in_ipv4(pieces) {
        hex_values(pieces.drop_last()) + ipv4_groups(pieces.last())
    } else {
        hex_values(pieces)
    }
}

/// The first index at which `pat` stands in `s`, where it stands in `s`.
pub open spec fn first_index(s: Seq<char>, pat: Seq<char>) -> int {
    choose|i: int| occurs_at(s, pat, i) && forall|j: int| 0 <= j < i ==> !occurs_at(s, pat, j)
}

/// What stands in `s` before its first double colon.
pub open spec fn before_gap(s: Seq<char>) -> Seq<char> {
    s.subrange(0, first_index(s, seq![':', ':']))
}

/// What stands in `s` after its first double colon.
pub open spec fn after_gap(s: Seq<char>) -> Seq<char> {
    s.subrange(first_index(s, seq![':', ':']) + 2, s.len() as int)
}

/// Whether `s` is the text of an IPv6 address. Without a double colon it
/// is eight groups with a colon between each two, the last two of which may
/// be written as a dotted address. The first double colon stands for one or
/// more groups of zero: before it stand groups, after it groups whose last
/// two may be a dotted address, at most seven in all.
pub open spec fn is_ipv6_text(s: Seq<char>) -> bool {
    if contains_text(s, seq![':', ':']) {
        let head = colon_pieces(before_gap(s));
        let tail = colon_pieces(after_gap(s));
        all_groups(head) && is_group_list(tail) && head.len() + group_count(tail) <= 7
    } else {
        let pieces = split_text(s, seq![':']);
        is_group_list(pieces) && group_count(pieces) == 8
    }
}

/// `n` groups of zero.
pub open spec fn zeros(n: nat) -> Seq<nat> {
    Seq::new(n, |i: int| 0nat)
}

/// The eight groups of the IPv6 address that `s` spells.
pub open spec fn ipv6_groups(s: Seq<char>) -> Seq<nat> {
    if contains_text(s, seq![':', ':']) {
        let head = colon_pieces(before_gap(s));
        let tail = colon_pieces(after_gap(s));
        hex_values(head) + zeros((8 - head.len() - group_count(tail)) as nat) + group_values(tail)
    } else {
        group_values(split_text(s, seq![':']))
    }
}

/// Whether `s` is the text of an IP address of either family.
pub open spec fn is_ip_text(s: Seq<char>) -> bool {
    is_ipv4_text(s) || is_ipv6_text(s)
}

/// The numbers of `groups` as naturals.
pub open spec fn nats(groups: Seq<u16>) -> Seq<nat> {
    Seq::new(groups.len(), |i: int| groups[i] as nat)
}

/// The worth of `c` as a hexadecimal digit, if it is one.
pub fn hex_digit(c: char) -> (r: Option<u16>)
    ensures
        r is Some <==> is_hex_digit(c),
        r matches Some(v) ==> v == hex_digit_value(c) && v < 16,
{
    if '0' <= c && c <= '9' {
        Some((c as u32 - '0' as u32) as u16)
    } else if 'a' <= c && c <= 'f' {
        Some((c as u32 - 'a' as u32 + 10) as u16)
    } else if 'A' <= c && c <= 'F' {
        Some((c as u32 - 'A' as u32 + 10) as u16)
    } else {
        None
    }
}

/// The number that `piece` spells as a group, if it spells one.
pub fn parse_group(piece: &Vec<char>) -> (r: Option<u16>)
    ensures
        r is Some <==> is_group_text(piece@),
        r matches Some(v) ==> v == hex_value(piece@),
{
    if piece.len() < 1 || piece.len() > 4 {
        return None;
    }
    let mut value: u32 = 0;
    let mut i: usize = 0;
    while i < piece.len()
        invariant
            i <= piece.len() <= 4,
            forall|j: int| 0 <= j < i ==> is_hex_digit(#[trigger] piece@[j]),
            value == hex_value(piece@.take(i as int)),
            i == 0 ==> value == 0,
            i <= 1 ==> value < 0x10,
            i <= 2 ==> value < 0x100,
            i <= 3 ==> value < 0x1000,
            value < 0x10000,
        decreases piece.len() - i,
    {
        match hex_digit(piece[i]) {
            Some(d) => {
                proof {
                    assert(piece@.take(i + 1).drop_last() =~= piece@.take(i as int));
                }
                value = value * 16 + d as u32;
            },
            None => {
                return None;
            },
        }
        i += 1;
    }
    proof {
        assert(piece@.take(piece.len() as int) =~= piece@);
    }
    Some(value as u16)
}

fn parse_group_run(pieces: &Vec<Vec<char>>, n: usize) -> (r: Option<Vec<u16>>)
    requires
        n <= pieces@.len(),
    ensures
        r is Some <==> all_groups(views(pieces@).take(n as int)),
        r matches Some(g) ==> nats(g@) == hex_values(views(pieces@).take(n as int)),
{
    let ghost run = views(pieces@).take(n as int);
    let mut out: Vec<u16> = Vec::new();
    let mut i: usize = 0;
    while i < n
        invariant
            i <= n <= pieces@.len(),
            run == views(pieces@).take(n as int),
            out@.len() == i,
            forall|j: int| 0 <= j < i ==> is_group_text(#[trigger] run[j]),
            forall|j: int| 0 <= j < i ==> out@[j] as nat == hex_value(#[trigger] run[j]),
        decreases n - i,
    {
        match parse_group(&pieces[i]) {
            Some(v) => {
                out.push(v);
            },
            None => {
                assert(!is_group_text(run[i as int]));
                return None;
            },
        }
        i += 1;
    }
    assert(nats(out@) =~= hex_values(run));
    Some(out)
}

/// The groups that `pieces` stand for, if they spell groups, the last
/// possibly as a dotted address.
pub fn parse_group_list(pieces: &Vec<Vec<char>>) -> (r: Option<Vec<u16>>)
    ensures
        r is Some <==> is_group_list(views(pieces@)),
        r matches Some(g) ==> nats(g@) == group_values(views(pieces@)) && g@.len() == group_count(
            views(pieces@),
        ),
{
    let n = pieces.len();
    let ghost all = views(pieces@);
    proof {
        assert(all.take(n as int) =~= all);
    }
    if n > 0 {
        proof {
            assert(all.take(n - 1) =~= all.drop_last());
            assert(all.last() == pieces@[n - 1]@);
        }
        if let Some(octets) = parse_ipv4(&pieces[n - 1]) {
            return match parse_group_run(pieces, n - 1) {
                Some(groups) => {
                    let mut groups = groups;
                    let ghost front = groups@;
                    let high: u16 = octets[0] as u16 * 256 + octets[1] as u16;
                    let low: u16 = octets[2] as u16 * 256 + octets[3] as u16;
                    groups.push(high);
                    groups.push(low);
                    proof {
                        assert(nats(front).len() == n - 1);
                        assert(nats(groups@) =~= nats(front) + seq![high as nat, low as nat]);
                        assert(seq![high as nat, low as nat] =~= ipv4_groups(all.last()));
                    }
                    Some(groups)
                },
                None => None,
            };
        }
    }
    let r = parse_group_run(pieces, n);
    proof {
        if r is Some {
            assert(nats(r->0@).len() == n);
        }
    }
    r
}

fn pieces_between_colons(text: &Vec<char>) -> (out: Vec<Vec<char>>)
    ensures
        views(out@) == colon_pieces(text@),
{
    if text.len() == 0 {
        let out: Vec<Vec<char>> = Vec::new();
        assert(views(out@) =~= Seq::<Seq<char>>::empty());
        return out;
    }
    let mut colon: Vec<char> = Vec::new();
    colon.push(':');
    assert(colon@ =~= seq![':']);
    split(text, &colon)
}

/// The eight groups of the IPv6 address that `text` spells, if it spells
/// one.
pub fn parse_ipv6(text: &Vec<char>) -> (r: Option<Vec<u16>>)
    ensures
        r is Some <==> is_ipv6_text(text@),
        r matches Some(g) ==> g@.len() == 8 && nats(g@) == ipv6_groups(text@),
{
    let mut gap: Vec<char> = Vec::new();
    gap.push(':');
    gap.push(':');
    assert(gap@ =~= seq![':', ':']);
    match find(text, &gap) {
        None => {
            let mut colon: Vec<char> = Vec::new();
            colon.push(':');
            assert(colon@ =~= seq![':']);
            let pieces = split(text, &colon);
            match parse_group_list(&pieces) {
                Some(groups) => {
                    if groups.len() == 8 {
                        Some(groups)
                    } else {
                        None
                    }
                },
                None => None,
            }
        },
        Some(at) => {
            proof {
                let chosen = first_index(text@, gap@);
                assert(occurs_at(text@, gap@, at as int) && forall|j: int|
                    0 <= j < at ==> !occurs_at(text@, gap@, j));
                assert(occurs_at(text@, gap@, chosen));
                assert(chosen == at);
                assert(at + 2 <= text@.len());
            }
            let end = text.len();
            assert(at + 2 <= end);
            let head_pieces = pieces_between_colons(&slice_of(text, 0, at));
            let tail_pieces = pieces_between_colons(&slice_of(text, at + 2, end));
            proof {
                assert(views(head_pieces@).take(head_pieces@.len() as int) =~= views(head_pieces@));
            }
            let head = match parse_group_run(&head_pieces, head_pieces.len()) {
                Some(head) => head,
                None => {
                    return None;
                },
            };
            let mut tail = match parse_group_list(&tail_pieces) {
                Some(tail) => tail,
                None => {
                    return None;
                },
            };
            proof {
                assert(nats(head@).len() == head_pieces@.len());
            }
            if head.len() > 7 || tail.len() > 7 - head.len() {
                return None;
            }
            let ghost head_values = nats(head@);
            let ghost tail_values = nats(tail@);
            let fill: usize = 8 - head.len() - tail.len();
            let mut groups = head;
            let mut k: usize = 0;
            while k < fill
                invariant
                    k <= fill,
                    nats(groups@) == head_values + zeros(k as nat),
                decreases fill - k,
            {
                let ghost filled = nats(groups@);
                groups.push(0);
                proof {
                    assert(nats(groups@) =~= filled.push(0nat));
                    assert(zeros((k + 1) as nat) =~= zeros(k as nat).push(0nat));
                    assert((head_values + zeros(k as nat)).push(0nat) =~= head_values + zeros(
                        k as nat,
                    ).push(0nat));
                }
                k += 1;
            }
            let ghost filled = nats(groups@);
            groups.append(&mut tail);
            proof {
                assert(nats(groups@) =~= filled + tail_values);
            }
            Some(groups)
        },
    }
}

/// The digit that is worth `d`, in lower case; `'0'` for what no single
/// hexadecimal digit is worth.
pub open spec fn digit_char(d: nat) -> char {
    if d == 1 {
        '1'
    } else if d == 2 {
        '2'
    } else if d == 3 {
        '3'
    } else if d == 4 {
        '4'
    } else if d == 5 {
        '5'
    } else if d == 6 {
        '6'
    } else if d == 7 {
        '7'
    } else if d == 8 {
        '8'
    } else if d == 9 {
        '9'
    } else if d == 10 {
        'a'
    } else if d == 11 {
        'b'
    } else if d == 12 {
        'c'
    } else if d == 13 {
        'd'
    } else if d == 14 {
        'e'
    } else if d == 15 {
        'f'
    } else {
        '0'
    }
}

/// `v` in hexadecimal digits of lower case, with no zero in front.
pub open spec fn hex_text(v: nat) -> Seq<char>
    decreases v,
{
    if v < 16 {
        seq![digit_char(v)]
    } else {
        hex_text(v / 16).push(digit_char(v % 16))
    }
}

/// `v` in decimal digits, with no zero in front.
pub open spec fn decimal_text(v: nat) -> Seq<char>
    decreases v,
{
    if v < 10 {
        seq![digit_char(v)]
    } else {
        decimal_text(v / 10).push(digit_char(v % 10))
    }
}

/// The texts of `groups`, each in hexadecimal.
pub open spec fn hex_texts(groups: Seq<nat>) -> Seq<Seq<char>> {
    Seq::new(groups.len(), |i: int| hex_text(groups[i]))
}

/// How many groups of zero follow one another from index `i` on.
pub open spec fn zero_run(groups: Seq<nat>, i: int) -> int
    decreases groups.len() - i,
{
    if 0 <= i < groups.len() && groups[i] == 0 {
        1 + zero_run(groups, i + 1)
    } else {
        0
    }
}

/// Where the longest run of zero groups that begins at index `i` or later
/// begins, and its length; of several longest runs the first. `(0, 0)`
/// where there is no zero group.
pub open spec fn best_run(groups: Seq<nat>, i: int) -> (int, int)
    decreases groups.len() - i,
{
    if i < 0 || i >= groups.len() {
        (0, 0)
    } else {
        let later = best_run(groups, i + 1);
        if zero_run(groups, i) > 0 && zero_run(groups, i) >= later.1 {
            (i, zero_run(groups, i))
        } else {
            later
        }
    }
}

/// Whether `groups` is an IPv4 address mapped into IPv6: five groups of
/// zero, then one of sixteen ones.
pub open spec fn is_ipv4_mapped(groups: Seq<nat>) -> bool {
    &&& groups.len() == 8
    &&& forall|i: int| 0 <= i < 5 ==> #[trigger] groups[i] == 0
    &&& groups[5] == 0xffff
}

/// The dotted address that the two groups `high` and `low` hold.
pub open spec fn dotted_text(high: nat, low: nat) -> Seq<char> {
    decimal_text(high / 256) + seq!['.'] + decimal_text(high % 256) + seq!['.'] + decimal_text(
        low / 256,
    ) + seq!['.'] + decimal_text(low % 256)
}

/// The canonical text of the IPv6 address with the eight `groups`. A mapped
/// IPv4 address is written dotted after `::ffff:`. Otherwise the groups are
/// written in hexadecimal with colons between, and the longest run of two or
/// more zero groups, the first of several, is written as a double colon.
pub open spec fn ipv6_text(groups: Seq<nat>) -> Seq<char> {
    if is_ipv4_mapped(groups) {
        seq![':', ':', 'f', 'f', 'f', 'f', ':'] + dotted_text(groups[6], groups[7])
    } else {
        let run = best_run(groups, 0);
        if run.1 > 1 {
            joined(hex_texts(groups.subrange(0, run.0)), seq![':']) + seq![':', ':'] + joined(
                hex_texts(groups.subrange(run.0 + run.1, groups.len() as int)),
                seq![':'],
            )
        } else {
            joined(hex_texts(groups), seq![':'])
        }
    }
}

/// The canonical text of the address that `s` spells: a dotted address as
/// it stands, an IPv6 address by its groups.
pub open spec fn canonical_ip(s: Seq<char>) -> Seq<char> {
    if is_ipv4_text(s) {
        s
    } else {
        ipv6_text(ipv6_groups(s))
    }
}

fn digit_to_char(d: u16) -> (c: char)
    requires
        d < 16,
    ensures
        c == digit_char(d as nat),
{
    if d == 1 {
        '1'
    } else if d == 2 {
        '2'
    } else if d == 3 {
        '3'
    } else if d == 4 {
        '4'
    } else if d == 5 {
        '5'
    } else if d == 6 {
        '6'
    } else if d == 7 {
        '7'
    } else if d == 8 {
        '8'
    } else if d == 9 {
        '9'
    } else if d == 10 {
        'a'
    } else if d == 11 {
        'b'
    } else if d == 12 {
        'c'
    } else if d == 13 {
        'd'
    } else if d == 14 {
        'e'
    } else if d == 15 {
        'f'
    } else {
        '0'
    }
}

/// `v` in hexadecimal digits of lower case, with no zero in front.
pub fn hex_chars(v: u16) -> (out: Vec<char>)
    ensures
        out@ == hex_text(v as nat),
    decreases v,
{
    if v < 16 {
        let mut out: Vec<char> = Vec::new();
        out.push(digit_to_char(v));
        assert(out@ =~= seq![digit_char(v as nat)]);
        out
    } else {
        let mut out = hex_chars(v / 16);
        out.push(digit_to_char(v % 16));
        out
    }
}

/// `v` in decimal digits, with no zero in front.
pub fn decimal_chars(v: u64) -> (out: Vec<char>)
    ensures
        out@ == decimal_text(v as nat),
    decreases v,
{
    if v < 10 {
        let mut out: Vec<char> = Vec::new();
        out.push(digit_to_char(v as u16));
        assert(out@ =~= seq![digit_char(v as nat)]);
        out
    } else {
        let mut out = decimal_chars(v / 10);
        out.push(digit_to_char((v % 10) as u16));
        out
    }
}

fn zero_run_at(groups: &Vec<u16>, i: usize) -> (n: usize)
    requires
        i <= groups@.len(),
    ensures
        n == zero_run(nats(groups@), i as int),
        i + n <= groups@.len(),
{
    let mut end: usize = i;
    while end < groups.len() && groups[end] == 0
        invariant
            i <= end <= groups@.len(),
            forall|j: int| i <= j < end ==> #[trigger] nats(groups@)[j] == 0,
        decreases groups@.len() - end,
    {
        end += 1;
    }
    proof {
        zero_run_counts(nats(groups@), i as int, end as int);
    }
    end - i
}

proof fn zero_run_counts(groups: Seq<nat>, i: int, end: int)
    requires
        0 <= i <= end <= groups.len(),
        forall|j: int| i <= j < end ==> #[trigger] groups[j] == 0,
        end == groups.len() || groups[end] != 0,
    ensures
        zero_run(groups, i) == end - i,
    decreases end - i,
{
    if i < end {
        zero_run_counts(groups, i + 1, end);
    }
}

/// Where the longest run of zero groups begins, and its length; of several
/// longest runs the first.
pub fn longest_zero_run(groups: &Vec<u16>) -> (run: (usize, usize))
    ensures
        (run.0 as int, run.1 as int) == best_run(nats(groups@), 0),
        run.0 + run.1 <= groups@.len(),
{
    let mut best: (usize, usize) = (0, 0);
    let mut i: usize = groups.len();
    while i > 0
        invariant
            i <= groups@.len(),
            (best.0 as int, best.1 as int) == best_run(nats(groups@), i as int),
            best.0 + best.1 <= groups@.len(),
        decreases i,
    {
        i -= 1;
        let here = zero_run_at(groups, i);
        if here > 0 && here >= best.1 {
            best = (i, here);
        }
    }
    best
}

fn join_groups(groups: &Vec<u16>, from: usize, to: usize) -> (out: Vec<char>)
    requires
        from <= to <= groups@.len(),
    ensures
        out@ == joined(hex_texts(nats(groups@).subrange(from as int, to as int)), seq![':']),
{
    let ghost wanted = hex_texts(nats(groups@).subrange(from as int, to as int));
    let mut texts: Vec<Vec<char>> = Vec::new();
    let mut i: usize = from;
    while i < to
        invariant
            from <= i <= to <= groups@.len(),
            wanted == hex_texts(nats(groups@).subrange(from as int, to as int)),
            texts@.len() == i - from,
            forall|j: int| 0 <= j < i - from ==> (#[trigger] texts@[j])@ == wanted[j],
        decreases to - i,
    {
        texts.push(hex_chars(groups[i]));
        i += 1;
    }
    assert(views(texts@) =~= wanted);
    let mut colon: Vec<char> = Vec::new();
    colon.push(':');
    assert(colon@ =~= seq![':']);
    join(&texts, &colon)
}

/// The canonical text of the IPv6 address with the eight `groups`.
pub fn format_ipv6(groups: &Vec<u16>) -> (out: Vec<char>)
    requires
        groups@.len() == 8,
    ensures
        out@ == ipv6_text(nats(groups@)),
{
    let ghost values = nats(groups@);
    if groups[0] == 0 && groups[1] == 0 && groups[2] == 0 && groups[3] == 0 && groups[4] == 0
        && groups[5] == 0xffff {
        assert(is_ipv4_mapped(values));
        let mut out: Vec<char> = Vec::new();
        out.push(':');
        out.push(':');
        out.push('f');
        out.push('f');
        out.push('f');
        out.push('f');
        out.push(':');
        assert(out@ =~= seq![':', ':', 'f', 'f', 'f', 'f', ':']);
        append(&mut out, &decimal_chars((groups[6] / 256) as u64));
        out.push('.');
        append(&mut out, &decimal_chars((groups[6] % 256) as u64));
        out.push('.');
        append(&mut out, &decimal_chars((groups[7] / 256) as u64));
        out.push('.');
        append(&mut out, &decimal_chars((groups[7] % 256) as u64));
        assert(out@ =~= seq![':', ':', 'f', 'f', 'f', 'f', ':'] + dotted_text(values[6], values[7]));
        return out;
    }
    proof {
        assert(!is_ipv4_mapped(values)) by {
            if is_ipv4_mapped(values) {
                assert(values[0] == 0 && values[1] == 0 && values[2] == 0 && values[3] == 0
                    && values[4] == 0);
            }
        }
    }
    let run = longest_zero_run(groups);
    if run.1 > 1 {
        let mut out = join_groups(groups, 0, run.0);
        out.push(':');
        out.push(':');
        append(&mut out, &join_groups(groups, run.0 + run.1, groups.len()));
        assert(out@ =~= joined(hex_texts(values.subrange(0, run.0 as int)), seq![':']) + seq![
            ':',
            ':',
        ] + joined(hex_texts(values.subrange(run.0 + run.1, values.len() as int)), seq![':']));
        out
    } else {
        assert(values.subrange(0, 8) =~= values);
        join_groups(groups, 0, groups.len())
    }
}

/// The address that `ip` spells, in its canonical text. Whitespace around
/// the address is ignored. Anything else but an IPv4 or an IPv6 address is
/// refused, and the error holds the text that was refused. What comes back
/// is itself the text of an address, and validating it again gives it back
/// unchanged.
pub fn validate_ip_address(ip: &str) -> (r: DnsResult<String>)
    ensures
        r is Ok <==> is_ip_text(trimmed(ip@)),
        r matches Ok(address) ==> address@ == canonical_ip(trimmed(ip@)),
        r matches Ok(address) ==> is_ip_text(trimmed(address@)) && canonical_ip(trimmed(address@))
            == address@,
        r matches Err(error) ==> error@ == DnsErrorView::InvalidIpAddress(trimmed(ip@)),
{
    let text = trim(&chars_of(ip));
    proof {
        if is_ip_text(trimmed(ip@)) {
            validation_is_idempotent(ip@);
        }
    }
    if parse_ipv4(&text).is_some() {
        return Ok(string_of(&text));
    }
    match parse_ipv6(&text) {
        Some(groups) => Ok(string_of(&format_ipv6(&groups))),
        None => Err(DnsError::InvalidIpAddress(string_of(&text))),
    }
}

/// Both addresses in their canonical text, or the error of the first of the
/// two that is refused. Where either is refused nothing of the other comes
/// back.
pub fn validate_dns_pair(primary: &str, secondary: &str) -> (r: DnsResult<(String, String)>)
    ensures
        r is Ok <==> is_ip_text(trimmed(primary@)) && is_ip_text(trimmed(secondary@)),
        r matches Ok(pair) ==> pair.0@ == canonical_ip(trimmed(primary@)) && pair.1@
            == canonical_ip(trimmed(secondary@)),
        r matches Err(error) ==> error@ == DnsErrorView::InvalidIpAddress(
            if is_ip_text(trimmed(primary@)) {
                trimmed(secondary@)
            } else {
                trimmed(primary@)
            },
        ),
{
    let first = match validate_ip_address(primary) {
        Ok(address) => address,
        Err(error) => {
            return Err(error);
        },
    };
    let second = match validate_ip_address(secondary) {
        Ok(address) => address,
        Err(error) => {
            return Err(error);
        },
    };
    Ok((first, second))
}

/// Whether `t` holds only characters that may stand in an argument.
pub open spec fn is_safe_text(t: Seq<char>) -> bool {
    forall|i: int| 0 <= i < t.len() ==> is_safe_char(#[trigger] t[i])
}

/// Safe texts, one after the other, are a safe text.
pub proof fn safe_texts_concatenate(a: Seq<char>, b: Seq<char>)
    requires
        is_safe_text(a),
        is_safe_text(b),
    ensures
        is_safe_text(a + b),
{
    assert forall|i: int| 0 <= i < (a + b).len() implies is_safe_char(#[trigger] (a + b)[i]) by {
        if i < a.len() {
            assert((a + b)[i] == a[i]);
        } else {
            assert((a + b)[i] == b[i - a.len()]);
        }
    }
}

proof fn join_rest_is_safe(parts: Seq<Seq<char>>, sep: Seq<char>, i: int)
    requires
        0 <= i,
        is_safe_text(sep),
        forall|k: int| 0 <= k < parts.len() ==> is_safe_text(#[trigger] parts[k]),
    ensures
        is_safe_text(join_rest(parts, sep, i)),
    decreases parts.len() - i,
{
    if i < parts.len() {
        join_rest_is_safe(parts, sep, i + 1);
        safe_texts_concatenate(sep, parts[i]);
        safe_texts_concatenate(sep + parts[i], join_rest(parts, sep, i + 1));
    }
}

/// Safe texts joined with a safe separator are a safe text.
pub proof fn joined_is_safe(parts: Seq<Seq<char>>, sep: Seq<char>)
    requires
        is_safe_text(sep),
        forall|k: int| 0 <= k < parts.len() ==> is_safe_text(#[trigger] parts[k]),
    ensures
        is_safe_text(joined(parts, sep)),
{
    if parts.len() > 0 {
        join_rest_is_safe(parts, sep, 1);
        safe_texts_concatenate(parts[0], join_rest(parts, sep, 1));
    }
}

/// A number written in hexadecimal is a safe text.
pub proof fn hex_text_is_safe(v: nat)
    ensures
        is_safe_text(hex_text(v)),
    decreases v,
{
    if v >= 16 {
        hex_text_is_safe(v / 16);
        safe_texts_concatenate(hex_text(v / 16), seq![digit_char(v % 16)]);
        assert(hex_text(v / 16) + seq![digit_char(v % 16)] =~= hex_text(v));
    }
}

/// A number written in decimal is a safe text.
pub proof fn decimal_text_is_safe(v: nat)
    ensures
        is_safe_text(decimal_text(v)),
    decreases v,
{
    if v >= 10 {
        decimal_text_is_safe(v / 10);
        safe_texts_concatenate(decimal_text(v / 10), seq![digit_char(v % 10)]);
        assert(decimal_text(v / 10) + seq![digit_char(v % 10)] =~= decimal_text(v));
    }
}

/// The text of a dotted address is a safe text.
pub proof fn ipv4_text_is_safe(s: Seq<char>)
    requires
        is_ipv4_text(s),
    ensures
        is_safe_text(s),
{
    let parts = split_text(s, seq!['.']);
    split_then_join(s, seq!['.']);
    assert forall|k: int| 0 <= k < parts.len() implies is_safe_text(#[trigger] parts[k]) by {
        assert(is_octet_text(parts[k]));
        assert forall|i: int| 0 <= i < parts[k].len() implies is_safe_char(
            #[trigger] parts[k][i],
        ) by {
            assert(is_digit(parts[k][i]));
        }
    }
    joined_is_safe(parts, seq!['.']);
}

/// The canonical text of an IPv6 address is a safe text.
pub proof fn ipv6_text_is_safe(groups: Seq<nat>)
    ensures
        is_safe_text(ipv6_text(groups)),
{
    let colon = seq![':'];
    let gap = seq![':', ':'];
    let dot = seq!['.'];
    if is_ipv4_mapped(groups) {
        let a = decimal_text(groups[6] / 256);
        let b = decimal_text(groups[6] % 256);
        let c = decimal_text(groups[7] / 256);
        let d = decimal_text(groups[7] % 256);
        decimal_text_is_safe(groups[6] / 256);
        decimal_text_is_safe(groups[6] % 256);
        decimal_text_is_safe(groups[7] / 256);
        decimal_text_is_safe(groups[7] % 256);
        safe_texts_concatenate(a, dot);
        safe_texts_concatenate(a + dot, b);
        safe_texts_concatenate(a + dot + b, dot);
        safe_texts_concatenate(a + dot + b + dot, c);
        safe_texts_concatenate(a + dot + b + dot + c, dot);
        safe_texts_concatenate(a + dot + b + dot + c + dot, d);
        safe_texts_concatenate(seq![':', ':', 'f', 'f', 'f', 'f', ':'], dotted_text(groups[6], groups[7]));
    } else {
        let run = best_run(groups, 0);
        if run.1 > 1 {
            let head = hex_texts(groups.subrange(0, run.0));
            let tail = hex_texts(groups.subrange(run.0 + run.1, groups.len() as int));
            hex_texts_are_safe(groups.subrange(0, run.0));
            hex_texts_are_safe(groups.subrange(run.0 + run.1, groups.len() as int));
            joined_is_safe(head, colon);
            joined_is_safe(tail, colon);
            safe_texts_concatenate(joined(head, colon), gap);
            safe_texts_concatenate(joined(head, colon) + gap, joined(tail, colon));
        } else {
            hex_texts_are_safe(groups);
            joined_is_safe(hex_texts(groups), colon);
        }
    }
}

proof fn hex_texts_are_safe(groups: Seq<nat>)
    ensures
        forall|k: int| 0 <= k < hex_texts(groups).len() ==> is_safe_text(
            #[trigger] hex_texts(groups)[k],
        ),
{
    assert forall|k: int| 0 <= k < hex_texts(groups).len() implies is_safe_text(
        #[trigger] hex_texts(groups)[k],
    ) by {
        hex_text_is_safe(groups[k]);
    }
}

/// The canonical text of an address holds only characters that may stand in
/// an argument, so that sanitizing leaves it as it is.
pub proof fn canonical_ip_is_safe(s: Seq<char>)
    ensures
        is_safe_text(canonical_ip(s)),
        sanitized(canonical_ip(s)) == canonical_ip(s),
{
    if is_ipv4_text(s) {
        ipv4_text_is_safe(s);
    } else {
        ipv6_text_is_safe(ipv6_groups(s));
    }
    sanitize_keeps_safe_text(canonical_ip(s));
}

} // verus!
