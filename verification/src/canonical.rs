//! The canonical text of an address is itself the text of that address:
//! reading it gives the same address again, and the same text.

use crate::text::{
    contains_text, is_whitespace_char, join_rest, joined, joined_with_first, lacks, occurs_at,
    split_of_joined, split_text, split_then_join, split_without_separator, trimmed,
    trimmed_keeps_trim_text,
};
use crate::validation::{
    after_gap, all_groups, before_gap, best_run, canonical_ip, canonical_ip_is_safe, colon_pieces,
    decimal_text, decimal_value, digit_char, dotted_text, ends_in_ipv4, first_index, group_count,
    group_values, hex_digit_value, hex_text, hex_texts, hex_value, hex_values, ipv4_groups,
    ipv6_groups, ipv6_text, is_digit, is_group_list, is_group_text, is_hex_digit, is_ip_text,
    is_ipv4_mapped, is_ipv4_text, is_ipv6_text, is_octet_text, is_safe_char, zero_run, zeros,
};
use vstd::prelude::*;

verus! {

/// A digit that stands for a number below sixteen is a hexadecimal digit
/// worth that number.
pub proof fn digit_char_is_hex(d: nat)
    requires
        d < 16,
    ensures
        is_hex_digit(digit_char(d)),
        hex_digit_value(digit_char(d)) == d,
        d < 10 ==> is_digit(digit_char(d)) && (digit_char(d) as u32 - '0' as u32) == d,
        digit_char(d) != ':' && digit_char(d) != '.',
        d != 0 ==> digit_char(d) != '0',
{
}

/// A number below 65536, written in hexadecimal, is a group that spells
/// that number.
pub proof fn hex_text_reads_back(v: nat)
    requires
        v < 0x10000,
    ensures
        is_group_text(hex_text(v)),
        hex_value(hex_text(v)) == v,
        v < 0x10 ==> hex_text(v).len() == 1,
        v < 0x100 ==> hex_text(v).len() <= 2,
        v < 0x1000 ==> hex_text(v).len() <= 3,
    decreases v,
{
    if v < 16 {
        digit_char_is_hex(v);
        let t = hex_text(v);
        assert(t.drop_last() =~= Seq::<char>::empty());
        assert(hex_value(t.drop_last()) == 0);
    } else {
        hex_text_reads_back(v / 16);
        digit_char_is_hex(v % 16);
        let t = hex_text(v);
        let front = hex_text(v / 16);
        assert(t.drop_last() =~= front);
        assert forall|i: int| 0 <= i < t.len() implies is_hex_digit(#[trigger] t[i]) by {
            if i < front.len() {
                assert(t[i] == front[i]);
            }
        }
    }
}

/// A number below 256, written in decimal, is a part of a dotted address
/// that spells that number.
pub proof fn decimal_text_reads_back(v: nat)
    requires
        v < 256,
    ensures
        is_octet_text(decimal_text(v)),
        decimal_value(decimal_text(v)) == v,
{
    decimal_text_spells(v);
    let t = decimal_text(v);
    if v >= 10 {
        decimal_text_starts_high(v);
    }
}

proof fn decimal_text_spells(v: nat)
    requires
        v < 1000,
    ensures
        decimal_value(decimal_text(v)) == v,
        forall|i: int| 0 <= i < decimal_text(v).len() ==> is_digit(#[trigger] decimal_text(v)[i]),
        v < 10 ==> decimal_text(v).len() == 1,
        10 <= v < 100 ==> decimal_text(v).len() == 2,
        100 <= v ==> decimal_text(v).len() == 3,
    decreases v,
{
    let t = decimal_text(v);
    if v < 10 {
        digit_char_is_hex(v);
        assert(t.drop_last() =~= Seq::<char>::empty());
        assert(decimal_value(t.drop_last()) == 0);
    } else {
        decimal_text_spells(v / 10);
        digit_char_is_hex(v % 10);
        let front = decimal_text(v / 10);
        assert(t.drop_last() =~= front);
        assert forall|i: int| 0 <= i < t.len() implies is_digit(#[trigger] t[i]) by {
            if i < front.len() {
                assert(t[i] == front[i]);
            }
        }
    }
}

proof fn decimal_text_starts_high(v: nat)
    requires
        10 <= v < 1000,
    ensures
        decimal_text(v).len() >= 2,
        decimal_text(v)[0] != '0',
    decreases v,
{
    let t = decimal_text(v);
    let front = decimal_text(v / 10);
    assert(t[0] == front[0]);
    if v / 10 < 10 {
        digit_char_is_hex(v / 10);
    } else {
        decimal_text_starts_high(v / 10);
    }
}

/// Whether every one of `groups` is below 65536.
pub open spec fn are_groups(groups: Seq<nat>) -> bool {
    forall|i: int| 0 <= i < groups.len() ==> #[trigger] groups[i] < 0x10000
}

/// Whether `parts` are texts that are not empty and hold no colon.
pub open spec fn are_colon_free(parts: Seq<Seq<char>>) -> bool {
    forall|k: int| 0 <= k < parts.len() ==> (#[trigger] parts[k]).len() > 0 && lacks(parts[k], ':')
}

/// In texts without a colon that are joined with colons, no colon stands at
/// either end, and none stands next to another.
pub proof fn joined_colons_stand_alone(parts: Seq<Seq<char>>)
    requires
        parts.len() >= 1,
        are_colon_free(parts),
    ensures
        joined(parts, seq![':']).len() > 0,
        joined(parts, seq![':'])[0] != ':',
        joined(parts, seq![':']).last() != ':',
        forall|j: int|
            0 <= j < joined(parts, seq![':']).len() && #[trigger] joined(parts, seq![':'])[j] == ':'
                ==> j + 1 < joined(parts, seq![':']).len() && joined(parts, seq![':'])[j + 1]
                != ':',
        parts.len() >= 2 ==> joined(parts, seq![':'])[parts[0].len() as int] == ':',
        !contains_text(joined(parts, seq![':']), seq![':', ':']),
    decreases parts.len(),
{
    let sep = seq![':'];
    let t = joined(parts, sep);
    let first = parts[0];
    assert(first.len() > 0 && lacks(first, ':'));
    if parts.len() == 1 {
        assert(join_rest(parts, sep, 1) =~= Seq::<char>::empty());
        assert(t =~= first);
    } else {
        let rest = parts.subrange(1, parts.len() as int);
        assert(parts =~= seq![first] + rest);
        assert forall|k: int| 0 <= k < rest.len() implies (#[trigger] rest[k]).len() > 0 && lacks(
            rest[k],
            ':',
        ) by {
            assert(rest[k] == parts[k + 1]);
        }
        joined_colons_stand_alone(rest);
        joined_with_first(first, rest, sep);
        let tail = joined(rest, sep);
        let at = first.len() as int;
        assert(t == first + sep + tail);
        assert forall|j: int| 0 <= j < t.len() && #[trigger] t[j] == ':' implies j + 1 < t.len()
            && t[j + 1] != ':' by {
            if j < at {
                assert(t[j] == first[j]);
            } else if j == at {
                assert(t[j + 1] == tail[0]);
            } else {
                assert(t[j] == tail[j - at - 1]);
                assert(t[j + 1] == tail[j - at]);
            }
        }
        assert(t[0] == first[0]);
        assert(t.last() == tail.last());
        assert(t[at] == ':');
    }
    assert(!contains_text(t, seq![':', ':'])) by {
        if contains_text(t, seq![':', ':']) {
            let j = choose|j: int| occurs_at(t, seq![':', ':'], j);
            assert(t.subrange(j, j + 2)[0] == ':');
            assert(t.subrange(j, j + 2)[1] == ':');
            assert(t[j] == ':' && t[j + 1] == ':');
        }
    }
}

/// Groups written in hexadecimal are texts of groups, without a colon and
/// without a dot, that spell the groups.
pub proof fn hex_texts_read_back(groups: Seq<nat>)
    requires
        are_groups(groups),
    ensures
        all_groups(hex_texts(groups)),
        are_colon_free(hex_texts(groups)),
        forall|k: int| 0 <= k < groups.len() ==> lacks(#[trigger] hex_texts(groups)[k], '.'),
        hex_values(hex_texts(groups)) == groups,
{
    let texts = hex_texts(groups);
    assert forall|k: int| 0 <= k < groups.len() implies is_group_text(#[trigger] texts[k])
        && texts[k].len() > 0 && lacks(texts[k], ':') && lacks(texts[k], '.') && hex_value(
        texts[k],
    ) == groups[k] by {
        hex_text_reads_back(groups[k]);
        assert forall|j: int| 0 <= j < texts[k].len() implies #[trigger] texts[k][j] != ':'
            && texts[k][j] != '.' by {
            assert(is_hex_digit(texts[k][j]));
        }
    }
    assert(hex_values(texts) =~= groups);
}

/// The longest run of zero groups lies within the groups and holds zeros
/// only.
pub proof fn best_run_is_a_run(groups: Seq<nat>, i: int)
    requires
        0 <= i <= groups.len(),
    ensures
        0 <= best_run(groups, i).0,
        0 <= best_run(groups, i).1,
        best_run(groups, i).0 + best_run(groups, i).1 <= groups.len(),
        forall|j: int|
            best_run(groups, i).0 <= j < best_run(groups, i).0 + best_run(groups, i).1
                ==> #[trigger] groups[j] == 0,
    decreases groups.len() - i,
{
    if i < groups.len() {
        best_run_is_a_run(groups, i + 1);
        zero_run_is_a_run(groups, i);
    }
}

proof fn zero_run_is_a_run(groups: Seq<nat>, i: int)
    requires
        0 <= i <= groups.len(),
    ensures
        0 <= zero_run(groups, i),
        i + zero_run(groups, i) <= groups.len(),
        forall|j: int| i <= j < i + zero_run(groups, i) ==> #[trigger] groups[j] == 0,
    decreases groups.len() - i,
{
    if i < groups.len() && groups[i] == 0 {
        zero_run_is_a_run(groups, i + 1);
    }
}

/// A text in which a character stands nowhere does not hold that character
/// as a text.
pub proof fn lacking_text_holds_no_occurrence(t: Seq<char>, c: char)
    requires
        lacks(t, c),
    ensures
        !contains_text(t, seq![c]),
{
    if contains_text(t, seq![c]) {
        let j = choose|j: int| occurs_at(t, seq![c], j);
        assert(t.subrange(j, j + 1)[0] == c);
        assert(t[j] == c);
    }
}

/// A text without a dot is no dotted address.
pub proof fn dotless_text_is_no_ipv4(t: Seq<char>)
    requires
        lacks(t, '.'),
    ensures
        !is_ipv4_text(t),
{
    lacking_text_holds_no_occurrence(t, '.');
    split_without_separator(t, seq!['.']);
}

proof fn join_rest_lacks(parts: Seq<Seq<char>>, sep: Seq<char>, c: char, i: int)
    requires
        0 <= i,
        lacks(sep, c),
        forall|k: int| 0 <= k < parts.len() ==> lacks(#[trigger] parts[k], c),
    ensures
        lacks(join_rest(parts, sep, i), c),
    decreases parts.len() - i,
{
    if i < parts.len() {
        join_rest_lacks(parts, sep, c, i + 1);
        let rest = join_rest(parts, sep, i + 1);
        let t = sep + parts[i] + rest;
        assert(lacks(parts[i], c));
        assert forall|j: int| 0 <= j < t.len() implies #[trigger] t[j] != c by {
            if j < sep.len() {
                assert(t[j] == sep[j]);
            } else if j < sep.len() + parts[i].len() {
                assert(t[j] == parts[i][j - sep.len()]);
            } else {
                assert(t[j] == rest[j - sep.len() - parts[i].len()]);
            }
        }
    }
}

/// Texts that lack a character, joined with a separator that lacks it, lack
/// it.
pub proof fn joined_lacks(parts: Seq<Seq<char>>, sep: Seq<char>, c: char)
    requires
        lacks(sep, c),
        forall|k: int| 0 <= k < parts.len() ==> lacks(#[trigger] parts[k], c),
    ensures
        lacks(joined(parts, sep), c),
{
    if parts.len() > 0 {
        join_rest_lacks(parts, sep, c, 1);
        let rest = join_rest(parts, sep, 1);
        let t = parts[0] + rest;
        assert(lacks(parts[0], c));
        assert forall|j: int| 0 <= j < t.len() implies #[trigger] t[j] != c by {
            if j < parts[0].len() {
                assert(t[j] == parts[0][j]);
            } else {
                assert(t[j] == rest[j - parts[0].len()]);
            }
        }
    }
}

/// A dotted address holds no colon.
pub proof fn ipv4_text_lacks_colon(s: Seq<char>)
    requires
        is_ipv4_text(s),
    ensures
        lacks(s, ':'),
{
    let parts = split_text(s, seq!['.']);
    split_then_join(s, seq!['.']);
    assert forall|k: int| 0 <= k < parts.len() implies lacks(#[trigger] parts[k], ':') by {
        assert(is_octet_text(parts[k]));
        assert forall|j: int| 0 <= j < parts[k].len() implies #[trigger] parts[k][j] != ':' by {
            assert(is_digit(parts[k][j]));
        }
    }
    joined_lacks(parts, seq!['.'], ':');
}

/// The pieces between the colons of groups that were written in hexadecimal
/// and joined with colons are those groups' texts; they are groups, none is
/// a dotted address, and they spell the groups.
pub proof fn joined_groups_read_back(groups: Seq<nat>)
    requires
        are_groups(groups),
    ensures
        colon_pieces(joined(hex_texts(groups), seq![':'])) == hex_texts(groups),
        is_group_list(hex_texts(groups)),
        !ends_in_ipv4(hex_texts(groups)),
        group_count(hex_texts(groups)) == groups.len(),
        group_values(hex_texts(groups)) == groups,
        !contains_text(joined(hex_texts(groups), seq![':']), seq![':', ':']),
{
    let texts = hex_texts(groups);
    let t = joined(texts, seq![':']);
    hex_texts_read_back(groups);
    if groups.len() == 0 {
        assert(t =~= Seq::<char>::empty());
        assert(texts =~= Seq::<Seq<char>>::empty());
        assert(!contains_text(t, seq![':', ':'])) by {
            if contains_text(t, seq![':', ':']) {
                let j = choose|j: int| occurs_at(t, seq![':', ':'], j);
                assert(false);
            }
        }
    } else {
        joined_colons_stand_alone(texts);
        split_of_joined(texts, ':');
        dotless_text_is_no_ipv4(texts.last());
    }
}

/// Eight groups written in hexadecimal with colons between them are the
/// text of an IPv6 address with those groups.
pub proof fn plain_text_reads_back(groups: Seq<nat>)
    requires
        groups.len() == 8,
        are_groups(groups),
    ensures
        is_ipv6_text(joined(hex_texts(groups), seq![':'])),
        ipv6_groups(joined(hex_texts(groups), seq![':'])) == groups,
        !lacks(joined(hex_texts(groups), seq![':']), ':'),
{
    let texts = hex_texts(groups);
    let t = joined(texts, seq![':']);
    joined_groups_read_back(groups);
    hex_texts_read_back(groups);
    joined_colons_stand_alone(texts);
    assert(t.len() > 0);
    assert(colon_pieces(t) == split_text(t, seq![':']));
    assert(t[texts[0].len() as int] == ':');
}

/// Whether no colon of `a` stands at its end or before another colon.
pub open spec fn colons_stand_alone(a: Seq<char>) -> bool {
    forall|j: int|
        0 <= j < a.len() && #[trigger] a[j] == ':' ==> j + 1 < a.len() && a[j + 1] != ':'
}

/// Where a double colon is put between two texts, and no colon of the first
/// stands at its end or before another colon, the double colon that was put
/// there is the first of the whole: the first text stands before it, the
/// second behind it.
pub proof fn gap_is_found(a: Seq<char>, b: Seq<char>)
    requires
        colons_stand_alone(a),
    ensures
        contains_text(a + seq![':', ':'] + b, seq![':', ':']),
        before_gap(a + seq![':', ':'] + b) == a,
        after_gap(a + seq![':', ':'] + b) == b,
        !lacks(a + seq![':', ':'] + b, ':'),
{
    let gap = seq![':', ':'];
    let t = a + gap + b;
    let at = a.len() as int;
    assert(t[at] == ':');
    assert(t[at + 1] == ':');
    assert(occurs_at(t, gap, at)) by {
        assert(t.subrange(at, at + 2) =~= gap);
    }
    assert forall|j: int| 0 <= j < at implies !occurs_at(t, gap, j) by {
        if occurs_at(t, gap, j) {
            assert(t.subrange(j, j + 2)[0] == ':');
            assert(t.subrange(j, j + 2)[1] == ':');
            assert(t[j] == a[j]);
            assert(a[j] == ':');
            assert(t[j + 1] == a[j + 1]);
        }
    }
    let chosen = first_index(t, gap);
    assert(occurs_at(t, gap, chosen) && forall|j: int| 0 <= j < chosen ==> !occurs_at(t, gap, j));
    assert(chosen == at);
    assert(t.subrange(0, at) =~= a);
    assert(t.subrange(at + 2, t.len() as int) =~= b);
}

/// The text that writes the groups from `start` on, `len` of them and all
/// zero, as a double colon.
pub open spec fn gap_text(groups: Seq<nat>, start: int, len: int) -> Seq<char> {
    joined(hex_texts(groups.subrange(0, start)), seq![':']) + seq![':', ':'] + joined(
        hex_texts(groups.subrange(start + len, groups.len() as int)),
        seq![':'],
    )
}

proof fn part_of_groups(groups: Seq<nat>, from: int, to: int)
    requires
        are_groups(groups),
        0 <= from <= to <= groups.len(),
    ensures
        are_groups(groups.subrange(from, to)),
        hex_texts(groups.subrange(from, to)).len() == to - from,
        colons_stand_alone(joined(hex_texts(groups.subrange(from, to)), seq![':'])),
{
    let part = groups.subrange(from, to);
    assert forall|i: int| 0 <= i < part.len() implies #[trigger] part[i] < 0x10000 by {
        assert(part[i] == groups[from + i]);
    }
    hex_texts_read_back(part);
    if part.len() == 0 {
        assert(joined(hex_texts(part), seq![':']) =~= Seq::<char>::empty());
    } else {
        joined_colons_stand_alone(hex_texts(part));
    }
}

proof fn groups_around_zeros(groups: Seq<nat>, start: int, len: int)
    requires
        0 <= start,
        0 <= len,
        start + len <= groups.len(),
        forall|j: int| start <= j < start + len ==> #[trigger] groups[j] == 0,
    ensures
        groups.subrange(0, start) + zeros(len as nat) + groups.subrange(
            start + len,
            groups.len() as int,
        ) == groups,
{
    let head = groups.subrange(0, start);
    let tail = groups.subrange(start + len, groups.len() as int);
    let all = head + zeros(len as nat) + tail;
    assert forall|i: int| 0 <= i < groups.len() implies all[i] == groups[i] by {
        if i < start {
            assert(all[i] == head[i]);
        } else if i < start + len {
            assert(all[i] == zeros(len as nat)[i - start]);
        } else {
            assert(all[i] == tail[i - start - len]);
        }
    }
    assert(all =~= groups);
}

proof fn text_with_gap_is_ipv6(t: Seq<char>, head: Seq<Seq<char>>, tail: Seq<Seq<char>>)
    requires
        contains_text(t, seq![':', ':']),
        colon_pieces(before_gap(t)) == head,
        colon_pieces(after_gap(t)) == tail,
        all_groups(head),
        is_group_list(tail),
        head.len() + group_count(tail) <= 7,
    ensures
        is_ipv6_text(t),
        ipv6_groups(t) == hex_values(head) + zeros((8 - head.len() - group_count(tail)) as nat)
            + group_values(tail),
{
}

/// Eight groups written with a double colon for a run of zero groups are
/// the text of an IPv6 address with those groups.
#[verifier::rlimit(40)]
pub proof fn gap_text_reads_back(groups: Seq<nat>, start: int, len: int)
    requires
        groups.len() == 8,
        are_groups(groups),
        0 <= start,
        1 <= len,
        start + len <= 8,
        forall|j: int| start <= j < start + len ==> #[trigger] groups[j] == 0,
    ensures
        is_ipv6_text(gap_text(groups, start, len)),
        ipv6_groups(gap_text(groups, start, len)) == groups,
        !lacks(gap_text(groups, start, len), ':'),
{
    let head = groups.subrange(0, start);
    let tail = groups.subrange(start + len, 8);
    let head_texts = hex_texts(head);
    let tail_texts = hex_texts(tail);
    let a = joined(head_texts, seq![':']);
    let b = joined(tail_texts, seq![':']);
    let t = gap_text(groups, start, len);
    assert(t == a + seq![':', ':'] + b);
    assert(are_groups(head) && colons_stand_alone(a) && head_texts.len() == start) by {
        part_of_groups(groups, 0, start);
    }
    assert(are_groups(tail) && tail_texts.len() == 8 - start - len) by {
        part_of_groups(groups, start + len, 8);
    }
    assert(contains_text(t, seq![':', ':']) && before_gap(t) == a && after_gap(t) == b && !lacks(
        t,
        ':',
    )) by {
        gap_is_found(a, b);
    }
    assert(colon_pieces(a) == head_texts && all_groups(head_texts) && hex_values(head_texts)
        == head) by {
        joined_groups_read_back(head);
        hex_texts_read_back(head);
    }
    assert(colon_pieces(b) == tail_texts && is_group_list(tail_texts) && group_count(tail_texts)
        == tail_texts.len() && group_values(tail_texts) == tail) by {
        joined_groups_read_back(tail);
    }
    text_with_gap_is_ipv6(t, head_texts, tail_texts);
    assert(ipv6_groups(t) == head + zeros(len as nat) + tail);
    groups_around_zeros(groups, start, len);
}

proof fn four_joined(a: Seq<char>, b: Seq<char>, c: Seq<char>, d: Seq<char>, sep: Seq<char>)
    ensures
        joined(seq![a, b, c, d], sep) == a + sep + b + sep + c + sep + d,
{
    let parts = seq![a, b, c, d];
    assert(join_rest(parts, sep, 4) =~= Seq::<char>::empty());
    assert(join_rest(parts, sep, 3) =~= sep + d);
    assert(join_rest(parts, sep, 2) =~= sep + c + sep + d);
    assert(join_rest(parts, sep, 1) =~= sep + b + sep + c + sep + d);
    assert(joined(parts, sep) =~= a + sep + b + sep + c + sep + d);
}

proof fn octet_text_facts(v: nat)
    requires
        v < 256,
    ensures
        is_octet_text(decimal_text(v)),
        decimal_value(decimal_text(v)) == v,
        lacks(decimal_text(v), '.'),
        lacks(decimal_text(v), ':'),
{
    decimal_text_reads_back(v);
    let t = decimal_text(v);
    assert forall|j: int| 0 <= j < t.len() implies #[trigger] t[j] != '.' && t[j] != ':' by {
        assert(is_digit(t[j]));
    }
}

/// Two groups written as a dotted address are the text of a dotted
/// address that stands for those two groups.
pub proof fn dotted_text_reads_back(high: nat, low: nat)
    requires
        high < 0x10000,
        low < 0x10000,
    ensures
        is_ipv4_text(dotted_text(high, low)),
        ipv4_groups(dotted_text(high, low)) == seq![high, low],
        lacks(dotted_text(high, low), ':'),
{
    let a = decimal_text(high / 256);
    let b = decimal_text(high % 256);
    let c = decimal_text(low / 256);
    let d = decimal_text(low % 256);
    let parts = seq![a, b, c, d];
    let t = dotted_text(high, low);
    octet_text_facts(high / 256);
    octet_text_facts(high % 256);
    octet_text_facts(low / 256);
    octet_text_facts(low % 256);
    four_joined(a, b, c, d, seq!['.']);
    assert(joined(parts, seq!['.']) == t);
    assert(lacks(seq!['.'], ':'));
    split_of_joined(parts, '.');
    joined_lacks(parts, seq!['.'], ':');
    assert(split_text(t, seq!['.']) == parts);
    assert(is_ipv4_text(t)) by {
        assert(parts.len() == 4);
        assert(is_octet_text(parts[0]) && is_octet_text(parts[1]) && is_octet_text(parts[2])
            && is_octet_text(parts[3]));
    }
    assert(ipv4_groups(t) =~= seq![high, low]) by {
        assert(decimal_value(parts[0]) * 256 + decimal_value(parts[1]) == high);
        assert(decimal_value(parts[2]) * 256 + decimal_value(parts[3]) == low);
    }
}

/// The text of the group of sixteen ones.
pub open spec fn ones_text() -> Seq<char> {
    seq!['f', 'f', 'f', 'f']
}

proof fn ones_text_is_a_group()
    ensures
        is_group_text(ones_text()),
        hex_value(ones_text()) == 0xffff,
        lacks(ones_text(), ':'),
{
    let t = ones_text();
    assert(hex_digit_value('f') == 15);
    assert(t.drop_last() =~= seq!['f', 'f', 'f']);
    assert(t.drop_last().drop_last() =~= seq!['f', 'f']);
    assert(t.drop_last().drop_last().drop_last() =~= seq!['f']);
    assert(t.drop_last().drop_last().drop_last().drop_last() =~= Seq::<char>::empty());
    assert(hex_value(Seq::<char>::empty()) == 0);
    assert(hex_value(seq!['f']) == 15);
    assert(hex_value(seq!['f', 'f']) == 255);
    assert(hex_value(seq!['f', 'f', 'f']) == 4095);
}

proof fn mapped_pieces_read_back(high: nat, low: nat)
    requires
        high < 0x10000,
        low < 0x10000,
    ensures
        ({
            let pieces = seq![ones_text(), dotted_text(high, low)];
            let text = ones_text() + seq![':'] + dotted_text(high, low);
            &&& colon_pieces(text) == pieces
            &&& is_group_list(pieces)
            &&& group_count(pieces) == 3
            &&& group_values(pieces) == seq![0xffffnat, high, low]
        }),
{
    let colon = seq![':'];
    let dotted = dotted_text(high, low);
    let pieces = seq![ones_text(), dotted];
    let text = ones_text() + colon + dotted;
    dotted_text_reads_back(high, low);
    ones_text_is_a_group();
    assert(join_rest(pieces, colon, 2) =~= Seq::<char>::empty());
    assert(join_rest(pieces, colon, 1) =~= colon + dotted);
    assert(joined(pieces, colon) =~= text);
    assert forall|k: int| 0 <= k < pieces.len() implies lacks(#[trigger] pieces[k], ':') by {}
    split_of_joined(pieces, ':');
    assert(text.len() > 0);
    assert(pieces.last() == dotted);
    assert(ends_in_ipv4(pieces));
    assert(pieces.drop_last() =~= seq![ones_text()]);
    assert(all_groups(pieces.drop_last()));
    assert(hex_values(pieces.drop_last()) =~= seq![0xffffnat]);
    assert(group_values(pieces) =~= seq![0xffffnat, high, low]);
}

/// A mapped IPv4 address written dotted after `::ffff:` is the text of an
/// IPv6 address with the same groups.
pub proof fn mapped_text_reads_back(groups: Seq<nat>)
    requires
        is_ipv4_mapped(groups),
        are_groups(groups),
    ensures
        is_ipv6_text(ipv6_text(groups)),
        ipv6_groups(ipv6_text(groups)) == groups,
        !lacks(ipv6_text(groups), ':'),
{
    let dotted = dotted_text(groups[6], groups[7]);
    let t = ipv6_text(groups);
    let none = Seq::<char>::empty();
    let tail = ones_text() + seq![':'] + dotted;
    assert(t =~= none + seq![':', ':'] + tail);
    gap_is_found(none, tail);
    mapped_pieces_read_back(groups[6], groups[7]);
    assert(colon_pieces(none) =~= Seq::<Seq<char>>::empty());
    assert(is_ipv6_text(t));
    assert(ipv6_groups(t) =~= groups) by {
        let got = ipv6_groups(t);
        assert(got == hex_values(Seq::<Seq<char>>::empty()) + zeros(5) + seq![
            0xffffnat,
            groups[6],
            groups[7],
        ]);
        assert forall|i: int| 0 <= i < 8 implies got[i] == groups[i] by {
            if i < 5 {
                assert(got[i] == zeros(5)[i]);
            }
        }
    }
}

/// The canonical text of eight groups is the text of an IPv6 address with
/// those groups, and holds a colon.
pub proof fn ipv6_text_reads_back(groups: Seq<nat>)
    requires
        groups.len() == 8,
        are_groups(groups),
    ensures
        is_ipv6_text(ipv6_text(groups)),
        ipv6_groups(ipv6_text(groups)) == groups,
        !lacks(ipv6_text(groups), ':'),
{
    if is_ipv4_mapped(groups) {
        mapped_text_reads_back(groups);
    } else {
        let run = best_run(groups, 0);
        best_run_is_a_run(groups, 0);
        if run.1 > 1 {
            assert(ipv6_text(groups) == gap_text(groups, run.0, run.1));
            gap_text_reads_back(groups, run.0, run.1);
        } else {
            plain_text_reads_back(groups);
        }
    }
}

proof fn hex_value_is_small(t: Seq<char>)
    requires
        t.len() <= 4,
        forall|i: int| 0 <= i < t.len() ==> is_hex_digit(#[trigger] t[i]),
    ensures
        t.len() == 0 ==> hex_value(t) == 0,
        t.len() == 1 ==> hex_value(t) < 0x10,
        t.len() == 2 ==> hex_value(t) < 0x100,
        t.len() == 3 ==> hex_value(t) < 0x1000,
        hex_value(t) < 0x10000,
    decreases t.len(),
{
    if t.len() > 0 {
        let shorter = t.drop_last();
        assert forall|i: int| 0 <= i < shorter.len() implies is_hex_digit(#[trigger] shorter[i]) by {
            assert(shorter[i] == t[i]);
        }
        hex_value_is_small(shorter);
        assert(is_hex_digit(t[t.len() - 1]));
    }
}

proof fn hex_values_are_groups(pieces: Seq<Seq<char>>)
    requires
        all_groups(pieces),
    ensures
        are_groups(hex_values(pieces)),
        hex_values(pieces).len() == pieces.len(),
{
    assert forall|i: int| 0 <= i < pieces.len() implies #[trigger] hex_values(pieces)[i]
        < 0x10000 by {
        assert(is_group_text(pieces[i]));
        hex_value_is_small(pieces[i]);
    }
}

proof fn group_values_are_groups(pieces: Seq<Seq<char>>)
    requires
        is_group_list(pieces),
    ensures
        are_groups(group_values(pieces)),
        group_values(pieces).len() == group_count(pieces),
{
    if ends_in_ipv4(pieces) {
        let front = hex_values(pieces.drop_last());
        let parts = split_text(pieces.last(), seq!['.']);
        let back = ipv4_groups(pieces.last());
        hex_values_are_groups(pieces.drop_last());
        assert(is_octet_text(parts[0]) && is_octet_text(parts[1]) && is_octet_text(parts[2])
            && is_octet_text(parts[3]));
        assert(back[0] < 0x10000 && back[1] < 0x10000);
        assert forall|i: int| 0 <= i < (front + back).len() implies #[trigger] (front + back)[i]
            < 0x10000 by {
            if i < front.len() {
                assert((front + back)[i] == front[i]);
            } else {
                assert((front + back)[i] == back[i - front.len()]);
            }
        }
    } else {
        hex_values_are_groups(pieces);
    }
}

/// The text of an IPv6 address spells eight groups, each below 65536.
pub proof fn ipv6_groups_are_groups(s: Seq<char>)
    requires
        is_ipv6_text(s),
    ensures
        ipv6_groups(s).len() == 8,
        are_groups(ipv6_groups(s)),
{
    if contains_text(s, seq![':', ':']) {
        let head = colon_pieces(before_gap(s));
        let tail = colon_pieces(after_gap(s));
        let front = hex_values(head);
        let fill = zeros((8 - head.len() - group_count(tail)) as nat);
        let back = group_values(tail);
        hex_values_are_groups(head);
        group_values_are_groups(tail);
        let all = front + fill + back;
        assert(ipv6_groups(s) == all);
        assert forall|i: int| 0 <= i < all.len() implies #[trigger] all[i] < 0x10000 by {
            if i < front.len() {
                assert(all[i] == front[i]);
            } else if i < front.len() + fill.len() {
                assert(all[i] == fill[i - front.len()]);
            } else {
                assert(all[i] == back[i - front.len() - fill.len()]);
            }
        }
    } else {
        group_values_are_groups(split_text(s, seq![':']));
    }
}

/// The canonical text of an address is the text of an address, and is its
/// own canonical text: validating what validation gave changes nothing.
pub proof fn canonical_ip_reads_back(s: Seq<char>)
    requires
        is_ip_text(s),
    ensures
        is_ip_text(canonical_ip(s)),
        canonical_ip(canonical_ip(s)) == canonical_ip(s),
{
    if !is_ipv4_text(s) {
        let groups = ipv6_groups(s);
        let t = ipv6_text(groups);
        ipv6_groups_are_groups(s);
        ipv6_text_reads_back(groups);
        if is_ipv4_text(t) {
            ipv4_text_lacks_colon(t);
        }
    }
}

/// Validating what validation gave changes nothing: the canonical text of
/// an address, with or without whitespace around it, is the text of an
/// address and is its own canonical text.
pub proof fn validation_is_idempotent(s: Seq<char>)
    requires
        is_ip_text(trimmed(s)),
    ensures
        is_ip_text(trimmed(canonical_ip(trimmed(s)))),
        canonical_ip(trimmed(canonical_ip(trimmed(s)))) == canonical_ip(trimmed(s)),
{
    let c = canonical_ip(trimmed(s));
    canonical_ip_is_safe(trimmed(s));
    if c.len() > 0 {
        assert(is_safe_char(c[0]));
        assert(is_safe_char(c.last()));
        assert(!is_whitespace_char(c[0]));
        assert(!is_whitespace_char(c.last()));
    }
    trimmed_keeps_trim_text(c);
    canonical_ip_reads_back(trimmed(s));
}

} // verus!
