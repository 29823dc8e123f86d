//! Character sequences: trimming, searching, splitting and joining.
//!
//! Every function here works on the characters of a string, held in a
//! `Vec<char>`, and is specified over `Seq<char>`.

use vstd::prelude::*;

verus! {

/// `String::push` appends one character to the end of the string.
pub assume_specification[ String::push ](s: &mut String, ch: char)
    ensures
        final(s)@ == old(s)@.push(ch),
;

/// The views of the vectors of `parts`, in order.
pub open spec fn views(parts: Seq<Vec<char>>) -> Seq<Seq<char>> {
    Seq::new(parts.len(), |i: int| parts[i]@)
}

/// The views of the strings of `parts`, in order.
pub open spec fn string_views(parts: Seq<String>) -> Seq<Seq<char>> {
    Seq::new(parts.len(), |i: int| parts[i]@)
}

/// Whether `c` has the Unicode property `White_Space`.
pub open spec fn is_whitespace_char(c: char) -> bool {
    let n = c as u32;
    (0x09 <= n <= 0x0D) || n == 0x20 || n == 0x85 || n == 0xA0 || n == 0x1680 || (0x2000 <= n
        <= 0x200A) || n == 0x2028 || n == 0x2029 || n == 0x202F || n == 0x205F || n == 0x3000
}

/// The first index at or after `i` that holds no whitespace, or the length.
pub open spec fn skip_whitespace(s: Seq<char>, i: int) -> int
    decreases s.len() - i,
{
    if 0 <= i < s.len() && is_whitespace_char(s[i]) {
        skip_whitespace(s, i + 1)
    } else {
        i
    }
}

/// The end of the text that is left of `s[start..end]` once its trailing
/// whitespace is dropped.
pub open spec fn skip_whitespace_back(s: Seq<char>, start: int, end: int) -> int
    decreases end,
{
    if 0 <= start < end <= s.len() && is_whitespace_char(s[end - 1]) {
        skip_whitespace_back(s, start, end - 1)
    } else {
        end
    }
}

/// `s` without its leading and trailing whitespace.
pub open spec fn trimmed(s: Seq<char>) -> Seq<char> {
    let a = skip_whitespace(s, 0);
    let b = skip_whitespace_back(s, a, s.len() as int);
    s.subrange(a, b)
}

/// Whether `pat` stands in `s` at index `i`.
pub open spec fn occurs_at(s: Seq<char>, pat: Seq<char>, i: int) -> bool {
    0 <= i && i + pat.len() <= s.len() && s.subrange(i, i + pat.len()) == pat
}

/// Whether `pat` stands somewhere in `s`.
pub open spec fn contains_text(s: Seq<char>, pat: Seq<char>) -> bool {
    exists|i: int| occurs_at(s, pat, i)
}

/// The pieces of `s` between the occurrences of `sep`, found from the left
/// and not overlapping. `start` is where the current piece began, `i` the
/// index that is looked at next.
pub open spec fn split_from(s: Seq<char>, sep: Seq<char>, start: int, i: int) -> Seq<Seq<char>>
    decreases s.len() - i,
{
    if sep.len() == 0 || i < start || start < 0 || i + sep.len() > s.len() {
        seq![s.subrange(start, s.len() as int)]
    } else if occurs_at(s, sep, i) {
        seq![s.subrange(start, i)] + split_from(s, sep, i + sep.len(), i + sep.len())
    } else {
        split_from(s, sep, start, i + 1)
    }
}

/// The pieces of `s` between the occurrences of `sep`. An empty `sep` cuts
/// nowhere.
pub open spec fn split_text(s: Seq<char>, sep: Seq<char>) -> Seq<Seq<char>> {
    split_from(s, sep, 0, 0)
}

/// The maximal runs of characters of `s` that are no whitespace, from index
/// `i` on. `start` is where the current run began.
pub open spec fn words_from(s: Seq<char>, start: int, i: int) -> Seq<Seq<char>>
    decreases s.len() - i,
{
    if i < start || start < 0 || i >= s.len() {
        if start < i && i <= s.len() {
            seq![s.subrange(start, i)]
        } else {
            seq![]
        }
    } else if is_whitespace_char(s[i]) {
        if start < i {
            seq![s.subrange(start, i)] + words_from(s, i + 1, i + 1)
        } else {
            words_from(s, i + 1, i + 1)
        }
    } else {
        words_from(s, start, i + 1)
    }
}

/// The words of `s`: its maximal runs of characters that are no whitespace.
pub open spec fn words(s: Seq<char>) -> Seq<Seq<char>> {
    words_from(s, 0, 0)
}

/// `s[start..end]` without a carriage return at its end.
pub open spec fn line_text(s: Seq<char>, start: int, end: int) -> Seq<char> {
    if 0 <= start < end <= s.len() && s[end - 1] == '\r' {
        s.subrange(start, end - 1)
    } else {
        s.subrange(start, end)
    }
}

/// The lines of `s` from index `i` on. `start` is where the current line
/// began.
pub open spec fn lines_from(s: Seq<char>, start: int, i: int) -> Seq<Seq<char>>
    decreases s.len() - i,
{
    if i < start || start < 0 || i >= s.len() {
        if start < i && i <= s.len() {
            seq![s.subrange(start, i)]
        } else {
            seq![]
        }
    } else if s[i] == '\n' {
        seq![line_text(s, start, i)] + lines_from(s, i + 1, i + 1)
    } else {
        lines_from(s, start, i + 1)
    }
}

/// The lines of `s`. A line ends at a line feed, or at the end of `s`; the
/// line feed, and a carriage return just before it, are no part of the line.
/// What follows the last line feed is a line unless it is empty.
pub open spec fn lines(s: Seq<char>) -> Seq<Seq<char>> {
    lines_from(s, 0, 0)
}

/// The members of `parts` from index `i` on, each after `sep`.
pub open spec fn join_rest(parts: Seq<Seq<char>>, sep: Seq<char>, i: int) -> Seq<char>
    decreases parts.len() - i,
{
    if i < 0 || i >= parts.len() {
        seq![]
    } else {
        sep + parts[i] + join_rest(parts, sep, i + 1)
    }
}

/// The members of `parts` in order, with `sep` between each two.
pub open spec fn joined(parts: Seq<Seq<char>>, sep: Seq<char>) -> Seq<char> {
    if parts.len() == 0 {
        seq![]
    } else {
        parts[0] + join_rest(parts, sep, 1)
    }
}

/// The characters of `s`, in order.
pub fn chars_of(s: &str) -> (out: Vec<char>)
    ensures
        out@ == s@,
{
    let mut out: Vec<char> = Vec::new();
    for c in it: s.chars()
        invariant
            out@ == it.seq().take(it.index@),
    {
        out.push(c);
    }
    out
}

/// The string whose characters are `chars`, in order.
pub fn string_of(chars: &Vec<char>) -> (out: String)
    ensures
        out@ == chars@,
{
    let mut out = String::new();
    let mut i: usize = 0;
    while i < chars.len()
        invariant
            i <= chars.len(),
            out@ == chars@.take(i as int),
        decreases chars.len() - i,
    {
        out.push(chars[i]);
        i += 1;
    }
    out
}

/// Whether `c` is whitespace.
pub fn is_whitespace(c: char) -> (r: bool)
    ensures
        r == is_whitespace_char(c),
{
    let n: u32 = c as u32;
    (0x09 <= n && n <= 0x0D) || n == 0x20 || n == 0x85 || n == 0xA0 || n == 0x1680 || (0x2000 <= n
        && n <= 0x200A) || n == 0x2028 || n == 0x2029 || n == 0x202F || n == 0x205F || n == 0x3000
}

/// A copy of `v[from..to]`.
pub fn slice_of(v: &Vec<char>, from: usize, to: usize) -> (out: Vec<char>)
    requires
        from <= to <= v.len(),
    ensures
        out@ == v@.subrange(from as int, to as int),
{
    let mut out: Vec<char> = Vec::new();
    let mut i: usize = from;
    while i < to
        invariant
            from <= i <= to <= v.len(),
            out@ == v@.subrange(from as int, i as int),
        decreases to - i,
    {
        out.push(v[i]);
        i += 1;
    }
    out
}

/// Appends the characters of `src` to `dst`.
pub fn append(dst: &mut Vec<char>, src: &Vec<char>)
    ensures
        final(dst)@ == old(dst)@ + src@,
{
    let mut i: usize = 0;
    while i < src.len()
        invariant
            i <= src.len(),
            dst@ == old(dst)@ + src@.take(i as int),
        decreases src.len() - i,
    {
        dst.push(src[i]);
        i += 1;
    }
}

/// Whether `a` and `b` hold the same characters.
pub fn same_text(a: &Vec<char>, b: &Vec<char>) -> (r: bool)
    ensures
        r == (a@ == b@),
{
    if a.len() != b.len() {
        return false;
    }
    let mut i: usize = 0;
    while i < a.len()
        invariant
            i <= a.len(),
            a.len() == b.len(),
            a@.take(i as int) == b@.take(i as int),
        decreases a.len() - i,
    {
        if a[i] != b[i] {
            return false;
        }
        assert(a@.take(i + 1) =~= a@.take(i as int).push(a@[i as int]));
        assert(b@.take(i + 1) =~= b@.take(i as int).push(b@[i as int]));
        i += 1;
    }
    assert(a@ =~= a@.take(a.len() as int));
    assert(b@ =~= b@.take(b.len() as int));
    true
}

/// `v` without its leading and trailing whitespace.
pub fn trim(v: &Vec<char>) -> (out: Vec<char>)
    ensures
        out@ == trimmed(v@),
{
    let mut a: usize = 0;
    while a < v.len() && is_whitespace(v[a])
        invariant
            a <= v.len(),
            skip_whitespace(v@, a as int) == skip_whitespace(v@, 0),
        decreases v.len() - a,
    {
        a += 1;
    }
    let mut b: usize = v.len();
    while a < b && is_whitespace(v[b - 1])
        invariant
            a <= b <= v.len(),
            skip_whitespace_back(v@, a as int, b as int) == skip_whitespace_back(
                v@,
                a as int,
                v.len() as int,
            ),
        decreases b,
    {
        b -= 1;
    }
    slice_of(v, a, b)
}

/// Whether `pat` stands in `v` at index `i`.
pub fn matches_at(v: &Vec<char>, pat: &Vec<char>, i: usize) -> (r: bool)
    ensures
        r == occurs_at(v@, pat@, i as int),
{
    if pat.len() > v.len() || i > v.len() - pat.len() {
        return false;
    }
    let mut k: usize = 0;
    while k < pat.len()
        invariant
            k <= pat.len(),
            i + pat.len() <= v.len(),
            forall|j: int| 0 <= j < k ==> v@[i + j] == pat@[j],
        decreases pat.len() - k,
    {
        if v[i + k] != pat[k] {
            assert(v@.subrange(i as int, i + pat.len())[k as int] == v@[i + k]);
            return false;
        }
        k += 1;
    }
    assert(v@.subrange(i as int, i + pat.len()) =~= pat@);
    true
}

/// The first index at which `pat` stands in `v`, if there is one.
pub fn find(v: &Vec<char>, pat: &Vec<char>) -> (r: Option<usize>)
    ensures
        r is Some <==> contains_text(v@, pat@),
        r matches Some(i) ==> occurs_at(v@, pat@, i as int) && forall|j: int|
            0 <= j < i ==> !occurs_at(v@, pat@, j),
{
    let mut i: usize = 0;
    loop
        invariant_except_break
            i <= v.len(),
            forall|j: int| 0 <= j < i ==> !occurs_at(v@, pat@, j),
        ensures
            forall|j: int| 0 <= j <= v.len() ==> !occurs_at(v@, pat@, j),
        decreases v.len() - i,
    {
        if matches_at(v, pat, i) {
            return Some(i);
        }
        if i == v.len() {
            break;
        }
        i += 1;
    }
    assert(forall|j: int| !occurs_at(v@, pat@, j));
    None
}

/// Whether `pat` stands somewhere in `v`.
pub fn contains(v: &Vec<char>, pat: &Vec<char>) -> (r: bool)
    ensures
        r == contains_text(v@, pat@),
{
    find(v, pat).is_some()
}

/// The pieces of `v` between the occurrences of `sep`.
pub fn split(v: &Vec<char>, sep: &Vec<char>) -> (out: Vec<Vec<char>>)
    ensures
        views(out@) == split_text(v@, sep@),
{
    let mut out: Vec<Vec<char>> = Vec::new();
    let mut start: usize = 0;
    let mut i: usize = 0;
    while sep.len() > 0 && sep.len() <= v.len() && i <= v.len() - sep.len()
        invariant
            start <= i <= v.len(),
            views(out@) + split_from(v@, sep@, start as int, i as int) == split_text(v@, sep@),
        decreases v.len() - i,
    {
        if matches_at(v, sep, i) {
            let piece = slice_of(v, start, i);
            proof {
                assert(views(out@.push(piece)) =~= views(out@) + seq![piece@]);
                assert(views(out@) + (seq![piece@] + split_from(
                    v@,
                    sep@,
                    i + sep.len(),
                    i + sep.len(),
                )) =~= views(out@) + seq![piece@] + split_from(
                    v@,
                    sep@,
                    i + sep.len(),
                    i + sep.len(),
                ));
            }
            out.push(piece);
            i += sep.len();
            start = i;
        } else {
            i += 1;
        }
    }
    let piece = slice_of(v, start, v.len());
    proof {
        assert(views(out@.push(piece)) =~= views(out@) + seq![piece@]);
    }
    out.push(piece);
    out
}

/// The words of `v`.
pub fn split_words(v: &Vec<char>) -> (out: Vec<Vec<char>>)
    ensures
        views(out@) == words(v@),
{
    let mut out: Vec<Vec<char>> = Vec::new();
    let mut start: usize = 0;
    let mut i: usize = 0;
    while i < v.len()
        invariant
            start <= i <= v.len(),
            views(out@) + words_from(v@, start as int, i as int) == words(v@),
        decreases v.len() - i,
    {
        if is_whitespace(v[i]) {
            if start < i {
                let piece = slice_of(v, start, i);
                proof {
                    assert(views(out@.push(piece)) =~= views(out@) + seq![piece@]);
                    assert(views(out@) + (seq![piece@] + words_from(v@, i + 1, i + 1)) =~= views(
                        out@,
                    ) + seq![piece@] + words_from(v@, i + 1, i + 1));
                }
                out.push(piece);
            }
            i += 1;
            start = i;
        } else {
            i += 1;
        }
    }
    if start < i {
        let piece = slice_of(v, start, i);
        proof {
            assert(views(out@.push(piece)) =~= views(out@) + seq![piece@]);
        }
        out.push(piece);
    } else {
        assert(views(out@) + Seq::<Seq<char>>::empty() =~= views(out@));
    }
    out
}

/// The lines of `v`.
pub fn split_lines(v: &Vec<char>) -> (out: Vec<Vec<char>>)
    ensures
        views(out@) == lines(v@),
{
    let mut out: Vec<Vec<char>> = Vec::new();
    let mut start: usize = 0;
    let mut i: usize = 0;
    while i < v.len()
        invariant
            start <= i <= v.len(),
            views(out@) + lines_from(v@, start as int, i as int) == lines(v@),
        decreases v.len() - i,
    {
        if v[i] == '\n' {
            let end: usize = if start < i && v[i - 1] == '\r' {
                i - 1
            } else {
                i
            };
            let piece = slice_of(v, start, end);
            proof {
                assert(piece@ == line_text(v@, start as int, i as int));
                assert(views(out@.push(piece)) =~= views(out@) + seq![piece@]);
                assert(views(out@) + (seq![piece@] + lines_from(v@, i + 1, i + 1)) =~= views(out@)
                    + seq![piece@] + lines_from(v@, i + 1, i + 1));
            }
            out.push(piece);
            i += 1;
            start = i;
        } else {
            i += 1;
        }
    }
    if start < i {
        let piece = slice_of(v, start, i);
        proof {
            assert(views(out@.push(piece)) =~= views(out@) + seq![piece@]);
        }
        out.push(piece);
    } else {
        assert(views(out@) + Seq::<Seq<char>>::empty() =~= views(out@));
    }
    out
}

/// The members of `parts` in order, with `sep` between each two.
pub fn join(parts: &Vec<Vec<char>>, sep: &Vec<char>) -> (out: Vec<char>)
    ensures
        out@ == joined(views(parts@), sep@),
{
    let mut out: Vec<char> = Vec::new();
    if parts.len() == 0 {
        return out;
    }
    append(&mut out, &parts[0]);
    let mut i: usize = 1;
    while i < parts.len()
        invariant
            1 <= i <= parts.len(),
            out@ + join_rest(views(parts@), sep@, i as int) == joined(views(parts@), sep@),
        decreases parts.len() - i,
    {
        proof {
            let rest = join_rest(views(parts@), sep@, i + 1);
            assert(out@ + (sep@ + parts@[i as int]@ + rest) =~= out@ + sep@ + parts@[i as int]@
                + rest);
        }
        append(&mut out, sep);
        append(&mut out, &parts[i]);
        i += 1;
    }
    assert(out@ + Seq::<char>::empty() =~= out@);
    out
}

/// The strings whose characters are the members of `parts`, in order.
pub fn strings_of(parts: &Vec<Vec<char>>) -> (out: Vec<String>)
    ensures
        string_views(out@) == views(parts@),
{
    let mut out: Vec<String> = Vec::new();
    let mut i: usize = 0;
    while i < parts.len()
        invariant
            i <= parts.len(),
            out@.len() == i,
            forall|j: int| 0 <= j < i ==> (#[trigger] out@[j])@ == parts@[j]@,
        decreases parts.len() - i,
    {
        let piece = string_of(&parts[i]);
        out.push(piece);
        i += 1;
    }
    assert(string_views(out@) =~= views(parts@));
    out
}

/// Whether `a` and `b` are the same text.
pub fn str_equal(a: &str, b: &str) -> (r: bool)
    ensures
        r == (a@ == b@),
{
    same_text(&chars_of(a), &chars_of(b))
}

/// Whether `pat` stands somewhere in `s`.
pub fn str_contains(s: &str, pat: &str) -> (r: bool)
    ensures
        r == contains_text(s@, pat@),
{
    contains(&chars_of(s), &chars_of(pat))
}

/// The pieces of `s` between the occurrences of `sep`.
pub fn str_split(s: &str, sep: &str) -> (out: Vec<String>)
    ensures
        string_views(out@) == split_text(s@, sep@),
{
    strings_of(&split(&chars_of(s), &chars_of(sep)))
}

/// `a` followed by `b`.
pub fn str_concat(a: &str, b: &str) -> (out: String)
    ensures
        out@ == a@ + b@,
{
    let mut chars = chars_of(a);
    append(&mut chars, &chars_of(b));
    string_of(&chars)
}

/// `s` without its leading and trailing whitespace.
pub fn str_trim(s: &str) -> (out: String)
    ensures
        out@ == trimmed(s@),
{
    string_of(&trim(&chars_of(s)))
}

/// The members of `parts` from index `i` on that did not occur earlier in
/// `parts`, in order.
pub open spec fn distinct_from(parts: Seq<Seq<char>>, i: int) -> Seq<Seq<char>>
    decreases parts.len() - i,
{
    if i < 0 || i >= parts.len() {
        seq![]
    } else if parts.take(i).contains(parts[i]) {
        distinct_from(parts, i + 1)
    } else {
        seq![parts[i]] + distinct_from(parts, i + 1)
    }
}

/// `parts` without repetitions: each member stays where it first occurred.
pub open spec fn distinct(parts: Seq<Seq<char>>) -> Seq<Seq<char>> {
    distinct_from(parts, 0)
}

/// Whether `item` is among the first `n` members of `parts`.
fn occurs_before(parts: &Vec<Vec<char>>, n: usize, item: &Vec<char>) -> (r: bool)
    requires
        n <= parts.len(),
    ensures
        r == views(parts@).take(n as int).contains(item@),
{
    let mut j: usize = 0;
    while j < n
        invariant
            j <= n <= parts.len(),
            forall|k: int| 0 <= k < j ==> views(parts@)[k] != item@,
        decreases n - j,
    {
        if same_text(&parts[j], item) {
            assert(views(parts@).take(n as int)[j as int] == item@);
            return true;
        }
        j += 1;
    }
    false
}

/// What is kept from index `i` on are the members from there on that did
/// not occur before `i`, each once.
pub proof fn distinct_from_keeps_each_once(parts: Seq<Seq<char>>, i: int)
    requires
        0 <= i <= parts.len(),
    ensures
        distinct_from(parts, i).no_duplicates(),
        forall|x: Seq<char>| #[trigger]
            distinct_from(parts, i).contains(x) <==> (exists|k: int|
                i <= k < parts.len() && parts[k] == x) && !parts.take(i).contains(x),
    decreases parts.len() - i,
{
    let kept = distinct_from(parts, i);
    if i < parts.len() {
        let later = distinct_from(parts, i + 1);
        let here = parts[i];
        let seen = parts.take(i);
        let seen_next = parts.take(i + 1);
        distinct_from_keeps_each_once(parts, i + 1);
        assert(seen_next =~= seen.push(here));
        assert(seen_next[i] == here);
        assert forall|x: Seq<char>| seen_next.contains(x) <==> (seen.contains(x) || x == here) by {
            if seen.contains(x) {
                let k = choose|k: int| 0 <= k < seen.len() && seen[k] == x;
                assert(seen_next[k] == x);
            }
            if seen_next.contains(x) {
                let k = choose|k: int| 0 <= k < seen_next.len() && seen_next[k] == x;
                if k < i {
                    assert(seen[k] == x);
                }
            }
        }
        if seen.contains(here) {
            assert(kept == later);
            assert forall|x: Seq<char>| #[trigger]
                kept.contains(x) <==> (exists|k: int| i <= k < parts.len() && parts[k] == x)
                    && !seen.contains(x) by {
                if kept.contains(x) {
                    let k = choose|k: int| i + 1 <= k < parts.len() && parts[k] == x;
                    assert(i <= k < parts.len() && parts[k] == x);
                }
                if (exists|k: int| i <= k < parts.len() && parts[k] == x) && !seen.contains(x) {
                    let k = choose|k: int| i <= k < parts.len() && parts[k] == x;
                    assert(i + 1 <= k < parts.len() && parts[k] == x);
                }
            }
        } else {
            assert(kept == seq![here] + later);
            assert(!later.contains(here));
            assert forall|a: int, b: int|
                0 <= a < kept.len() && 0 <= b < kept.len() && a != b implies kept[a]
                != kept[b] by {
                if a == 0 {
                    assert(later.contains(later[b - 1]));
                } else if b == 0 {
                    assert(later.contains(later[a - 1]));
                } else {
                    assert(kept[a] == later[a - 1] && kept[b] == later[b - 1]);
                }
            }
            assert forall|x: Seq<char>| #[trigger]
                kept.contains(x) <==> (exists|k: int| i <= k < parts.len() && parts[k] == x)
                    && !seen.contains(x) by {
                if kept.contains(x) {
                    let a = choose|a: int| 0 <= a < kept.len() && kept[a] == x;
                    if a == 0 {
                        assert(i <= i < parts.len() && parts[i] == x);
                    } else {
                        assert(later[a - 1] == x);
                        assert(later.contains(x));
                        let k = choose|k: int| i + 1 <= k < parts.len() && parts[k] == x;
                        assert(i <= k < parts.len() && parts[k] == x);
                    }
                }
                if (exists|k: int| i <= k < parts.len() && parts[k] == x) && !seen.contains(x) {
                    let k = choose|k: int| i <= k < parts.len() && parts[k] == x;
                    if x == here {
                        assert(kept[0] == x);
                    } else {
                        assert(i + 1 <= k < parts.len() && parts[k] == x);
                        assert(!seen_next.contains(x));
                        assert(later.contains(x));
                        let a = choose|a: int| 0 <= a < later.len() && later[a] == x;
                        assert(kept[a + 1] == x);
                    }
                }
            }
        }
    } else {
        assert(kept =~= Seq::<Seq<char>>::empty());
    }
}

/// Nothing occurs twice in `distinct(parts)`, and it has the same members
/// as `parts`.
pub proof fn distinct_keeps_each_once(parts: Seq<Seq<char>>)
    ensures
        distinct(parts).no_duplicates(),
        forall|x: Seq<char>| #[trigger] distinct(parts).contains(x) <==> parts.contains(x),
{
    distinct_from_keeps_each_once(parts, 0);
    assert(parts.take(0) =~= Seq::<Seq<char>>::empty());
    assert forall|x: Seq<char>| #[trigger] distinct(parts).contains(x) <==> parts.contains(x) by {
        if distinct(parts).contains(x) {
            let k = choose|k: int| 0 <= k < parts.len() && parts[k] == x;
            assert(parts[k] == x);
        }
        if parts.contains(x) {
            let k = choose|k: int| 0 <= k < parts.len() && parts[k] == x;
            assert(0 <= k < parts.len() && parts[k] == x);
        }
    }
}

/// `parts` without repetitions. Nothing occurs twice in the result, and it
/// has the same members as `parts`.
pub fn dedup(parts: &Vec<Vec<char>>) -> (out: Vec<Vec<char>>)
    ensures
        views(out@) == distinct(views(parts@)),
        views(out@).no_duplicates(),
        forall|x: Seq<char>| #[trigger] views(out@).contains(x) <==> views(parts@).contains(x),
{
    let mut out: Vec<Vec<char>> = Vec::new();
    let mut i: usize = 0;
    while i < parts.len()
        invariant
            i <= parts.len(),
            views(out@) + distinct_from(views(parts@), i as int) == distinct(views(parts@)),
        decreases parts.len() - i,
    {
        if !occurs_before(parts, i, &parts[i]) {
            let piece = slice_of(&parts[i], 0, parts[i].len());
            proof {
                let rest = distinct_from(views(parts@), i + 1);
                assert(piece@ =~= views(parts@)[i as int]);
                assert(views(out@.push(piece)) =~= views(out@) + seq![piece@]);
                assert(views(out@) + (seq![piece@] + rest) =~= views(out@) + seq![piece@] + rest);
            }
            out.push(piece);
        }
        i += 1;
    }
    proof {
        assert(views(out@) + Seq::<Seq<char>>::empty() =~= views(out@));
        distinct_keeps_each_once(views(parts@));
    }
    out
}

/// Joining from index `k + 1` on, with one more member in front, is joining
/// from index `k` on without it.
pub proof fn join_rest_shifts(first: Seq<char>, rest: Seq<Seq<char>>, sep: Seq<char>, k: int)
    requires
        0 <= k,
    ensures
        join_rest(seq![first] + rest, sep, k + 1) == join_rest(rest, sep, k),
    decreases rest.len() - k,
{
    let all = seq![first] + rest;
    if k < rest.len() {
        join_rest_shifts(first, rest, sep, k + 1);
        assert(all[k + 1] == rest[k]);
    }
}

/// Joining a list that has one more member in front puts that member and a
/// separator in front of the rest, joined.
pub proof fn joined_with_first(first: Seq<char>, rest: Seq<Seq<char>>, sep: Seq<char>)
    requires
        rest.len() > 0,
    ensures
        joined(seq![first] + rest, sep) == first + sep + joined(rest, sep),
{
    let all = seq![first] + rest;
    join_rest_shifts(first, rest, sep, 0);
    assert(all[0] == first);
    assert(join_rest(rest, sep, 0) == sep + rest[0] + join_rest(rest, sep, 1));
    assert(first + (sep + rest[0] + join_rest(rest, sep, 1)) =~= first + sep + (rest[0]
        + join_rest(rest, sep, 1)));
}

/// Cutting gives at least one piece.
pub proof fn split_gives_a_piece(s: Seq<char>, sep: Seq<char>, start: int, i: int)
    ensures
        split_from(s, sep, start, i).len() >= 1,
    decreases s.len() - i,
{
    if sep.len() == 0 || i < start || start < 0 || i + sep.len() > s.len() {
    } else if occurs_at(s, sep, i) {
    } else {
        split_gives_a_piece(s, sep, start, i + 1);
    }
}

/// The pieces from `start` on, joined with the separator, are the text from
/// `start` on.
pub proof fn split_from_then_join(s: Seq<char>, sep: Seq<char>, start: int, i: int)
    requires
        0 <= start <= i <= s.len(),
    ensures
        joined(split_from(s, sep, start, i), sep) == s.subrange(start, s.len() as int),
    decreases s.len() - i,
{
    let whole = s.subrange(start, s.len() as int);
    if sep.len() == 0 || i + sep.len() > s.len() {
        assert(join_rest(seq![whole], sep, 1) =~= Seq::<char>::empty());
        assert(whole + Seq::<char>::empty() =~= whole);
    } else if occurs_at(s, sep, i) {
        let next = i + sep.len();
        let rest = split_from(s, sep, next, next);
        split_gives_a_piece(s, sep, next, next);
        split_from_then_join(s, sep, next, next);
        joined_with_first(s.subrange(start, i), rest, sep);
        assert(s.subrange(start, i) + s.subrange(i, next) + s.subrange(next, s.len() as int)
            =~= whole);
    } else {
        split_from_then_join(s, sep, start, i + 1);
    }
}

/// The pieces of a text, joined with the separator they were cut at, are
/// the text.
pub proof fn split_then_join(s: Seq<char>, sep: Seq<char>)
    ensures
        joined(split_text(s, sep), sep) == s,
{
    split_from_then_join(s, sep, 0, 0);
    assert(s.subrange(0, s.len() as int) =~= s);
}

/// Text that neither begins nor ends with whitespace is left as it is.
pub proof fn trimmed_keeps_trim_text(t: Seq<char>)
    requires
        t.len() > 0 ==> !is_whitespace_char(t[0]) && !is_whitespace_char(t.last()),
    ensures
        trimmed(t) == t,
{
    if t.len() > 0 {
        assert(skip_whitespace(t, 0) == 0);
        assert(skip_whitespace_back(t, 0, t.len() as int) == t.len());
    } else {
        assert(skip_whitespace(t, 0) == 0);
        assert(skip_whitespace_back(t, 0, 0) == 0);
    }
    assert(t.subrange(0, t.len() as int) =~= t);
}

/// Where the separator stands nowhere from `i` up to `k`, looking from `i`
/// on finds what looking from `k` on finds.
pub proof fn split_from_skips(s: Seq<char>, sep: Seq<char>, start: int, i: int, k: int)
    requires
        0 <= start <= i <= k,
        k + sep.len() <= s.len() || k == i,
        forall|j: int| i <= j < k ==> !occurs_at(s, sep, j),
    ensures
        split_from(s, sep, start, i) == split_from(s, sep, start, k),
    decreases k - i,
{
    if i < k {
        split_from_skips(s, sep, start, i + 1, k);
    }
}

/// Cutting the text from index `d` on is cutting the whole text with every
/// index moved on by `d`.
pub proof fn split_from_of_suffix(s: Seq<char>, sep: Seq<char>, d: int, start: int, i: int)
    requires
        0 <= d <= s.len(),
        0 <= start <= i,
        d + start <= s.len(),
    ensures
        split_from(s, sep, d + start, d + i) == split_from(
            s.subrange(d, s.len() as int),
            sep,
            start,
            i,
        ),
    decreases s.len() - d - i,
{
    let t = s.subrange(d, s.len() as int);
    if sep.len() == 0 || i + sep.len() > t.len() {
        assert(s.subrange(d + start, s.len() as int) =~= t.subrange(start, t.len() as int));
    } else {
        assert(t.subrange(i, i + sep.len()) =~= s.subrange(d + i, d + i + sep.len()));
        assert(occurs_at(t, sep, i) == occurs_at(s, sep, d + i));
        if occurs_at(t, sep, i) {
            let next = i + sep.len();
            split_from_of_suffix(s, sep, d, next, next);
            assert(s.subrange(d + start, d + i) =~= t.subrange(start, i));
        } else {
            split_from_of_suffix(s, sep, d, start, i + 1);
        }
    }
}

/// A text in which the separator stands nowhere is one piece.
pub proof fn split_without_separator(s: Seq<char>, sep: Seq<char>)
    requires
        !contains_text(s, sep),
    ensures
        split_text(s, sep) == seq![s],
{
    split_from_without_separator(s, sep, 0);
    assert(s.subrange(0, s.len() as int) =~= s);
}

proof fn split_from_without_separator(s: Seq<char>, sep: Seq<char>, i: int)
    requires
        0 <= i,
        !contains_text(s, sep),
    ensures
        split_from(s, sep, 0, i) == seq![s.subrange(0, s.len() as int)],
    decreases s.len() - i,
{
    if sep.len() == 0 || i + sep.len() > s.len() {
    } else {
        assert(!occurs_at(s, sep, i));
        split_from_without_separator(s, sep, i + 1);
    }
}

/// Whether the character `c` stands nowhere in `t`.
pub open spec fn lacks(t: Seq<char>, c: char) -> bool {
    forall|j: int| 0 <= j < t.len() ==> #[trigger] t[j] != c
}

/// Texts that lack a character, joined with that character and cut at it
/// again, are the texts that were joined.
pub proof fn split_of_joined(parts: Seq<Seq<char>>, c: char)
    requires
        parts.len() >= 1,
        forall|k: int| 0 <= k < parts.len() ==> lacks(#[trigger] parts[k], c),
    ensures
        split_text(joined(parts, seq![c]), seq![c]) == parts,
    decreases parts.len(),
{
    let sep = seq![c];
    let s = joined(parts, sep);
    let first = parts[0];
    if parts.len() == 1 {
        assert(join_rest(parts, sep, 1) =~= Seq::<char>::empty());
        assert(s =~= first);
        assert(!contains_text(s, sep)) by {
            if contains_text(s, sep) {
                let j = choose|j: int| occurs_at(s, sep, j);
                assert(s.subrange(j, j + 1)[0] == c);
                assert(s[j] == c);
            }
        }
        split_without_separator(s, sep);
        assert(parts =~= seq![s]);
    } else {
        let rest = parts.subrange(1, parts.len() as int);
        assert(parts =~= seq![first] + rest);
        joined_with_first(first, rest, sep);
        let tail = joined(rest, sep);
        assert(s == first + sep + tail);
        let at = first.len() as int;
        assert forall|j: int| 0 <= j < at implies !occurs_at(s, sep, j) by {
            if occurs_at(s, sep, j) {
                assert(s.subrange(j, j + 1)[0] == c);
                assert(s[j] == first[j]);
            }
        }
        assert(occurs_at(s, sep, at)) by {
            assert(s[at] == c);
            assert(s.subrange(at, at + 1) =~= sep);
        }
        split_from_skips(s, sep, 0, 0, at);
        split_from_of_suffix(s, sep, at + 1, 0, 0);
        assert(s.subrange(at + 1, s.len() as int) =~= tail);
        assert forall|k: int| 0 <= k < rest.len() implies lacks(#[trigger] rest[k], c) by {
            assert(rest[k] == parts[k + 1]);
        }
        split_of_joined(rest, c);
        assert(s.subrange(0, at) =~= first);
        assert(split_text(s, sep) == seq![first] + rest);
    }
}

} // verus!
