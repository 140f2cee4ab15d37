//! Parsing of `/proc` style values.

use vstd::prelude::*;

use crate::fmt::{decimal, push_decimal, push_str};
use crate::text::{char_is_ws, is_trim_of, is_ws, trim};

verus! {

/// Numeric value of a run of ASCII digits.
pub open spec fn digits_value(s: Seq<char>) -> nat
    decreases s.len(),
{
    if s.len() == 0 {
        0
    } else {
        digits_value(s.drop_last()) * 10 + ((s.last() as u32) - 48) as nat
    }
}

pub open spec fn is_digit(c: char) -> bool {
    '0' <= c && c <= '9'
}

pub open spec fn all_digits(s: Seq<char>) -> bool {
    forall|i: int| 0 <= i < s.len() ==> is_digit(#[trigger] s[i])
}

/// The token without one leading `+`.
pub open spec fn strip_plus(t: Seq<char>) -> Seq<char> {
    if t.len() > 0 && t[0] == '+' { t.drop_first() } else { t }
}

/// What `str::parse::<u64>` gives: an optional `+`, then one or more ASCII
/// digits whose value fits in 64 bits.
pub open spec fn parse_u64(t: Seq<char>) -> Option<u64> {
    let ds = strip_plus(t);
    if ds.len() > 0 && all_digits(ds) && digits_value(ds) <= u64::MAX {
        Some(digits_value(ds) as u64)
    } else {
        None
    }
}

/// A digit string is worth at least any of its prefixes.
proof fn lemma_digits_prefix_bound(ds: Seq<char>, k: int)
    requires
        0 <= k <= ds.len(),
        all_digits(ds),
    ensures
        digits_value(ds.subrange(0, k)) <= digits_value(ds),
    decreases ds.len() - k,
{
    if k < ds.len() {
        lemma_digits_prefix_bound(ds, k + 1);
        assert(ds.subrange(0, k + 1).drop_last() =~= ds.subrange(0, k));
    } else {
        assert(ds.subrange(0, k) =~= ds);
    }
}

/// The whitespace-separated words of `s[i..]`, `cur` being the word in
/// progress (as `str::split_whitespace` gives them).
pub open spec fn words_acc(s: Seq<char>, i: int, cur: Seq<char>) -> Seq<Seq<char>>
    decreases s.len() - i,
{
    if i >= s.len() {
        if cur.len() > 0 { seq![cur] } else { Seq::empty() }
    } else if is_ws(s[i]) {
        (if cur.len() > 0 { seq![cur] } else { Seq::empty() }) + words_acc(s, i + 1, Seq::empty())
    } else {
        words_acc(s, i + 1, cur.push(s[i]))
    }
}

/// The whitespace-separated words of `s`.
pub open spec fn words(s: Seq<char>) -> Seq<Seq<char>> {
    words_acc(s, 0, Seq::empty())
}

pub open spec fn str_views(v: Seq<&str>) -> Seq<Seq<char>> {
    v.map_values(|w: &str| w@)
}

/// The whitespace-separated words of `s` (`str::split_whitespace`).
pub fn split_words(s: &str) -> (r: Vec<&str>)
    ensures
        str_views(r@) == words(s@),
{
    let n = s.unicode_len();
    let mut out: Vec<&str> = Vec::new();
    let mut start: usize = 0;
    let mut i: usize = 0;
    assert(s@.subrange(0, 0) =~= Seq::<char>::empty());
    assert(str_views(out@) + words(s@) =~= words(s@));
    while i < n
        invariant
            n == s@.len(),
            start <= i <= n,
            words(s@) == str_views(out@) + words_acc(s@, i as int, s@.subrange(start as int, i as int)),
        decreases n - i,
    {
        let c = s.get_char(i);
        let ghost cur = s@.subrange(start as int, i as int);
        let ghost before = str_views(out@);
        if char_is_ws(c) {
            if start < i {
                let w = s.substring_char(start, i);
                out.push(w);
                assert(str_views(out@) =~= before.push(cur));
                assert(before.push(cur) + words_acc(s@, i + 1, Seq::empty()) =~= before + (seq![cur]
                    + words_acc(s@, i + 1, Seq::empty())));
            } else {
                assert(cur.len() == 0);
                assert(before + words_acc(s@, i + 1, Seq::empty()) =~= before + (Seq::<Seq<char>>::empty()
                    + words_acc(s@, i + 1, Seq::empty())));
            }
            start = i + 1;
            assert(s@.subrange(start as int, i + 1) =~= Seq::<char>::empty());
        } else {
            assert(s@.subrange(start as int, i + 1) =~= cur.push(c));
        }
        i += 1;
    }
    let ghost cur = s@.subrange(start as int, n as int);
    let ghost before = str_views(out@);
    if start < n {
        let w = s.substring_char(start, n);
        out.push(w);
        assert(str_views(out@) =~= before.push(cur));
        assert(before + seq![cur] =~= before.push(cur));
    } else {
        assert(before + Seq::<Seq<char>>::empty() =~= before);
    }
    out
}

/// Without one trailing carriage return.
pub open spec fn strip_cr(l: Seq<char>) -> Seq<char> {
    if l.len() > 0 && l.last() == '\r' { l.drop_last() } else { l }
}

/// The lines of `s[i..]`, `cur` being the line in progress, as
/// `str::lines` gives them: split at `\n`, a `\r` before the `\n` dropped,
/// and no empty last line after a final `\n`.
pub open spec fn lines_acc(s: Seq<char>, i: int, cur: Seq<char>) -> Seq<Seq<char>>
    decreases s.len() - i,
{
    if i >= s.len() {
        if cur.len() > 0 { seq![cur] } else { Seq::empty() }
    } else if s[i] == '\n' {
        seq![strip_cr(cur)] + lines_acc(s, i + 1, Seq::empty())
    } else {
        lines_acc(s, i + 1, cur.push(s[i]))
    }
}

/// The lines of `s`.
pub open spec fn lines(s: Seq<char>) -> Seq<Seq<char>> {
    lines_acc(s, 0, Seq::empty())
}

/// The lines of `s` (`str::lines`).
pub fn split_lines(s: &str) -> (r: Vec<&str>)
    ensures
        str_views(r@) == lines(s@),
{
    let n = s.unicode_len();
    let mut out: Vec<&str> = Vec::new();
    let mut start: usize = 0;
    let mut i: usize = 0;
    assert(s@.subrange(0, 0) =~= Seq::<char>::empty());
    assert(str_views(out@) + lines(s@) =~= lines(s@));
    while i < n
        invariant
            n == s@.len(),
            start <= i <= n,
            lines(s@) == str_views(out@) + lines_acc(s@, i as int, s@.subrange(start as int, i as int)),
        decreases n - i,
    {
        let c = s.get_char(i);
        let ghost cur = s@.subrange(start as int, i as int);
        let ghost before = str_views(out@);
        if c == '\n' {
            let end = if start < i && s.get_char(i - 1) == '\r' { i - 1 } else { i };
            let w = s.substring_char(start, end);
            assert(w@ =~= strip_cr(cur));
            out.push(w);
            assert(str_views(out@) =~= before.push(strip_cr(cur)));
            assert(before.push(strip_cr(cur)) + lines_acc(s@, i + 1, Seq::empty()) =~= before + (seq![strip_cr(cur)]
                + lines_acc(s@, i + 1, Seq::empty())));
            start = i + 1;
            assert(s@.subrange(start as int, i + 1) =~= Seq::<char>::empty());
        } else {
            assert(s@.subrange(start as int, i + 1) =~= cur.push(c));
        }
        i += 1;
    }
    let ghost cur = s@.subrange(start as int, n as int);
    let ghost before = str_views(out@);
    if start < n {
        let w = s.substring_char(start, n);
        out.push(w);
        assert(str_views(out@) =~= before.push(cur));
        assert(before + seq![cur] =~= before.push(cur));
    } else {
        assert(before + Seq::<Seq<char>>::empty() =~= before);
    }
    out
}

/// What `str::parse::<i32>` gives: an optional sign, then one or more ASCII
/// digits whose signed value fits in 32 bits.
pub open spec fn parse_i32(t: Seq<char>) -> Option<i32> {
    if t.len() > 0 && t[0] == '-' {
        let ds = t.drop_first();
        if ds.len() > 0 && all_digits(ds) && digits_value(ds) <= 0x8000_0000 {
            Some((0 - digits_value(ds)) as i32)
        } else {
            None
        }
    } else {
        let ds = strip_plus(t);
        if ds.len() > 0 && all_digits(ds) && digits_value(ds) <= 0x7fff_ffff {
            Some(digits_value(ds) as i32)
        } else {
            None
        }
    }
}

/// The value of the digits `s[a..b]`, when they are all digits and the
/// value fits in 64 bits.
fn digits_in(s: &str, a: usize, b: usize) -> (r: Option<u64>)
    requires
        a <= b <= s@.len(),
    ensures
        ({
            let ds = s@.subrange(a as int, b as int);
            match r {
                Some(v) => all_digits(ds) && digits_value(ds) == v,
                None => !(all_digits(ds) && digits_value(ds) <= u64::MAX),
            }
        }),
{
    let ghost ds = s@.subrange(a as int, b as int);
    let mut v: u64 = 0;
    let mut i: usize = a;
    assert(s@.subrange(a as int, a as int) =~= Seq::<char>::empty());
    while i < b
        invariant
            a <= i <= b <= s@.len(),
            ds == s@.subrange(a as int, b as int),
            forall|j: int| a <= j < i ==> is_digit(#[trigger] s@[j]),
            v == digits_value(s@.subrange(a as int, i as int)),
        decreases b - i,
    {
        let c = s.get_char(i);
        if !('0' <= c && c <= '9') {
            assert(ds[i - a] == c);
            return None;
        }
        assert(s@.subrange(a as int, i + 1).drop_last() =~= s@.subrange(a as int, i as int));
        assert(s@.subrange(a as int, i + 1) =~= ds.subrange(0, i + 1 - a));
        let dv = (c as u32 - 48) as u64;
        match v.checked_mul(10) {
            Some(m) => match m.checked_add(dv) {
                Some(x) => {
                    v = x;
                },
                None => {
                    proof {
                        if all_digits(ds) {
                            lemma_digits_prefix_bound(ds, i + 1 - a);
                        }
                    }
                    return None;
                },
            },
            None => {
                proof {
                    if all_digits(ds) {
                        lemma_digits_prefix_bound(ds, i + 1 - a);
                    }
                }
                return None;
            },
        }
        i += 1;
    }
    assert(s@.subrange(a as int, b as int) =~= ds);
    Some(v)
}

/// Parse a whole string as `u64` (`str::parse::<u64>`).
pub fn parse_u64_str(t: &str) -> (r: Option<u64>)
    ensures
        r == parse_u64(t@),
{
    let n = t.unicode_len();
    let start: usize = if n > 0 && t.get_char(0) == '+' { 1 } else { 0 };
    assert(strip_plus(t@) =~= t@.subrange(start as int, n as int));
    if start == n {
        return None;
    }
    digits_in(t, start, n)
}

/// Parse a whole string as `i32` (`str::parse::<i32>`).
pub fn parse_i32_str(t: &str) -> (r: Option<i32>)
    ensures
        r == parse_i32(t@),
{
    let n = t.unicode_len();
    if n > 0 && t.get_char(0) == '-' {
        assert(t@.drop_first() =~= t@.subrange(1, n as int));
        if n == 1 {
            return None;
        }
        match digits_in(t, 1, n) {
            Some(v) => if v <= 0x8000_0000 {
                Some((0 - (v as i64)) as i32)
            } else {
                None
            },
            None => None,
        }
    } else {
        let start: usize = if n > 0 && t.get_char(0) == '+' { 1 } else { 0 };
        assert(strip_plus(t@) =~= t@.subrange(start as int, n as int));
        if start == n {
            return None;
        }
        match digits_in(t, start, n) {
            Some(v) => if v <= 0x7fff_ffff {
                Some(v as i32)
            } else {
                None
            },
            None => None,
        }
    }
}

/// The leading number of a `/proc/meminfo` value such as `"  2048 kB"`:
/// the first whitespace-separated word parsed as `u64`, 0 when there is
/// none or it is not a number.
pub open spec fn kb_value(val: Seq<char>) -> u64 {
    let w = words(val);
    if w.len() > 0 {
        match parse_u64(w[0]) {
            Some(v) => v,
            None => 0,
        }
    } else {
        0
    }
}

pub fn parse_kb(val: &str) -> (r: u64)
    ensures
        r == kb_value(val@),
{
    let w = split_words(val);
    if w.len() > 0 {
        assert(w@[0]@ == words(val@)[0]);
        match parse_u64_str(w[0]) {
            Some(v) => v,
            None => 0,
        }
    } else {
        0
    }
}

/// `a + b`, capped at `u64::MAX`.
pub open spec fn sat_add(a: u64, b: u64) -> u64 {
    if a + b > u64::MAX { u64::MAX } else { (a + b) as u64 }
}

/// `a - b`, floored at 0.
pub open spec fn sat_sub(a: u64, b: u64) -> u64 {
    if a >= b { (a - b) as u64 } else { 0 }
}

/// The words that parse as `u64`, in order, with their values.
pub open spec fn parsed_numbers(ws: Seq<Seq<char>>) -> Seq<u64>
    decreases ws.len(),
{
    if ws.len() == 0 {
        Seq::empty()
    } else {
        let rest = parsed_numbers(ws.drop_last());
        match parse_u64(ws.last()) {
            Some(v) => rest.push(v),
            None => rest,
        }
    }
}

/// Sum of the values, capped at `u64::MAX`.
pub open spec fn capped_sum(v: Seq<u64>) -> u64
    decreases v.len(),
{
    if v.len() == 0 { 0 } else { sat_add(capped_sum(v.drop_last()), v.last()) }
}

/// `s` without its first element (empty stays empty).
pub open spec fn tail<A>(s: Seq<A>) -> Seq<A> {
    if s.len() > 0 { s.drop_first() } else { s }
}

/// The idle and total jiffies of the first (`cpu`) line of `/proc/stat`:
/// the numbers after the label, the fourth of them being idle time; none
/// when there are fewer than four.
pub open spec fn cpu_counters_of(content: Seq<char>) -> Option<(u64, u64)> {
    let ls = lines(content);
    if ls.len() == 0 {
        None
    } else {
        let nums = parsed_numbers(tail(words(ls[0])));
        if nums.len() >= 4 { Some((nums[3], capped_sum(nums))) } else { None }
    }
}

/// Read the idle and total jiffies from the text of `/proc/stat`.
pub fn cpu_counters(content: &str) -> (r: Option<(u64, u64)>)
    ensures
        r == cpu_counters_of(content@),
{
    let ls = split_lines(content);
    if ls.len() == 0 {
        return None;
    }
    let ws = split_words(ls[0]);
    let ghost all = str_views(ws@);
    assert(all == words(lines(content@)[0]));
    let mut nums: Vec<u64> = Vec::new();
    let mut total: u64 = 0;
    let mut i: usize = 1;
    if ws.len() == 0 {
        assert(tail(all) =~= Seq::<Seq<char>>::empty());
        return None;
    }
    assert(all.subrange(1, 1) =~= Seq::<Seq<char>>::empty());
    while i < ws.len()
        invariant
            1 <= i <= ws@.len(),
            all == str_views(ws@),
            nums@ == parsed_numbers(all.subrange(1, i as int)),
            total == capped_sum(nums@),
        decreases ws@.len() - i,
    {
        proof {
            let t = all.subrange(1, i as int + 1);
            assert(t.drop_last() =~= all.subrange(1, i as int));
            assert(t.last() == ws@[i as int]@);
        }
        match parse_u64_str(ws[i]) {
            Some(v) => {
                let ghost before = nums@;
                nums.push(v);
                assert(nums@.drop_last() =~= before);
                total = total.saturating_add(v);
            },
            None => {},
        }
        i += 1;
    }
    assert(all.subrange(1, ws@.len() as int) =~= tail(all));
    if nums.len() >= 4 {
        Some((nums[3], total))
    } else {
        None
    }
}

/// Busy and total jiffies between two readings of `/proc/stat`, when
/// there was an earlier reading and time passed.
pub fn cpu_busy(prev_idle: u64, prev_total: u64, idle: u64, total: u64) -> (r: Option<(u64, u64)>)
    ensures
        r == (if prev_total > 0 && sat_sub(total, prev_total) > 0 {
            Some((sat_sub(sat_sub(total, prev_total), sat_sub(idle, prev_idle)), sat_sub(total, prev_total)))
        } else {
            None
        }),
{
    if prev_total == 0 {
        return None;
    }
    let d_total = total.saturating_sub(prev_total);
    let d_idle = idle.saturating_sub(prev_idle);
    if d_total > 0 {
        Some((d_total.saturating_sub(d_idle), d_total))
    } else {
        None
    }
}

/// `l` starts with `p`.
pub open spec fn has_prefix(l: Seq<char>, p: Seq<char>) -> bool {
    p.len() <= l.len() && l.subrange(0, p.len() as int) == p
}

fn starts_with(l: &str, p: &str) -> (r: bool)
    ensures
        r == has_prefix(l@, p@),
{
    let n = l.unicode_len();
    let m = p.unicode_len();
    if m > n {
        return false;
    }
    let mut k: usize = 0;
    while k < m
        invariant
            n == l@.len(),
            m == p@.len(),
            m <= n,
            k <= m,
            forall|j: int| 0 <= j < k ==> l@[j] == p@[j],
        decreases m - k,
    {
        if l.get_char(k) != p.get_char(k) {
            assert(l@.subrange(0, m as int)[k as int] != p@[k as int]);
            return false;
        }
        k += 1;
    }
    assert(l@.subrange(0, m as int) =~= p@);
    true
}

/// Total and available memory (kB) of `/proc/meminfo` lines, the last
/// `MemTotal:` and `MemAvailable:` lines counting (0 when absent).
pub open spec fn mem_fold(ls: Seq<Seq<char>>) -> (u64, u64)
    decreases ls.len(),
{
    if ls.len() == 0 {
        (0, 0)
    } else {
        let (t, a) = mem_fold(ls.drop_last());
        let l = ls.last();
        if has_prefix(l, "MemTotal:"@) {
            (kb_value(l.skip(9)), a)
        } else if has_prefix(l, "MemAvailable:"@) {
            (t, kb_value(l.skip(13)))
        } else {
            (t, a)
        }
    }
}

/// Memory figures of the launcher's system panel.
#[derive(Debug, Clone, Copy, PartialEq, Eq, Structural)]
pub struct MemInfo {
    pub total_kb: u64,
    /// Total minus available.
    pub used_kb: u64,
    pub total_mb: u64,
    pub used_mb: u64,
}

/// Read the memory figures from the text of `/proc/meminfo`.
pub fn mem_info(content: &str) -> (r: MemInfo)
    ensures
        ({
            let (t, a) = mem_fold(lines(content@));
            &&& r.total_kb == t
            &&& r.used_kb == sat_sub(t, a)
            &&& r.total_mb == t / 1024
            &&& r.used_mb == sat_sub(t, a) / 1024
        }),
{
    let ls = split_lines(content);
    let ghost all = str_views(ls@);
    let mut total: u64 = 0;
    let mut avail: u64 = 0;
    let mut i: usize = 0;
    assert(all.take(0) =~= Seq::<Seq<char>>::empty());
    while i < ls.len()
        invariant
            i <= ls@.len(),
            all == str_views(ls@),
            (total, avail) == mem_fold(all.take(i as int)),
        decreases ls@.len() - i,
    {
        proof {
            let t = all.take(i as int + 1);
            assert(t.drop_last() =~= all.take(i as int));
            assert(t.last() == ls@[i as int]@);
        }
        let l = ls[i];
        proof {
            reveal_strlit("MemTotal:");
            reveal_strlit("MemAvailable:");
        }
        if starts_with(l, "MemTotal:") {
            let rest = l.substring_char(9, l.unicode_len());
            assert(rest@ =~= l@.skip(9));
            total = parse_kb(rest);
        } else if starts_with(l, "MemAvailable:") {
            let rest = l.substring_char(13, l.unicode_len());
            assert(rest@ =~= l@.skip(13));
            avail = parse_kb(rest);
        }
        i += 1;
    }
    assert(all.take(ls@.len() as int) =~= all);
    let used = total.saturating_sub(avail);
    MemInfo { total_kb: total, used_kb: used, total_mb: total / 1024, used_mb: used / 1024 }
}

/// `s` without its trailing `c` characters (`str::trim_end_matches`).
pub open spec fn trim_end_char(s: Seq<char>, c: char) -> Seq<char>
    decreases s.len(),
{
    if s.len() > 0 && s.last() == c { trim_end_char(s.drop_last(), c) } else { s }
}

fn trim_end_of(s: &str, c: char) -> (r: &str)
    ensures
        r@ == trim_end_char(s@, c),
{
    let mut k = s.unicode_len();
    assert(s@.subrange(0, k as int) =~= s@);
    while k > 0 && s.get_char(k - 1) == c
        invariant
            k <= s@.len(),
            trim_end_char(s@.subrange(0, k as int), c) == trim_end_char(s@, c),
        decreases k,
    {
        assert(s@.subrange(0, k as int).drop_last() =~= s@.subrange(0, k - 1));
        k -= 1;
    }
    s.substring_char(0, k)
}

/// `s` from its third element on (empty when shorter).
pub open spec fn skip2<A>(s: Seq<A>) -> Seq<A> {
    if s.len() >= 2 { s.skip(2) } else { Seq::empty() }
}

/// Parsed value, or 0.
pub open spec fn u64_or_zero(t: Seq<char>) -> u64 {
    match parse_u64(t) {
        Some(v) => v,
        None => 0,
    }
}

/// Received and sent byte totals over the interface lines of
/// `/proc/net/dev` (loopback left out; lines with fewer than ten fields
/// ignored; totals capped at `u64::MAX`).
pub open spec fn net_fold(ls: Seq<Seq<char>>) -> (u64, u64)
    decreases ls.len(),
{
    if ls.len() == 0 {
        (0, 0)
    } else {
        let (rx, tx) = net_fold(ls.drop_last());
        let p = words(ls.last());
        if p.len() >= 10 && trim_end_char(p[0], ':') != "lo"@ {
            (sat_add(rx, u64_or_zero(p[1])), sat_add(tx, u64_or_zero(p[9])))
        } else {
            (rx, tx)
        }
    }
}

fn u64_or_zero_of(t: &str) -> (r: u64)
    ensures
        r == u64_or_zero(t@),
{
    match parse_u64_str(t) {
        Some(v) => v,
        None => 0,
    }
}

/// Read the received and sent byte totals from the text of
/// `/proc/net/dev` (two header lines first).
pub fn net_totals(content: &str) -> (r: (u64, u64))
    ensures
        r == net_fold(skip2(lines(content@))),
{
    let ls = split_lines(content);
    let ghost all = str_views(ls@);
    let mut rx: u64 = 0;
    let mut tx: u64 = 0;
    if ls.len() < 2 {
        return (0, 0);
    }
    let mut i: usize = 2;
    assert(all.subrange(2, 2) =~= Seq::<Seq<char>>::empty());
    while i < ls.len()
        invariant
            2 <= i <= ls@.len(),
            all == str_views(ls@),
            (rx, tx) == net_fold(all.subrange(2, i as int)),
        decreases ls@.len() - i,
    {
        proof {
            let t = all.subrange(2, i as int + 1);
            assert(t.drop_last() =~= all.subrange(2, i as int));
            assert(t.last() == ls@[i as int]@);
        }
        let p = split_words(ls[i]);
        if p.len() >= 10 {
            let iface = trim_end_of(p[0], ':');
            proof { reveal_strlit("lo"); }
            let lo = iface.unicode_len() == 2 && iface.get_char(0) == 'l' && iface.get_char(1) == 'o';
            proof {
                if iface@.len() == 2 && iface@[0] == 'l' && iface@[1] == 'o' {
                    assert(iface@ =~= "lo"@);
                }
            }
            if !lo {
                rx = rx.saturating_add(u64_or_zero_of(p[1]));
                tx = tx.saturating_add(u64_or_zero_of(p[9]));
            }
        }
        i += 1;
    }
    assert(all.subrange(2, ls@.len() as int) =~= skip2(all));
    (rx, tx)
}

/// Size and used bytes of the second line of `df --output=size,used -B1`.
pub open spec fn df_sizes_of(text: Seq<char>) -> Option<(u64, u64)> {
    let ls = lines(text);
    if ls.len() >= 2 {
        let p = words(ls[1]);
        if p.len() >= 2 {
            match (parse_u64(p[0]), parse_u64(p[1])) {
                (Some(t), Some(u)) => Some((t, u)),
                _ => None,
            }
        } else {
            None
        }
    } else {
        None
    }
}

/// Read the root file system's size and used bytes from `df` output.
pub fn df_sizes(text: &str) -> (r: Option<(u64, u64)>)
    ensures
        r == df_sizes_of(text@),
{
    let ls = split_lines(text);
    if ls.len() < 2 {
        return None;
    }
    let p = split_words(ls[1]);
    if p.len() < 2 {
        return None;
    }
    match (parse_u64_str(p[0]), parse_u64_str(p[1])) {
        (Some(t), Some(u)) => Some((t, u)),
        _ => None,
    }
}

/// Index of the first `c` in `s` at or after `from` (`s.len()` when none).
pub open spec fn next_char(s: Seq<char>, from: int, c: char) -> int
    decreases s.len() - from,
{
    if from >= s.len() { s.len() as int } else if s[from] == c { from } else { next_char(s, from + 1, c) }
}

fn find_char(s: &str, from: usize, c: char) -> (r: usize)
    requires
        from <= s@.len(),
    ensures
        r == next_char(s@, from as int, c),
        from <= r <= s@.len(),
{
    let n = s.unicode_len();
    let mut i = from;
    while i < n && s.get_char(i) != c
        invariant
            n == s@.len(),
            from <= i <= n,
            next_char(s@, i as int, c) == next_char(s@, from as int, c),
        decreases n - i,
    {
        i += 1;
    }
    i
}

/// The connection of a connected wifi device in a line of `nmcli -t -f
/// DEVICE,TYPE,STATE,CONNECTION dev status`: the line has at least three
/// `:`, its second and third fields are `wifi` and `connected`, and the
/// rest after the third `:` is not empty.
pub open spec fn nmcli_wifi(l: Seq<char>) -> Option<Seq<char>> {
    let c1 = next_char(l, 0, ':');
    let c2 = next_char(l, c1 + 1, ':');
    let c3 = next_char(l, c2 + 1, ':');
    if c3 < l.len() && l.subrange(c1 + 1, c2) == "wifi"@ && l.subrange(c2 + 1, c3) == "connected"@ && c3 + 1
        < l.len() {
        Some(l.skip(c3 + 1))
    } else {
        None
    }
}

/// The first connected wifi connection among the lines.
pub open spec fn first_wifi(ls: Seq<Seq<char>>) -> Option<Seq<char>>
    decreases ls.len(),
{
    if ls.len() == 0 {
        None
    } else {
        match nmcli_wifi(ls[0]) {
            Some(x) => Some(x),
            None => first_wifi(ls.drop_first()),
        }
    }
}

fn str_is(s: &str, a: usize, b: usize, t: &str) -> (r: bool)
    requires
        a <= b <= s@.len(),
    ensures
        r == (s@.subrange(a as int, b as int) == t@),
{
    let piece = s.substring_char(a, b);
    crate::strs::str_eq(piece, t)
}

/// The SSID of the connected wifi device in `nmcli` terse output.
pub fn nmcli_wifi_ssid(text: &str) -> (r: Option<String>)
    ensures
        match r {
            Some(x) => first_wifi(lines(text@)) == Some(x@),
            None => first_wifi(lines(text@)) is None,
        },
{
    let ls = split_lines(text);
    let ghost all = str_views(ls@);
    let mut i: usize = 0;
    assert(all.skip(0) =~= all);
    while i < ls.len()
        invariant
            i <= ls@.len(),
            all == str_views(ls@),
            all == lines(text@),
            first_wifi(all) == first_wifi(all.skip(i as int)),
        decreases ls@.len() - i,
    {
        let l = ls[i];
        assert(all.skip(i as int)[0] == l@);
        assert(all.skip(i as int).drop_first() =~= all.skip(i as int + 1));
        let n = l.unicode_len();
        proof {
            reveal_strlit("wifi");
            reveal_strlit("connected");
        }
        let c1 = find_char(l, 0, ':');
        let mut found = false;
        if c1 < n {
            let c2 = find_char(l, c1 + 1, ':');
            if c2 < n {
                let c3 = find_char(l, c2 + 1, ':');
                if c3 < n && n - c3 > 1 && str_is(l, c1 + 1, c2, "wifi") && str_is(l, c2 + 1, c3, "connected") {
                    let ssid = l.substring_char(c3 + 1, n);
                    assert(ssid@ =~= l@.skip(c3 + 1));
                    assert(nmcli_wifi(l@) == Some(ssid@));
                    assert(all.skip(i as int).len() > 0);
                    assert(first_wifi(all.skip(i as int)) == Some(ssid@));
                    let r = ssid.to_owned();
                    assert(r@ == ssid@);
                    return Some(r);
                }
                assert(nmcli_wifi(l@) is None);
            } else {
                assert(next_char(l@, c2 + 1, ':') == n);
                assert(nmcli_wifi(l@) is None);
            }
        } else {
            assert(next_char(l@, c1 + 1, ':') == n);
            assert(next_char(l@, n + 1, ':') == n);
            assert(nmcli_wifi(l@) is None);
        }
        i += 1;
    }
    assert(all.skip(ls@.len() as int) =~= Seq::<Seq<char>>::empty());
    None
}

/// The signal level of the first interface line of `/proc/net/wireless`
/// (two header lines first; a line needs four fields): the fourth field
/// without trailing dots, as `i32`, 0 when it is not a number.
pub open spec fn wireless_signal_of(ls: Seq<Seq<char>>) -> Option<i32>
    decreases ls.len(),
{
    if ls.len() == 0 {
        None
    } else if words(ls[0]).len() >= 4 {
        Some(match parse_i32(trim_end_char(words(ls[0])[3], '.')) {
            Some(v) => v,
            None => 0,
        })
    } else {
        wireless_signal_of(ls.drop_first())
    }
}

/// Read the wifi signal level from the text of `/proc/net/wireless`.
pub fn wireless_signal(content: &str) -> (r: Option<i32>)
    ensures
        r == wireless_signal_of(skip2(lines(content@))),
{
    let ls = split_lines(content);
    let ghost all = str_views(ls@);
    if ls.len() < 2 {
        return None;
    }
    let mut i: usize = 2;
    while i < ls.len()
        invariant
            2 <= i <= ls@.len(),
            all == str_views(ls@),
            all == lines(content@),
            wireless_signal_of(skip2(all)) == wireless_signal_of(all.skip(i as int)),
        decreases ls@.len() - i,
    {
        assert(all.skip(i as int)[0] == ls@[i as int]@);
        assert(all.skip(i as int).drop_first() =~= all.skip(i as int + 1));
        let p = split_words(ls[i]);
        assert(str_views(p@) == words(all.skip(i as int)[0]));
        if p.len() >= 4 {
            assert(str_views(p@)[3] == p@[3]@);
            let sig = trim_end_of(p[3], '.');
            let v = match parse_i32_str(sig) {
                Some(v) => v,
                None => 0,
            };
            assert(all.skip(i as int).len() > 0);
            assert(wireless_signal_of(all.skip(i as int)) == Some(v));
            return Some(v);
        }
        i += 1;
    }
    assert(all.skip(ls@.len() as int) =~= Seq::<Seq<char>>::empty());
    None
}

/// A battery capacity given the trimmed text of its file: the text as
/// `i32`, when it is a percentage (0 to 100).
pub open spec fn capacity_of(t: Seq<char>) -> Option<i32> {
    match parse_i32(t) {
        Some(v) => if 0 <= v <= 100 { Some(v) } else { None },
        None => None,
    }
}

/// Read a battery capacity (`/sys/class/power_supply/*/capacity`).
pub fn parse_capacity(text: &str) -> (r: Option<i32>)
    ensures
        exists|t: Seq<char>| is_trim_of(t, text@) && r == #[trigger] capacity_of(t),
{
    let t = trim(text);
    match parse_i32_str(t) {
        Some(v) => if 0 <= v && v <= 100 {
            assert(capacity_of(t@) == Some(v));
            Some(v)
        } else {
            assert(capacity_of(t@) is None);
            None
        },
        None => {
            assert(capacity_of(t@) is None);
            None
        },
    }
}

/// A battery status file's text says it is charging: trimmed, it is
/// `Charging` or `Full`.
pub fn is_charging(text: &str) -> (r: bool)
    ensures
        exists|t: Seq<char>| #[trigger] is_trim_of(t, text@) && r == (t == "Charging"@ || t == "Full"@),
{
    let t = trim(text);
    crate::strs::str_eq(t, "Charging") || crate::strs::str_eq(t, "Full")
}

/// A `/proc` entry name that is a process id: only ASCII digits.
pub fn is_pid_name(name: &str) -> (r: bool)
    ensures
        r == all_digits(name@),
{
    let n = name.unicode_len();
    let mut i: usize = 0;
    while i < n
        invariant
            n == name@.len(),
            i <= n,
            forall|j: int| 0 <= j < i ==> is_digit(#[trigger] name@[j]),
        decreases n - i,
    {
        let c = name.get_char(i);
        if !('0' <= c && c <= '9') {
            assert(!is_digit(name@[i as int]));
            return false;
        }
        i += 1;
    }
    true
}

/// Uptime as `"<d>d <h>h <m>m"`, `"<h>h <m>m"` under a day, `"<m>m"`
/// under an hour.
pub open spec fn uptime_text(secs: nat) -> Seq<char> {
    let days = secs / 86400;
    let hours = (secs % 86400) / 3600;
    let mins = (secs % 3600) / 60;
    if days > 0 {
        decimal(days) + "d "@ + decimal(hours) + "h "@ + decimal(mins) + "m"@
    } else if hours > 0 {
        decimal(hours) + "h "@ + decimal(mins) + "m"@
    } else {
        decimal(mins) + "m"@
    }
}

/// Format an uptime in seconds.
pub fn format_uptime(secs: u64) -> (r: String)
    ensures
        r@ == uptime_text(secs as nat),
{
    let days = secs / 86400;
    let hours = (secs % 86400) / 3600;
    let mins = (secs % 3600) / 60;
    let mut r = String::new();
    if days > 0 {
        push_decimal(&mut r, days);
        push_str(&mut r, "d ");
        push_decimal(&mut r, hours);
        push_str(&mut r, "h ");
    } else if hours > 0 {
        push_decimal(&mut r, hours);
        push_str(&mut r, "h ");
    }
    push_decimal(&mut r, mins);
    push_str(&mut r, "m");
    proof {
        reveal_strlit("d ");
        reveal_strlit("h ");
        reveal_strlit("m");
        assert(r@ =~= uptime_text(secs as nat));
    }
    r
}

/// Signal bars (0 to 4) of a wifi link: none when not connected or the
/// level is unknown (0 dBm); 4 from -50 dBm, 3 from -60, 2 from -70, else 1.
pub fn wifi_bars(connected: bool, signal_dbm: i32) -> (b: u8)
    ensures
        b == (if !connected || signal_dbm == 0 {
            0u8
        } else if signal_dbm >= -50 {
            4u8
        } else if signal_dbm >= -60 {
            3u8
        } else if signal_dbm >= -70 {
            2u8
        } else {
            1u8
        }),
{
    if !connected || signal_dbm == 0 {
        0
    } else if signal_dbm >= -50 {
        4
    } else if signal_dbm >= -60 {
        3
    } else if signal_dbm >= -70 {
        2
    } else {
        1
    }
}

/// The digits written for `n` are ASCII digits worth `n`.
proof fn lemma_decimal_digits(n: nat)
    ensures
        all_digits(decimal(n)),
        digits_value(decimal(n)) == n,
        decimal(n).len() >= 1,
    decreases n,
{
    if n < 10 {
        let d = decimal(n);
        assert(d == seq![crate::fmt::digit_char(n as int)]);
        assert(d.drop_last() =~= Seq::<char>::empty());
        assert(d.last() as u32 == n + 48);
        assert(digits_value(d.drop_last()) == 0);
        assert(digits_value(d) == digits_value(d.drop_last()) * 10 + ((d.last() as u32) - 48) as nat);
    } else {
        lemma_decimal_digits(n / 10);
        let d = decimal(n);
        assert(d.drop_last() == decimal(n / 10));
        assert(d.last() as u32 == n % 10 + 48);
        assert forall|i: int| 0 <= i < d.len() implies is_digit(#[trigger] d[i]) by {
            if i < d.len() - 1 {
                assert(d[i] == decimal(n / 10)[i]);
            }
        }
        assert(digits_value(d) == digits_value(d.drop_last()) * 10 + ((d.last() as u32) - 48) as nat);
        assert((n / 10) * 10 + n % 10 == n);
    }
}

/// A number written in decimal reads back as the same number: what
/// `fmt::decimal_string` writes, `parse_u64_str` parses to the value.
pub proof fn lemma_decimal_round_trip(n: u64)
    ensures
        parse_u64(decimal(n as nat)) == Some(n),
{
    lemma_decimal_digits(n as nat);
    let d = decimal(n as nat);
    assert(is_digit(d[0]));
    assert(strip_plus(d) == d);
}

/// The plain sum of the values.
pub open spec fn int_sum(v: Seq<u64>) -> int
    decreases v.len(),
{
    if v.len() == 0 { 0 } else { int_sum(v.drop_last()) + v.last() }
}

/// A capped sum is the plain sum while that fits, and never less than any
/// prefix's.
proof fn lemma_capped_sum(v: Seq<u64>)
    ensures
        int_sum(v) <= u64::MAX ==> capped_sum(v) == int_sum(v),
        capped_sum(v) <= int_sum(v) || capped_sum(v) == u64::MAX,
        int_sum(v) >= 0,
    decreases v.len(),
{
    if v.len() > 0 {
        lemma_capped_sum(v.drop_last());
    }
}

proof fn lemma_int_sum_ge_each(v: Seq<u64>, k: int)
    requires
        0 <= k < v.len(),
    ensures
        int_sum(v) >= v[k],
    decreases v.len(),
{
    lemma_capped_sum(v);
    if k < v.len() - 1 {
        lemma_int_sum_ge_each(v.drop_last(), k);
    } else {
        lemma_capped_sum(v.drop_last());
    }
}

/// The numbers of the first line of `/proc/stat` after its label, in
/// order.
pub open spec fn cpu_fields(content: Seq<char>) -> Seq<u64> {
    parsed_numbers(tail(words(lines(content)[0])))
}

/// The CPU reading's idle time is the fourth number of the `cpu` line and
/// its total is the sum of every number on it (user, nice, system, idle,
/// iowait, irq, softirq, steal, ...), capped at `u64::MAX`; so no field
/// is left out of the total and each one is counted in it.
pub proof fn lemma_cpu_total_counts_every_field(content: Seq<char>)
    requires
        cpu_counters_of(content) is Some,
    ensures
        ({
            let (idle, total) = cpu_counters_of(content)->0;
            let f = cpu_fields(content);
            &&& f.len() >= 4
            &&& idle == f[3]
            &&& int_sum(f) <= u64::MAX ==> total == int_sum(f)
            &&& int_sum(f) > u64::MAX ==> total == u64::MAX
            &&& forall|k: int| 0 <= k < f.len() ==> total >= #[trigger] f[k]
        }),
{
    let f = cpu_fields(content);
    let (idle, total) = cpu_counters_of(content)->0;
    lemma_capped_sum(f);
    assert forall|k: int| 0 <= k < f.len() implies total >= #[trigger] f[k] by {
        lemma_int_sum_ge_each(f, k);
        if int_sum(f) > u64::MAX {
            lemma_capped_at_max(f);
        }
    }
    if int_sum(f) > u64::MAX {
        lemma_capped_at_max(f);
    }
}

/// Past `u64::MAX`, the capped sum is `u64::MAX`.
proof fn lemma_capped_at_max(v: Seq<u64>)
    requires
        int_sum(v) > u64::MAX,
    ensures
        capped_sum(v) == u64::MAX,
    decreases v.len(),
{
    let init = v.drop_last();
    lemma_capped_sum(init);
    if int_sum(init) > u64::MAX {
        lemma_capped_at_max(init);
    }
}

} // verus!
