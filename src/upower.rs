//! Reading a battery sample out of the key/value text that `upower -i` prints.
use vstd::prelude::*;

use crate::battery::{State, BAT};

verus! {

/// ASCII whitespace: space, tab, line feed, vertical tab, form feed, carriage return.
pub open spec fn is_space(b: u8) -> bool {
    b == 0x20 || (0x09 <= b && b <= 0x0d)
}

/// Position of the first `c` in `s`, or `s.len()` when `s` holds none.
pub open spec fn first_index(s: Seq<u8>, c: u8) -> nat
    decreases s.len(),
{
    if s.len() == 0 || s[0] == c {
        0
    } else {
        1 + first_index(s.drop_first(), c)
    }
}

/// `s` without its leading whitespace.
pub open spec fn trim_start(s: Seq<u8>) -> Seq<u8>
    decreases s.len(),
{
    if s.len() > 0 && is_space(s[0]) {
        trim_start(s.drop_first())
    } else {
        s
    }
}

/// `s` without its trailing whitespace.
pub open spec fn trim_end(s: Seq<u8>) -> Seq<u8>
    decreases s.len(),
{
    if s.len() > 0 && is_space(s.last()) {
        trim_end(s.drop_last())
    } else {
        s
    }
}

pub open spec fn trim(s: Seq<u8>) -> Seq<u8> {
    trim_end(trim_start(s))
}

/// `p` occurs in `s` at position `i`.
pub open spec fn occurs_at(s: Seq<u8>, p: Seq<u8>, i: int) -> bool {
    0 <= i && i + p.len() <= s.len() && s.subrange(i, i + p.len()) == p
}

pub open spec fn contains(s: Seq<u8>, p: Seq<u8>) -> bool {
    exists|i: int| occurs_at(s, p, i)
}

/// The text between the first `:` of a line and the next one (or the end of
/// the line); none when the line has no `:`.
pub open spec fn value_field(line: Seq<u8>) -> Option<Seq<u8>> {
    let a = first_index(line, 0x3a);
    if a < line.len() {
        let rest = line.subrange(a + 1 as int, line.len() as int);
        Some(rest.subrange(0, first_index(rest, 0x3a) as int))
    } else {
        None
    }
}

pub open spec fn is_digit(b: u8) -> bool {
    0x30 <= b && b <= 0x39
}

pub open spec fn all_digits(s: Seq<u8>) -> bool {
    forall|i: int| 0 <= i < s.len() ==> is_digit(#[trigger] s[i])
}

/// The number that a string of decimal digits denotes.
pub open spec fn digits_value(s: Seq<u8>) -> int
    decreases s.len(),
{
    if s.len() == 0 {
        0
    } else {
        digits_value(s.drop_last()) * 10 + (s.last() - 0x30)
    }
}

pub open spec fn unsigned_value(s: Seq<u8>) -> Option<int> {
    if s.len() > 0 && all_digits(s) {
        Some(digits_value(s))
    } else {
        None
    }
}

/// A decimal integer with an optional `+` or `-` sign and at least one digit,
/// when it fits in an `i32`.
pub open spec fn int_value(s: Seq<u8>) -> Option<int> {
    let v = if s.len() > 0 && s[0] == 0x2d {
        match unsigned_value(s.drop_first()) {
            Some(m) => Some(-m),
            None => None,
        }
    } else if s.len() > 0 && s[0] == 0x2b {
        unsigned_value(s.drop_first())
    } else {
        unsigned_value(s)
    };
    match v {
        Some(x) => if i32::MIN <= x <= i32::MAX {
            Some(x)
        } else {
            None
        },
        None => None,
    }
}

pub open spec fn percentage_key() -> Seq<u8> {
    seq![0x70u8, 0x65, 0x72, 0x63, 0x65, 0x6e, 0x74, 0x61, 0x67, 0x65]
}

pub open spec fn state_key() -> Seq<u8> {
    seq![0x73u8, 0x74, 0x61, 0x74, 0x65]
}

pub open spec fn charging_token() -> Seq<u8> {
    seq![0x63u8, 0x68, 0x61, 0x72, 0x67, 0x69, 0x6e, 0x67]
}

pub open spec fn fully_charged_token() -> Seq<u8> {
    seq![0x66u8, 0x75, 0x6c, 0x6c, 0x79, 0x2d, 0x63, 0x68, 0x61, 0x72, 0x67, 0x65, 0x64]
}

/// The charging state that a `state:` value names.
pub open spec fn state_of_token(t: Seq<u8>) -> State {
    if t == charging_token() {
        State::Charging
    } else if t == fully_charged_token() {
        State::FullyCharged
    } else {
        State::Discharging
    }
}

/// The percentage that a `percentage:` line gives: its value field, trimmed,
/// up to the first `%`, read as an integer.
pub open spec fn percentage_of_line(line: Seq<u8>) -> Option<int> {
    match value_field(line) {
        Some(f) => {
            let t = trim(f);
            int_value(t.subrange(0, first_index(t, 0x25) as int))
        },
        None => None,
    }
}

/// The sample after one line was read: a line naming `percentage` sets the
/// percentage when its value reads as one, a line naming `state` sets the
/// state; other lines change nothing.
pub open spec fn read_line(line: Seq<u8>, st: State, pct: int) -> (State, int) {
    let pct2 = if contains(line, percentage_key()) {
        match percentage_of_line(line) {
            Some(v) => v,
            None => pct,
        }
    } else {
        pct
    };
    let st2 = if contains(line, state_key()) {
        match value_field(line) {
            Some(f) => state_of_token(trim(f)),
            None => st,
        }
    } else {
        st
    };
    (st2, pct2)
}

/// The sample after every line of `s` was read in turn, lines being separated
/// by line feeds.
pub open spec fn read_lines(s: Seq<u8>, st: State, pct: int) -> (State, int)
    decreases s.len(),
{
    let k = first_index(s, 0x0a);
    let next = read_line(s.subrange(0, k as int), st, pct);
    if k < s.len() {
        read_lines(s.subrange(k + 1 as int, s.len() as int), next.0, next.1)
    } else {
        next
    }
}

/// The sample that a whole output gives, starting from `(Discharging, 0)`.
pub open spec fn sample_of(s: Seq<u8>) -> (State, int) {
    read_lines(s, State::Discharging, 0)
}

proof fn lemma_first_index(s: Seq<u8>, c: u8, k: int)
    requires
        0 <= k <= s.len(),
        forall|j: int| 0 <= j < k ==> s[j] != c,
        k == s.len() || s[k] == c,
    ensures
        first_index(s, c) == k,
    decreases k,
{
    if k > 0 {
        assert(s[0] != c);
        lemma_first_index(s.drop_first(), c, k - 1);
    }
}

proof fn lemma_trim_start(s: Seq<u8>, a: int)
    requires
        0 <= a <= s.len(),
        forall|j: int| 0 <= j < a ==> is_space(s[j]),
        a == s.len() || !is_space(s[a]),
    ensures
        trim_start(s) == s.subrange(a, s.len() as int),
    decreases a,
{
    if a > 0 {
        assert(is_space(s[0]));
        lemma_trim_start(s.drop_first(), a - 1);
        assert(s.drop_first().subrange(a - 1, s.len() - 1) =~= s.subrange(a, s.len() as int));
    } else {
        assert(s.subrange(0, s.len() as int) =~= s);
    }
}

proof fn lemma_trim_end(s: Seq<u8>, b: int)
    requires
        0 <= b <= s.len(),
        forall|j: int| b <= j < s.len() ==> is_space(s[j]),
        b == 0 || !is_space(s[b - 1]),
    ensures
        trim_end(s) == s.subrange(0, b),
    decreases s.len() - b,
{
    if b < s.len() {
        assert(is_space(s.last()));
        lemma_trim_end(s.drop_last(), b);
        assert(s.drop_last().subrange(0, b) =~= s.subrange(0, b));
    } else {
        assert(s.subrange(0, b) =~= s);
    }
}

proof fn lemma_absent_in_part(s: Seq<u8>, p: Seq<u8>, a: int, b: int)
    requires
        !contains(s, p),
        0 <= a <= b <= s.len(),
    ensures
        !contains(s.subrange(a, b), p),
{
    let sub = s.subrange(a, b);
    assert forall|i: int| !occurs_at(sub, p, i) by {
        if occurs_at(sub, p, i) {
            assert(sub.subrange(i, i + p.len()) =~= s.subrange(a + i, a + i + p.len()));
            assert(occurs_at(s, p, a + i));
        }
    }
}

proof fn lemma_unkeyed_lines_keep_sample(s: Seq<u8>, st: State, pct: int)
    requires
        !contains(s, percentage_key()),
        !contains(s, state_key()),
    ensures
        read_lines(s, st, pct) == (st, pct),
    decreases s.len(),
{
    let k = first_index(s, 0x0a);
    lemma_first_index_bound(s, 0x0a);
    lemma_absent_in_part(s, percentage_key(), 0, k as int);
    lemma_absent_in_part(s, state_key(), 0, k as int);
    if k < s.len() {
        lemma_absent_in_part(s, percentage_key(), k + 1 as int, s.len() as int);
        lemma_absent_in_part(s, state_key(), k + 1 as int, s.len() as int);
        lemma_unkeyed_lines_keep_sample(s.subrange(k + 1 as int, s.len() as int), st, pct);
    }
}

proof fn lemma_first_index_bound(s: Seq<u8>, c: u8)
    ensures
        first_index(s, c) <= s.len(),
    decreases s.len(),
{
    if s.len() > 0 && s[0] != c {
        lemma_first_index_bound(s.drop_first(), c);
    }
}

/// Output in which neither `percentage` nor `state` occurs (empty output
/// among it) reads as the default sample `(Discharging, 0)`.
pub proof fn lemma_unkeyed_output_is_default(s: Seq<u8>)
    requires
        !contains(s, percentage_key()),
        !contains(s, state_key()),
    ensures
        sample_of(s) == (State::Discharging, 0int),
{
    lemma_unkeyed_lines_keep_sample(s, State::Discharging, 0);
}

/// Position of the first `c` in `s` at or after `lo`, or `s.len()`.
fn find_byte(s: &[u8], lo: usize, c: u8) -> (r: usize)
    requires
        lo <= s@.len(),
    ensures
        lo <= r <= s@.len(),
        r - lo == first_index(s@.subrange(lo as int, s@.len() as int), c),
{
    let mut i: usize = lo;
    while i < s.len() && s[i] != c
        invariant
            lo <= i <= s@.len(),
            forall|j: int| lo <= j < i ==> s@[j] != c,
        decreases s@.len() - i,
    {
        i = i + 1;
    }
    proof {
        lemma_first_index(s@.subrange(lo as int, s@.len() as int), c, i - lo);
    }
    i
}

fn trim_bytes(s: &[u8]) -> (r: &[u8])
    ensures
        r@ == trim(s@),
{
    let mut a: usize = 0;
    while a < s.len() && (s[a] == 0x20 || (0x09 <= s[a] && s[a] <= 0x0d))
        invariant
            a <= s@.len(),
            forall|j: int| 0 <= j < a ==> is_space(s@[j]),
        decreases s@.len() - a,
    {
        a = a + 1;
    }
    let mut b: usize = s.len();
    while b > a && (s[b - 1] == 0x20 || (0x09 <= s[b - 1] && s[b - 1] <= 0x0d))
        invariant
            a <= b <= s@.len(),
            forall|j: int| b <= j < s@.len() ==> is_space(s@[j]),
        decreases b,
    {
        b = b - 1;
    }
    proof {
        lemma_trim_start(s@, a as int);
        let t = s@.subrange(a as int, s@.len() as int);
        lemma_trim_end(t, b - a);
        assert(t.subrange(0, b - a) =~= s@.subrange(a as int, b as int));
    }
    &s[a..b]
}

fn occurs_here(s: &[u8], p: &[u8], i: usize) -> (r: bool)
    requires
        i + p@.len() <= s@.len(),
    ensures
        r == occurs_at(s@, p@, i as int),
{
    let n = s.len();
    let mut j: usize = 0;
    while j < p.len()
        invariant
            n == s@.len(),
            i + p@.len() <= s@.len(),
            j <= p@.len(),
            forall|k: int| 0 <= k < j ==> s@[i + k] == p@[k],
        decreases p@.len() - j,
    {
        if s[i + j] != p[j] {
            assert(s@.subrange(i as int, i + p@.len())[j as int] != p@[j as int]);
            return false;
        }
        j = j + 1;
    }
    assert(s@.subrange(i as int, i + p@.len()) =~= p@);
    true
}

fn contains_bytes(s: &[u8], p: &[u8]) -> (r: bool)
    requires
        p@.len() > 0,
    ensures
        r == contains(s@, p@),
{
    let mut i: usize = 0;
    while i <= s.len() && p.len() <= s.len() - i
        invariant
            p@.len() > 0,
            i <= s@.len(),
            forall|j: int| 0 <= j < i ==> !occurs_at(s@, p@, j),
        decreases s@.len() - i,
    {
        if occurs_here(s, p, i) {
            return true;
        }
        i = i + 1;
    }
    assert forall|j: int| !occurs_at(s@, p@, j) by {
        if j >= i {
            assert(!(j + p@.len() <= s@.len()));
        }
    }
    false
}

fn bytes_equal(a: &[u8], b: &[u8]) -> (r: bool)
    ensures
        r == (a@ == b@),
{
    if a.len() != b.len() {
        return false;
    }
    let mut i: usize = 0;
    while i < a.len()
        invariant
            a@.len() == b@.len(),
            i <= a@.len(),
            forall|k: int| 0 <= k < i ==> a@[k] == b@[k],
        decreases a@.len() - i,
    {
        if a[i] != b[i] {
            return false;
        }
        i = i + 1;
    }
    assert(a@ =~= b@);
    true
}

fn field_bytes(line: &[u8]) -> (r: Option<&[u8]>)
    ensures
        match r {
            Some(f) => value_field(line@) == Some(f@),
            None => value_field(line@) is None,
        },
{
    assert(line@.subrange(0, line@.len() as int) =~= line@);
    let a = find_byte(line, 0, 0x3a);
    if a == line.len() {
        return None;
    }
    let b = find_byte(line, a + 1, 0x3a);
    proof {
        let rest = line@.subrange(a + 1 as int, line@.len() as int);
        assert(rest.subrange(0, b - a - 1) =~= line@.subrange(a + 1 as int, b as int));
    }
    Some(&line[a + 1..b])
}

/// One more than the largest magnitude an `i32` can have: every larger value
/// is held as this one.
const MAGNITUDE_CAP: u64 = 2147483649;

/// The value of a string of digits, held at `MAGNITUDE_CAP` once it gets that
/// large; none when a byte is not a digit.
fn digits_magnitude(d: &[u8]) -> (r: Option<u64>)
    ensures
        match r {
            Some(m) => all_digits(d@) && m == if digits_value(d@) < MAGNITUDE_CAP {
                digits_value(d@)
            } else {
                MAGNITUDE_CAP as int
            },
            None => !all_digits(d@),
        },
{
    let mut acc: u64 = 0;
    let mut i: usize = 0;
    while i < d.len()
        invariant
            i <= d@.len(),
            all_digits(d@.subrange(0, i as int)),
            acc == if digits_value(d@.subrange(0, i as int)) < MAGNITUDE_CAP {
                digits_value(d@.subrange(0, i as int))
            } else {
                MAGNITUDE_CAP as int
            },
        decreases d@.len() - i,
    {
        let b = d[i];
        if !(0x30 <= b && b <= 0x39) {
            return None;
        }
        let next: u64 = acc * 10 + (b - 0x30) as u64;
        acc = if next > MAGNITUDE_CAP {
            MAGNITUDE_CAP
        } else {
            next
        };
        proof {
            let pre = d@.subrange(0, i as int);
            let cur = d@.subrange(0, i + 1);
            assert(cur.drop_last() =~= pre);
            assert(cur.last() == b);
            assert forall|k: int| 0 <= k < cur.len() implies is_digit(#[trigger] cur[k]) by {
                if k < i {
                    assert(cur[k] == pre[k]);
                }
            }
        }
        i = i + 1;
    }
    assert(d@.subrange(0, d@.len() as int) =~= d@);
    Some(acc)
}

/// Reads a decimal integer with an optional sign, as `i32`'s `FromStr` does.
fn parse_int(s: &[u8]) -> (r: Option<i32>)
    ensures
        match r {
            Some(v) => int_value(s@) == Some(v as int),
            None => int_value(s@) is None,
        },
{
    let n = s.len();
    let neg = n > 0 && s[0] == 0x2d;
    let start: usize = if n > 0 && (s[0] == 0x2d || s[0] == 0x2b) {
        1
    } else {
        0
    };
    let digits = &s[start..n];
    assert(start == 1 ==> digits@ =~= s@.drop_first());
    assert(start == 0 ==> digits@ =~= s@);
    if digits.len() == 0 {
        return None;
    }
    match digits_magnitude(digits) {
        None => None,
        Some(m) => {
            if neg {
                if m <= 2147483648 {
                    Some((0 - m as i64) as i32)
                } else {
                    None
                }
            } else {
                if m <= 2147483647 {
                    Some(m as i32)
                } else {
                    None
                }
            }
        },
    }
}

fn percentage_key_bytes() -> (r: Vec<u8>)
    ensures
        r@ == percentage_key(),
{
    let r = vec![0x70u8, 0x65, 0x72, 0x63, 0x65, 0x6e, 0x74, 0x61, 0x67, 0x65];
    assert(r@ =~= percentage_key());
    r
}

fn state_key_bytes() -> (r: Vec<u8>)
    ensures
        r@ == state_key(),
{
    let r = vec![0x73u8, 0x74, 0x61, 0x74, 0x65];
    assert(r@ =~= state_key());
    r
}

fn state_of_token_bytes(t: &[u8]) -> (r: State)
    ensures
        r == state_of_token(t@),
{
    let charging = vec![0x63u8, 0x68, 0x61, 0x72, 0x67, 0x69, 0x6e, 0x67];
    let fully = vec![0x66u8, 0x75, 0x6c, 0x6c, 0x79, 0x2d, 0x63, 0x68, 0x61, 0x72, 0x67, 0x65, 0x64];
    assert(charging@ =~= charging_token());
    assert(fully@ =~= fully_charged_token());
    if bytes_equal(t, charging.as_slice()) {
        State::Charging
    } else if bytes_equal(t, fully.as_slice()) {
        State::FullyCharged
    } else {
        State::Discharging
    }
}

fn percentage_of_line_bytes(line: &[u8]) -> (r: Option<i32>)
    ensures
        match r {
            Some(v) => percentage_of_line(line@) == Some(v as int),
            None => percentage_of_line(line@) is None,
        },
{
    match field_bytes(line) {
        None => None,
        Some(f) => {
            let t = trim_bytes(f);
            assert(t@.subrange(0, t@.len() as int) =~= t@);
            let e = find_byte(t, 0, 0x25);
            parse_int(&t[0..e])
        },
    }
}

fn read_line_bytes(line: &[u8], st: State, pct: i32) -> (r: (State, i32))
    ensures
        r.0 == read_line(line@, st, pct as int).0,
        r.1 as int == read_line(line@, st, pct as int).1,
{
    let pkey = percentage_key_bytes();
    let skey = state_key_bytes();
    let mut pct2 = pct;
    if contains_bytes(line, pkey.as_slice()) {
        if let Some(v) = percentage_of_line_bytes(line) {
            pct2 = v;
        }
    }
    let mut st2 = st;
    if contains_bytes(line, skey.as_slice()) {
        if let Some(f) = field_bytes(line) {
            st2 = state_of_token_bytes(trim_bytes(f));
        }
    }
    (st2, pct2)
}

/// Reads the sample that the output of the battery query gives. Lines are
/// separated by line feeds. A line that names `percentage` sets the
/// percentage to the integer between its first `:` and the next `%` (the
/// value trimmed of ASCII whitespace first); a line that names `state` sets
/// the state: `charging`, `fully-charged`, or discharging for any other
/// value. A line whose value is missing or does not read as an integer is
/// passed over, and output that sets nothing gives `(Discharging, 0)`.
pub fn parse_sample(output: &[u8]) -> (r: BAT)
    ensures
        (r.state, r.charge as int) == sample_of(output@),
{
    let n = output.len();
    let mut start: usize = 0;
    let mut st = State::Discharging;
    let mut pct: i32 = 0;
    let mut done = false;
    assert(output@.subrange(0, n as int) =~= output@);
    while !done
        invariant
            n == output@.len(),
            start <= n,
            !done ==> sample_of(output@) == read_lines(
                output@.subrange(start as int, n as int),
                st,
                pct as int,
            ),
            done ==> sample_of(output@) == (st, pct as int),
        decreases (if done { 0 } else { n + 1 - start }),
    {
        let k = find_byte(output, start, 0x0a);
        let r = read_line_bytes(&output[start..k], st, pct);
        proof {
            let rest = output@.subrange(start as int, n as int);
            assert(rest.subrange(0, k - start) =~= output@.subrange(start as int, k as int));
            if k < n {
                assert(rest.subrange(k - start + 1, rest.len() as int) =~= output@.subrange(
                    k + 1,
                    n as int,
                ));
            }
        }
        st = r.0;
        pct = r.1;
        if k < n {
            start = k + 1;
        } else {
            done = true;
        }
    }
    BAT::new(st, pct)
}

} // verus!
