//! Small text helpers shared by the gateway: decimal rendering and parsing,
//! ASCII case mapping, and byte-level trimming for the child's header lines.

use vstd::prelude::*;

verus! {

/// Relies on String::push: appends one character to the end of the string.
#[verifier::external_body]
pub fn string_push(s: &mut String, c: char)
    ensures
        final(s)@ == old(s)@.push(c),
{
    s.push(c);
}

/// The character for a single decimal digit.
pub open spec fn spec_digit_char(d: nat) -> char
    recommends
        d < 10,
{
    if d == 0 {
        '0'
    } else if d == 1 {
        '1'
    } else if d == 2 {
        '2'
    } else if d == 3 {
        '3'
    } else if d == 4 {
        '4'
    } else if d == 5 {
        '5'
    } else if d == 6 {
        '6'
    } else if d == 7 {
        '7'
    } else if d == 8 {
        '8'
    } else {
        '9'
    }
}

/// Decimal digits of `n`, most significant first, without sign or padding.
pub open spec fn spec_dec_digits(n: nat) -> Seq<char>
    decreases n,
{
    if n < 10 {
        seq![spec_digit_char(n)]
    } else {
        spec_dec_digits(n / 10).push(spec_digit_char(n % 10))
    }
}

/// Renders `n` in decimal, appending to `out`.
fn push_dec_digits(out: &mut String, n: u32)
    ensures
        final(out)@ == old(out)@ + spec_dec_digits(n as nat),
    decreases n,
{
    if n >= 10 {
        push_dec_digits(out, n / 10);
    }
    let d: u32 = n % 10;
    let c: char = if d == 0 {
        '0'
    } else if d == 1 {
        '1'
    } else if d == 2 {
        '2'
    } else if d == 3 {
        '3'
    } else if d == 4 {
        '4'
    } else if d == 5 {
        '5'
    } else if d == 6 {
        '6'
    } else if d == 7 {
        '7'
    } else if d == 8 {
        '8'
    } else {
        '9'
    };
    string_push(out, c);
    proof {
        assert(out@ =~= old(out)@ + spec_dec_digits(n as nat));
    }
}

/// The decimal rendering of a 32-bit number.
pub fn u32_to_dec_string(n: u32) -> (s: String)
    ensures
        s@ == spec_dec_digits(n as nat),
{
    let mut out = String::new();
    push_dec_digits(&mut out, n);
    proof {
        assert(out@ =~= spec_dec_digits(n as nat));
    }
    out
}

/// The decimal rendering of a 16-bit number.
pub fn u16_to_dec_string(n: u16) -> (s: String)
    ensures
        s@ == spec_dec_digits(n as nat),
{
    u32_to_dec_string(n as u32)
}

/// For an ASCII string, its characters as bytes, index for index.
pub fn ascii_view_bytes(s: &str) -> (b: &[u8])
    requires
        vstd::string::is_ascii(s),
    ensures
        b@.len() == s@.len(),
        forall|i: int| 0 <= i < s@.len() ==> b@[i] == s@[i] as u8,
        forall|i: int| 0 <= i < s@.len() ==> (s@[i] as u32) < 128,
{
    proof {
        vstd::string::is_ascii_spec_bytes(s);
        vstd::utf8::is_ascii_chars_nat_bound(s@);
    }
    s.as_bytes()
}

/// For a 7-bit character, casting through `u8` keeps the code point.
pub proof fn lemma_ascii_char_u8_cast(c: char)
    requires
        (c as u32) < 128,
    ensures
        ((c as u8) as u32) == c as u32,
        (c as u8) as char == c,
{
    assert(c as u8 == (c as u32) as u8);
    assert(((c as u32) as u8) as u32 == c as u32);
    vstd::utf8::char_u32_cast(c, c as u32);
    assert(((c as u8) as char) as u32 == c as u32) by {
        assert((c as u8) as char == ((c as u8) as u32) as char);
    }
    vstd::utf8::char_u32_cast((c as u8) as char, c as u32);
}

pub open spec fn spec_is_digit(c: char) -> bool {
    '0' <= c && c <= '9'
}

pub open spec fn spec_digit_val(c: char) -> nat {
    ((c as u32) - ('0' as u32)) as nat
}

pub open spec fn spec_all_digits(s: Seq<char>) -> bool {
    forall|i: int| 0 <= i < s.len() ==> spec_is_digit(#[trigger] s[i])
}

/// The numeric value of a string of decimal digits, most significant first.
pub open spec fn spec_dec_value(s: Seq<char>) -> nat
    decreases s.len(),
{
    if s.len() == 0 {
        0
    } else {
        spec_dec_value(s.drop_last()) * 10 + spec_digit_val(s.last())
    }
}

/// Decimal parsing as Rust's unsigned `parse` does it: an optional leading
/// `+`, then one or more digits, and the value must fit the target type.
pub open spec fn spec_parse_dec(s: Seq<char>, max: nat) -> Option<nat> {
    let t = if s.len() > 0 && s[0] == '+' {
        s.drop_first()
    } else {
        s
    };
    if t.len() > 0 && spec_all_digits(t) && spec_dec_value(t) <= max {
        Some(spec_dec_value(t))
    } else {
        None
    }
}

proof fn lemma_dec_value_grows(s: Seq<char>, i: int)
    requires
        0 <= i <= s.len(),
    ensures
        spec_dec_value(s.take(i)) <= spec_dec_value(s),
    decreases s.len() - i,
{
    if i == s.len() {
        assert(s.take(i) =~= s);
    } else {
        lemma_dec_value_grows(s, i + 1);
        assert(s.take(i + 1).drop_last() =~= s.take(i));
        assert(spec_dec_value(s.take(i)) <= spec_dec_value(s.take(i + 1)));
    }
}

/// Parses the digit part `t` (chars `from..` of `s`), already known ASCII.
#[verifier::loop_isolation(false)]
fn parse_digits(b: &[u8], from: usize, t: Ghost<Seq<char>>) -> (r: Option<u32>)
    requires
        from <= b@.len(),
        t@.len() == b@.len() - from,
        forall|i: int| 0 <= i < t@.len() ==> ((#[trigger] t@[i]) as u32) < 128,
        forall|i: int| 0 <= i < t@.len() ==> b@[from + i] == (#[trigger] t@[i]) as u8,
    ensures
        r == (if t@.len() > 0 && spec_all_digits(t@) && spec_dec_value(t@) <= u32::MAX {
            Some(spec_dec_value(t@) as u32)
        } else {
            None::<u32>
        }),
{
    if from == b.len() {
        return None;
    }
    let mut acc: u64 = 0;
    let mut i: usize = from;
    while i < b.len()
        invariant
            from <= i <= b@.len(),
            spec_all_digits(t@.take(i - from)),
            acc == spec_dec_value(t@.take(i - from)),
            acc <= u32::MAX,
        decreases b@.len() - i,
    {
        let d: u8 = b[i];
        if d < 48 || d > 57 {
            proof {
                let j: int = i - from;
                let c = t@[j];
                assert(b@[from + j] == t@[j] as u8);
                assert((t@[j] as u32) < 128);
                lemma_ascii_char_u8_cast(c);
                assert(c as u32 == b@[from + j] as u32);
                assert(!spec_is_digit(c));
            }
            return None;
        }
        proof {
            let j: int = i - from;
            let c = t@[j];
            assert(b@[from + j] == t@[j] as u8);
            assert((t@[j] as u32) < 128);
            lemma_ascii_char_u8_cast(c);
            assert(c as u32 == b@[from + j] as u32);
            assert(spec_is_digit(c));
            assert(spec_digit_val(c) == (d - 48) as nat);
        }
        acc = acc * 10 + ((d - 48) as u64);
        proof {
            assert(t@.take(i - from + 1).drop_last() =~= t@.take(i - from));
            assert(acc == spec_dec_value(t@.take(i - from + 1)));
        }
        if acc > 0xffff_ffff {
            proof {
                lemma_dec_value_grows(t@, i - from + 1);
            }
            return None;
        }
        i += 1;
    }
    proof {
        assert(t@.take(i - from) =~= t@);
    }
    Some(acc as u32)
}

/// Parses `s` as Rust's `str::parse::<u32>` does.
pub fn parse_u32_str(s: &str) -> (r: Option<u32>)
    ensures
        r == (match spec_parse_dec(s@, u32::MAX as nat) {
            Some(v) => Some(v as u32),
            None => None::<u32>,
        }),
{
    if !s.is_ascii() {
        proof {
            let cs = s@;
            assert(!vstd::utf8::is_ascii_chars(cs));
            let i = choose|i: int| !(0 <= i < cs.len() ==> '\0' <= #[trigger] cs[i] <= '\u{7f}');
            let t = if cs.len() > 0 && cs[0] == '+' {
                cs.drop_first()
            } else {
                cs
            };
            if cs.len() > 0 && cs[0] == '+' {
                assert(i >= 1);
                assert(t[i - 1] == cs[i]);
                assert(!spec_is_digit(t[i - 1]));
            } else {
                assert(!spec_is_digit(t[i]));
            }
        }
        return None;
    }
    let b = ascii_view_bytes(s);
    if b.len() > 0 && b[0] == 43 {
        proof {
            vstd::utf8::char_u32_cast(s@[0], s@[0] as u32);
            assert(s@[0] == '+');
            assert(s@.drop_first().len() == b@.len() - 1);
        }
        parse_digits(b, 1, Ghost(s@.drop_first()))
    } else {
        proof {
            if s@.len() > 0 {
                assert(b@[0] == s@[0] as u8);
                assert(s@[0] != '+');
            }
        }
        parse_digits(b, 0, Ghost(s@))
    }
}

/// Parses `s` as Rust's `str::parse::<u16>` does.
pub fn parse_u16_str(s: &str) -> (r: Option<u16>)
    ensures
        r == (match spec_parse_dec(s@, u16::MAX as nat) {
            Some(v) => Some(v as u16),
            None => None::<u16>,
        }),
{
    match parse_u32_str(s) {
        Some(v) => {
            if v <= 65535 {
                Some(v as u16)
            } else {
                None
            }
        },
        None => None,
    }
}

/// Upper-casing of one character, ASCII letters only.
pub open spec fn spec_upper_char(c: char) -> char {
    if 'a' <= c && c <= 'z' {
        (((c as u8) - 32) as u8) as char
    } else {
        c
    }
}

pub open spec fn spec_upper(s: Seq<char>) -> Seq<char> {
    s.map_values(|c: char| spec_upper_char(c))
}

/// Maps ASCII lower-case letters of `s` to upper case, leaving the rest.
pub fn ascii_to_upper(s: &str) -> (r: String)
    requires
        vstd::string::is_ascii(s),
    ensures
        r@ == spec_upper(s@),
{
    let b = ascii_view_bytes(s);
    let mut out = String::new();
    let mut i: usize = 0;
    while i < b.len()
        invariant
            vstd::string::is_ascii(s),
            b@.len() == s@.len(),
            forall|j: int| 0 <= j < s@.len() ==> b@[j] == s@[j] as u8,
            forall|j: int| 0 <= j < s@.len() ==> (s@[j] as u32) < 128,
            0 <= i <= b@.len(),
            out@ =~= spec_upper(s@.take(i as int)),
        decreases b@.len() - i,
    {
        let d: u8 = b[i];
        let c: char = if d >= 97 && d <= 122 {
            (d - 32) as char
        } else {
            d as char
        };
        proof {
            vstd::utf8::char_u32_cast(s@[i as int], s@[i as int] as u32);
            assert(c == spec_upper_char(s@[i as int]));
            assert(spec_upper(s@.take(i + 1)) =~= spec_upper(s@.take(i as int)).push(
                spec_upper_char(s@[i as int]),
            ));
        }
        string_push(&mut out, c);
        i += 1;
    }
    proof {
        assert(s@.take(s@.len() as int) =~= s@);
    }
    out
}





/// ASCII whitespace, as the header parser trims it: space, tab, and the
/// line and page control bytes.
pub open spec fn spec_is_ws(b: u8) -> bool {
    b == 32 || (9 <= b && b <= 13)
}

pub open spec fn spec_trim_start(s: Seq<u8>) -> Seq<u8>
    decreases s.len(),
{
    if s.len() > 0 && spec_is_ws(s[0]) {
        spec_trim_start(s.drop_first())
    } else {
        s
    }
}

pub open spec fn spec_trim_end(s: Seq<u8>) -> Seq<u8>
    decreases s.len(),
{
    if s.len() > 0 && spec_is_ws(s.last()) {
        spec_trim_end(s.drop_last())
    } else {
        s
    }
}

/// The line with surrounding whitespace removed.
pub open spec fn spec_trim(s: Seq<u8>) -> Seq<u8> {
    spec_trim_end(spec_trim_start(s))
}

proof fn lemma_trim_start_skip(s: Seq<u8>, lo: int)
    requires
        0 <= lo <= s.len(),
        forall|j: int| 0 <= j < lo ==> spec_is_ws(s[j]),
        lo == s.len() || !spec_is_ws(s[lo]),
    ensures
        spec_trim_start(s) == s.skip(lo),
    decreases lo,
{
    if lo == 0 {
        assert(s.skip(0) =~= s);
    } else {
        assert(spec_is_ws(s[0]));
        lemma_trim_start_skip(s.drop_first(), lo - 1);
        assert(s.drop_first().skip(lo - 1) =~= s.skip(lo));
    }
}

proof fn lemma_trim_end_take(s: Seq<u8>, hi: int)
    requires
        0 <= hi <= s.len(),
        forall|j: int| hi <= j < s.len() ==> spec_is_ws(s[j]),
        hi == 0 || !spec_is_ws(s[hi - 1]),
    ensures
        spec_trim_end(s) == s.take(hi),
    decreases s.len() - hi,
{
    if hi == s.len() {
        assert(s.take(hi) =~= s);
    } else {
        assert(spec_is_ws(s.last()));
        lemma_trim_end_take(s.drop_last(), hi);
        assert(s.drop_last().take(hi) =~= s.take(hi));
    }
}

/// Copies `v[from..to]` out as a fresh vector.
#[verifier::loop_isolation(false)]
pub fn subrange_vec(v: &[u8], from: usize, to: usize) -> (r: Vec<u8>)
    requires
        0 <= from <= to <= v@.len(),
    ensures
        r@ == v@.subrange(from as int, to as int),
{
    let mut r: Vec<u8> = Vec::new();
    let mut i: usize = from;
    while i < to
        invariant
            from <= i <= to,
            r@ == v@.subrange(from as int, i as int),
        decreases to - i,
    {
        r.push(v[i]);
        proof {
            assert(r@ =~= v@.subrange(from as int, i + 1));
        }
        i += 1;
    }
    proof {
        assert(r@ =~= v@.subrange(from as int, to as int));
    }
    r
}

/// Trims surrounding whitespace from a line of bytes.
#[verifier::loop_isolation(false)]
pub fn trim_bytes(v: &[u8]) -> (r: Vec<u8>)
    ensures
        r@ == spec_trim(v@),
{
    let n = v.len();
    let mut lo: usize = 0;
    while lo < n && (v[lo] == 32 || (9 <= v[lo] && v[lo] <= 13))
        invariant
            0 <= lo <= n,
            forall|j: int| 0 <= j < lo ==> spec_is_ws(v@[j]),
        decreases n - lo,
    {
        lo += 1;
    }
    proof {
        lemma_trim_start_skip(v@, lo as int);
    }
    let mut hi: usize = n;
    while hi > lo && (v[hi - 1] == 32 || (9 <= v[hi - 1] && v[hi - 1] <= 13))
        invariant
            lo <= hi <= n,
            forall|j: int| hi <= j < n ==> spec_is_ws(v@[j]),
        decreases hi,
    {
        hi -= 1;
    }
    proof {
        if hi == lo {
            lemma_trim_end_take(v@.skip(lo as int), 0);
        } else {
            lemma_trim_end_take(v@.skip(lo as int), hi - lo);
        }
        assert(v@.skip(lo as int).take(hi - lo) =~= v@.subrange(lo as int, hi as int));
    }
    subrange_vec(v, lo, hi)
}

/// Whether two byte strings hold the same bytes.
#[verifier::loop_isolation(false)]
pub fn bytes_eq(a: &[u8], b: &[u8]) -> (r: bool)
    ensures
        r == (a@ == b@),
{
    if a.len() != b.len() {
        return false;
    }
    let n = a.len();
    let mut i: usize = 0;
    while i < n
        invariant
            0 <= i <= n,
            n == a@.len() == b@.len(),
            forall|j: int| 0 <= j < i ==> a@[j] == b@[j],
        decreases n - i,
    {
        if a[i] != b[i] {
            return false;
        }
        i += 1;
    }
    proof {
        assert(a@ =~= b@);
    }
    true
}

/// The position of the first occurrence of `x`, scanning left to right.
pub open spec fn spec_find_byte(s: Seq<u8>, x: u8) -> Option<int>
    decreases s.len(),
{
    if s.len() == 0 {
        None
    } else if s[0] == x {
        Some(0)
    } else {
        match spec_find_byte(s.drop_first(), x) {
            Some(i) => Some(i + 1),
            None => None,
        }
    }
}

pub proof fn lemma_find_byte_first(s: Seq<u8>, x: u8, p: int)
    requires
        0 <= p < s.len(),
        s[p] == x,
        forall|j: int| 0 <= j < p ==> s[j] != x,
    ensures
        spec_find_byte(s, x) == Some(p),
    decreases p,
{
    if p > 0 {
        lemma_find_byte_first(s.drop_first(), x, p - 1);
    }
}

pub proof fn lemma_find_byte_none(s: Seq<u8>, x: u8)
    requires
        forall|j: int| 0 <= j < s.len() ==> s[j] != x,
    ensures
        spec_find_byte(s, x) is None,
    decreases s.len(),
{
    if s.len() > 0 {
        lemma_find_byte_none(s.drop_first(), x);
    }
}

/// Finds the first occurrence of `x` in `v`.
#[verifier::loop_isolation(false)]
pub fn find_byte(v: &[u8], x: u8) -> (r: Option<usize>)
    ensures
        match r {
            Some(p) => 0 <= p < v@.len() && spec_find_byte(v@, x) == Some(p as int)
                && v@[p as int] == x && (forall|j: int| 0 <= j < p ==> v@[j] != x),
            None => spec_find_byte(v@, x) is None,
        },
{
    let n = v.len();
    let mut i: usize = 0;
    while i < n
        invariant
            0 <= i <= n,
            forall|j: int| 0 <= j < i ==> v@[j] != x,
        decreases n - i,
    {
        if v[i] == x {
            proof {
                lemma_find_byte_first(v@, x, i as int);
            }
            return Some(i);
        }
        i += 1;
    }
    proof {
        lemma_find_byte_none(v@, x);
    }
    None
}

pub open spec fn spec_is_digit_byte(b: u8) -> bool {
    48 <= b && b <= 57
}

pub open spec fn spec_all_digit_bytes(s: Seq<u8>) -> bool {
    forall|i: int| 0 <= i < s.len() ==> spec_is_digit_byte(#[trigger] s[i])
}

/// The numeric value of a string of decimal digit bytes.
pub open spec fn spec_dec_value_bytes(s: Seq<u8>) -> nat
    decreases s.len(),
{
    if s.len() == 0 {
        0
    } else {
        spec_dec_value_bytes(s.drop_last()) * 10 + (s.last() - 48) as nat
    }
}

/// Decimal parsing of bytes, as Rust's unsigned `parse` reads a string: an
/// optional leading `+`, then one or more digits, within the given bound.
pub open spec fn spec_parse_dec_bytes(s: Seq<u8>, max: nat) -> Option<nat> {
    let t = if s.len() > 0 && s[0] == 43 {
        s.drop_first()
    } else {
        s
    };
    if t.len() > 0 && spec_all_digit_bytes(t) && spec_dec_value_bytes(t) <= max {
        Some(spec_dec_value_bytes(t))
    } else {
        None
    }
}

proof fn lemma_dec_value_bytes_grows(s: Seq<u8>, i: int)
    requires
        0 <= i <= s.len(),
    ensures
        spec_dec_value_bytes(s.take(i)) <= spec_dec_value_bytes(s),
    decreases s.len() - i,
{
    if i == s.len() {
        assert(s.take(i) =~= s);
    } else {
        lemma_dec_value_bytes_grows(s, i + 1);
        assert(s.take(i + 1).drop_last() =~= s.take(i));
    }
}

/// Parses decimal digit bytes as Rust's `str::parse::<u16>` would.
#[verifier::loop_isolation(false)]
pub fn parse_u16_bytes(v: &[u8]) -> (r: Option<u16>)
    ensures
        r == (match spec_parse_dec_bytes(v@, u16::MAX as nat) {
            Some(n) => Some(n as u16),
            None => None::<u16>,
        }),
{
    let len = v.len();
    let from: usize = if len > 0 && v[0] == 43 {
        1
    } else {
        0
    };
    let ghost t = if v@.len() > 0 && v@[0] == 43 {
        v@.drop_first()
    } else {
        v@
    };
    proof {
        assert(t =~= v@.subrange(from as int, len as int));
    }
    if from == len {
        return None;
    }
    let mut acc: u32 = 0;
    let mut i: usize = from;
    while i < len
        invariant
            from <= i <= len,
            t == v@.subrange(from as int, len as int),
            spec_all_digit_bytes(t.take(i - from)),
            acc == spec_dec_value_bytes(t.take(i - from)),
            acc <= u16::MAX,
        decreases len - i,
    {
        let d: u8 = v[i];
        proof {
            assert(t[i - from] == v@[i as int]);
        }
        if d < 48 || d > 57 {
            return None;
        }
        acc = acc * 10 + ((d - 48) as u32);
        proof {
            assert(t.take(i - from + 1).drop_last() =~= t.take(i - from));
        }
        if acc > 65535 {
            proof {
                lemma_dec_value_bytes_grows(t, i - from + 1);
            }
            return None;
        }
        i += 1;
    }
    proof {
        assert(t.take(i - from) =~= t);
    }
    Some(acc as u16)
}

} // verus!
