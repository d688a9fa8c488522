//! Decimal rendering and the tolerant numeric parsing used by the filter
//! parameters: comma-separated sets whose unparsable tokens are dropped.

use vstd::prelude::*;

verus! {

use vstd::string::StrSliceExecFns;
use vstd::string::StringExecFns;
use vstd::utf8::encode_utf8;

// ---------------------------------------------------------------------------
// Decimal rendering
// ---------------------------------------------------------------------------

pub open spec fn spec_digit_char(d: int) -> char {
    if d == 0 {
        '0'
    } else if d == 1 {
        '1'
    } else if d == 2 {
        '2'
    } else if d == 3 {
        '3'
    } else if d == 4 {
        '4'
    } else if d == 5 {
        '5'
    } else if d == 6 {
        '6'
    } else if d == 7 {
        '7'
    } else if d == 8 {
        '8'
    } else {
        '9'
    }
}

/// The decimal digits of a non-negative number, most significant first.
pub open spec fn spec_nat_chars(n: int) -> Seq<char>
    decreases n,
{
    if n < 10 {
        seq![spec_digit_char(n)]
    } else {
        spec_nat_chars(n / 10) + seq![spec_digit_char(n % 10)]
    }
}

/// The decimal rendering of an integer, with a leading `-` when negative.
pub open spec fn spec_int_chars(n: int) -> Seq<char> {
    if n < 0 {
        seq!['-'] + spec_nat_chars(-n)
    } else {
        spec_nat_chars(n)
    }
}

pub proof fn lemma_nat_chars_len(n: int)
    ensures
        spec_nat_chars(n).len() >= 1,
    decreases n,
{
    if n >= 10 {
        lemma_nat_chars_len(n / 10);
    }
}

pub proof fn lemma_int_chars_len(n: int)
    ensures
        spec_int_chars(n).len() >= 1,
{
    if n < 0 {
        lemma_nat_chars_len(-n);
    } else {
        lemma_nat_chars_len(n);
    }
}

fn digit_str(d: u64) -> (r: &'static str)
    requires
        d < 10,
    ensures
        r@ == seq![spec_digit_char(d as int)],
{
    let r: &'static str = match d {
        0 => "0",
        1 => "1",
        2 => "2",
        3 => "3",
        4 => "4",
        5 => "5",
        6 => "6",
        7 => "7",
        8 => "8",
        _ => "9",
    };
    proof {
        reveal_strlit("0");
        reveal_strlit("1");
        reveal_strlit("2");
        reveal_strlit("3");
        reveal_strlit("4");
        reveal_strlit("5");
        reveal_strlit("6");
        reveal_strlit("7");
        reveal_strlit("8");
        reveal_strlit("9");
        assert(r@ =~= seq![spec_digit_char(d as int)]);
    }
    r
}

pub fn u64_to_string(n: u64) -> (r: String)
    ensures
        r@ == spec_nat_chars(n as int),
    decreases n,
{
    if n < 10 {
        digit_str(n).to_owned()
    } else {
        let mut r = u64_to_string(n / 10);
        r.append(digit_str(n % 10));
        proof {
            assert(r@ =~= spec_nat_chars(n as int));
        }
        r
    }
}

pub fn i64_to_string(n: i64) -> (r: String)
    requires
        n > i64::MIN,
    ensures
        r@ == spec_int_chars(n as int),
{
    if n < 0 {
        let mut r = "-".to_owned();
        let digits = u64_to_string((-n) as u64);
        r.append(digits.as_str());
        proof {
            reveal_strlit("-");
            assert(r@ =~= spec_int_chars(n as int));
        }
        r
    } else {
        u64_to_string(n as u64)
    }
}

// ---------------------------------------------------------------------------
// Byte classification and trimming
// ---------------------------------------------------------------------------

pub open spec fn is_ws_byte(b: u8) -> bool {
    b == 32 || b == 9 || b == 10 || b == 11 || b == 12 || b == 13
}

pub open spec fn is_digit_byte(b: u8) -> bool {
    48 <= b <= 57
}

pub open spec fn is_paren_byte(b: u8) -> bool {
    b == 40 || b == 41
}

pub open spec fn spec_trim_front(s: Seq<u8>) -> Seq<u8>
    decreases s.len(),
{
    if s.len() > 0 && is_ws_byte(s[0]) {
        spec_trim_front(s.drop_first())
    } else {
        s
    }
}

pub open spec fn spec_trim_back(s: Seq<u8>) -> Seq<u8>
    decreases s.len(),
{
    if s.len() > 0 && is_ws_byte(s.last()) {
        spec_trim_back(s.drop_last())
    } else {
        s
    }
}

/// ASCII-whitespace trim of both ends, as applied to each list token.
pub open spec fn spec_trim(s: Seq<u8>) -> Seq<u8> {
    spec_trim_back(spec_trim_front(s))
}

fn is_ws_exec(b: u8) -> (r: bool)
    ensures
        r == is_ws_byte(b),
{
    b == 32 || b == 9 || b == 10 || b == 11 || b == 12 || b == 13
}

fn trim_front_bytes(s: Vec<u8>) -> (r: Vec<u8>)
    ensures
        r@ == spec_trim_front(s@),
    decreases s@.len(),
{
    if s.len() > 0 && is_ws_exec(s[0]) {
        let mut t = s;
        t.remove(0);
        proof {
            assert(t@ =~= s@.drop_first());
        }
        trim_front_bytes(t)
    } else {
        s
    }
}

fn trim_back_bytes(s: Vec<u8>) -> (r: Vec<u8>)
    ensures
        r@ == spec_trim_back(s@),
    decreases s@.len(),
{
    if s.len() > 0 && is_ws_exec(s[s.len() - 1]) {
        let mut t = s;
        t.pop();
        proof {
            assert(t@ =~= s@.drop_last());
        }
        trim_back_bytes(t)
    } else {
        s
    }
}

pub fn trim_bytes(s: Vec<u8>) -> (r: Vec<u8>)
    ensures
        r@ == spec_trim(s@),
{
    trim_back_bytes(trim_front_bytes(s))
}

/// Strip of every leading and trailing parenthesis, as applied to the
/// completed-levels set before parsing.
pub open spec fn spec_strip_parens_front(s: Seq<u8>) -> Seq<u8>
    decreases s.len(),
{
    if s.len() > 0 && is_paren_byte(s[0]) {
        spec_strip_parens_front(s.drop_first())
    } else {
        s
    }
}

pub open spec fn spec_strip_parens_back(s: Seq<u8>) -> Seq<u8>
    decreases s.len(),
{
    if s.len() > 0 && is_paren_byte(s.last()) {
        spec_strip_parens_back(s.drop_last())
    } else {
        s
    }
}

pub open spec fn spec_strip_parens(s: Seq<u8>) -> Seq<u8> {
    spec_strip_parens_back(spec_strip_parens_front(s))
}

fn is_paren_exec(b: u8) -> (r: bool)
    ensures
        r == is_paren_byte(b),
{
    b == 40 || b == 41
}

fn strip_parens_front(s: Vec<u8>) -> (r: Vec<u8>)
    ensures
        r@ == spec_strip_parens_front(s@),
    decreases s@.len(),
{
    if s.len() > 0 && is_paren_exec(s[0]) {
        let mut t = s;
        t.remove(0);
        proof {
            assert(t@ =~= s@.drop_first());
        }
        strip_parens_front(t)
    } else {
        s
    }
}

fn strip_parens_back(s: Vec<u8>) -> (r: Vec<u8>)
    ensures
        r@ == spec_strip_parens_back(s@),
    decreases s@.len(),
{
    if s.len() > 0 && is_paren_exec(s[s.len() - 1]) {
        let mut t = s;
        t.pop();
        proof {
            assert(t@ =~= s@.drop_last());
        }
        strip_parens_back(t)
    } else {
        s
    }
}

pub fn strip_parens_bytes(s: Vec<u8>) -> (r: Vec<u8>)
    ensures
        r@ == spec_strip_parens(s@),
{
    strip_parens_back(strip_parens_front(s))
}

// ---------------------------------------------------------------------------
// Integer parsing (the semantics of str::parse on trimmed tokens)
// ---------------------------------------------------------------------------

pub open spec fn all_digits(s: Seq<u8>) -> bool {
    forall|i: int| 0 <= i < s.len() ==> is_digit_byte(#[trigger] s[i])
}

pub open spec fn digits_val(s: Seq<u8>) -> int
    decreases s.len(),
{
    if s.len() == 0 {
        0
    } else {
        digits_val(s.drop_last()) * 10 + (s.last() - 48)
    }
}

/// The value of an optionally signed ASCII decimal numeral, `None` when the
/// bytes are not exactly a numeral.
pub open spec fn spec_parse_int(s: Seq<u8>) -> Option<int> {
    let neg = s.len() > 0 && s[0] == 45;
    let body = if s.len() > 0 && (s[0] == 43 || s[0] == 45) {
        s.drop_first()
    } else {
        s
    };
    if body.len() > 0 && all_digits(body) {
        Some(
            if neg {
                -digits_val(body)
            } else {
                digits_val(body)
            },
        )
    } else {
        None
    }
}

/// A numeral accepted only when its value lies in `[lo, hi]`, the behaviour of
/// `str::parse` into a bounded integer type.
pub open spec fn spec_parse_ranged(s: Seq<u8>, lo: int, hi: int) -> Option<int> {
    match spec_parse_int(s) {
        Some(v) => if lo <= v <= hi {
            Some(v)
        } else {
            None
        },
        None => None,
    }
}

pub open spec fn spec_parse_i32(s: Seq<u8>) -> Option<int> {
    spec_parse_ranged(s, -0x8000_0000, 0x7fff_ffff)
}

pub open spec fn spec_parse_i16(s: Seq<u8>) -> Option<int> {
    spec_parse_ranged(s, -0x8000, 0x7fff)
}

proof fn lemma_digits_val_nonneg(s: Seq<u8>)
    requires
        all_digits(s),
    ensures
        digits_val(s) >= 0,
    decreases s.len(),
{
    if s.len() > 0 {
        assert(all_digits(s.drop_last())) by {
            assert(forall|i: int|
                0 <= i < s.drop_last().len() ==> s.drop_last()[i] == #[trigger] s[i]);
        }
        lemma_digits_val_nonneg(s.drop_last());
    }
}

proof fn lemma_digits_prefix_le(s: Seq<u8>, k: int)
    requires
        all_digits(s),
        0 <= k <= s.len(),
    ensures
        digits_val(s.take(k)) <= digits_val(s),
    decreases s.len(),
{
    if k < s.len() {
        assert(all_digits(s.drop_last())) by {
            assert(forall|i: int|
                0 <= i < s.drop_last().len() ==> s.drop_last()[i] == #[trigger] s[i]);
        }
        assert(s.take(k) =~= s.drop_last().take(k));
        lemma_digits_prefix_le(s.drop_last(), k);
        lemma_digits_val_nonneg(s.drop_last());
    } else {
        assert(s.take(k) =~= s);
    }
}

fn parse_digits_capped(s: &Vec<u8>, from: usize, cap: i64) -> (r: Option<i64>)
    requires
        from <= s@.len(),
        0 <= cap <= 3_000_000_000,
    ensures
        ({
            let body = s@.skip(from as int);
            match r {
                Some(v) => body.len() > 0 && all_digits(body) && digits_val(body) == v && 0 <= v
                    <= cap,
                None => !(body.len() > 0 && all_digits(body) && digits_val(body) <= cap),
            }
        }),
{
    let ghost body = s@.skip(from as int);
    let n = s.len();
    if from == n {
        return None;
    }
    let mut acc: i64 = 0;
    let mut i: usize = from;
    while i < n
        invariant
            from <= i <= n == s@.len(),
            from < n,
            body == s@.skip(from as int),
            all_digits(s@.subrange(from as int, i as int)),
            acc == digits_val(s@.subrange(from as int, i as int)),
            0 <= acc <= cap <= 3_000_000_000,
        decreases n - i,
    {
        let b = s[i];
        if !(48 <= b && b <= 57) {
            proof {
                assert(!is_digit_byte(body[i - from]));
            }
            return None;
        }
        let d = (b - 48) as i64;
        let na = acc * 10 + d;
        proof {
            assert(s@.subrange(from as int, i as int + 1).drop_last() =~= s@.subrange(
                from as int,
                i as int,
            ));
            assert(s@.subrange(from as int, i as int + 1).last() == b);
        }
        if na > cap {
            proof {
                if all_digits(body) {
                    assert(body.take(i - from + 1) =~= s@.subrange(from as int, i as int + 1));
                    lemma_digits_prefix_le(body, i - from + 1);
                }
            }
            return None;
        }
        acc = na;
        i = i + 1;
    }
    proof {
        assert(s@.subrange(from as int, n as int) =~= body);
    }
    Some(acc)
}

pub fn parse_int_ranged(s: &Vec<u8>, lo: i64, hi: i64) -> (r: Option<i64>)
    requires
        -3_000_000_000 <= lo <= 0 <= hi <= 3_000_000_000,
    ensures
        match r {
            Some(v) => spec_parse_ranged(s@, lo as int, hi as int) == Some(v as int),
            None => spec_parse_ranged(s@, lo as int, hi as int) is None,
        },
{
    if s.len() == 0 {
        return None;
    }
    let b0 = s[0];
    let neg = b0 == 45;
    let from: usize = if b0 == 45 || b0 == 43 {
        1
    } else {
        0
    };
    let cap: i64 = if neg {
        -lo
    } else {
        hi
    };
    proof {
        if from == 1 {
            assert(s@.skip(1) =~= s@.drop_first());
        } else {
            assert(s@.skip(0) =~= s@);
        }
    }
    match parse_digits_capped(s, from, cap) {
        None => None,
        Some(v) => {
            if neg {
                Some(-v)
            } else {
                Some(v)
            }
        },
    }
}

pub fn parse_i32_bytes(s: &Vec<u8>) -> (r: Option<i32>)
    ensures
        match r {
            Some(v) => spec_parse_i32(s@) == Some(v as int),
            None => spec_parse_i32(s@) is None,
        },
{
    match parse_int_ranged(s, -2_147_483_648, 2_147_483_647) {
        Some(v) => Some(v as i32),
        None => None,
    }
}

pub fn parse_i16_bytes(s: &Vec<u8>) -> (r: Option<i16>)
    ensures
        match r {
            Some(v) => spec_parse_i16(s@) == Some(v as int),
            None => spec_parse_i16(s@) is None,
        },
{
    match parse_int_ranged(s, -32_768, 32_767) {
        Some(v) => Some(v as i16),
        None => None,
    }
}

/// The id drawn from free text: an unparsable or out-of-range numeral falls
/// back to the sentinel id 0, which matches no catalog row.
pub open spec fn spec_i32_or_zero(b: Seq<u8>) -> int {
    match spec_parse_i32(b) {
        Some(v) => v,
        None => 0,
    }
}

pub fn parse_i32_or_zero(s: &str) -> (r: i32)
    ensures
        r as int == spec_i32_or_zero(encode_utf8(s@)),
{
    let bytes = s.as_bytes_vec();
    match parse_i32_bytes(&bytes) {
        Some(v) => v,
        None => 0,
    }
}

// ---------------------------------------------------------------------------
// Comma-separated sets
// ---------------------------------------------------------------------------

/// Split on commas, keeping empty segments; `""` splits to one empty segment.
pub open spec fn spec_split_commas(s: Seq<u8>) -> Seq<Seq<u8>>
    decreases s.len(),
{
    if s.len() == 0 {
        seq![Seq::<u8>::empty()]
    } else {
        let r = spec_split_commas(s.drop_first());
        if s[0] == 44 {
            seq![Seq::<u8>::empty()] + r
        } else {
            seq![seq![s[0]] + r[0]] + r.drop_first()
        }
    }
}

pub proof fn lemma_split_nonempty(s: Seq<u8>)
    ensures
        spec_split_commas(s).len() >= 1,
    decreases s.len(),
{
    if s.len() > 0 {
        lemma_split_nonempty(s.drop_first());
    }
}

fn split_commas_from(s: &Vec<u8>, from: usize) -> (r: Vec<Vec<u8>>)
    requires
        from <= s@.len(),
    ensures
        r@.map_values(|v: Vec<u8>| v@) == spec_split_commas(s@.skip(from as int)),
    decreases s@.len() - from,
{
    if from == s.len() {
        let mut r: Vec<Vec<u8>> = Vec::new();
        r.push(Vec::new());
        proof {
            assert(s@.skip(from as int) =~= Seq::<u8>::empty());
            assert(r@.map_values(|v: Vec<u8>| v@) =~~= spec_split_commas(s@.skip(from as int)));
        }
        r
    } else {
        let b = s[from];
        let mut r = split_commas_from(s, from + 1);
        proof {
            lemma_split_nonempty(s@.skip(from as int + 1));
            assert(s@.skip(from as int).drop_first() =~= s@.skip(from as int + 1));
        }
        if b == 44 {
            r.insert(0, Vec::new());
        } else {
            let mut first = r.remove(0);
            first.insert(0, b);
            r.insert(0, first);
        }
        proof {
            assert(r@.map_values(|v: Vec<u8>| v@) =~~= spec_split_commas(s@.skip(from as int)));
        }
        r
    }
}

pub fn split_commas(s: &Vec<u8>) -> (r: Vec<Vec<u8>>)
    ensures
        r@.map_values(|v: Vec<u8>| v@) == spec_split_commas(s@),
{
    let r = split_commas_from(s, 0);
    proof {
        assert(s@.skip(0) =~= s@);
    }
    r
}

/// Trim and parse each comma-separated token, silently dropping the tokens
/// that are not numerals in `[lo, hi]`.
pub open spec fn spec_collect_ranged(segs: Seq<Seq<u8>>, lo: int, hi: int) -> Seq<int>
    decreases segs.len(),
{
    if segs.len() == 0 {
        Seq::empty()
    } else {
        let rest = spec_collect_ranged(segs.drop_first(), lo, hi);
        match spec_parse_ranged(spec_trim(segs[0]), lo, hi) {
            Some(v) => seq![v] + rest,
            None => rest,
        }
    }
}

pub open spec fn spec_i32_list(s: Seq<u8>) -> Seq<int> {
    spec_collect_ranged(spec_split_commas(s), -0x8000_0000, 0x7fff_ffff)
}

pub open spec fn spec_i16_list(s: Seq<u8>) -> Seq<int> {
    spec_collect_ranged(spec_split_commas(s), -0x8000, 0x7fff)
}

fn collect_ranged(segs: Vec<Vec<u8>>, lo: i64, hi: i64) -> (r: Vec<i64>)
    requires
        -3_000_000_000 <= lo <= 0 <= hi <= 3_000_000_000,
    ensures
        r@.map_values(|x: i64| x as int) == spec_collect_ranged(
            segs@.map_values(|v: Vec<u8>| v@),
            lo as int,
            hi as int,
        ),
        forall|k: int| 0 <= k < r@.len() ==> lo <= #[trigger] r@[k] <= hi,
{
    let ghost whole = segs@.map_values(|v: Vec<u8>| v@);
    let mut segs = segs;
    let mut out: Vec<i64> = Vec::new();
    while segs.len() > 0
        invariant
            -3_000_000_000 <= lo <= 0 <= hi <= 3_000_000_000,
            spec_collect_ranged(whole, lo as int, hi as int) == out@.map_values(|x: i64| x as int)
                + spec_collect_ranged(segs@.map_values(|v: Vec<u8>| v@), lo as int, hi as int),
            forall|k: int| 0 <= k < out@.len() ==> lo <= #[trigger] out@[k] <= hi,
        decreases segs@.len(),
    {
        let ghost pre = segs@.map_values(|v: Vec<u8>| v@);
        let seg = segs.remove(0);
        proof {
            assert(segs@.map_values(|v: Vec<u8>| v@) =~~= pre.drop_first());
        }
        let trimmed = trim_bytes(seg);
        match parse_int_ranged(&trimmed, lo, hi) {
            Some(v) => {
                out.push(v);
            },
            None => {},
        }
        proof {
            assert(spec_collect_ranged(whole, lo as int, hi as int) =~= out@.map_values(
                |x: i64| x as int,
            ) + spec_collect_ranged(segs@.map_values(|v: Vec<u8>| v@), lo as int, hi as int));
        }
    }
    proof {
        assert(segs@.map_values(|v: Vec<u8>| v@) =~~= Seq::<Seq<u8>>::empty());
        assert(spec_collect_ranged(whole, lo as int, hi as int) =~= out@.map_values(
            |x: i64| x as int,
        ));
    }
    out
}

fn i64s_to_i32s(raw: Vec<i64>) -> (out: Vec<i32>)
    requires
        forall|k: int|
            0 <= k < raw@.len() ==> -0x8000_0000 <= (#[trigger] raw@[k]) as int <= 0x7fff_ffff,
    ensures
        out@.map_values(|x: i32| x as int) == raw@.map_values(|x: i64| x as int),
{
    let mut out: Vec<i32> = Vec::new();
    let mut i: usize = 0;
    while i < raw.len()
        invariant
            i <= raw@.len(),
            out@.len() == i,
            forall|k: int|
                0 <= k < raw@.len() ==> -0x8000_0000 <= (#[trigger] raw@[k]) as int <= 0x7fff_ffff,
            forall|k: int| 0 <= k < i ==> #[trigger] out@[k] == raw@[k] as i32,
        decreases raw@.len() - i,
    {
        out.push(raw[i] as i32);
        i = i + 1;
    }
    proof {
        assert(out@.map_values(|x: i32| x as int) =~= raw@.map_values(|x: i64| x as int));
    }
    out
}

/// Parse the completed-levels set: enclosing parentheses stripped, then the
/// comma-separated tokens parsed tolerantly.
pub fn parse_i32_list_in_parens(s: &str) -> (r: Vec<i32>)
    ensures
        r@.map_values(|x: i32| x as int) == spec_i32_list(spec_strip_parens(encode_utf8(s@))),
{
    let bytes = s.as_bytes_vec();
    let stripped = strip_parens_bytes(bytes);
    let segs = split_commas(&stripped);
    let raw = collect_ranged(segs, -2_147_483_648, 2_147_483_647);
    i64s_to_i32s(raw)
}

pub fn parse_i32_list(s: &str) -> (r: Vec<i32>)
    ensures
        r@.map_values(|x: i32| x as int) == spec_i32_list(encode_utf8(s@)),
{
    let bytes = s.as_bytes_vec();
    let segs = split_commas(&bytes);
    let raw = collect_ranged(segs, -2_147_483_648, 2_147_483_647);
    i64s_to_i32s(raw)
}

pub fn parse_i16_list(s: &str) -> (r: Vec<i16>)
    ensures
        r@.map_values(|x: i16| x as int) == spec_i16_list(encode_utf8(s@)),
{
    let bytes = s.as_bytes_vec();
    let segs = split_commas(&bytes);
    let raw = collect_ranged(segs, -32_768, 32_767);
    let mut out: Vec<i16> = Vec::new();
    let mut i: usize = 0;
    while i < raw.len()
        invariant
            i <= raw@.len(),
            out@.len() == i,
            forall|k: int|
                0 <= k < raw@.len() ==> -0x8000 <= (#[trigger] raw@[k]) as int <= 0x7fff,
            forall|k: int| 0 <= k < i ==> #[trigger] out@[k] == raw@[k] as i16,
        decreases raw@.len() - i,
    {
        out.push(raw[i] as i16);
        i = i + 1;
    }
    proof {
        assert(out@.map_values(|x: i16| x as int) =~= raw@.map_values(|x: i64| x as int));
    }
    out
}

/// A purely numeric string: non-empty, ASCII digits only.
pub open spec fn spec_is_numeric(b: Seq<u8>) -> bool {
    b.len() > 0 && all_digits(b)
}

pub fn is_numeric(s: &str) -> (r: bool)
    ensures
        r == spec_is_numeric(encode_utf8(s@)),
{
    let b = s.as_bytes_vec();
    proof {
        assert(b@ == encode_utf8(s@));
    }
    if b.len() == 0 {
        return false;
    }
    let mut i: usize = 0;
    while i < b.len()
        invariant
            b@ == encode_utf8(s@),
            i <= b@.len(),
            forall|k: int| 0 <= k < i ==> is_digit_byte(#[trigger] b@[k]),
        decreases b@.len() - i,
    {
        let c = b[i];
        if !(48 <= c && c <= 57) {
            proof {
                assert(!all_digits(b@)) by {
                    assert(!is_digit_byte(b@[i as int]));
                }
            }
            return false;
        }
        i = i + 1;
    }
    true
}

} // verus!
