use vstd::prelude::*;

verus! {

/// The decimal digit character for `d` (`d < 10`).
pub open spec fn digit_char(d: nat) -> char {
    (('0' as u32) + d) as char
}

pub open spec fn is_digit(c: char) -> bool {
    '0' <= c && c <= '9'
}

pub open spec fn digit_value(c: char) -> int {
    c as int - '0' as int
}

pub open spec fn all_digits(s: Seq<char>) -> bool {
    forall|i: int| 0 <= i < s.len() ==> is_digit(#[trigger] s[i])
}

/// The number that the decimal digits `s` write.
pub open spec fn digits_value(s: Seq<char>) -> int
    decreases s.len(),
{
    if s.len() == 0 {
        0
    } else {
        digits_value(s.drop_last()) * 10 + digit_value(s.last())
    }
}

/// The decimal representation of `n`, without sign or leading zeros.
pub open spec fn decimal(n: nat) -> Seq<char>
    decreases n,
{
    if n < 10 {
        seq![digit_char(n)]
    } else {
        decimal(n / 10).push(digit_char(n % 10))
    }
}

/// The digits that follow an optional leading `+`.
pub open spec fn unsigned_body(s: Seq<char>) -> Seq<char> {
    if s.len() > 0 && s[0] == '+' {
        s.drop_first()
    } else {
        s
    }
}

/// What `str::parse` gives for an unsigned integer type whose largest
/// value is `max`: an optional `+`, then at least one decimal digit and
/// nothing else, with a value that fits.
pub open spec fn parse_unsigned(s: Seq<char>, max: nat) -> Option<nat> {
    let b = unsigned_body(s);
    if b.len() > 0 && all_digits(b) && digits_value(b) <= max {
        Some(digits_value(b) as nat)
    } else {
        None
    }
}

/// What `str::parse::<i32>` gives: an optional sign, then at least one
/// decimal digit and nothing else, with a value that fits in an `i32`.
pub open spec fn parse_i32_spec(s: Seq<char>) -> Option<i32> {
    if s.len() > 0 && s[0] == '-' {
        let b = s.drop_first();
        if b.len() > 0 && all_digits(b) && digits_value(b) <= 0x8000_0000 {
            Some((-digits_value(b)) as i32)
        } else {
            None
        }
    } else {
        match parse_unsigned(s, 0x7fff_ffff) {
            Some(v) => Some(v as i32),
            None => None,
        }
    }
}

pub proof fn lemma_digits_value_nonneg(s: Seq<char>)
    requires
        all_digits(s),
    ensures
        digits_value(s) >= 0,
    decreases s.len(),
{
    if s.len() > 0 {
        assert(is_digit(s[s.len() - 1]));
        lemma_digits_value_nonneg(s.drop_last());
    }
}

pub proof fn lemma_digits_value_prefix(s: Seq<char>, i: int)
    requires
        all_digits(s),
        0 <= i <= s.len(),
    ensures
        digits_value(s.take(i)) <= digits_value(s),
    decreases s.len() - i,
{
    if i < s.len() {
        lemma_digits_value_prefix(s.drop_last(), i);
        assert(s.drop_last().take(i) =~= s.take(i));
        assert(is_digit(s[s.len() - 1]));
        lemma_digits_value_nonneg(s.drop_last());
    } else {
        assert(s.take(i) =~= s);
    }
}

/// The decimal representation of `n` reads back as `n`.
pub proof fn lemma_decimal_value(n: nat)
    ensures
        all_digits(decimal(n)),
        decimal(n).len() > 0,
        digits_value(decimal(n)) == n,
    decreases n,
{
    let c = digit_char(n % 10);
    assert(c as int == '0' as int + n % 10);
    if n < 10 {
        assert(decimal(n).drop_last() =~= Seq::<char>::empty());
        assert(digits_value(decimal(n)) == digits_value(Seq::<char>::empty()) * 10 + digit_value(c));
    } else {
        lemma_decimal_value(n / 10);
        let d = decimal(n / 10);
        assert(decimal(n).drop_last() =~= d);
        assert(decimal(n).last() == c);
        assert(digits_value(decimal(n)) == digits_value(d) * 10 + digit_value(c));
        assert(n == (n / 10) * 10 + n % 10);
        assert forall|i: int| 0 <= i < decimal(n).len() implies is_digit(#[trigger] decimal(n)[i]) by {
            if i < d.len() {
                assert(decimal(n)[i] == d[i]);
            }
        }
    }
}

/// Parsing the decimal representation of a number that fits gives the number.
pub proof fn lemma_parse_decimal(n: nat, max: nat)
    requires
        n <= max,
    ensures
        parse_unsigned(decimal(n), max) == Some(n),
{
    lemma_decimal_value(n);
    assert(is_digit(decimal(n)[0]));
}

/// The decimal representation of `n`.
pub fn decimal_chars(n: u64) -> (r: Vec<char>)
    ensures
        r@ == decimal(n as nat),
    decreases n,
{
    if n < 10 {
        let c = char_for_digit(n);
        let mut v: Vec<char> = Vec::new();
        v.push(c);
        assert(v@ =~= seq![digit_char(n as nat)]);
        v
    } else {
        let mut v = decimal_chars(n / 10);
        let c = char_for_digit(n % 10);
        v.push(c);
        v
    }
}

fn char_for_digit(d: u64) -> (c: char)
    requires
        d < 10,
    ensures
        c == digit_char(d as nat),
{
    if d == 0 {
        '0'
    } else if d == 1 {
        '1'
    } else if d == 2 {
        '2'
    } else if d == 3 {
        '3'
    } else if d == 4 {
        '4'
    } else if d == 5 {
        '5'
    } else if d == 6 {
        '6'
    } else if d == 7 {
        '7'
    } else if d == 8 {
        '8'
    } else {
        '9'
    }
}

/// The number that the decimal digits `s[start..]` write, when they are
/// at least one digit, only digits, and at most `max`.
fn parse_digits_from(s: &[char], start: usize, max: u64) -> (r: Option<u64>)
    requires
        start <= s@.len(),
    ensures
        ({
            let b = s@.subrange(start as int, s@.len() as int);
            match r {
                Some(v) => b.len() > 0 && all_digits(b) && digits_value(b) <= max && v
                    == digits_value(b),
                None => !(b.len() > 0 && all_digits(b) && digits_value(b) <= max),
            }
        }),
{
    let n = s.len();
    let ghost b = s@.subrange(start as int, n as int);
    if start == n {
        return None;
    }
    let mut value: u64 = 0;
    let mut i: usize = start;
    while i < n
        invariant
            start <= i <= n,
            n == s@.len(),
            b == s@.subrange(start as int, n as int),
            all_digits(b.take(i - start)),
            value as int == digits_value(b.take(i - start)),
            value <= max,
        decreases n - i,
    {
        let c = s[i];
        assert(b[i - start] == c);
        if c < '0' || c > '9' {
            assert(!all_digits(b));
            return None;
        }
        let d = (c as u32 - '0' as u32) as u64;
        let k = i - start;
        assert(b.take(k + 1).drop_last() =~= b.take(k as int));
        assert(b.take(k + 1).last() == c);
        assert(all_digits(b.take(k + 1))) by {
            assert forall|m: int| 0 <= m < k + 1 implies is_digit(#[trigger] b.take(k + 1)[m]) by {
                if m < k {
                    assert(b.take(k + 1)[m] == b.take(k as int)[m]);
                }
            }
        }
        if d > max || value > (max - d) / 10 {
            proof {
                assert(digits_value(b.take(k + 1)) == value * 10 + d);
                if d <= max {
                    assert(value * 10 + d > max) by (nonlinear_arith)
                        requires
                            value > (max - d) / 10,
                            d <= max,
                    ;
                }
                if all_digits(b) {
                    lemma_digits_value_prefix(b, k + 1);
                }
            }
            return None;
        }
        proof {
            assert(value * 10 + d <= max) by (nonlinear_arith)
                requires
                    value <= (max - d) / 10,
                    d <= max,
            ;
        }
        value = value * 10 + d;
        i = i + 1;
    }
    assert(b.take(n - start) =~= b);
    Some(value)
}

/// Parses `s` as `str::parse` does for an unsigned integer type whose
/// largest value is `max`.
pub fn parse_unsigned_chars(s: &[char], max: u64) -> (r: Option<u64>)
    ensures
        r matches Some(v) ==> parse_unsigned(s@, max as nat) == Some(v as nat) && v <= max,
        r is None ==> parse_unsigned(s@, max as nat) is None,
{
    let n = s.len();
    let start: usize = if n > 0 && s[0] == '+' {
        1
    } else {
        0
    };
    assert(unsigned_body(s@) =~= s@.subrange(start as int, n as int));
    parse_digits_from(s, start, max)
}

/// Parses `s` as `str::parse::<i32>` does.
pub fn parse_i32_chars(s: &[char]) -> (r: Option<i32>)
    ensures
        r == parse_i32_spec(s@),
{
    let n = s.len();
    if n > 0 && s[0] == '-' {
        assert(s@.drop_first() =~= s@.subrange(1, n as int));
        match parse_digits_from(s, 1, 0x8000_0000) {
            Some(v) => {
                let r: i32 = if v == 0x8000_0000 {
                    i32::MIN
                } else {
                    -(v as i32)
                };
                Some(r)
            },
            None => None,
        }
    } else {
        match parse_unsigned_chars(s, 0x7fff_ffff) {
            Some(v) => Some(v as i32),
            None => None,
        }
    }
}

/// The lowercase hexadecimal digit for `d` (`d < 16`).
pub open spec fn hex_char(d: nat) -> char {
    if d < 10 {
        (('0' as u32) + d) as char
    } else {
        (('a' as u32) + (d - 10)) as char
    }
}

/// The `w` lowest hexadecimal digits of `x`, lowercase, most significant first.
pub open spec fn hex_fixed(x: nat, w: nat) -> Seq<char>
    decreases w,
{
    if w == 0 {
        Seq::empty()
    } else {
        hex_fixed(x / 16, (w - 1) as nat).push(hex_char(x % 16))
    }
}

/// The value of a hexadecimal digit, in either case.
pub open spec fn hex_digit_value(c: char) -> int {
    if '0' <= c && c <= '9' {
        c as int - '0' as int
    } else if 'a' <= c && c <= 'f' {
        c as int - 'a' as int + 10
    } else {
        c as int - 'A' as int + 10
    }
}

pub open spec fn is_hex_digit(c: char) -> bool {
    ('0' <= c && c <= '9') || ('a' <= c && c <= 'f') || ('A' <= c && c <= 'F')
}

pub open spec fn all_hex_digits(s: Seq<char>) -> bool {
    forall|i: int| 0 <= i < s.len() ==> is_hex_digit(#[trigger] s[i])
}

/// The number that the hexadecimal digits `s` write.
pub open spec fn hex_value(s: Seq<char>) -> int
    decreases s.len(),
{
    if s.len() == 0 {
        0
    } else {
        hex_value(s.drop_last()) * 16 + hex_digit_value(s.last())
    }
}

/// What `u64::from_str_radix(s, 16)` gives: an optional `+`, then at least
/// one hexadecimal digit and nothing else, with a value that fits in a `u64`.
pub open spec fn parse_hex_u64_spec(s: Seq<char>) -> Option<u64> {
    let b = unsigned_body(s);
    if b.len() > 0 && all_hex_digits(b) && hex_value(b) <= u64::MAX {
        Some(hex_value(b) as u64)
    } else {
        None
    }
}

pub open spec fn pow16(w: nat) -> nat
    decreases w,
{
    if w == 0 {
        1
    } else {
        16 * pow16((w - 1) as nat)
    }
}

/// `w` hexadecimal digits of `x` read back as `x` modulo `16^w`.
pub proof fn lemma_hex_fixed_value(x: nat, w: nat)
    ensures
        hex_fixed(x, w).len() == w,
        all_hex_digits(hex_fixed(x, w)),
        pow16(w) > 0,
        hex_value(hex_fixed(x, w)) == x % pow16(w),
    decreases w,
{
    if w > 0 {
        lemma_hex_fixed_value(x / 16, (w - 1) as nat);
        let h = hex_fixed(x, w);
        let prev = hex_fixed(x / 16, (w - 1) as nat);
        let c = hex_char(x % 16);
        assert(h.drop_last() =~= prev);
        assert(h.last() == c);
        assert(hex_digit_value(c) == x % 16);
        assert forall|i: int| 0 <= i < h.len() implies is_hex_digit(#[trigger] h[i]) by {
            if i < prev.len() {
                assert(h[i] == prev[i]);
            }
        }
        assert(hex_value(h) == hex_value(prev) * 16 + hex_digit_value(c));
        vstd::arithmetic::div_mod::lemma_mod_breakdown(x as int, 16, pow16((w - 1) as nat) as int);
        assert(16 * ((x / 16) % pow16((w - 1) as nat)) == ((x / 16) % pow16((w - 1) as nat)) * 16)
            by (nonlinear_arith);
    }
}

/// Formatting a `u64` as 16 hexadecimal digits and parsing it back gives
/// the number again.
pub proof fn lemma_hex16_roundtrip(x: u64)
    ensures
        parse_hex_u64_spec(hex_fixed(x as nat, 16)) == Some(x),
{
    lemma_hex_fixed_value(x as nat, 16);
    reveal_with_fuel(pow16, 17);
    assert(pow16(16) == 0x1_0000_0000_0000_0000);
    let h = hex_fixed(x as nat, 16);
    assert(is_hex_digit(h[0]));
    assert(unsigned_body(h) == h);
}

/// The `w` lowest hexadecimal digits of `x`, lowercase; with `w == 16`
/// this is `x` as `format!("{:016x}", x)` writes it.
pub fn hex_fixed_chars(x: u64, w: usize) -> (r: Vec<char>)
    ensures
        r@ == hex_fixed(x as nat, w as nat),
    decreases w,
{
    if w == 0 {
        let v: Vec<char> = Vec::new();
        assert(v@ =~= hex_fixed(x as nat, 0));
        v
    } else {
        let mut v = hex_fixed_chars(x / 16, w - 1);
        let c = hex_digit_char(x % 16);
        v.push(c);
        v
    }
}

fn hex_digit_char(d: u64) -> (c: char)
    requires
        d < 16,
    ensures
        c == hex_char(d as nat),
{
    if d < 10 {
        char_for_digit(d)
    } else if d == 10 {
        'a'
    } else if d == 11 {
        'b'
    } else if d == 12 {
        'c'
    } else if d == 13 {
        'd'
    } else if d == 14 {
        'e'
    } else {
        'f'
    }
}


pub proof fn lemma_hex_value_nonneg(s: Seq<char>)
    requires
        all_hex_digits(s),
    ensures
        hex_value(s) >= 0,
    decreases s.len(),
{
    if s.len() > 0 {
        assert(is_hex_digit(s[s.len() - 1]));
        lemma_hex_value_nonneg(s.drop_last());
    }
}

pub proof fn lemma_hex_value_prefix(s: Seq<char>, i: int)
    requires
        all_hex_digits(s),
        0 <= i <= s.len(),
    ensures
        hex_value(s.take(i)) <= hex_value(s),
    decreases s.len() - i,
{
    if i < s.len() {
        lemma_hex_value_prefix(s.drop_last(), i);
        assert(s.drop_last().take(i) =~= s.take(i));
        assert(is_hex_digit(s[s.len() - 1]));
        lemma_hex_value_nonneg(s.drop_last());
    } else {
        assert(s.take(i) =~= s);
    }
}

fn hex_digit_of(c: char) -> (r: Option<u64>)
    ensures
        r is Some <==> is_hex_digit(c),
        r matches Some(d) ==> d == hex_digit_value(c) && d < 16,
{
    if '0' <= c && c <= '9' {
        Some((c as u32 - '0' as u32) as u64)
    } else if 'a' <= c && c <= 'f' {
        Some((c as u32 - 'a' as u32 + 10) as u64)
    } else if 'A' <= c && c <= 'F' {
        Some((c as u32 - 'A' as u32 + 10) as u64)
    } else {
        None
    }
}

/// Parses `s` as `u64::from_str_radix(s, 16)` does.
pub fn parse_hex_u64_chars(s: &[char]) -> (r: Option<u64>)
    ensures
        r == parse_hex_u64_spec(s@),
{
    let n = s.len();
    let start: usize = if n > 0 && s[0] == '+' {
        1
    } else {
        0
    };
    let ghost b = unsigned_body(s@);
    assert(b =~= s@.subrange(start as int, n as int));
    if start == n {
        return None;
    }
    let mut value: u64 = 0;
    let mut i: usize = start;
    while i < n
        invariant
            start <= i <= n,
            n == s@.len(),
            b == s@.subrange(start as int, n as int),
            b == unsigned_body(s@),
            all_hex_digits(b.take(i - start)),
            value as int == hex_value(b.take(i - start)),
        decreases n - i,
    {
        let c = s[i];
        assert(b[i - start] == c);
        let d = match hex_digit_of(c) {
            Some(d) => d,
            None => {
                assert(!all_hex_digits(b));
                return None;
            },
        };
        let k = i - start;
        assert(b.take(k + 1).drop_last() =~= b.take(k as int));
        assert(b.take(k + 1).last() == c);
        assert(all_hex_digits(b.take(k + 1))) by {
            assert forall|m: int| 0 <= m < k + 1 implies is_hex_digit(#[trigger] b.take(k + 1)[m]) by {
                if m < k {
                    assert(b.take(k + 1)[m] == b.take(k as int)[m]);
                }
            }
        }
        if value > (u64::MAX - d) / 16 {
            proof {
                assert(hex_value(b.take(k + 1)) == value * 16 + d);
                assert(value * 16 + d > u64::MAX) by (nonlinear_arith)
                    requires
                        value > (u64::MAX - d) / 16,
                        d < 16,
                ;
                if all_hex_digits(b) {
                    lemma_hex_value_prefix(b, k + 1);
                }
            }
            return None;
        }
        proof {
            assert(value * 16 + d <= u64::MAX) by (nonlinear_arith)
                requires
                    value <= (u64::MAX - d) / 16,
                    d < 16,
            ;
        }
        value = value * 16 + d;
        i = i + 1;
    }
    assert(b.take(n - start) =~= b);
    Some(value)
}

} // verus!
