//! Decimal integers as text: `i64` parsing (`str::parse::<i64>`) and
//! formatting (`i64::to_string`).
use vstd::prelude::*;

verus! {

pub open spec fn is_digit(c: char) -> bool {
    '0' <= c && c <= '9'
}

pub open spec fn digit_value(c: char) -> int {
    (c as int) - ('0' as int)
}

/// Value of a sequence of decimal digits.
pub open spec fn digits_value(s: Seq<char>) -> int
    decreases s.len(),
{
    if s.len() == 0 {
        0
    } else {
        10 * digits_value(s.drop_last()) + digit_value(s.last())
    }
}

pub open spec fn all_digits(s: Seq<char>) -> bool {
    forall|i: int| 0 <= i < s.len() ==> is_digit(#[trigger] s[i])
}

/// What `str::parse::<i64>` returns: an optional `+` or `-` sign, then one or
/// more decimal digits, and the value must fit in `i64`.
pub open spec fn parse_i64_spec(s: Seq<char>) -> Option<i64> {
    let neg = s.len() > 0 && s[0] == '-';
    let signed = s.len() > 0 && (s[0] == '-' || s[0] == '+');
    let body = if signed {
        s.drop_first()
    } else {
        s
    };
    if body.len() == 0 || !all_digits(body) {
        None
    } else {
        let v = if neg {
            -digits_value(body)
        } else {
            digits_value(body)
        };
        if i64::MIN <= v <= i64::MAX {
            Some(v as i64)
        } else {
            None
        }
    }
}

proof fn lemma_digits_value_nonneg(s: Seq<char>)
    requires
        all_digits(s),
    ensures
        digits_value(s) >= 0,
    decreases s.len(),
{
    if s.len() > 0 {
        assert(all_digits(s.drop_last()));
        lemma_digits_value_nonneg(s.drop_last());
        assert(is_digit(s[s.len() - 1]));
    }
}

/// `str::parse::<i64>`.
pub fn parse_i64(s: &[char]) -> (r: Option<i64>)
    ensures
        r == parse_i64_spec(s@),
{
    let ghost big: int = 0x8000_0000_0000_0001;
    let neg = s.len() > 0 && s[0] == '-';
    let signed = s.len() > 0 && (s[0] == '-' || s[0] == '+');
    let start: usize = if signed {
        1
    } else {
        0
    };
    let ghost body = if signed {
        s@.drop_first()
    } else {
        s@
    };
    assert(body =~= s@.subrange(start as int, s.len() as int));
    if start == s.len() {
        return None;
    }
    let mut acc: i128 = 0;
    let mut i: usize = start;
    while i < s.len()
        invariant
            start <= i <= s.len(),
            big == 0x8000_0000_0000_0001,
            body == s@.subrange(start as int, s.len() as int),
            body == (if s@.len() > 0 && (s@[0] == '-' || s@[0] == '+') {
                s@.drop_first()
            } else {
                s@
            }),
            body.len() > 0,
            all_digits(s@.subrange(start as int, i as int)),
            acc as int == if digits_value(s@.subrange(start as int, i as int)) < big {
                digits_value(s@.subrange(start as int, i as int))
            } else {
                big
            },
            0 <= acc <= big,
        decreases s.len() - i,
    {
        let c = s[i];
        if !('0' <= c && c <= '9') {
            assert(!is_digit(body[i - start]));
            return None;
        }
        let d = (c as u32 - '0' as u32) as i128;
        proof {
            let p = s@.subrange(start as int, i as int);
            let q = s@.subrange(start as int, i + 1);
            assert(q.drop_last() =~= p);
            assert(q.last() == c);
            lemma_digits_value_nonneg(p);
        }
        let next = acc * 10 + d;
        acc = if next > 0x8000_0000_0000_0001 {
            0x8000_0000_0000_0001
        } else {
            next
        };
        i = i + 1;
    }
    assert(s@.subrange(start as int, i as int) =~= body);
    if neg {
        if acc <= 0x8000_0000_0000_0000 {
            Some((-acc) as i64)
        } else {
            None
        }
    } else {
        if acc <= 0x7fff_ffff_ffff_ffff {
            Some(acc as i64)
        } else {
            None
        }
    }
}

/// Decimal digits of a natural number, without leading zeros.
pub open spec fn nat_decimal(n: nat) -> Seq<char>
    decreases n,
{
    if n < 10 {
        seq![((n + '0' as nat) as u32) as char]
    } else {
        nat_decimal(n / 10).push((((n % 10) + '0' as nat) as u32) as char)
    }
}

/// Text of an integer as `i64::to_string` writes it.
pub open spec fn int_decimal(v: int) -> Seq<char> {
    if v < 0 {
        seq!['-'] + nat_decimal((-v) as nat)
    } else {
        nat_decimal(v as nat)
    }
}

/// `i64::to_string`.
pub fn format_i64(v: i64) -> (r: Vec<char>)
    ensures
        r@ == int_decimal(v as int),
{
    let mut n: u64 = if v < 0 {
        if v == i64::MIN {
            0x8000_0000_0000_0000u64
        } else {
            (-v) as u64
        }
    } else {
        v as u64
    };
    let ghost total: nat = n as nat;
    let mut rev: Vec<char> = Vec::new();
    // digits are produced least significant first
    let mut out: Vec<char> = Vec::new();
    proof {
        assert(nat_decimal(total) == nat_decimal(n as nat) + Seq::<char>::empty());
    }
    let ghost mut suffix: Seq<char> = Seq::empty();
    while n >= 10
        invariant
            nat_decimal(total) == nat_decimal(n as nat) + suffix,
            rev@.len() == suffix.len(),
            forall|k: int| 0 <= k < suffix.len() ==> rev@[k] == suffix[suffix.len() - 1 - k],
        decreases n,
    {
        let d = ((n % 10) as u32 + '0' as u32) as u8 as char;
        proof {
            assert(nat_decimal(n as nat) == nat_decimal((n / 10) as nat).push(d));
            assert(nat_decimal((n / 10) as nat).push(d) + suffix =~= nat_decimal((n / 10) as nat) + (
            seq![d] + suffix));
        }
        rev.push(d);
        proof {
            suffix = seq![d] + suffix;
        }
        n = n / 10;
    }
    let d0 = (n as u32 + '0' as u32) as u8 as char;
    rev.push(d0);
    proof {
        assert(nat_decimal(n as nat) =~= seq![d0]);
        suffix = seq![d0] + suffix;
    }
    if v < 0 {
        out.push('-');
    }
    let ghost prefix = out@;
    let mut k: usize = rev.len();
    while k > 0
        invariant
            k <= rev@.len(),
            rev@.len() == suffix.len(),
            forall|q: int| 0 <= q < suffix.len() ==> rev@[q] == suffix[suffix.len() - 1 - q],
            out@ == prefix + suffix.subrange(0, (suffix.len() - k) as int),
        decreases k,
    {
        k = k - 1;
        out.push(rev[k]);
        assert(out@ =~= prefix + suffix.subrange(0, (suffix.len() - k) as int));
    }
    assert(suffix.subrange(0, suffix.len() as int) =~= suffix);
    proof {
        assert(nat_decimal(total) =~= suffix);
        if v < 0 {
            assert(total == (-(v as int)) as nat);
        }
    }
    out
}


proof fn lemma_nat_decimal(n: nat)
    ensures
        nat_decimal(n).len() >= 1,
        all_digits(nat_decimal(n)),
        digits_value(nat_decimal(n)) == n,
    decreases n,
{
    if n < 10 {
        let c = ((n + '0' as nat) as u32) as char;
        assert(c as int == n + 48);
        assert(nat_decimal(n).drop_last() =~= Seq::<char>::empty());
        assert(nat_decimal(n).last() == c);
        assert(digits_value(nat_decimal(n)) == 10 * digits_value(Seq::<char>::empty()) + digit_value(c));
    } else {
        lemma_nat_decimal(n / 10);
        let c = ((((n % 10) + '0' as nat) as u32) as char);
        assert(c as int == (n % 10) + 48);
        let s = nat_decimal(n);
        assert(s.drop_last() =~= nat_decimal(n / 10));
        assert(s.last() == c);
        assert(digit_value(c) == n % 10);
        assert(n == 10 * (n / 10) + n % 10);
        assert(digits_value(s) == 10 * digits_value(nat_decimal(n / 10)) + digit_value(c));
        assert forall|i: int| 0 <= i < s.len() implies is_digit(#[trigger] s[i]) by {
            if i < s.len() - 1 {
                assert(s[i] == nat_decimal(n / 10)[i]);
            }
        }
    }
}

/// Formatting then parsing gives the number back.
pub proof fn lemma_parse_format_i64(v: i64)
    ensures
        parse_i64_spec(int_decimal(v as int)) == Some(v),
{
    if v < 0 {
        let body = nat_decimal((-v) as nat);
        lemma_nat_decimal((-v) as nat);
        assert((seq!['-'] + body).drop_first() =~= body);
        assert((seq!['-'] + body)[0] == '-');
    } else {
        let body = nat_decimal(v as nat);
        lemma_nat_decimal(v as nat);
        assert(is_digit(body[0]));
    }
}


/// What `str::parse::<usize>` returns: an optional `+`, then one or more
/// decimal digits, and the value must fit in `usize`.
pub open spec fn parse_usize_spec(s: Seq<char>) -> Option<usize> {
    let body = if s.len() > 0 && s[0] == '+' {
        s.drop_first()
    } else {
        s
    };
    if body.len() == 0 || !all_digits(body) {
        None
    } else if digits_value(body) <= usize::MAX {
        Some(digits_value(body) as usize)
    } else {
        None
    }
}

/// `str::parse::<usize>`.
pub fn parse_usize(s: &[char]) -> (r: Option<usize>)
    ensures
        r == parse_usize_spec(s@),
{
    let ghost cap: int = usize::MAX as int + 1;
    let start: usize = if s.len() > 0 && s[0] == '+' {
        1
    } else {
        0
    };
    let ghost body = if s@.len() > 0 && s@[0] == '+' {
        s@.drop_first()
    } else {
        s@
    };
    assert(body =~= s@.subrange(start as int, s.len() as int));
    if start == s.len() {
        return None;
    }
    let limit: u128 = (usize::MAX as u128) + 1;
    let mut acc: u128 = 0;
    let mut i: usize = start;
    while i < s.len()
        invariant
            start <= i <= s.len(),
            cap == usize::MAX as int + 1,
            limit == cap,
            body == s@.subrange(start as int, s.len() as int),
            body == (if s@.len() > 0 && s@[0] == '+' {
                s@.drop_first()
            } else {
                s@
            }),
            body.len() > 0,
            all_digits(s@.subrange(start as int, i as int)),
            acc as int == if digits_value(s@.subrange(start as int, i as int)) < cap {
                digits_value(s@.subrange(start as int, i as int))
            } else {
                cap
            },
            0 <= acc <= cap,
        decreases s.len() - i,
    {
        let c = s[i];
        if !('0' <= c && c <= '9') {
            assert(!is_digit(body[i - start]));
            return None;
        }
        let d = (c as u32 - '0' as u32) as u128;
        proof {
            let p = s@.subrange(start as int, i as int);
            let q = s@.subrange(start as int, i + 1);
            assert(q.drop_last() =~= p);
            assert(q.last() == c);
            lemma_digits_value_nonneg(p);
        }
        let next = acc * 10 + d;
        acc = if next > limit {
            limit
        } else {
            next
        };
        i = i + 1;
    }
    assert(s@.subrange(start as int, i as int) =~= body);
    if acc < limit {
        Some(acc as usize)
    } else {
        None
    }
}


/// `u64::to_string`.
pub fn format_u64(v: u64) -> (r: Vec<char>)
    ensures
        r@ == nat_decimal(v as nat),
{
    let mut n: u64 = v;
    let mut rev: Vec<char> = Vec::new();
    let ghost mut suffix: Seq<char> = Seq::empty();
    proof {
        assert(nat_decimal(v as nat) == nat_decimal(n as nat) + suffix);
    }
    while n >= 10
        invariant
            nat_decimal(v as nat) == nat_decimal(n as nat) + suffix,
            rev@.len() == suffix.len(),
            forall|k: int| 0 <= k < suffix.len() ==> rev@[k] == suffix[suffix.len() - 1 - k],
        decreases n,
    {
        let d = ((n % 10) as u32 + '0' as u32) as u8 as char;
        proof {
            assert(nat_decimal(n as nat) == nat_decimal((n / 10) as nat).push(d));
            assert(nat_decimal((n / 10) as nat).push(d) + suffix =~= nat_decimal((n / 10) as nat) + (
            seq![d] + suffix));
        }
        rev.push(d);
        proof {
            suffix = seq![d] + suffix;
        }
        n = n / 10;
    }
    let d0 = (n as u32 + '0' as u32) as u8 as char;
    rev.push(d0);
    proof {
        assert(nat_decimal(n as nat) =~= seq![d0]);
        suffix = seq![d0] + suffix;
    }
    let mut out: Vec<char> = Vec::new();
    let mut k: usize = rev.len();
    while k > 0
        invariant
            k <= rev@.len(),
            rev@.len() == suffix.len(),
            forall|q: int| 0 <= q < suffix.len() ==> rev@[q] == suffix[suffix.len() - 1 - q],
            out@ == suffix.subrange(0, (suffix.len() - k) as int),
        decreases k,
    {
        k = k - 1;
        out.push(rev[k]);
        assert(out@ =~= suffix.subrange(0, (suffix.len() - k) as int));
    }
    assert(suffix.subrange(0, suffix.len() as int) =~= suffix);
    assert(nat_decimal(v as nat) =~= suffix);
    out
}

} // verus!
