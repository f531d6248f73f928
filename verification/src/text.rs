//! Small text formats shared by the policies: decimal numbers in headers and
//! the structured early-return messages of rejected requests.
use vstd::prelude::*;
use vstd::string::StringSliceAdditionalSpecFns;

verus! {

/// Whether `b` is an ASCII decimal digit.
pub open spec fn is_digit(b: u8) -> bool {
    48 <= b <= 57
}

/// The value of a string of ASCII decimal digits.
pub open spec fn digits_value(s: Seq<u8>) -> nat
    decreases s.len(),
{
    if s.len() == 0 {
        0
    } else {
        digits_value(s.drop_last()) * 10 + (s.last() - 48) as nat
    }
}

/// The digits of a decimal text: the bytes after an optional leading `+`.
pub open spec fn decimal_digits(s: Seq<u8>) -> Seq<u8> {
    if s.len() > 0 && s[0] == 43 {
        s.drop_first()
    } else {
        s
    }
}

/// What `u64`'s `FromStr` gives for the bytes `s`: an optional `+`, then one
/// or more ASCII digits whose value fits in `u64`; anything else is refused.
pub open spec fn parsed_u64(s: Seq<u8>) -> Option<u64> {
    let d = decimal_digits(s);
    if d.len() > 0 && (forall|i: int| 0 <= i < d.len() ==> is_digit(#[trigger] d[i]))
        && digits_value(d) <= u64::MAX {
        Some(digits_value(d) as u64)
    } else {
        None
    }
}

proof fn lemma_digits_value_push(s: Seq<u8>, b: u8)
    ensures
        digits_value(s.push(b)) == digits_value(s) * 10 + (b - 48) as nat,
{
    assert(s.push(b).drop_last() =~= s);
}

/// Parses an unsigned decimal number as `str::parse::<u64>` does.
pub fn parse_u64(text: &str) -> (r: Option<u64>)
    ensures
        r == parsed_u64(text.spec_bytes()),
{
    let bytes = text.as_bytes();
    let ghost s = bytes@;
    let n = bytes.len();
    let mut start: usize = 0;
    if n > 0 && bytes[0] == 43u8 {
        start = 1;
    }
    let ghost d = decimal_digits(s);
    assert(d =~= s.subrange(start as int, n as int));
    if start == n {
        return None;
    }
    let mut value: u64 = 0;
    let mut i: usize = start;
    while i < n
        invariant
            start <= i <= n,
            n == s.len(),
            bytes@ == s,
            s == text.spec_bytes(),
            d == decimal_digits(s),
            d =~= s.subrange(start as int, n as int),
            forall|j: int| start <= j < i ==> is_digit(#[trigger] s[j]),
            value == digits_value(s.subrange(start as int, i as int)),
        decreases n - i,
    {
        let b = bytes[i];
        if b < 48u8 || b > 57u8 {
            assert(d[i - start] == s[i as int]);
            assert(!is_digit(d[i - start]));
            return None;
        }
        proof {
            assert(s.subrange(start as int, i + 1) =~= s.subrange(start as int, i as int).push(b));
            lemma_digits_value_push(s.subrange(start as int, i as int), b);
        }
        let digit: u64 = (b - 48u8) as u64;
        if value > 1844674407370955161u64 || (value == 1844674407370955161u64 && digit > 5u64) {
            proof {
                let pre = s.subrange(start as int, i + 1);
                assert(digits_value(pre) == value * 10 + digit);
                assert(digits_value(pre) > u64::MAX);
                if forall|j: int| 0 <= j < d.len() ==> is_digit(#[trigger] d[j]) {
                    lemma_digits_value_mono(d, i + 1 - start);
                    assert(d.subrange(0, i + 1 - start) =~= pre);
                }
            }
            return None;
        }
        value = value * 10 + digit;
        i = i + 1;
    }
    proof {
        assert forall|j: int| 0 <= j < d.len() implies is_digit(#[trigger] d[j]) by {
            assert(d[j] == s[start + j]);
        }
    }
    Some(value)
}

/// A longer digit string is worth at least as much as its prefix.
proof fn lemma_digits_value_mono(s: Seq<u8>, k: int)
    requires
        0 <= k <= s.len(),
        forall|j: int| 0 <= j < s.len() ==> is_digit(#[trigger] s[j]),
    ensures
        digits_value(s.subrange(0, k)) <= digits_value(s),
    decreases s.len() - k,
{
    if k < s.len() {
        lemma_digits_value_mono(s, k + 1);
        assert(s.subrange(0, k + 1).drop_last() =~= s.subrange(0, k));
    } else {
        assert(s.subrange(0, k) =~= s);
    }
}

/// The message of a request that a policy returns early: the source method,
/// then the last child RPC if there is one, then the reason if there is one.
pub open spec fn early_return_text(
    service: Seq<char>,
    method: Seq<char>,
    last_rpc: Option<(Seq<char>, Seq<char>)>,
    reason: Option<Seq<char>>,
) -> Seq<char> {
    let head = "/EarlyReturn?src="@ + service + "::"@ + method;
    let with_child = match last_rpc {
        Some((s, m)) => head + "?last_rpc="@ + s + "::"@ + m,
        None => head,
    };
    match reason {
        Some(r) => with_child + "&reason="@ + r,
        None => with_child,
    }
}

/// Builds an early-return message; see [`early_return_text`].
pub fn early_return_message(
    service: &str,
    method: &str,
    last_rpc: Option<(&str, &str)>,
    reason: Option<&str>,
) -> (s: String)
    ensures
        s@ == early_return_text(
            service@,
            method@,
            match last_rpc {
                Some((a, b)) => Some((a@, b@)),
                None => None,
            },
            match reason {
                Some(r) => Some(r@),
                None => None,
            },
        ),
{
    let mut s = String::from_str("/EarlyReturn?src=");
    s.append(service);
    s.append("::");
    s.append(method);
    match last_rpc {
        Some((child_service, child_method)) => {
            s.append("?last_rpc=");
            s.append(child_service);
            s.append("::");
            s.append(child_method);
        },
        None => {},
    }
    match reason {
        Some(r) => {
            s.append("&reason=");
            s.append(r);
        },
        None => {},
    }
    s
}

/// The character of a digit value below 16 (lower-case hex letters).
pub open spec fn digit_char(d: u64) -> char {
    if d < 10 { ((48 + d) as u8) as char } else { ((87 + d) as u8) as char }
}

/// The decimal text of `n`, without leading zeros.
pub open spec fn decimal_text(n: u64) -> Seq<char>
    decreases n,
{
    if n < 10 {
        seq![digit_char(n)]
    } else {
        decimal_text(n / 10).push(digit_char(n % 10))
    }
}

/// The 16 lower-case hex digits of `h`, most significant first.
pub open spec fn hex16_text(h: u64) -> Seq<char> {
    Seq::new(16, |i: int| digit_char((h >> ((4 * (15 - i)) as u64)) & 0xfu64))
}

/// The one-character text of a digit value below 16.
fn digit_str(d: u64) -> (s: &'static str)
    requires
        d < 16,
    ensures
        s@ == seq![digit_char(d)],
{
    proof {
        reveal_strlit("0");
        reveal_strlit("1");
        reveal_strlit("2");
        reveal_strlit("3");
        reveal_strlit("4");
        reveal_strlit("5");
        reveal_strlit("6");
        reveal_strlit("7");
        reveal_strlit("8");
        reveal_strlit("9");
        reveal_strlit("a");
        reveal_strlit("b");
        reveal_strlit("c");
        reveal_strlit("d");
        reveal_strlit("e");
        reveal_strlit("f");
    }
    let s = match d {
        0 => "0",
        1 => "1",
        2 => "2",
        3 => "3",
        4 => "4",
        5 => "5",
        6 => "6",
        7 => "7",
        8 => "8",
        9 => "9",
        10 => "a",
        11 => "b",
        12 => "c",
        13 => "d",
        14 => "e",
        _ => "f",
    };
    assert(s@ =~= seq![digit_char(d)]);
    s
}

/// Appends the decimal text of `n` to `s`.
pub fn append_decimal(s: &mut String, n: u64)
    ensures
        final(s)@ == old(s)@ + decimal_text(n),
    decreases n,
{
    if n >= 10 {
        append_decimal(s, n / 10);
    }
    s.append(digit_str(n % 10));
    proof {
        if n >= 10 {
            assert(old(s)@ + decimal_text(n / 10) + seq![digit_char(n % 10)] =~= old(s)@ + decimal_text(n));
        } else {
            assert(n % 10 == n);
        }
    }
}

/// Appends the 16 hex digits of `h` to `s`.
pub fn append_hex16(s: &mut String, h: u64)
    ensures
        final(s)@ == old(s)@ + hex16_text(h),
{
    let ghost s0 = s@;
    let mut i: u64 = 0;
    while i < 16
        invariant
            0 <= i <= 16,
            s@ == s0 + hex16_text(h).take(i as int),
        decreases 16 - i,
    {
        let shifted = h >> (4 * (15 - i));
        let nibble = shifted & 0xfu64;
        assert(shifted & 0xfu64 < 16) by (bit_vector);
        s.append(digit_str(nibble));
        assert(hex16_text(h).take(i + 1) =~= hex16_text(h).take(i as int).push(digit_char(nibble)));
        i = i + 1;
    }
    assert(hex16_text(h).take(16) =~= hex16_text(h));
}

} // verus!
