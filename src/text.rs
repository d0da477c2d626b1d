use vstd::prelude::*;
use vstd::string::*;

verus! {

/// Whether two strings hold the same characters.
pub fn str_equal(a: &str, b: &str) -> (r: bool)
    ensures
        r == (a@ == b@),
{
    let n = a.unicode_len();
    if n != b.unicode_len() {
        return false;
    }
    let mut i: usize = 0;
    while i < n
        invariant
            n == a@.len(),
            n == b@.len(),
            0 <= i <= n,
            a@.subrange(0, i as int) == b@.subrange(0, i as int),
        decreases n - i,
    {
        if a.get_char(i) != b.get_char(i) {
            assert(a@[i as int] != b@[i as int]);
            return false;
        }
        assert(a@.subrange(0, i + 1) =~= a@.subrange(0, i as int).push(a@[i as int]));
        assert(b@.subrange(0, i + 1) =~= b@.subrange(0, i as int).push(b@[i as int]));
        i = i + 1;
    }
    assert(a@ =~= a@.subrange(0, n as int));
    assert(b@ =~= b@.subrange(0, n as int));
    true
}

/// Value of a hexadecimal digit, or -1 for any other character.
pub open spec fn hex_digit_value(c: char) -> int {
    let n = c as u32;
    if 48 <= n <= 57 {
        n - 48
    } else if 97 <= n <= 102 {
        n - 87
    } else if 65 <= n <= 70 {
        n - 55
    } else {
        -1
    }
}

pub open spec fn is_hex_digit(c: char) -> bool {
    hex_digit_value(c) >= 0
}

/// The number that a string of hexadecimal digits denotes.
pub open spec fn hex_value(s: Seq<char>) -> nat
    decreases s.len(),
{
    if s.len() == 0 {
        0
    } else {
        hex_value(s.drop_last()) * 16 + hex_digit_value(s.last()) as nat
    }
}

/// The digits of an address: without a leading `*0x` (or `*0X`), and without
/// one leading `+` sign after that.
pub open spec fn address_digits(s: Seq<char>) -> Seq<char> {
    let t = if s.len() >= 3 && s[0] == '*' && s[1] == '0' && (s[2] == 'x' || s[2] == 'X') {
        s.subrange(3, s.len() as int)
    } else {
        s
    };
    if t.len() >= 1 && t[0] == '+' {
        t.subrange(1, t.len() as int)
    } else {
        t
    }
}

/// The address that a breakpoint argument denotes: one or more hexadecimal
/// digits whose value fits in 64 bits, after the optional prefix.
pub open spec fn parsed_address(s: Seq<char>) -> Option<u64> {
    let d = address_digits(s);
    if d.len() > 0 && (forall|i: int| 0 <= i < d.len() ==> #[trigger] is_hex_digit(d[i]))
        && hex_value(d) <= u64::MAX {
        Some(hex_value(d) as u64)
    } else {
        None
    }
}

proof fn lemma_hex_value_prefix(s: Seq<char>, k: int)
    requires
        0 <= k <= s.len(),
    ensures
        hex_value(s.subrange(0, k)) <= hex_value(s),
    decreases s.len() - k,
{
    if k < s.len() {
        lemma_hex_value_prefix(s, k + 1);
        let p = s.subrange(0, k + 1);
        assert(p.drop_last() =~= s.subrange(0, k));
    } else {
        assert(s.subrange(0, k) =~= s);
    }
}

fn hex_digit(c: char) -> (r: Option<u64>)
    ensures
        r is Some <==> is_hex_digit(c),
        r matches Some(d) ==> d == hex_digit_value(c) && d < 16,
{
    let n = c as u32;
    if 48 <= n && n <= 57 {
        Some((n - 48) as u64)
    } else if 97 <= n && n <= 102 {
        Some((n - 87) as u64)
    } else if 65 <= n && n <= 70 {
        Some((n - 55) as u64)
    } else {
        None
    }
}

/// Parses a breakpoint address written in hexadecimal, with or without a
/// leading `*0x`.
pub fn parse_address(addr: &str) -> (r: Option<u64>)
    ensures
        r == parsed_address(addr@),
{
    let n = addr.unicode_len();
    let ghost s = addr@;
    let mut start: usize = 0;
    if n >= 3 && addr.get_char(0) == '*' && addr.get_char(1) == '0' && (addr.get_char(2) == 'x'
        || addr.get_char(2) == 'X') {
        start = 3;
    }
    let ghost t = s.subrange(start as int, n as int);
    if start < n && addr.get_char(start) == '+' {
        start = start + 1;
    }
    let ghost d = s.subrange(start as int, n as int);
    assert(d =~= address_digits(s)) by {
        if s.len() >= 3 && s[0] == '*' && s[1] == '0' && (s[2] == 'x' || s[2] == 'X') {
            assert(t =~= s.subrange(3, s.len() as int));
        } else {
            assert(t =~= s);
        }
    }
    if start == n {
        return None;
    }
    let mut v: u64 = 0;
    let mut i: usize = start;
    while i < n
        invariant
            n == s.len(),
            s == addr@,
            start <= i <= n,
            d == s.subrange(start as int, n as int),
            d == address_digits(s),
            d.len() > 0,
            forall|j: int| 0 <= j < i - start ==> #[trigger] is_hex_digit(d[j]),
            v == hex_value(d.subrange(0, i - start)),
        decreases n - i,
    {
        let c = addr.get_char(i);
        assert(c == d[i - start]);
        let dv = match hex_digit(c) {
            Some(x) => x,
            None => {
                assert(!is_hex_digit(d[i - start]));
                return None;
            },
        };
        let ghost p = d.subrange(0, i - start + 1);
        assert(p.drop_last() =~= d.subrange(0, i - start));
        assert(p.last() == c);
        assert(hex_value(p) == v * 16 + dv);
        if v > (u64::MAX - dv) / 16 {
            proof {
                assert(hex_value(p) == v * 16 + dv);
                assert(hex_value(p) > u64::MAX) by (nonlinear_arith)
                    requires
                        hex_value(p) == v * 16 + dv,
                        v > (u64::MAX - dv) / 16,
                        dv < 16,
                ;
                lemma_hex_value_prefix(d, i - start + 1);
            }
            return None;
        }
        assert(v * 16 + dv <= u64::MAX) by (nonlinear_arith)
            requires
                v <= (u64::MAX - dv) / 16,
                dv < 16,
        ;
        v = v * 16 + dv;
        i = i + 1;
    }
    assert(d.subrange(0, d.len() as int) =~= d);
    Some(v)
}

} // verus!
