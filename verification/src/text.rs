use vstd::prelude::*;
use vstd::string::*;

verus! {

/// The lowercase hexadecimal digit of a value below sixteen.
pub open spec fn hex_digit(d: int) -> char {
    if d < 10 {
        ((48 + d) as u32) as char
    } else {
        ((87 + d) as u32) as char
    }
}

/// The `k`-th of the 32 hexadecimal digits of an identifier, most significant first.
pub open spec fn id_nibble(id: u128, k: int) -> int {
    ((id as int) / vstd::arithmetic::power::pow(16, (31 - k) as nat)) % 16
}

/// The canonical text of an identifier: 32 lowercase hexadecimal digits in
/// groups of 8, 4, 4, 4 and 12, joined by hyphens.
pub open spec fn uuid_text(id: u128) -> Seq<char> {
    Seq::new(
        36,
        |p: int|
            if p == 8 || p == 13 || p == 18 || p == 23 {
                '-'
            } else {
                let hyphens: int = if p < 8 {
                    0
                } else if p < 13 {
                    1
                } else if p < 18 {
                    2
                } else if p < 23 {
                    3
                } else {
                    4
                };
                hex_digit(id_nibble(id, p - hyphens))
            },
    )
}

/// The decimal digit of a value below ten.
pub open spec fn decimal_digit(d: int) -> char {
    ((48 + d) as u32) as char
}

/// The decimal text of a natural number, without leading zeros.
pub open spec fn decimal(n: nat) -> Seq<char>
    decreases n,
{
    if n < 10 {
        seq![decimal_digit(n as int)]
    } else {
        decimal(n / 10) + seq![decimal_digit((n % 10) as int)]
    }
}

/// The `k`-th hexadecimal digit of an identifier, by shifting and masking.
fn nibble(id: u128, k: usize) -> (d: u64)
    requires
        k < 32,
    ensures
        d as int == id_nibble(id, k as int),
        d < 16,
{
    let shift: u128 = (4 * (31 - k)) as u128;
    let shifted: u128 = id >> shift;
    let d: u128 = shifted & 0xf;
    proof {
        vstd::bits::lemma_u128_shr_is_div(id, shift);
        let e: nat = (31 - k) as nat;
        assert(vstd::arithmetic::power::pow(2, 4) == 16) by {
            reveal_with_fuel(vstd::arithmetic::power::pow, 5);
        }
        vstd::arithmetic::power::lemma_pow_multiplies(2, 4, e);
        vstd::arithmetic::power2::lemma_pow2(4 * e);
        assert(d == shifted % 16) by (bit_vector)
            requires
                d == shifted & 0xf,
        ;
    }
    d as u64
}

fn hex_text(d: u64) -> (s: &'static str)
    requires
        d < 16,
    ensures
        s@ == seq![hex_digit(d as int)],
{
    if d < 10 {
        return digit_text(d);
    }
    proof {
        reveal_strlit("a");
        reveal_strlit("b");
        reveal_strlit("c");
        reveal_strlit("d");
        reveal_strlit("e");
        reveal_strlit("f");
    }
    if d == 10 {
        "a"
    } else if d == 11 {
        "b"
    } else if d == 12 {
        "c"
    } else if d == 13 {
        "d"
    } else if d == 14 {
        "e"
    } else {
        "f"
    }
}

/// The hyphenated lowercase text of an identifier, as `uuid::Uuid`
/// displays it; see `uuid_text`.
pub fn uuid_string(id: u128) -> (s: String)
    ensures
        s@ == uuid_text(id),
{
    let mut s = String::new();
    let mut p: usize = 0;
    let mut k: usize = 0;
    assert(s@ =~= uuid_text(id).take(0));
    while p < 36
        invariant
            0 <= p <= 36,
            k == p - (if p <= 8 { 0int } else if p <= 13 { 1int } else if p <= 18 { 2int } else if p <= 23 { 3int } else { 4int }),
            s@ == uuid_text(id).take(p as int),
        decreases 36 - p,
    {
        let ghost before = s@;
        if p == 8 || p == 13 || p == 18 || p == 23 {
            s.append("-");
            proof {
                reveal_strlit("-");
            }
            assert(s@ =~= before.push(uuid_text(id)[p as int]));
        } else {
            let d = nibble(id, k);
            s.append(hex_text(d));
            assert(uuid_text(id)[p as int] == hex_digit(id_nibble(id, k as int)));
            assert(s@ =~= before.push(uuid_text(id)[p as int]));
            k += 1;
        }
        assert(s@ =~= uuid_text(id).take(p + 1)) by {
            assert(uuid_text(id).take(p + 1) =~= before.push(uuid_text(id)[p as int]));
        }
        p += 1;
    }
    assert(uuid_text(id).take(36) =~= uuid_text(id));
    s
}

fn digit_text(d: u64) -> (s: &'static str)
    requires
        d < 10,
    ensures
        s@ == seq![decimal_digit(d as int)],
{
    proof {
        reveal_strlit("0");
        reveal_strlit("1");
        reveal_strlit("2");
        reveal_strlit("3");
        reveal_strlit("4");
        reveal_strlit("5");
        reveal_strlit("6");
        reveal_strlit("7");
        reveal_strlit("8");
        reveal_strlit("9");
    }
    if d == 0 {
        "0"
    } else if d == 1 {
        "1"
    } else if d == 2 {
        "2"
    } else if d == 3 {
        "3"
    } else if d == 4 {
        "4"
    } else if d == 5 {
        "5"
    } else if d == 6 {
        "6"
    } else if d == 7 {
        "7"
    } else if d == 8 {
        "8"
    } else {
        "9"
    }
}

/// The decimal text of a number, as `u64` displays it.
pub fn decimal_string(n: u64) -> (s: String)
    ensures
        s@ == decimal(n as nat),
    decreases n,
{
    if n < 10 {
        return String::from_str(digit_text(n));
    }
    let mut s = decimal_string(n / 10);
    s.append(digit_text(n % 10));
    s
}

/// Whether the text equals a literal.
pub fn text_eq(s: &String, lit: &str) -> (r: bool)
    ensures
        r == (s@ == lit@),
{
    let t = String::from_str(lit);
    *s == t
}

pub open spec fn msg_timescale() -> Seq<char> {
    "time timescale must be positive"@
}

pub fn timescale_message() -> (s: String)
    ensures
        s@ == msg_timescale(),
{
    String::from_str("time timescale must be positive")
}

/// `prefix`, the identifier's text, then `suffix`.
pub fn id_message(prefix: &str, id: u128, suffix: &str) -> (s: String)
    ensures
        s@ == prefix@ + uuid_text(id) + suffix@,
{
    let mut s = String::from_str(prefix);
    let t = uuid_string(id);
    s.append(t.as_str());
    s.append(suffix);
    s
}

} // verus!

verus! {

/// The text up to and including its last dot; empty when it has none.
pub open spec fn through_last_dot(s: Seq<char>) -> Seq<char>
    decreases s.len(),
{
    if s.len() == 0 || s.last() == '.' {
        s
    } else {
        through_last_dot(s.drop_last())
    }
}

/// Drops the characters after the last dot (all of them when there is no dot).
pub fn trim_after_last_dot(s: &str) -> (r: String)
    ensures
        r@ == through_last_dot(s@),
{
    let n = s.unicode_len();
    let mut k: usize = n;
    assert(s@.take(n as int) =~= s@);
    while k > 0 && s.get_char(k - 1) != '.'
        invariant
            k <= n,
            n == s@.len(),
            through_last_dot(s@) == through_last_dot(s@.take(k as int)),
        decreases k,
    {
        assert(s@.take(k as int).drop_last() =~= s@.take(k - 1));
        k -= 1;
    }
    if k > 0 {
        assert(s@.take(k as int).last() == s@[k - 1]);
    }
    let t = s.substring_char(0, k);
    assert(t@ =~= s@.take(k as int));
    String::from_str(t)
}

} // verus!
