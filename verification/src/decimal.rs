use vstd::prelude::*;

verus! {

pub open spec fn is_dec_digit(c: char) -> bool {
    48 <= c as u32 && c as u32 <= 57
}

pub open spec fn digit_val(c: char) -> int {
    c as u32 - 48
}

pub open spec fn all_digits(s: Seq<char>) -> bool {
    forall|i: int| 0 <= i < s.len() ==> is_dec_digit(#[trigger] s[i])
}

/// The numeric value of a decimal digit string.
pub open spec fn dec_val(s: Seq<char>) -> int
    decreases s.len(),
{
    if s.len() == 0 {
        0
    } else {
        dec_val(s.drop_last()) * 10 + digit_val(s.last())
    }
}

/// Appending one digit multiplies the value by ten and adds the digit.
pub proof fn lemma_dec_val_step(s: Seq<char>, i: int)
    requires
        0 <= i < s.len(),
    ensures
        dec_val(s.subrange(0, i + 1)) == dec_val(s.subrange(0, i)) * 10 + digit_val(s[i]),
{
    assert(s.subrange(0, i + 1).drop_last() =~= s.subrange(0, i));
    assert(s.subrange(0, i + 1).last() == s[i]);
}

/// The character of one decimal digit.
pub open spec fn digit_char(d: nat) -> char {
    ((48 + d) as u8) as char
}

/// The decimal rendering of a natural number, no leading zeros.
pub open spec fn dec_str(n: nat) -> Seq<char>
    decreases n,
{
    if n < 10 {
        seq![digit_char(n)]
    } else {
        dec_str(n / 10) + seq![digit_char(n % 10)]
    }
}

/// The decimal rendering of an integer: a sign for negatives.
pub open spec fn int_str(v: int) -> Seq<char> {
    if v < 0 {
        seq!['-'] + dec_str((-v) as nat)
    } else {
        dec_str(v as nat)
    }
}

/// The one-character string of a decimal digit.
fn digit_str(d: u64) -> (r: &'static str)
    requires
        d < 10,
    ensures
        r@ == seq![digit_char(d as nat)],
{
    proof {
        reveal_strlit("0");
        reveal_strlit("1");
        reveal_strlit("2");
        reveal_strlit("3");
        reveal_strlit("4");
        reveal_strlit("5");
        reveal_strlit("6");
        reveal_strlit("7");
        reveal_strlit("8");
        reveal_strlit("9");
    }
    match d {
        0 => "0",
        1 => "1",
        2 => "2",
        3 => "3",
        4 => "4",
        5 => "5",
        6 => "6",
        7 => "7",
        8 => "8",
        _ => "9",
    }
}

/// Render a natural number in decimal.
pub fn u64_to_string(n: u64) -> (s: String)
    ensures
        s@ == dec_str(n as nat),
    decreases n,
{
    if n < 10 {
        String::from_str(digit_str(n))
    } else {
        let mut s = u64_to_string(n / 10);
        s.append(digit_str(n % 10));
        s
    }
}

/// A decimal rendering is one or more digits reading back its value.
pub proof fn lemma_dec_str_is_digits(n: nat)
    ensures
        dec_str(n).len() >= 1,
        all_digits(dec_str(n)),
        dec_val(dec_str(n)) == n,
    decreases n,
{
    if n < 10 {
        let s = dec_str(n);
        assert(s == seq![digit_char(n)]);
        assert(s.drop_last() =~= Seq::<char>::empty());
        assert(is_dec_digit(digit_char(n)));
        assert(digit_val(digit_char(n)) == n);
        assert(dec_val(Seq::<char>::empty()) == 0);
        assert(s.last() == digit_char(n));
        assert(dec_val(s) == dec_val(s.drop_last()) * 10 + digit_val(s.last()));
    } else {
        lemma_dec_str_is_digits(n / 10);
        let p = dec_str(n / 10);
        let s = dec_str(n);
        assert(s == p + seq![digit_char(n % 10)]);
        assert(s.drop_last() =~= p);
        assert(s.last() == digit_char((n % 10) as nat));
        assert forall|i: int| 0 <= i < s.len() implies is_dec_digit(#[trigger] s[i]) by {
            if i < s.len() - 1 {
                assert(s[i] == p[i]);
            } else {
                assert(is_dec_digit(digit_char((n % 10) as nat)));
            }
        }
        assert(dec_val(s) == dec_val(p) * 10 + digit_val(digit_char((n % 10) as nat)));
        assert(digit_val(digit_char((n % 10) as nat)) == n % 10);
        assert(dec_val(s) == (n / 10) * 10 + n % 10);
    }
}

/// Decimal renderings are injective: equal digit strings read back
/// equal numbers.
pub proof fn lemma_dec_str_injective(n1: nat, n2: nat)
    requires
        dec_str(n1) == dec_str(n2),
    ensures
        n1 == n2,
{
    lemma_dec_str_is_digits(n1);
    lemma_dec_str_is_digits(n2);
}

/// Integer renderings are injective.
pub proof fn lemma_int_str_injective(v1: int, v2: int)
    requires
        int_str(v1) == int_str(v2),
    ensures
        v1 == v2,
{
    lemma_dec_str_is_digits(if v1 < 0 { (-v1) as nat } else { v1 as nat });
    lemma_dec_str_is_digits(if v2 < 0 { (-v2) as nat } else { v2 as nat });
    if v1 < 0 && v2 < 0 {
        let s1 = int_str(v1);
        let s2 = int_str(v2);
        assert(s1.subrange(1, s1.len() as int) =~= dec_str((-v1) as nat));
        assert(s2.subrange(1, s2.len() as int) =~= dec_str((-v2) as nat));
        lemma_dec_str_injective((-v1) as nat, (-v2) as nat);
    } else if v1 < 0 && v2 >= 0 {
        assert(int_str(v1)[0] == '-');
        assert(int_str(v2)[0] == dec_str(v2 as nat)[0]);
        assert(is_dec_digit(dec_str(v2 as nat)[0]));
        assert(false);
    } else if v1 >= 0 && v2 < 0 {
        assert(int_str(v2)[0] == '-');
        assert(int_str(v1)[0] == dec_str(v1 as nat)[0]);
        assert(is_dec_digit(dec_str(v1 as nat)[0]));
        assert(false);
    } else {
        lemma_dec_str_injective(v1 as nat, v2 as nat);
    }
}

/// Renderings hold only digits and a possible leading sign, so they
/// never contain a field separator.
pub proof fn lemma_int_str_free_of(v: int, c: char)
    requires
        !is_dec_digit(c),
        c != '-',
    ensures
        !int_str(v).contains(c),
{
    let n: nat = if v < 0 { (-v) as nat } else { v as nat };
    lemma_dec_str_is_digits(n);
    let s = int_str(v);
    assert forall|i: int| 0 <= i < s.len() implies s[i] != c by {
        if v < 0 {
            if i > 0 {
                assert(s[i] == dec_str(n)[i - 1]);
                assert(is_dec_digit(dec_str(n)[i - 1]));
            }
        } else {
            assert(is_dec_digit(dec_str(n)[i]));
        }
    }
    if s.contains(c) {
        let i = choose|i: int| 0 <= i < s.len() && s[i] == c;
        assert(false);
    }
}

/// Render an integer in decimal, with a sign for negatives.
pub fn i64_to_string(v: i64) -> (s: String)
    ensures
        s@ == int_str(v as int),
{
    proof {
        reveal_strlit("-");
    }
    if v < 0 {
        let magnitude: u64 = (-(v as i128)) as u64;
        let mut s = String::from_str("-");
        let rest = u64_to_string(magnitude);
        s.append(rest.as_str());
        s
    } else {
        u64_to_string(v as u64)
    }
}

} // verus!
