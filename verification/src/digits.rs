//! Decimal digits: printing unsigned integers and reading them back.

use vstd::prelude::*;
use vstd::string::StringExecFns;

verus! {

/// The character for one decimal digit value.
pub open spec fn digit_char(d: int) -> char {
    if d == 0 {
        '0'
    } else if d == 1 {
        '1'
    } else if d == 2 {
        '2'
    } else if d == 3 {
        '3'
    } else if d == 4 {
        '4'
    } else if d == 5 {
        '5'
    } else if d == 6 {
        '6'
    } else if d == 7 {
        '7'
    } else if d == 8 {
        '8'
    } else {
        '9'
    }
}

/// The decimal digits of `n`, most significant first, with no leading zeros
/// (a single `'0'` for zero).
pub open spec fn dec_digits(n: nat) -> Seq<char>
    decreases n,
{
    if n < 10 {
        seq![digit_char(n as int)]
    } else {
        dec_digits(n / 10).push(digit_char((n % 10) as int))
    }
}

/// `dec_digits(n)` left-padded with `'0'` to at least `width` characters.
pub open spec fn padded_dec(n: nat, width: nat) -> Seq<char> {
    if dec_digits(n).len() >= width {
        dec_digits(n)
    } else {
        Seq::new((width - dec_digits(n).len()) as nat, |i| '0') + dec_digits(n)
    }
}

fn digit_str(d: u64) -> (r: &'static str)
    requires
        d < 10,
    ensures
        r@ == seq![digit_char(d as int)],
{
    proof {
        reveal_strlit("0");
        reveal_strlit("1");
        reveal_strlit("2");
        reveal_strlit("3");
        reveal_strlit("4");
        reveal_strlit("5");
        reveal_strlit("6");
        reveal_strlit("7");
        reveal_strlit("8");
        reveal_strlit("9");
    }
    let r = match d {
        0 => "0",
        1 => "1",
        2 => "2",
        3 => "3",
        4 => "4",
        5 => "5",
        6 => "6",
        7 => "7",
        8 => "8",
        _ => "9",
    };
    proof {
        assert(r@ =~= seq![digit_char(d as int)]);
    }
    r
}

/// Print `n` in decimal.
pub fn u64_to_string(n: u64) -> (s: String)
    ensures
        s@ == dec_digits(n as nat),
    decreases n,
{
    if n < 10 {
        digit_str(n).to_owned()
    } else {
        let mut s = u64_to_string(n / 10);
        s.append(digit_str(n % 10));
        proof {
            assert(s@ =~= dec_digits(n as nat));
        }
        s
    }
}

/// Print `n` in decimal, left-padded with zeros to at least `width` characters.
pub fn u64_to_padded_string(n: u64, width: usize) -> (s: String)
    ensures
        s@ == padded_dec(n as nat, width as nat),
{
    let digits = u64_to_string(n);
    let mut s = String::new();
    let mut pad: usize = 0;
    let len = digits.as_str().unicode_len();
    while pad + len < width
        invariant
            len == dec_digits(n as nat).len(),
            pad + len <= width || pad == 0,
            s@ =~= Seq::new(pad as nat, |i| '0'),
        decreases width - pad,
    {
        s.append("0");
        proof {
            reveal_strlit("0");
            assert(s@ =~= Seq::new((pad + 1) as nat, |i| '0'));
        }
        pad = pad + 1;
    }
    s.append(digits.as_str());
    proof {
        assert(s@ =~= padded_dec(n as nat, width as nat));
    }
    s
}

/// Whether `c` is a decimal digit.
pub open spec fn is_digit_char(c: char) -> bool {
    '0' <= c && c <= '9'
}

/// The value of a decimal digit character.
pub open spec fn digit_val(c: char) -> int {
    c as int - '0' as int
}

/// Whether every character of `s` is a decimal digit (and there is at least one).
pub open spec fn all_digits(s: Seq<char>) -> bool {
    s.len() > 0 && forall|i: int| 0 <= i < s.len() ==> is_digit_char(#[trigger] s[i])
}

/// The number denoted by a sequence of decimal digit characters.
pub open spec fn dec_value(s: Seq<char>) -> int
    decreases s.len(),
{
    if s.len() == 0 {
        0
    } else {
        dec_value(s.drop_last()) * 10 + digit_val(s.last())
    }
}

/// Read a decimal number from `s`.
///
/// Returns `None` when `s` is empty, holds a non-digit character, or denotes
/// a value above `u64::MAX`.
pub fn parse_u64(s: &str) -> (r: Option<u64>)
    ensures
        match r {
            Some(v) => all_digits(s@) && v == dec_value(s@),
            None => !all_digits(s@) || dec_value(s@) > u64::MAX,
        },
{
    let len = s.unicode_len();
    if len == 0 {
        return None;
    }
    let mut i: usize = 0;
    let mut acc: u64 = 0;
    while i < len
        invariant
            0 < len == s@.len(),
            0 <= i <= len,
            forall|j: int| 0 <= j < i ==> is_digit_char(#[trigger] s@[j]),
            acc == dec_value(s@.take(i as int)),
            dec_value(s@.take(i as int)) <= u64::MAX,
        decreases len - i,
    {
        let c = s.get_char(i);
        let cv = c as u32;
        if cv < 48 || cv > 57 {
            proof {
                assert(!is_digit_char(s@[i as int]));
            }
            return None;
        }
        let d = (cv - 48) as u64;
        proof {
            assert(is_digit_char(s@[i as int]));
            assert(d == digit_val(s@[i as int]));
        }
        if acc > (u64::MAX - d) / 10 {
            proof {
                let m = (u64::MAX - d) as int;
                assert(m / 10 * 10 + m % 10 == m) by (nonlinear_arith);
                assert(0 <= m % 10 < 10) by (nonlinear_arith);
                assert(acc as int * 10 >= (m / 10 + 1) * 10) by (nonlinear_arith)
                    requires
                        acc as int >= m / 10 + 1,
                ;
                assert((m / 10 + 1) * 10 == m / 10 * 10 + 10) by (nonlinear_arith);
                assert(acc as int * 10 + d > u64::MAX);
                assert(s@.take(i as int + 1).drop_last() =~= s@.take(i as int));
                assert(s@.take(i as int + 1).last() == s@[i as int]);
                assert(dec_value(s@.take(i as int + 1)) == acc as int * 10 + d);
                if all_digits(s@) {
                    lemma_dec_value_grows(s@, i as int + 1);
                }
            }
            return None;
        }
        acc = acc * 10 + d;
        proof {
            assert(s@.take(i as int + 1).drop_last() =~= s@.take(i as int));
            assert(s@.take(i as int + 1).last() == s@[i as int]);
        }
        i = i + 1;
    }
    proof {
        assert(s@.take(len as int) =~= s@);
    }
    Some(acc)
}

/// If some prefix of a digit string already denotes more than `u64::MAX`,
/// so does the whole string.
proof fn lemma_dec_value_grows(s: Seq<char>, i: int)
    requires
        0 <= i <= s.len(),
        forall|j: int| i <= j < s.len() ==> is_digit_char(#[trigger] s[j]),
        dec_value(s.take(i)) > u64::MAX,
    ensures
        dec_value(s) > u64::MAX,
    decreases s.len() - i,
{
    if i == s.len() {
        assert(s.take(i) =~= s);
    } else {
        assert(s.take(i + 1).drop_last() =~= s.take(i));
        assert(s.take(i + 1).last() == s[i]);
        assert(dec_value(s.take(i + 1)) == dec_value(s.take(i)) * 10 + digit_val(s[i]));
        assert(dec_value(s.take(i)) * 10 >= dec_value(s.take(i))) by (nonlinear_arith)
            requires
                dec_value(s.take(i)) > 0,
        ;
        lemma_dec_value_grows(s, i + 1);
    }
}

/// Every character that `dec_digits` writes is a decimal digit.
pub proof fn lemma_dec_digits_are_digits(n: nat)
    ensures
        all_digits(dec_digits(n)),
    decreases n,
{
    if n < 10 {
        assert(is_digit_char(digit_char(n as int)));
    } else {
        lemma_dec_digits_are_digits(n / 10);
        assert(is_digit_char(digit_char((n % 10) as int)));
        assert forall|i: int|
            0 <= i < dec_digits(n).len() implies is_digit_char(#[trigger] dec_digits(n)[i]) by {
            if i < dec_digits(n / 10).len() {
                assert(dec_digits(n)[i] == dec_digits(n / 10)[i]);
            }
        }
    }
}

/// Reading the digits of `n` back yields `n`.
pub proof fn lemma_dec_value_of_digits(n: nat)
    ensures
        dec_value(dec_digits(n)) == n,
    decreases n,
{
    if n < 10 {
        assert(dec_digits(n) == seq![digit_char(n as int)]);
        assert(dec_digits(n).drop_last() =~= Seq::<char>::empty());
        assert(dec_digits(n).last() == digit_char(n as int));
        assert(dec_value(dec_digits(n)) == dec_value(dec_digits(n).drop_last()) * 10 + digit_val(
            dec_digits(n).last(),
        ));
        assert(dec_value(Seq::<char>::empty()) == 0);
        assert(digit_val(digit_char(n as int)) == n);
    } else {
        lemma_dec_value_of_digits(n / 10);
        assert(dec_digits(n).drop_last() =~= dec_digits(n / 10));
        assert(dec_digits(n).last() == digit_char((n % 10) as int));
        assert(dec_value(dec_digits(n)) == dec_value(dec_digits(n).drop_last()) * 10 + digit_val(
            dec_digits(n).last(),
        ));
        assert(digit_val(digit_char((n % 10) as int)) == n % 10);
        assert((n as int / 10) * 10 + n as int % 10 == n as int) by (nonlinear_arith);
    }
}

proof fn lemma_dec_value_zeros(k: nat)
    ensures
        dec_value(Seq::new(k, |i: int| '0')) == 0,
    decreases k,
{
    if k > 0 {
        let z = Seq::new(k, |i: int| '0');
        assert(z.drop_last() =~= Seq::new((k - 1) as nat, |i: int| '0'));
        assert(z.last() == '0');
        lemma_dec_value_zeros((k - 1) as nat);
        assert(digit_val('0') == 0);
    }
}

proof fn lemma_dec_value_zero_prefix(k: nat, s: Seq<char>)
    ensures
        dec_value(Seq::new(k, |i: int| '0') + s) == dec_value(s),
    decreases s.len(),
{
    let z = Seq::new(k, |i: int| '0');
    if s.len() == 0 {
        lemma_dec_value_zeros(k);
        assert(z + s =~= z);
    } else {
        assert((z + s).drop_last() =~= z + s.drop_last());
        assert((z + s).last() == s.last());
        lemma_dec_value_zero_prefix(k, s.drop_last());
    }
}

/// A zero-padded number is all digits and reads back as itself.
pub proof fn lemma_padded_dec_props(n: nat, width: nat)
    ensures
        all_digits(padded_dec(n, width)),
        dec_value(padded_dec(n, width)) == n,
        padded_dec(n, width).len() == if dec_digits(n).len() >= width {
            dec_digits(n).len() as int
        } else {
            width as int
        },
{
    lemma_dec_digits_are_digits(n);
    lemma_dec_value_of_digits(n);
    if dec_digits(n).len() < width {
        let k = (width - dec_digits(n).len()) as nat;
        let z = Seq::new(k, |i: int| '0');
        lemma_dec_value_zero_prefix(k, dec_digits(n));
        assert(is_digit_char('0'));
        assert forall|i: int|
            0 <= i < padded_dec(n, width).len() implies is_digit_char(
            #[trigger] padded_dec(n, width)[i],
        ) by {
            if i >= k {
                assert(padded_dec(n, width)[i] == dec_digits(n)[i - k]);
            } else {
                assert(padded_dec(n, width)[i] == '0');
            }
        }
    }
}

/// How many digits small numbers print in.
pub proof fn lemma_dec_digits_len(n: nat)
    ensures
        n < 10 ==> dec_digits(n).len() == 1,
        10 <= n < 100 ==> dec_digits(n).len() == 2,
        100 <= n < 1000 ==> dec_digits(n).len() == 3,
        1000 <= n < 10000 ==> dec_digits(n).len() == 4,
    decreases n,
{
    if n >= 10 {
        lemma_dec_digits_len(n / 10);
    }
}

} // verus!
