//! Archive entry names.
//!
//! Each encoded buffer is stored in the archive under the name
//! `image_<index>.png`, where `<index>` is the zero-based position the
//! buffer had in decode order. Distinct indices give distinct names, which
//! is what lets the archive builder rely on entry-name uniqueness.

use vstd::prelude::*;

verus! {

/// The decimal digit character for `d`, for `d < 10`.
pub open spec fn digit_char(d: nat) -> char
    recommends
        d < 10,
{
    if d == 0 {
        '0'
    } else if d == 1 {
        '1'
    } else if d == 2 {
        '2'
    } else if d == 3 {
        '3'
    } else if d == 4 {
        '4'
    } else if d == 5 {
        '5'
    } else if d == 6 {
        '6'
    } else if d == 7 {
        '7'
    } else if d == 8 {
        '8'
    } else {
        '9'
    }
}

/// The usual decimal rendering of `n`, most significant digit first,
/// without leading zeros (except for `n == 0` itself).
pub open spec fn decimal_of(n: nat) -> Seq<char>
    decreases n,
{
    if n < 10 {
        seq![digit_char(n)]
    } else {
        decimal_of(n / 10).push(digit_char(n % 10))
    }
}

/// The archive-relative name of the buffer at position `i` in decode order.
pub open spec fn entry_name_seq(i: nat) -> Seq<char> {
    "image_"@ + decimal_of(i) + ".png"@
}

proof fn lemma_decimal_len(n: nat)
    ensures
        decimal_of(n).len() >= 1,
        n >= 10 ==> decimal_of(n).len() >= 2,
    decreases n,
{
    if n >= 10 {
        lemma_decimal_len(n / 10);
    }
}

/// Distinct numbers have distinct decimal renderings.
proof fn lemma_decimal_injective(a: nat, b: nat)
    requires
        decimal_of(a) == decimal_of(b),
    ensures
        a == b,
    decreases a + b,
{
    if a < 10 && b < 10 {
        assert(decimal_of(a)[0] == digit_char(a));
        assert(decimal_of(b)[0] == digit_char(b));
    } else if a < 10 {
        lemma_decimal_len(b);
        assert(decimal_of(a).len() == 1);
    } else if b < 10 {
        lemma_decimal_len(a);
        assert(decimal_of(b).len() == 1);
    } else {
        let la = decimal_of(a).len();
        assert(decimal_of(a).last() == digit_char(a % 10));
        assert(decimal_of(b).last() == digit_char(b % 10));
        assert(a % 10 == b % 10);
        assert(decimal_of(a).drop_last() =~= decimal_of(a / 10));
        assert(decimal_of(b).drop_last() =~= decimal_of(b / 10));
        lemma_decimal_injective(a / 10, b / 10);
        assert(a == 10 * (a / 10) + a % 10) by (nonlinear_arith);
        assert(b == 10 * (b / 10) + b % 10) by (nonlinear_arith);
    }
}

/// Ten to the power `k`.
pub open spec fn pow10(k: nat) -> nat
    decreases k,
{
    if k == 0 {
        1
    } else {
        10 * pow10((k - 1) as nat)
    }
}

proof fn lemma_decimal_len_at_most(n: nat, k: nat)
    requires
        1 <= k,
        n < pow10(k),
    ensures
        decimal_of(n).len() <= k,
    decreases n,
{
    if n >= 10 {
        assert(pow10(k) == 10 * pow10((k - 1) as nat));
        assert(k >= 2) by {
            if k == 1 {
                assert(pow10(1nat) == 10);
            }
        }
        assert(n / 10 < pow10((k - 1) as nat)) by (nonlinear_arith)
            requires
                n < 10 * pow10((k - 1) as nat),
        ;
        lemma_decimal_len_at_most(n / 10, (k - 1) as nat);
    }
}

/// Entry names are short: any decode position a machine can index gives a
/// name of at most 30 characters.
pub proof fn lemma_entry_name_len(i: nat)
    requires
        i < 0x1_0000_0000_0000_0000,
    ensures
        entry_name_seq(i).len() <= 30,
{
    assert(pow10(0nat) == 1nat);
    assert(pow10(1nat) == 10nat);
    assert(pow10(2nat) == 100nat);
    assert(pow10(3nat) == 1000nat);
    assert(pow10(4nat) == 10000nat);
    assert(pow10(5nat) == 100000nat);
    assert(pow10(6nat) == 1000000nat);
    assert(pow10(7nat) == 10000000nat);
    assert(pow10(8nat) == 100000000nat);
    assert(pow10(9nat) == 1000000000nat);
    assert(pow10(10nat) == 10000000000nat);
    assert(pow10(11nat) == 100000000000nat);
    assert(pow10(12nat) == 1000000000000nat);
    assert(pow10(13nat) == 10000000000000nat);
    assert(pow10(14nat) == 100000000000000nat);
    assert(pow10(15nat) == 1000000000000000nat);
    assert(pow10(16nat) == 10000000000000000nat);
    assert(pow10(17nat) == 100000000000000000nat);
    assert(pow10(18nat) == 1000000000000000000nat);
    assert(pow10(19nat) == 10000000000000000000nat);
    assert(pow10(20nat) == 100000000000000000000nat);
    lemma_decimal_len_at_most(i, 20);
    reveal_strlit("image_");
    reveal_strlit(".png");
}

/// Distinct decode positions give distinct archive entry names.
pub proof fn lemma_entry_name_injective(i: nat, j: nat)
    requires
        i != j,
    ensures
        entry_name_seq(i) != entry_name_seq(j),
{
    if entry_name_seq(i) == entry_name_seq(j) {
        let p = "image_"@.len() as int;
        lemma_decimal_len(i);
        lemma_decimal_len(j);
        let ni = entry_name_seq(i);
        let nj = entry_name_seq(j);
        assert(ni.len() == p + decimal_of(i).len() + ".png"@.len());
        assert(nj.len() == p + decimal_of(j).len() + ".png"@.len());
        let li = decimal_of(i).len() as int;
        assert(decimal_of(i) =~= ni.subrange(p, p + li));
        assert(decimal_of(j) =~= nj.subrange(p, p + li));
        lemma_decimal_injective(i, j);
    }
}

/// The decimal digit of `d` as a one-character string slice, for `d < 10`.
fn digit_str(d: usize) -> (r: &'static str)
    requires
        d < 10,
    ensures
        r@ =~= seq![digit_char(d as nat)],
{
    proof {
        reveal_strlit("0");
        reveal_strlit("1");
        reveal_strlit("2");
        reveal_strlit("3");
        reveal_strlit("4");
        reveal_strlit("5");
        reveal_strlit("6");
        reveal_strlit("7");
        reveal_strlit("8");
        reveal_strlit("9");
    }
    if d == 0 {
        "0"
    } else if d == 1 {
        "1"
    } else if d == 2 {
        "2"
    } else if d == 3 {
        "3"
    } else if d == 4 {
        "4"
    } else if d == 5 {
        "5"
    } else if d == 6 {
        "6"
    } else if d == 7 {
        "7"
    } else if d == 8 {
        "8"
    } else {
        "9"
    }
}

/// Render `n` in decimal.
pub fn decimal_string(n: usize) -> (s: String)
    ensures
        s@ == decimal_of(n as nat),
    decreases n,
{
    if n < 10 {
        String::from_str(digit_str(n))
    } else {
        let mut s = decimal_string(n / 10);
        s.append(digit_str(n % 10));
        assert(s@ =~= decimal_of(n as nat));
        s
    }
}

/// The archive entry name for decode position `i`: `image_<i>.png`.
pub fn entry_name(i: usize) -> (s: String)
    ensures
        s@ == entry_name_seq(i as nat),
{
    let mut s = String::from_str("image_");
    let digits = decimal_string(i);
    s.append(digits.as_str());
    s.append(".png");
    assert(s@ =~= entry_name_seq(i as nat));
    s
}

} // verus!
