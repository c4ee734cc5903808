use vstd::prelude::*;
use vstd::arithmetic::div_mod::lemma_fundamental_div_mod;

verus! {

/// The character for one decimal digit.
pub open spec fn digit_char(d: int) -> char {
    if d == 0 {
        '0'
    } else if d == 1 {
        '1'
    } else if d == 2 {
        '2'
    } else if d == 3 {
        '3'
    } else if d == 4 {
        '4'
    } else if d == 5 {
        '5'
    } else if d == 6 {
        '6'
    } else if d == 7 {
        '7'
    } else if d == 8 {
        '8'
    } else {
        '9'
    }
}

/// The usual decimal rendering of `n`, most significant digit first, no
/// leading zeroes (a single zero for `n == 0`).
pub open spec fn dec_seq(n: nat) -> Seq<char>
    decreases n,
{
    if n < 10 {
        seq![digit_char(n as int)]
    } else {
        dec_seq(n / 10).push(digit_char((n % 10) as int))
    }
}

pub proof fn lemma_dec_seq_len(n: nat)
    ensures
        dec_seq(n).len() >= 1,
    decreases n,
{
    if n >= 10 {
        lemma_dec_seq_len(n / 10);
    }
}

/// Distinct numbers render to distinct decimal strings.
pub proof fn lemma_dec_seq_injective(a: nat, b: nat)
    ensures
        dec_seq(a) == dec_seq(b) ==> a == b,
    decreases a + b,
{
    if dec_seq(a) == dec_seq(b) {
        if a < 10 && b < 10 {
            assert(dec_seq(a)[0] == dec_seq(b)[0]);
        } else if a >= 10 && b >= 10 {
            assert(dec_seq(a).last() == dec_seq(b).last());
            assert(dec_seq(a).drop_last() =~= dec_seq(a / 10));
            assert(dec_seq(b).drop_last() =~= dec_seq(b / 10));
            lemma_dec_seq_injective(a / 10, b / 10);
            lemma_fundamental_div_mod(a as int, 10);
            lemma_fundamental_div_mod(b as int, 10);
        } else if a < 10 {
            lemma_dec_seq_len(b / 10);
            assert(dec_seq(b).len() >= 2);
        } else {
            lemma_dec_seq_len(a / 10);
            assert(dec_seq(a).len() >= 2);
        }
    }
}

/// The j-th key tried when a preferred registry name is taken: the name
/// itself first, then the name with `_0`, `_1`, ... appended.
pub open spec fn spec_candidate(name: Seq<char>, j: nat) -> Seq<char> {
    if j == 0 {
        name
    } else {
        name + "_"@ + dec_seq((j - 1) as nat)
    }
}

/// Distinct tries give distinct candidate keys.
pub proof fn lemma_candidate_injective(name: Seq<char>, j: nat, k: nat)
    ensures
        spec_candidate(name, j) == spec_candidate(name, k) ==> j == k,
{
    reveal_strlit("_");
    if spec_candidate(name, j) == spec_candidate(name, k) && j != k {
        if j == 0 {
            lemma_dec_seq_len((k - 1) as nat);
            assert(spec_candidate(name, k).len() > name.len());
        } else if k == 0 {
            lemma_dec_seq_len((j - 1) as nat);
            assert(spec_candidate(name, j).len() > name.len());
        } else {
            let a = dec_seq((j - 1) as nat);
            let b = dec_seq((k - 1) as nat);
            let whole = name + "_"@ + a;
            assert(a =~= whole.subrange(name.len() as int + 1, whole.len() as int));
            assert(b =~= whole.subrange(name.len() as int + 1, whole.len() as int));
            lemma_dec_seq_injective((j - 1) as nat, (k - 1) as nat);
        }
    }
}

/// The character of one decimal digit, as a one-character string slice.
fn digit_str(d: usize) -> (r: &'static str)
    requires
        d < 10,
    ensures
        r@ =~= seq![digit_char(d as int)],
{
    proof {
        reveal_strlit("0");
        reveal_strlit("1");
        reveal_strlit("2");
        reveal_strlit("3");
        reveal_strlit("4");
        reveal_strlit("5");
        reveal_strlit("6");
        reveal_strlit("7");
        reveal_strlit("8");
        reveal_strlit("9");
    }
    if d == 0 {
        "0"
    } else if d == 1 {
        "1"
    } else if d == 2 {
        "2"
    } else if d == 3 {
        "3"
    } else if d == 4 {
        "4"
    } else if d == 5 {
        "5"
    } else if d == 6 {
        "6"
    } else if d == 7 {
        "7"
    } else if d == 8 {
        "8"
    } else {
        "9"
    }
}

/// Append the decimal rendering of `n` to `s`.
fn push_decimal(s: &mut String, n: usize)
    ensures
        final(s)@ == old(s)@ + dec_seq(n as nat),
    decreases n,
{
    if n < 10 {
        s.append(digit_str(n));
    } else {
        push_decimal(s, n / 10);
        s.append(digit_str(n % 10));
        proof {
            assert(old(s)@ + dec_seq((n / 10) as nat) + dec_seq((n % 10) as nat).take(1) =~= old(
                s,
            )@ + dec_seq(n as nat));
        }
    }
}

/// Build the j-th candidate key for a preferred name.
pub fn candidate(name: &str, j: usize) -> (r: String)
    ensures
        r@ == spec_candidate(name@, j as nat),
{
    if j == 0 {
        name.to_owned()
    } else {
        let mut s = name.to_owned();
        s.append("_");
        push_decimal(&mut s, j - 1);
        s
    }
}

} // verus!
