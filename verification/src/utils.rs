use vstd::prelude::*;
use crate::bindings::random_in_range;

verus! {

/// The character of the decimal digit `d`.
pub open spec fn digit_char(d: nat) -> char {
    (48 + d) as char
}

/// The decimal digits of `n`, most significant first, without leading zeros.
pub open spec fn decimal_digits(n: nat) -> Seq<char>
    decreases n,
{
    if n < 10 {
        seq![digit_char(n)]
    } else {
        decimal_digits(n / 10).push(digit_char(n % 10))
    }
}

/// A pair code: the decimal form of a number from 100000 to 999999.
pub open spec fn is_pair_code(s: Seq<char>) -> bool {
    exists|n: nat| 100000 <= n < 1000000 && s == decimal_digits(n)
}

/// The characters that identifiers are drawn from.
pub open spec fn id_charset() -> Seq<char> {
    "ABCDEFGHIJKLMNOPQRSTUVWXYZabcdefghijklmnopqrstuvwxyz0123456789"@
}

/// A six-digit number has six decimal digits.
pub proof fn lemma_six_digits(n: nat)
    requires
        100000 <= n < 1000000,
    ensures
        decimal_digits(n).len() == 6,
{
    reveal_with_fuel(decimal_digits, 7);
    assert(decimal_digits(n / 100000).len() == 1);
}

/// The decimal form of `n`.
pub fn decimal_string(n: u64) -> (r: String)
    ensures
        r@ == decimal_digits(n as nat),
    decreases n,
{
    let digits = "0123456789";
    proof {
        reveal_strlit("0123456789");
    }
    let d = (n % 10) as usize;
    let last = digits.substring_ascii(d, d + 1);
    assert(last@ =~= seq![digit_char(d as nat)]);
    if n < 10 {
        last.to_owned()
    } else {
        let mut s = decimal_string(n / 10);
        s.append(last);
        s
    }
}

/// A random pair code: the decimal form of a number from 100000 to 999999.
pub fn generate_pair_code() -> (r: String)
    ensures
        is_pair_code(r@),
        r@.len() == 6,
{
    let number = random_in_range(100000, 1000000);
    let code = decimal_string(number);
    proof {
        lemma_six_digits(number as nat);
    }
    code
}

/// A random identifier of nine characters drawn from letters and digits.
pub fn generate_id() -> (r: String)
    ensures
        r@.len() == 9,
        forall|i: int| 0 <= i < 9 ==> id_charset().contains(#[trigger] r@[i]),
{
    let charset = "ABCDEFGHIJKLMNOPQRSTUVWXYZabcdefghijklmnopqrstuvwxyz0123456789";
    proof {
        reveal_strlit("ABCDEFGHIJKLMNOPQRSTUVWXYZabcdefghijklmnopqrstuvwxyz0123456789");
    }
    let mut random_string = String::new();
    let mut k: usize = 0;
    while k < 9
        invariant
            charset@ == id_charset(),
            charset.is_ascii(),
            charset@.len() == 62,
            k <= 9,
            random_string@.len() == k,
            forall|i: int| 0 <= i < k ==> id_charset().contains(#[trigger] random_string@[i]),
        decreases 9 - k,
    {
        let idx = random_in_range(0, 62) as usize;
        let piece = charset.substring_ascii(idx, idx + 1);
        assert(piece@[0] == id_charset()[idx as int]);
        let ghost before = random_string@;
        random_string.append(piece);
        assert forall|i: int| 0 <= i < k + 1 implies id_charset().contains(#[trigger] random_string@[i]) by {
            if i < k {
                assert(random_string@[i] == before[i]);
            } else {
                assert(random_string@[i] == piece@[0]);
            }
        }
        k = k + 1;
    }
    random_string
}

} // verus!

verus! {

proof fn lemma_decimal_len(n: nat)
    ensures
        decimal_digits(n).len() >= 1,
        n >= 10 ==> decimal_digits(n).len() >= 2,
    decreases n,
{
    if n >= 10 {
        lemma_decimal_len(n / 10);
    }
}

/// Different numbers have different decimal forms.
pub proof fn lemma_decimal_injective(a: nat, b: nat)
    requires
        decimal_digits(a) == decimal_digits(b),
    ensures
        a == b,
    decreases a,
{
    lemma_decimal_len(a);
    lemma_decimal_len(b);
    if a < 10 && b < 10 {
        assert(decimal_digits(a)[0] == digit_char(a));
        assert(decimal_digits(b)[0] == digit_char(b));
        assert((digit_char(a) as int) == 48 + a);
        assert((digit_char(b) as int) == 48 + b);
    } else if a >= 10 && b >= 10 {
        let da = decimal_digits(a);
        let db = decimal_digits(b);
        assert(da.last() == digit_char(a % 10));
        assert(db.last() == digit_char(b % 10));
        assert((digit_char(a % 10) as int) == 48 + a % 10);
        assert((digit_char(b % 10) as int) == 48 + b % 10);
        assert(da.drop_last() =~= decimal_digits(a / 10));
        assert(db.drop_last() =~= decimal_digits(b / 10));
        lemma_decimal_injective(a / 10, b / 10);
    } else {
        assert(decimal_digits(a).len() != decimal_digits(b).len());
    }
}

/// Where fewer than 900000 codes are taken, some pair code is free.
pub proof fn lemma_some_code_free(taken: Set<Seq<char>>)
    requires
        taken.finite(),
        taken.len() < 900000,
    ensures
        exists|n: nat| 100000 <= n < 1000000 && !taken.contains(decimal_digits(n)),
{
    if forall|n: nat| 100000 <= n < 1000000 ==> taken.contains(#[trigger] decimal_digits(n)) {
        let x = vstd::set_lib::set_int_range(100000, 1000000);
        let f = |i: int| decimal_digits(i as nat);
        vstd::set_lib::lemma_int_range(100000, 1000000);
        assert(vstd::relations::injective_on(f, x)) by {
            assert forall|i: int, j: int| x.contains(i) && x.contains(j) && #[trigger] f(i) == #[trigger] f(j) implies i == j by {
                lemma_decimal_injective(i as nat, j as nat);
            }
        }
        let y = x.map(f);
        vstd::set_lib::lemma_map_size(x, y, f);
        assert(y.subset_of(taken)) by {
            assert forall|s: Seq<char>| y.contains(s) implies taken.contains(s) by {
                let i = choose|i: int| x.contains(i) && f(i) == s;
                assert(taken.contains(decimal_digits(i as nat)));
            }
        }
        vstd::set_lib::lemma_len_subset(y, taken);
    }
}

} // verus!
