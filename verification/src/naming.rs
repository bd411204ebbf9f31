//! Names of the particles of a simulation: `particle0`, `particle1`, ...
use vstd::prelude::*;

verus! {

/// The decimal digit character for `d < 10`.
pub open spec fn digit_char(d: nat) -> char {
    (d + 48) as char
}

/// The decimal representation of `n`, most significant digit first, without leading
/// zeros (`0` is the single digit `'0'`).
pub open spec fn decimal_digits(n: nat) -> Seq<char>
    decreases n,
{
    if n < 10 {
        seq![digit_char(n)]
    } else {
        decimal_digits(n / 10).push(digit_char(n % 10))
    }
}

/// The name of the particle with the given index: `particle` followed by the index in
/// decimal.
pub open spec fn particle_name_of(index: nat) -> Seq<char> {
    "particle"@ + decimal_digits(index)
}

/// Calls `ToString::to_string` on a `usize`. Its `Display` implementation, as the
/// standard library documents it, writes the number in decimal without sign, padding or
/// leading zeros; the contract says that in terms of `decimal_digits`.
#[verifier::external_body]
fn decimal_string(n: usize) -> (s: String)
    ensures
        s@ == decimal_digits(n as nat),
{
    n.to_string()
}

/// The name of the particle with index `index`, such as `particle42`.
pub fn particle_name(index: usize) -> (name: String)
    ensures
        name@ == particle_name_of(index as nat),
        name@ == seq!['p', 'a', 'r', 't', 'i', 'c', 'l', 'e'] + decimal_digits(index as nat),
{
    proof {
        lemma_particle_name_spelling(index as nat);
    }
    let mut name = String::from_str("particle");
    let digits = decimal_string(index);
    name.append(digits.as_str());
    name
}

proof fn lemma_digit_char_injective(a: nat, b: nat)
    requires
        a < 10,
        b < 10,
        digit_char(a) == digit_char(b),
    ensures
        a == b,
{
}

proof fn lemma_decimal_digits_len(n: nat)
    ensures
        decimal_digits(n).len() >= 1,
        n >= 10 ==> decimal_digits(n).len() >= 2,
    decreases n,
{
    if n >= 10 {
        lemma_decimal_digits_len(n / 10);
    }
}

/// Different numbers have different decimal representations.
pub proof fn lemma_decimal_digits_injective(a: nat, b: nat)
    requires
        decimal_digits(a) == decimal_digits(b),
    ensures
        a == b,
    decreases a + b,
{
    lemma_decimal_digits_len(a);
    lemma_decimal_digits_len(b);
    if a < 10 && b < 10 {
        assert(decimal_digits(a)[0] == digit_char(a));
        assert(decimal_digits(b)[0] == digit_char(b));
        lemma_digit_char_injective(a, b);
    } else if a >= 10 && b >= 10 {
        let da = decimal_digits(a);
        let db = decimal_digits(b);
        assert(da.last() == db.last());
        lemma_digit_char_injective(a % 10, b % 10);
        assert(da.drop_last() =~= decimal_digits(a / 10));
        assert(db.drop_last() =~= decimal_digits(b / 10));
        lemma_decimal_digits_injective(a / 10, b / 10);
        assert(a == 10 * (a / 10) + a % 10);
        assert(b == 10 * (b / 10) + b % 10);
    } else {
        assert(decimal_digits(a).len() != decimal_digits(b).len());
    }
}

/// Particles with different indices get different names, so comparing names tells a
/// particle from every other particle of the list.
pub proof fn lemma_particle_names_distinct(a: nat, b: nat)
    requires
        a != b,
    ensures
        particle_name_of(a) != particle_name_of(b),
{
    let prefix = "particle"@;
    if particle_name_of(a) == particle_name_of(b) {
        assert(particle_name_of(a).subrange(prefix.len() as int, particle_name_of(a).len() as int)
            =~= decimal_digits(a));
        assert(particle_name_of(b).subrange(prefix.len() as int, particle_name_of(b).len() as int)
            =~= decimal_digits(b));
        lemma_decimal_digits_injective(a, b);
    }
}

/// The number that a string of decimal digits denotes, most significant digit first.
pub open spec fn digits_value(s: Seq<char>) -> int
    decreases s.len(),
{
    if s.len() == 0 {
        0
    } else {
        digits_value(s.drop_last()) * 10 + (s.last() as int - '0' as int)
    }
}

/// `decimal_digits(n)` is the decimal representation of `n`: a non-empty string of the
/// characters `'0'` to `'9'` that denotes `n`, with no leading zero (only `0` itself
/// starts with `'0'`).
pub proof fn lemma_decimal_digits_denote(n: nat)
    ensures
        decimal_digits(n).len() >= 1,
        forall|k: int|
            0 <= k < decimal_digits(n).len() ==> '0' <= #[trigger] decimal_digits(n)[k] <= '9',
        digits_value(decimal_digits(n)) == n,
        n > 0 ==> decimal_digits(n)[0] != '0',
    decreases n,
{
    let d = decimal_digits(n);
    if n < 10 {
        assert(d.drop_last() =~= Seq::<char>::empty());
        assert(digits_value(d.drop_last()) == 0);
        assert(d.last() as int == n + 48);
    } else {
        lemma_decimal_digits_denote(n / 10);
        let q = decimal_digits(n / 10);
        assert(d.drop_last() =~= q);
        assert forall|k: int| 0 <= k < d.len() implies '0' <= #[trigger] d[k] <= '9' by {
            if k < q.len() {
                assert(d[k] == q[k]);
            }
        }
        assert(d[0] == q[0]);
        assert(d.last() as int == n % 10 + 48);
        assert(digits_value(d) == digits_value(q) * 10 + (n % 10));
        assert(n == (n / 10) * 10 + n % 10);
    }
}

/// The name of particle `index` is spelled `p a r t i c l e` followed by the decimal
/// digits of `index`.
pub proof fn lemma_particle_name_spelling(index: nat)
    ensures
        particle_name_of(index) == seq!['p', 'a', 'r', 't', 'i', 'c', 'l', 'e'] + decimal_digits(
            index,
        ),
        particle_name_of(index).len() == 8 + decimal_digits(index).len(),
{
    reveal_strlit("particle");
    assert("particle"@ =~= seq!['p', 'a', 'r', 't', 'i', 'c', 'l', 'e']);
}

} // verus!
