//! Version strings of the form `"v"` followed by a decimal number, and the
//! rule that advances them: a missing version becomes `"v1"`, a version
//! `"vN"` becomes `"v(N+1)"`, and anything else is malformed.

use vstd::prelude::*;
use crate::errors::PublishError;

verus! {

/// `String::push` appends one character at the end; the standard library
/// documents exactly that.
pub assume_specification[ String::push ](s: &mut String, c: char)
    ensures
        final(s)@ == old(s)@.push(c),
;

/// A decimal digit.
pub open spec fn is_dec_digit(c: char) -> bool {
    '0' <= c && c <= '9'
}

/// The numeric value of one decimal digit character.
pub open spec fn digit_val(c: char) -> nat {
    (c as int - '0' as int) as nat
}

/// Every character of `s` is a decimal digit.
pub open spec fn all_dec_digits(s: Seq<char>) -> bool {
    forall|i: int| 0 <= i < s.len() ==> is_dec_digit(#[trigger] s[i])
}

/// The number written by the digit string `s`, most significant digit first.
pub open spec fn dec_val(s: Seq<char>) -> nat
    decreases s.len(),
{
    if s.len() == 0 {
        0
    } else {
        dec_val(s.drop_last()) * 10 + digit_val(s.last())
    }
}

/// The digit character for a value below ten.
pub open spec fn digit_char(d: nat) -> char {
    if d == 0 {
        '0'
    } else if d == 1 {
        '1'
    } else if d == 2 {
        '2'
    } else if d == 3 {
        '3'
    } else if d == 4 {
        '4'
    } else if d == 5 {
        '5'
    } else if d == 6 {
        '6'
    } else if d == 7 {
        '7'
    } else if d == 8 {
        '8'
    } else {
        '9'
    }
}

/// The canonical decimal rendering of `n`: no leading zeroes, and `"0"` for
/// zero itself.
pub open spec fn dec_rep(n: nat) -> Seq<char>
    decreases n,
{
    if n < 10 {
        seq![digit_char(n)]
    } else {
        dec_rep(n / 10).push(digit_char(n % 10))
    }
}

/// A well-formed version string: the character `v`, then at least one decimal
/// digit, writing a number whose successor still fits the machine word that
/// carries it.
pub open spec fn is_valid_version(s: Seq<char>) -> bool {
    &&& s.len() >= 2
    &&& s[0] == 'v'
    &&& all_dec_digits(s.subrange(1, s.len() as int))
    &&& dec_val(s.subrange(1, s.len() as int)) < u64::MAX
}

/// The number a well-formed version string carries.
pub open spec fn version_value(s: Seq<char>) -> nat {
    dec_val(s.subrange(1, s.len() as int))
}

/// The version the produced event carries, given the snapshot's version.
pub open spec fn next_version(v: Option<Seq<char>>) -> Seq<char> {
    match v {
        None => seq!['v', '1'],
        Some(s) => seq!['v'] + dec_rep(version_value(s) + 1),
    }
}

/// The digit character for `d`, below ten.
fn digit_char_of(d: u64) -> (c: char)
    requires
        d < 10,
    ensures
        c == digit_char(d as nat),
{
    if d == 0 {
        '0'
    } else if d == 1 {
        '1'
    } else if d == 2 {
        '2'
    } else if d == 3 {
        '3'
    } else if d == 4 {
        '4'
    } else if d == 5 {
        '5'
    } else if d == 6 {
        '6'
    } else if d == 7 {
        '7'
    } else if d == 8 {
        '8'
    } else {
        '9'
    }
}

/// Renders `n` in decimal.
fn dec_string(n: u64) -> (r: String)
    ensures
        r@ == dec_rep(n as nat),
{
    let mut digits: Vec<char> = Vec::new();
    let mut m: u64 = n;
    while m >= 10
        invariant
            dec_rep(n as nat) == dec_rep(m as nat) + digits@.reverse(),
        decreases m,
    {
        let d: u64 = m % 10;
        digits.push(digit_char_of(d));
        m = m / 10;
        proof {
            assert(digits@.reverse() =~= seq![digit_char(d as nat)] + digits@.drop_last().reverse());
        }
    }
    digits.push(digit_char_of(m));
    proof {
        assert(digits@.reverse() =~= seq![digit_char(m as nat)] + digits@.drop_last().reverse());
        assert(dec_rep(m as nat) == seq![digit_char(m as nat)]);
        assert(dec_rep(n as nat) =~= digits@.reverse());
    }
    let ghost all = digits@;
    let mut out = String::new();
    let mut j: usize = digits.len();
    while j > 0
        invariant
            j <= all.len(),
            digits@ == all,
            out@ =~= all.reverse().take(all.len() - j),
        decreases j,
    {
        j = j - 1;
        out.push(digits[j]);
        proof {
            assert(all.reverse()[all.len() - 1 - j] == all[j as int]);
            assert(out@ =~= all.reverse().take(all.len() - j));
        }
    }
    proof {
        assert(out@ =~= all.reverse());
    }
    out
}

/// Every character of a decimal rendering is a digit.
pub proof fn lemma_dec_rep_digits(n: nat)
    ensures
        all_dec_digits(dec_rep(n)),
    decreases n,
{
    if n < 10 {
        assert(is_dec_digit(digit_char(n)));
    } else {
        lemma_dec_rep_digits(n / 10);
        let s = dec_rep(n / 10);
        let c = digit_char(n % 10);
        assert(is_dec_digit(c));
        assert forall|i: int| 0 <= i < s.push(c).len() implies is_dec_digit(#[trigger] s.push(c)[i]) by {
            if i < s.len() {
                assert(s.push(c)[i] == s[i]);
            } else {
                assert(s.push(c)[i] == c);
            }
        }
    }
}

/// Parsing a decimal rendering gives the number back.
pub proof fn lemma_dec_rep_val(n: nat)
    ensures
        dec_val(dec_rep(n)) == n,
    decreases n,
{
    if n < 10 {
        let s = seq![digit_char(n)];
        assert(dec_rep(n) == s);
        assert(s.drop_last() =~= Seq::<char>::empty());
        assert(dec_val(Seq::<char>::empty()) == 0);
        assert(dec_val(s) == dec_val(s.drop_last()) * 10 + digit_val(s.last()));
        assert(digit_val(digit_char(n)) == n);
    } else {
        lemma_dec_rep_val(n / 10);
        let s = dec_rep(n / 10).push(digit_char(n % 10));
        assert(dec_rep(n) == s);
        assert(s.drop_last() =~= dec_rep(n / 10));
        assert(s.last() == digit_char(n % 10));
        assert(dec_val(s) == dec_val(s.drop_last()) * 10 + digit_val(s.last()));
        assert(digit_val(digit_char(n % 10)) == n % 10);
        assert((n / 10) * 10 + n % 10 == n);
    }
}

/// The number a digit string writes never shrinks when more digits follow:
/// a prefix of `s` is worth at most `dec_val(s)`.
proof fn lemma_dec_val_prefix(s: Seq<char>, k: int)
    requires
        0 <= k <= s.len(),
    ensures
        dec_val(s) >= dec_val(s.take(k)),
    decreases s.len() - k,
{
    if k < s.len() {
        assert(s.take(k + 1).drop_last() =~= s.take(k));
        assert(s.take(k + 1).last() == s[k]);
        lemma_dec_val_prefix(s, k + 1);
    } else {
        assert(s.take(k) =~= s);
    }
}

/// Advances a version string: a missing version yields `"v1"`; a version of
/// the form `"v"` plus digits yields the version with the next number; any
/// other shape is reported as malformed rather than guessed at.
#[verifier::loop_isolation(false)]
pub fn increment_version(version: Option<String>) -> (r: Result<String, PublishError>)
    ensures
        version is None ==> r is Ok && r->Ok_0@ == next_version(None),
        version is Some ==> (r is Ok <==> is_valid_version(version->0@)),
        version is Some && r is Ok ==> r->Ok_0@ == next_version(Some(version->0@)),
        r is Err ==> r->Err_0 == PublishError::MalformedVersion,
{
    if version.is_none() {
        let one = String::from_str("v1");
        proof {
            reveal_strlit("v1");
            assert(one@ =~= seq!['v', '1']);
        }
        return Ok(one);
    }
    let v = version.unwrap();
    let s: &str = v.as_str();
    let n: usize = s.unicode_len();
    if n < 2 {
        return Err(PublishError::MalformedVersion);
    }
    if s.get_char(0) != 'v' {
        return Err(PublishError::MalformedVersion);
    }
    let ghost suffix = s@.subrange(1, s@.len() as int);
    let mut acc: u64 = 0;
    let mut i: usize = 1;
    while i < n
        invariant
            1 <= i <= n,
            n == s@.len(),
            2 <= n,
            s@[0] == 'v',
            suffix == s@.subrange(1, s@.len() as int),
            all_dec_digits(s@.subrange(1, i as int)),
            acc == dec_val(s@.subrange(1, i as int)),
            acc < u64::MAX,
        decreases n - i,
    {
        let c = s.get_char(i);
        if !(c >= '0' && c <= '9') {
            proof {
                assert(suffix[i - 1] == c);
                assert(!is_dec_digit(suffix[i - 1]));
            }
            return Err(PublishError::MalformedVersion);
        }
        let d: u64 = (c as u32 - '0' as u32) as u64;
        proof {
            assert(d == digit_val(c));
        }
        if acc > (u64::MAX - 1 - d) / 10 {
            proof {
                let part = s@.subrange(1, i + 1 as int);
                assert(part.drop_last() =~= s@.subrange(1, i as int));
                assert(part.last() == c);
                assert(dec_val(part) == acc * 10 + d);
                assert(acc * 10 + d > u64::MAX - 1) by (nonlinear_arith)
                    requires
                        acc > (u64::MAX - 1 - d) / 10,
                        d < 10,
                ;
                lemma_dec_val_prefix(suffix, i as int);
                assert(suffix.take(i as int) =~= part);
                assert(dec_val(suffix) >= u64::MAX);
            }
            return Err(PublishError::MalformedVersion);
        }
        proof {
            assert(acc * 10 + d <= u64::MAX - 1) by (nonlinear_arith)
                requires
                    acc <= (u64::MAX - 1 - d) / 10,
                    d < 10,
            ;
            let part = s@.subrange(1, i + 1 as int);
            assert(part.drop_last() =~= s@.subrange(1, i as int));
            assert(part.last() == c);
        }
        acc = acc * 10 + d;
        i = i + 1;
    }
    proof {
        assert(s@.subrange(1, i as int) =~= suffix);
        assert(is_valid_version(s@));
    }
    let num = dec_string(acc + 1);
    let mut out = String::from_str("v");
    proof {
        reveal_strlit("v");
        assert(out@ =~= seq!['v']);
    }
    out.append(num.as_str());
    Ok(out)
}

} // verus!
