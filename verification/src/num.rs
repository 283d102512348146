//! Decimal rendering of entry counts, for the summaries that the restore
//! operations hand back.

use vstd::prelude::*;

verus! {

/// The decimal digit character for one digit value.
pub open spec fn spec_digit(d: nat) -> char {
    if d == 0 {
        '0'
    } else if d == 1 {
        '1'
    } else if d == 2 {
        '2'
    } else if d == 3 {
        '3'
    } else if d == 4 {
        '4'
    } else if d == 5 {
        '5'
    } else if d == 6 {
        '6'
    } else if d == 7 {
        '7'
    } else if d == 8 {
        '8'
    } else {
        '9'
    }
}

/// The decimal text of a number: its digits, most significant first, with no
/// leading zero except for zero itself.
pub open spec fn dec_str(n: nat) -> Seq<char>
    decreases n,
{
    if n < 10 {
        seq![spec_digit(n)]
    } else {
        dec_str(n / 10) + seq![spec_digit(n % 10)]
    }
}

/// A character sequence read back to front.
pub open spec fn rev_chars(s: Seq<char>) -> Seq<char>
    decreases s.len(),
{
    if s.len() == 0 {
        s
    } else {
        seq![s.last()] + rev_chars(s.drop_last())
    }
}

/// Reading back to front mirrors every position.
pub proof fn lemma_rev_chars(s: Seq<char>)
    ensures
        rev_chars(s).len() == s.len(),
        forall|i: int| 0 <= i < s.len() ==> rev_chars(s)[i] == s[s.len() - 1 - i],
    decreases s.len(),
{
    if s.len() > 0 {
        lemma_rev_chars(s.drop_last());
    }
}

/// The digit character of one digit value.
fn digit_char(d: u64) -> (r: char)
    requires
        d < 10,
    ensures
        r == spec_digit(d as nat),
{
    if d == 0 {
        '0'
    } else if d == 1 {
        '1'
    } else if d == 2 {
        '2'
    } else if d == 3 {
        '3'
    } else if d == 4 {
        '4'
    } else if d == 5 {
        '5'
    } else if d == 6 {
        '6'
    } else if d == 7 {
        '7'
    } else if d == 8 {
        '8'
    } else {
        '9'
    }
}

/// Relies on `String::push`: appends one character.
#[verifier::external_body]
fn push_char(s: &mut String, c: char)
    ensures
        final(s)@ == old(s)@.push(c),
{
    s.push(c);
}

/// The decimal text of `n`.
pub fn u64_to_string(n: u64) -> (r: String)
    ensures
        r@ == dec_str(n as nat),
{
    let mut digits: Vec<char> = Vec::new();
    let mut x = n;
    proof {
        assert(rev_chars(digits@) =~= Seq::<char>::empty());
    }
    while x >= 10
        invariant
            dec_str(n as nat) == dec_str(x as nat) + rev_chars(digits@),
        decreases x,
    {
        let ghost d0 = digits@;
        let d = digit_char(x % 10);
        digits.push(d);
        proof {
            assert(digits@.drop_last() =~= d0);
            assert(rev_chars(digits@) =~= seq![spec_digit((x % 10) as nat)] + rev_chars(d0));
            assert(dec_str(x as nat) + rev_chars(d0) =~= dec_str((x / 10) as nat) + rev_chars(
                digits@,
            ));
        }
        x = x / 10;
    }
    let ghost d1 = digits@;
    let d = digit_char(x);
    digits.push(d);
    proof {
        assert(digits@.drop_last() =~= d1);
        assert(rev_chars(digits@) =~= seq![spec_digit(x as nat)] + rev_chars(d1));
        assert(dec_str(n as nat) =~= rev_chars(digits@));
        lemma_rev_chars(digits@);
    }

    let mut s = String::new();
    let mut i = digits.len();
    while i > 0
        invariant
            0 <= i <= digits@.len(),
            rev_chars(digits@).len() == digits@.len(),
            forall|k: int| 0 <= k < digits@.len() ==> rev_chars(digits@)[k] == digits@[digits@.len()
                - 1 - k],
            s@.len() == digits@.len() - i,
            forall|k: int| 0 <= k < s@.len() ==> s@[k] == rev_chars(digits@)[k],
        decreases i,
    {
        i -= 1;
        push_char(&mut s, digits[i]);
    }
    proof {
        assert(s@ =~= rev_chars(digits@));
    }
    s
}

} // verus!
