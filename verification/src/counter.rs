//! An unbounded counter that is written out in decimal.

use vstd::prelude::*;
use vstd::string::*;

verus! {

/// The text of a decimal digit.
pub open spec fn digit_text(d: nat) -> Seq<char> {
    if d == 0 {
        "0"@
    } else if d == 1 {
        "1"@
    } else if d == 2 {
        "2"@
    } else if d == 3 {
        "3"@
    } else if d == 4 {
        "4"@
    } else if d == 5 {
        "5"@
    } else if d == 6 {
        "6"@
    } else if d == 7 {
        "7"@
    } else if d == 8 {
        "8"@
    } else {
        "9"@
    }
}

/// The decimal text of a natural number, without leading zeros.
pub open spec fn decimal(n: nat) -> Seq<char>
    decreases n,
{
    if n < 10 {
        digit_text(n)
    } else {
        decimal(n / 10) + digit_text(n % 10)
    }
}

/// The number that a sequence of decimal digits stands for, the most
/// significant digit first.
pub open spec fn digits_value(d: Seq<u8>) -> nat
    decreases d.len(),
{
    if d.len() == 0 {
        0
    } else {
        digits_value(d.drop_last()) * 10 + d.last() as nat
    }
}

/// A sequence of digits is canonical when it is not empty, holds digits only
/// and has no leading zero, but for the single digit zero.
pub open spec fn canonical(d: Seq<u8>) -> bool {
    &&& d.len() >= 1
    &&& forall|i: int| 0 <= i < d.len() ==> d[i] < 10
    &&& d.len() > 1 ==> d[0] != 0
}

/// The digits of the next number.
pub open spec fn successor(d: Seq<u8>) -> Seq<u8>
    decreases d.len(),
{
    if d.len() == 0 {
        seq![1u8]
    } else if d.last() < 9 {
        d.drop_last().push((d.last() + 1) as u8)
    } else {
        successor(d.drop_last()).push(0u8)
    }
}

/// The texts of the digits, in order.
pub open spec fn digits_text(d: Seq<u8>) -> Seq<char>
    decreases d.len(),
{
    if d.len() == 0 {
        Seq::empty()
    } else {
        digits_text(d.drop_last()) + digit_text(d.last() as nat)
    }
}

/// The successor of digits stands for the next number.
pub proof fn lemma_successor_value(d: Seq<u8>)
    requires
        forall|i: int| 0 <= i < d.len() ==> d[i] < 10,
    ensures
        digits_value(successor(d)) == digits_value(d) + 1,
        forall|i: int| 0 <= i < successor(d).len() ==> successor(d)[i] < 10,
        successor(d).len() >= 1,
        successor(d).len() >= d.len(),
        d.len() >= 1 && d[0] != 0 ==> successor(d)[0] != 0,
        d.len() == 0 ==> successor(d)[0] != 0,
        d.len() >= 1 && d[0] == 0 && d.len() == 1 ==> successor(d) == seq![1u8],
    decreases d.len(),
{
    if d.len() == 0 {
        let s = seq![1u8];
        assert(s.drop_last() == Seq::<u8>::empty());
        assert(digits_value(s.drop_last()) == 0);
        assert(s.last() == 1);
        assert(digits_value(s) == 1);
    } else if d.last() < 9 {
        let s = d.drop_last().push((d.last() + 1) as u8);
        assert(s.drop_last() == d.drop_last());
        assert(s.last() == d.last() + 1);
        assert(digits_value(s) == digits_value(d.drop_last()) * 10 + s.last() as nat);
    } else {
        lemma_successor_value(d.drop_last());
        let s = successor(d.drop_last()).push(0u8);
        assert(s.drop_last() == successor(d.drop_last()));
        assert(s.last() == 0);
        assert(digits_value(s) == digits_value(s.drop_last()) * 10 + s.last() as nat);
        if d.len() >= 1 && d[0] != 0 {
            if d.len() == 1 {
            } else {
                assert(d.drop_last()[0] == d[0]);
            }
        }
    }
}

/// The successor of canonical digits is canonical.
pub proof fn lemma_successor_canonical(d: Seq<u8>)
    requires
        canonical(d),
    ensures
        canonical(successor(d)),
        digits_value(successor(d)) == digits_value(d) + 1,
{
    lemma_successor_value(d);
    if d.len() == 1 && d[0] == 0 {
    }
}

/// Canonical digits, written out, are the decimal text of their number.
pub proof fn lemma_digits_text_is_decimal(d: Seq<u8>)
    requires
        canonical(d),
    ensures
        digits_text(d) == decimal(digits_value(d)),
        d.len() > 1 ==> digits_value(d) >= 10,
        d[0] != 0 ==> digits_value(d) >= 1,
    decreases d.len(),
{
    if d.len() == 1 {
        assert(d.drop_last() == Seq::<u8>::empty());
        assert(digits_value(d.drop_last()) == 0);
        assert(digits_text(d.drop_last()) == Seq::<char>::empty());
        assert(digits_text(d) == Seq::<char>::empty() + digit_text(d.last() as nat));
    } else {
        let front = d.drop_last();
        assert(front[0] == d[0]);
        assert(canonical(front));
        lemma_digits_text_is_decimal(front);
        let v = digits_value(front);
        assert(v >= 1);
        assert(digits_value(d) == v * 10 + d.last() as nat);
        assert((v * 10 + d.last() as nat) / 10 == v);
        assert((v * 10 + d.last() as nat) % 10 == d.last() as nat);
    }
}

/// The character of a decimal digit.
pub open spec fn digit_char(d: nat) -> char {
    if d == 0 {
        '0'
    } else if d == 1 {
        '1'
    } else if d == 2 {
        '2'
    } else if d == 3 {
        '3'
    } else if d == 4 {
        '4'
    } else if d == 5 {
        '5'
    } else if d == 6 {
        '6'
    } else if d == 7 {
        '7'
    } else if d == 8 {
        '8'
    } else {
        '9'
    }
}

/// The text of a digit is its character.
pub proof fn lemma_digit_text(d: nat)
    ensures
        digit_text(d) == seq![digit_char(d)],
{
    reveal_strlit("0");
    reveal_strlit("1");
    reveal_strlit("2");
    reveal_strlit("3");
    reveal_strlit("4");
    reveal_strlit("5");
    reveal_strlit("6");
    reveal_strlit("7");
    reveal_strlit("8");
    reveal_strlit("9");
    assert(digit_text(d) =~= seq![digit_char(d)]);
}

/// The decimal text of a number ends in its last digit, after the decimal
/// text of the tens where there are any.
pub proof fn lemma_decimal_parts(n: nat)
    ensures
        decimal(n).len() >= 1,
        decimal(n).last() == digit_char(n % 10),
        n < 10 ==> decimal(n).len() == 1,
        n >= 10 ==> decimal(n).len() >= 2 && decimal(n).drop_last() == decimal(n / 10),
{
    lemma_digit_text(n % 10);
    if n >= 10 {
        lemma_decimal_parts_length(n / 10);
        assert(decimal(n) == decimal(n / 10) + seq![digit_char(n % 10)]);
        assert(decimal(n).drop_last() == decimal(n / 10));
    }
}

/// The decimal text of a number is not empty.
proof fn lemma_decimal_parts_length(n: nat)
    ensures
        decimal(n).len() >= 1,
    decreases n,
{
    lemma_digit_text(n % 10);
    if n >= 10 {
        lemma_decimal_parts_length(n / 10);
    }
}

/// Different numbers have different decimal texts.
pub proof fn lemma_decimal_injective(a: nat, b: nat)
    requires
        decimal(a) == decimal(b),
    ensures
        a == b,
    decreases a,
{
    lemma_decimal_parts(a);
    lemma_decimal_parts(b);
    if a >= 10 {
        lemma_decimal_injective(a / 10, b / 10);
    }
}

/// A counter that starts at zero and never overflows.
#[derive(Debug)]
pub struct Counter {
    digits: Vec<u8>,
}

impl Counter {
    #[verifier::type_invariant]
    spec fn well_formed(&self) -> bool {
        canonical(self.digits@)
    }

    /// The number of increments so far.
    pub closed spec fn value(&self) -> nat {
        digits_value(self.digits@)
    }

    /// Creates a counter at zero.
    pub fn new() -> (r: Counter)
        ensures
            r.value() == 0,
    {
        let mut digits: Vec<u8> = Vec::new();
        digits.push(0);
        proof {
            assert(digits@.drop_last() == Seq::<u8>::empty());
            assert(digits_value(digits@.drop_last()) == 0);
        }
        Counter { digits }
    }

    /// Adds one to the counter.
    pub fn increment(&mut self)
        ensures
            final(self).value() == old(self).value() + 1,
    {
        proof {
            use_type_invariant(&*self);
            lemma_successor_canonical(self.digits@);
        }
        self.digits = next_digits(&self.digits);
    }

    /// Writes the counter in decimal.
    pub fn text(&self) -> (r: String)
        ensures
            r@ == decimal(self.value()),
    {
        proof {
            use_type_invariant(self);
            lemma_digits_text_is_decimal(self.digits@);
        }
        let mut out = String::new();
        let mut i: usize = 0;
        while i < self.digits.len()
            invariant
                i <= self.digits.len(),
                forall|k: int| 0 <= k < self.digits.len() ==> self.digits[k] < 10,
                out@ == digits_text(self.digits@.take(i as int)),
            decreases self.digits.len() - i,
        {
            out.append(digit_str(self.digits[i]));
            proof {
                assert(self.digits@.take(i + 1).drop_last() == self.digits@.take(i as int));
            }
            i = i + 1;
        }
        proof {
            assert(self.digits@.take(i as int) == self.digits@);
        }
        out
    }
}

/// The text of a decimal digit.
fn digit_str(d: u8) -> (r: &'static str)
    requires
        d < 10,
    ensures
        r@ == digit_text(d as nat),
{
    if d == 0 {
        "0"
    } else if d == 1 {
        "1"
    } else if d == 2 {
        "2"
    } else if d == 3 {
        "3"
    } else if d == 4 {
        "4"
    } else if d == 5 {
        "5"
    } else if d == 6 {
        "6"
    } else if d == 7 {
        "7"
    } else if d == 8 {
        "8"
    } else {
        "9"
    }
}

/// Writes a number in decimal.
pub fn decimal_string(n: usize) -> (r: String)
    ensures
        r@ == decimal(n as nat),
    decreases n,
{
    if n < 10 {
        String::from_str(digit_str(n as u8))
    } else {
        let mut out = decimal_string(n / 10);
        out.append(digit_str((n % 10) as u8));
        out
    }
}

/// A run of zeros.
pub open spec fn zeros(n: nat) -> Seq<u8> {
    Seq::new(n, |i: int| 0u8)
}

/// The successor is the successor of the part before the trailing nines,
/// followed by as many zeros as there were nines.
proof fn lemma_successor_trailing_nines(d: Seq<u8>, i: int)
    requires
        0 <= i <= d.len(),
        forall|k: int| i <= k < d.len() ==> d[k] == 9,
    ensures
        successor(d) == successor(d.take(i)) + zeros((d.len() - i) as nat),
    decreases d.len() - i,
{
    if i == d.len() {
        assert(d.take(i) == d);
        assert(successor(d) + zeros(0) == successor(d));
    } else {
        let front = d.drop_last();
        lemma_successor_trailing_nines(front, i);
        assert(front.take(i) == d.take(i));
        assert(zeros((front.len() - i) as nat).push(0u8) == zeros((d.len() - i) as nat));
        assert((successor(d.take(i)) + zeros((front.len() - i) as nat)).push(0u8) == successor(
            d.take(i),
        ) + zeros((d.len() - i) as nat));
    }
}

/// Computes the digits of the next number.
fn next_digits(digits: &Vec<u8>) -> (r: Vec<u8>)
    requires
        forall|k: int| 0 <= k < digits.len() ==> digits[k] < 10,
    ensures
        r@ == successor(digits@),
{
    let n = digits.len();
    let mut i: usize = n;
    while i > 0 && digits[i - 1] == 9
        invariant
            i <= n,
            n == digits.len(),
            forall|k: int| i <= k < n ==> digits[k] == 9,
        decreases i,
    {
        i = i - 1;
    }
    proof {
        lemma_successor_trailing_nines(digits@, i as int);
    }
    let mut out: Vec<u8> = Vec::new();
    if i == 0 {
        out.push(1);
        proof {
            assert(digits@.take(0) == Seq::<u8>::empty());
        }
    } else {
        let mut k: usize = 0;
        while k < i - 1
            invariant
                0 < i <= n,
                n == digits.len(),
                k <= i - 1,
                out@ == digits@.take(k as int),
            decreases i - 1 - k,
        {
            out.push(digits[k]);
            proof {
                assert(digits@.take(k + 1) == digits@.take(k as int).push(digits@[k as int]));
            }
            k = k + 1;
        }
        out.push(digits[i - 1] + 1);
        proof {
            let head = digits@.take(i as int);
            assert(head.last() == digits@[i - 1]);
            assert(head.drop_last() == digits@.take(i - 1));
        }
    }
    let ghost stem = out@;
    let mut z: usize = i;
    while z < n
        invariant
            i <= z <= n,
            out@ == stem + zeros((z - i) as nat),
        decreases n - z,
    {
        out.push(0);
        proof {
            assert(zeros((z - i) as nat).push(0u8) == zeros((z + 1 - i) as nat));
        }
        z = z + 1;
    }
    out
}

} // verus!
