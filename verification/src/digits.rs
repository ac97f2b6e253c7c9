use vstd::prelude::*;

verus! {

/// The decimal digits of `n`, most significant first; empty when `n <= 0`.
pub open spec fn digits_of(n: int) -> Seq<i32>
    decreases n,
{
    if n <= 0 {
        Seq::empty()
    } else {
        digits_of(n / 10).push((n % 10) as i32)
    }
}

/// The number whose decimal digits, most significant first, are `ds`.
pub open spec fn value_of_digits(ds: Seq<i32>) -> int
    decreases ds.len(),
{
    if ds.len() == 0 {
        0
    } else {
        value_of_digits(ds.drop_last()) * 10 + ds.last()
    }
}

/// Splits an `i32` into its decimal digits, read left to right.
pub struct NumberDigits {
    digits: Vec<i32>,
}

impl View for NumberDigits {
    type V = Seq<i32>;

    closed spec fn view(&self) -> Seq<i32> {
        self.digits@
    }
}

impl NumberDigits {
    pub fn new(value: i32) -> (res: Self)
        ensures
            res@ == digits_of(value as int),
    {
        let mut digits: Vec<i32> = Vec::new();
        let mut rest: i32 = value;

        while rest > 0
            invariant
                digits_of(value as int) == digits_of(rest as int) + digits@,
            decreases rest,
        {
            let digit: i32 = rest % 10;
            proof {
                assert(digits_of(rest as int) == digits_of(rest / 10).push(digit));
                assert(digits_of(rest / 10).push(digit) + digits@ =~= digits_of(rest / 10) + seq![
                    digit,
                ].add(digits@));
            }
            digits.insert(0, digit);
            rest = rest / 10;
        }
        assert(digits_of(rest as int) =~= Seq::<i32>::empty());
        assert(Seq::<i32>::empty() + digits@ =~= digits@);
        NumberDigits { digits }
    }

    /// The digit at `index`, or 0 past the last digit, which pads the number on the right.
    pub fn get(&self, index: usize) -> (d: i32)
        ensures
            d == if index < self@.len() { self@[index as int] } else { 0 },
    {
        if index >= self.digits.len() {
            return 0;
        }
        self.digits[index]
    }
}

/// Reading the digits back as a decimal number gives the value that was split,
/// and every digit lies in `0..=9`.
pub proof fn lemma_digits_round_trip(n: int)
    requires
        n >= 0,
    ensures
        value_of_digits(digits_of(n)) == n,
        forall|i: int| 0 <= i < digits_of(n).len() ==> 0 <= #[trigger] digits_of(n)[i] <= 9,
    decreases n,
{
    if n > 0 {
        lemma_digits_round_trip(n / 10);
        let ds = digits_of(n / 10).push((n % 10) as i32);
        assert(ds.drop_last() =~= digits_of(n / 10));
    }
}

/// A positive value has no leading zero digit.
pub proof fn lemma_digits_leading_nonzero(n: int)
    requires
        n > 0,
    ensures
        digits_of(n).len() > 0,
        digits_of(n)[0] != 0,
    decreases n,
{
    let ds = digits_of(n / 10).push((n % 10) as i32);
    assert(digits_of(n) == ds);
    if n >= 10 {
        lemma_digits_leading_nonzero(n / 10);
        assert(ds[0] == digits_of(n / 10)[0]);
    } else {
        assert(digits_of(n / 10) =~= Seq::<i32>::empty());
        assert(ds[0] == (n % 10) as i32);
    }
}

} // verus!
