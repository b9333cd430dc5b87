//! Amounts for people to read: a few digits and a suffix for the
//! thousands.
use crate::pricing::power;
use crate::rational::digit_char;
use crate::rational::digits_text;
use crate::rational::integer_text;
use crate::rational::truncate;
use crate::rational::Rational;
use vstd::prelude::*;
use vstd::string::StringExecFns;

verus! {

/// The largest number of thousands that have a suffix.
pub const MAX_STEPS: usize = 9;

/// The suffix for a number of thousands.
pub open spec fn suffix(steps: nat) -> Seq<char> {
    if steps == 0 {
        ""@
    } else if steps == 1 {
        "k"@
    } else if steps == 2 {
        "M"@
    } else if steps == 3 {
        "B"@
    } else if steps == 4 {
        "G"@
    } else if steps == 5 {
        "T"@
    } else if steps == 6 {
        "P"@
    } else if steps == 7 {
        "E"@
    } else if steps == 8 {
        "Z"@
    } else {
        "Y"@
    }
}

/// The least number of thousands, not below `from`, by which an amount has
/// to be scaled down to be at most a thousand; the largest that has a suffix
/// where that is not enough.
pub open spec fn steps_from(amount: real, from: nat) -> nat
    decreases MAX_STEPS - from,
{
    if from >= MAX_STEPS || amount <= power(1000real, from + 1) {
        from
    } else {
        steps_from(amount, from + 1)
    }
}

/// The number of thousands by which an amount is scaled down.
pub open spec fn steps_of(amount: real) -> nat {
    steps_from(amount, 0)
}

/// The size of a number, whatever its sign.
pub open spec fn magnitude(v: real) -> real {
    if v < 0real {
        -v
    } else {
        v
    }
}

/// The sign that is written in front of an amount: a minus where it is
/// below zero, else nothing.
pub open spec fn sign_text(v: real) -> Seq<char> {
    if v < 0real {
        "-"@
    } else {
        ""@
    }
}

/// Ten to the power of `n`, as a natural number.
pub open spec fn pow10(n: nat) -> nat
    decreases n,
{
    if n == 0 {
        1
    } else {
        10 * pow10((n - 1) as nat)
    }
}

/// The last `places` decimal digits of a number, most significant first,
/// with zeros where the number has fewer digits. For a number below ten to
/// the power of `places` these are all its digits, filled with zeros in
/// front to exactly `places` characters.
pub open spec fn places_text(v: nat, places: nat) -> Seq<char>
    decreases places,
{
    if places == 0 {
        Seq::empty()
    } else {
        places_text(v / 10, (places - 1) as nat).push(digit_char((v % 10) as int))
    }
}

/// So many zeros.
pub open spec fn zeros(n: nat) -> Seq<char> {
    Seq::new(n, |i: int| '0')
}

/// An amount as people read it: a minus where it is below zero; then, of
/// its size scaled down by thousands, the integer part, a point, and
/// exactly as many decimals as asked for, cut off and not rounded; then the
/// suffix for the thousands.
pub open spec fn human_text(amount: real, decimals: nat) -> Seq<char> {
    let steps = steps_of(magnitude(amount));
    let scaled = magnitude(amount) / power(1000real, steps);
    let rest = scaled - truncate(scaled) as real;
    sign_text(amount) + integer_text(truncate(scaled)) + "."@ + places_text(
        truncate(rest * power(10real, decimals)) as nat,
        decimals,
    ) + suffix(steps)
}

/// An amount below zero reads as a minus and then as the amount of the
/// same size above zero.
pub proof fn lemma_human_text_negative(amount: real, decimals: nat)
    requires
        amount < 0real,
    ensures
        human_text(amount, decimals) == "-"@ + human_text(-amount, decimals),
{
    assert(magnitude(amount) == magnitude(-amount));
    let body = human_text(-amount, decimals);
    assert(sign_text(-amount) == ""@);
    reveal_strlit("");
    assert(""@ =~= Seq::<char>::empty());
    assert(human_text(amount, decimals) =~= "-"@ + body);
}

/// The decimals are exactly as many characters as asked for.
pub proof fn lemma_places_len(v: nat, places: nat)
    ensures
        places_text(v, places).len() == places,
    decreases places,
{
    if places > 0 {
        lemma_places_len(v / 10, (places - 1) as nat);
    }
}

/// The real power of ten is the natural one.
proof fn lemma_power_of_ten(n: nat)
    ensures
        power(10real, n) == pow10(n) as real,
    decreases n,
{
    if n > 0 {
        lemma_power_of_ten((n - 1) as nat);
    }
}

/// A number below ten to the power of `places` has at most `places` digits.
proof fn lemma_digits_len(v: nat, places: nat)
    requires
        places >= 1,
        v < pow10(places),
    ensures
        1 <= digits_text(v).len() <= places,
    decreases places,
{
    reveal_with_fuel(pow10, 2);
    if v >= 10 {
        lemma_digits_len(v / 10, (places - 1) as nat);
    }
}

/// For a number below ten to the power of `places`, the decimals are the
/// number's digits after as many zeros as fill them up to `places`
/// characters.
pub proof fn lemma_places_are_digits(v: nat, places: nat)
    requires
        places >= 1,
        v < pow10(places),
    ensures
        digits_text(v).len() <= places,
        places_text(v, places) == zeros((places - digits_text(v).len()) as nat) + digits_text(v),
    decreases places,
{
    reveal_with_fuel(pow10, 2);
    reveal_with_fuel(places_text, 2);
    lemma_digits_len(v, places);
    let digit = digit_char((v % 10) as int);
    if places == 1 {
        assert(places_text(v, places) =~= zeros(0) + digits_text(v));
    } else if v < 10 {
        lemma_places_are_digits(0, (places - 1) as nat);
        assert(digits_text(0) =~= seq!['0']);
        assert(places_text(0, (places - 1) as nat) =~= zeros((places - 1) as nat));
        assert(places_text(v, places) =~= zeros((places - 1) as nat) + digits_text(v));
    } else {
        lemma_places_are_digits(v / 10, (places - 1) as nat);
        let shorter = digits_text(v / 10);
        assert(digits_text(v) == shorter.push(digit));
        assert(places_text(v, places) =~= zeros((places - digits_text(v).len()) as nat)
            + digits_text(v));
    }
}

/// A positive number to any power is positive.
pub proof fn lemma_power_positive(base: real, n: nat)
    requires
        base > 0real,
    ensures
        power(base, n) > 0real,
    decreases n,
{
    if n > 0 {
        lemma_power_positive(base, (n - 1) as nat);
        let p = power(base, (n - 1) as nat);
        assert(p * base > 0real) by (nonlinear_arith)
            requires
                p > 0real,
                base > 0real,
        ;
    }
}

/// What the number of thousands says of the amount: it is at most the
/// largest that has a suffix; the amount is above a thousand to that power
/// unless the number is zero; and the amount is at most a thousand to the
/// next power unless the number is the largest.
pub proof fn lemma_steps_bounds(amount: real)
    ensures
        steps_of(amount) <= MAX_STEPS,
        steps_of(amount) > 0 ==> amount > power(1000real, steps_of(amount)),
        steps_of(amount) < MAX_STEPS ==> amount <= power(1000real, steps_of(amount) + 1),
{
    lemma_steps_from_bounds(amount, 0);
}

/// The same of a search that starts at `from`, which the amount is known
/// to be above.
proof fn lemma_steps_from_bounds(amount: real, from: nat)
    requires
        from <= MAX_STEPS,
        from > 0 ==> amount > power(1000real, from),
    ensures
        from <= steps_from(amount, from) <= MAX_STEPS,
        steps_from(amount, from) > 0 ==> amount > power(1000real, steps_from(amount, from)),
        steps_from(amount, from) < MAX_STEPS ==> amount <= power(
            1000real,
            steps_from(amount, from) + 1,
        ),
    decreases MAX_STEPS - from,
{
    if from >= MAX_STEPS || amount <= power(1000real, from + 1) {
    } else {
        lemma_steps_from_bounds(amount, from + 1);
    }
}

/// The suffix for a number of thousands.
fn suffix_for(steps: usize) -> (text: &'static str)
    ensures
        text@ == suffix(steps as nat),
{
    if steps == 0 {
        ""
    } else if steps == 1 {
        "k"
    } else if steps == 2 {
        "M"
    } else if steps == 3 {
        "B"
    } else if steps == 4 {
        "G"
    } else if steps == 5 {
        "T"
    } else if steps == 6 {
        "P"
    } else if steps == 7 {
        "E"
    } else if steps == 8 {
        "Z"
    } else {
        "Y"
    }
}

/// Ten to the power of `decimals`.
fn ten_to(decimals: u32) -> (scale: Rational)
    ensures
        scale@ == power(10real, decimals as nat),
{
    let ten = Rational::from_i64(10);
    let mut scale = Rational::from_i64(1);
    let mut i: u32 = 0;
    while i < decimals
        invariant
            i <= decimals,
            ten@ == 10real,
            scale@ == power(10real, i as nat),
        decreases decimals - i,
    {
        scale = scale.times(&ten);
        i += 1;
    }
    scale
}

/// Renders an amount for people to read: a minus where it is below zero,
/// then its size scaled down by thousands until it is at most a thousand or
/// the suffixes run out, as its integer part, a point and exactly
/// `decimals` decimals, then the suffix.
pub fn human_number(n: &Rational, decimals: u32) -> (text: String)
    ensures
        text@ == human_text(n@, decimals as nat),
{
    let zero = Rational::from_i64(0);
    let thousand = Rational::from_i64(1000);
    let negative = n.lt(&zero);
    let size = if negative {
        zero.minus(n)
    } else {
        n.clone()
    };
    assert(size@ == magnitude(n@));
    let mut scaled = size.clone();
    let mut thousands: usize = 0;
    while thousands < MAX_STEPS && scaled.gt(&thousand)
        invariant
            thousands <= MAX_STEPS,
            thousand@ == 1000real,
            size@ >= 0real,
            scaled@ == size@ / power(1000real, thousands as nat),
            steps_of(size@) == steps_from(size@, thousands as nat),
        decreases MAX_STEPS - thousands,
    {
        proof {
            let p = power(1000real, thousands as nat);
            lemma_power_positive(1000real, thousands as nat);
            assert(power(1000real, (thousands + 1) as nat) == p * 1000real);
            assert(size@ > p * 1000real) by (nonlinear_arith)
                requires
                    p > 0real,
                    size@ / p > 1000real,
            ;
            assert((size@ / p) / 1000real == size@ / (p * 1000real)) by (nonlinear_arith)
                requires
                    p > 0real,
            ;
        }
        scaled = scaled.divided_by(&thousand).unwrap();
        thousands += 1;
    }
    proof {
        let p = power(1000real, thousands as nat);
        lemma_power_positive(1000real, thousands as nat);
        assert(power(1000real, (thousands + 1) as nat) == p * 1000real);
        if thousands < MAX_STEPS {
            assert(size@ <= p * 1000real) by (nonlinear_arith)
                requires
                    p > 0real,
                    size@ / p <= 1000real,
            ;
        }
        assert(steps_of(size@) == thousands);
        assert(scaled@ >= 0real) by (nonlinear_arith)
            requires
                p > 0real,
                size@ >= 0real,
                scaled@ == size@ / p,
        ;
    }
    let rest = scaled.fract();
    let shifted = rest.times(&ten_to(decimals));
    let digits = shifted.integer_string();
    let ghost places = decimals as nat;
    let ghost v = truncate(shifted@);
    proof {
        let ten = power(10real, places);
        lemma_power_of_ten(places);
        lemma_power_positive(10real, places);
        assert(0real <= rest@ < 1real);
        assert(0real <= rest@ * ten < ten) by (nonlinear_arith)
            requires
                0real <= rest@ < 1real,
                ten > 0real,
        ;
        assert(0 <= v < pow10(places));
        if places >= 1 {
            lemma_places_are_digits(v as nat, places);
        }
    }
    let mut text = if negative {
        "-".to_owned()
    } else {
        "".to_owned()
    };
    text.append(scaled.integer_string().as_str());
    text.append(".");
    let ghost head = text@;
    if decimals > 0 {
        let len = digits.as_str().unicode_len();
        let mut filled: usize = len;
        assert(text@ =~= head + zeros(0));
        while filled < decimals as usize
            invariant
                len <= filled <= decimals,
                text@ == head + zeros((filled - len) as nat),
            decreases decimals - filled,
        {
            proof {
                reveal_strlit("0");
            }
            text.append("0");
            filled += 1;
            assert(text@ =~= head + zeros((filled - len) as nat));
        }
        text.append(digits.as_str());
        assert(text@ =~= head + places_text(v as nat, places));
    } else {
        assert(text@ =~= head + places_text(v as nat, places));
    }
    text.append(suffix_for(thousands));
    assert(text@ =~= human_text(n@, decimals as nat));
    text
}

} // verus!
