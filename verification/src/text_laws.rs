//! What is promised of numbers and paths in words.
use crate::text::{decimal, digit, dotted, signed_decimal};
use vstd::prelude::*;

verus! {

/// The number that a sequence of decimal digits stands for, read from left to right.
pub open spec fn number(digits: Seq<char>) -> int
    decreases digits.len(),
{
    if digits.len() == 0 {
        0
    } else {
        number(digits.drop_last()) * 10 + (digits.last() as int - '0' as int)
    }
}

/// Whether every character is a decimal digit.
pub open spec fn all_digits(text: Seq<char>) -> bool {
    forall|i: int| 0 <= i < text.len() ==> '0' <= (#[trigger] text[i]) && text[i] <= '9'
}

proof fn lemma_digit(d: nat)
    requires
        d < 10,
    ensures
        digit(d).len() == 1,
        '0' <= digit(d)[0] <= '9',
        digit(d)[0] as int - '0' as int == d,
{
    reveal_strlit("0");
    reveal_strlit("1");
    reveal_strlit("2");
    reveal_strlit("3");
    reveal_strlit("4");
    reveal_strlit("5");
    reveal_strlit("6");
    reveal_strlit("7");
    reveal_strlit("8");
    reveal_strlit("9");
}

/// A number in words is made of digits, reads back as the number, and has no zero in front of it.
pub proof fn law_decimal(n: nat)
    ensures
        decimal(n).len() > 0,
        all_digits(decimal(n)),
        number(decimal(n)) == n,
        decimal(n)[0] == '0' ==> n == 0 && decimal(n).len() == 1,
    decreases n,
{
    if n < 10 {
        lemma_digit(n);
        assert(decimal(n).drop_last() =~= Seq::<char>::empty());
        assert(number(decimal(n).drop_last()) == 0);
    } else {
        let front = decimal(n / 10);
        law_decimal(n / 10);
        lemma_digit(n % 10);
        assert(decimal(n) == front + digit(n % 10));
        assert(decimal(n).drop_last() =~= front);
        assert(decimal(n).last() == digit(n % 10)[0]);
        assert(decimal(n)[0] == front[0]);
        assert forall|i: int| 0 <= i < decimal(n).len() implies '0' <= (#[trigger] decimal(n)[i])
            && decimal(n)[i] <= '9' by {
            if i < front.len() {
                assert(decimal(n)[i] == front[i]);
            }
        }
    }
}

/// A negative number in words is a minus sign and the number without its sign.
pub proof fn law_signed_decimal(n: int)
    ensures
        n >= 0 ==> all_digits(signed_decimal(n)) && number(signed_decimal(n)) == n,
        n < 0 ==> {
            &&& signed_decimal(n).len() > 1
            &&& signed_decimal(n)[0] == '-'
            &&& all_digits(signed_decimal(n).drop_first())
            &&& number(signed_decimal(n).drop_first()) == -n
        },
{
    if n < 0 {
        reveal_strlit("-");
        law_decimal((-n) as nat);
        assert(signed_decimal(n).drop_first() =~= decimal((-n) as nat));
    } else {
        law_decimal(n as nat);
    }
}

/// Different numbers are written differently.
pub proof fn law_numbers_differ(m: int, n: int)
    requires
        signed_decimal(m) == signed_decimal(n),
    ensures
        m == n,
{
    law_signed_decimal(m);
    law_signed_decimal(n);
    if m >= 0 && n < 0 {
        law_decimal(m as nat);
        assert(signed_decimal(m)[0] == '-');
    }
    if n >= 0 && m < 0 {
        law_decimal(n as nat);
        assert(signed_decimal(n)[0] == '-');
    }
}

/// A path and its next step stand on either side of one dot.
pub proof fn law_dotted(path: Seq<char>, step: Seq<char>)
    ensures
        dotted(path, step).len() == path.len() + 1 + step.len(),
        dotted(path, step).take(path.len() as int) == path,
        dotted(path, step)[path.len() as int] == '.',
        dotted(path, step).skip((path.len() + 1) as int) == step,
{
    reveal_strlit(".");
    assert(dotted(path, step).take(path.len() as int) =~= path);
    assert(dotted(path, step).skip((path.len() + 1) as int) =~= step);
}

} // verus!
