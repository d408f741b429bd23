//! Integers as decimal text.

use vstd::prelude::*;

use crate::text::{decimal, decimal_text, digit, signed_decimal_text};

verus! {

/// The number that a row of decimal digits is read as.
pub open spec fn read_decimal(text: Seq<char>) -> int
    decreases text.len(),
{
    if text.len() == 0 {
        0
    } else {
        read_decimal(text.drop_last()) * 10 + (text.last() as int - '0' as int)
    }
}

/// The text is a row of decimal digits, without a zero in front of others.
pub open spec fn is_decimal(text: Seq<char>) -> bool {
    &&& text.len() > 0
    &&& forall|i: int| 0 <= i < text.len() ==> '0' <= #[trigger] text[i] <= '9'
    &&& text.len() > 1 ==> text[0] != '0'
}

/// A number is written as the digits that it is read from, without zeros in front.
pub proof fn law_number_reads_back(n: u64, text: String)
    requires
        call_ensures(decimal_text, (n,), text),
    ensures
        is_decimal(text@),
        read_decimal(text@) == n,
{
    lemma_decimal_reads_back(n as int);
}

/// A number that is not negative is written as its digits, and a negative one with a minus sign in
/// front of the digits of its absolute value.
pub proof fn law_signed_number_reads_back(n: i64, text: String)
    requires
        call_ensures(signed_decimal_text, (n,), text),
    ensures
        n >= 0 ==> is_decimal(text@) && read_decimal(text@) == n,
        n < 0 ==> {
            &&& text@.len() > 0
            &&& text@[0] == '-'
            &&& is_decimal(text@.drop_first())
            &&& read_decimal(text@.drop_first()) == -n
        },
{
    if n < 0 {
        lemma_decimal_reads_back(-n);
        assert(text@.drop_first() =~= decimal(-n));
    } else {
        lemma_decimal_reads_back(n as int);
    }
}

proof fn lemma_decimal_reads_back(n: int)
    requires
        0 <= n,
    ensures
        is_decimal(decimal(n)),
        read_decimal(decimal(n)) == n,
        n > 0 ==> decimal(n)[0] != '0',
    decreases n,
{
    let text = decimal(n);
    if n < 10 {
        assert(text.drop_last() =~= Seq::empty());
        assert(read_decimal(text.drop_last()) == 0);
        assert(text.last() == digit(n));
    } else {
        lemma_decimal_reads_back(n / 10);
        assert(text.drop_last() =~= decimal(n / 10));
        assert(text[0] == decimal(n / 10)[0]);
        assert forall|i: int| 0 <= i < text.len() implies '0' <= #[trigger] text[i] <= '9' by {
            if i < text.len() - 1 {
                assert(text[i] == decimal(n / 10)[i]);
            }
        }
    }
}

} // verus!
