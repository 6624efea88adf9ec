//! Text utilities: conversion between strings and character vectors, and the
//! decimal rendering of unsigned integers.

use vstd::prelude::*;

verus! {

/// `String::push` of the standard library: the character is appended to the
/// end of the string and nothing else changes.
pub assume_specification[ std::string::String::push ](text: &mut std::string::String, c: char)
    ensures
        final(text)@ == old(text)@.push(c),
;

/// `str` equality of the standard library: two string slices are equal
/// exactly when they hold the same characters in the same order.
#[verifier::external_body]
pub(crate) fn same_text(left: &str, right: &str) -> (same: bool)
    ensures
        same == (left@ == right@),
{
    left == right
}

/// The characters of `text`, in order.
pub fn chars_of(text: &str) -> (chars: Vec<char>)
    ensures
        chars@ == text@,
{
    let mut chars: Vec<char> = Vec::new();
    for c in it: text.chars()
        invariant
            chars@ == it.seq().take(it.index()),
    {
        chars.push(c);
    }
    chars
}

/// The string made of `chars[start..end]`.
pub fn text_of(chars: &Vec<char>, start: usize, end: usize) -> (text: String)
    requires
        start <= end <= chars@.len(),
    ensures
        text@ == chars@.subrange(start as int, end as int),
{
    let mut text = String::new();
    let mut index: usize = start;
    while index < end
        invariant
            start <= index <= end <= chars@.len(),
            text@ == chars@.subrange(start as int, index as int),
        decreases end - index,
    {
        text.push(chars[index]);
        index += 1;
    }
    text
}

/// The character that stands for a single decimal digit.
pub open spec fn digit_char(digit: nat) -> char
    recommends
        digit < 10,
{
    if digit == 0 {
        '0'
    } else if digit == 1 {
        '1'
    } else if digit == 2 {
        '2'
    } else if digit == 3 {
        '3'
    } else if digit == 4 {
        '4'
    } else if digit == 5 {
        '5'
    } else if digit == 6 {
        '6'
    } else if digit == 7 {
        '7'
    } else if digit == 8 {
        '8'
    } else {
        '9'
    }
}

/// The decimal numeral of `n`, most significant digit first, without leading
/// zeros (zero itself is `"0"`).
pub open spec fn decimal_text(n: nat) -> Seq<char>
    decreases n,
{
    if n < 10 {
        seq![digit_char(n)]
    } else {
        decimal_text(n / 10).push(digit_char(n % 10))
    }
}

fn digit(value: usize) -> (c: char)
    requires
        value < 10,
    ensures
        c == digit_char(value as nat),
{
    if value == 0 {
        '0'
    } else if value == 1 {
        '1'
    } else if value == 2 {
        '2'
    } else if value == 3 {
        '3'
    } else if value == 4 {
        '4'
    } else if value == 5 {
        '5'
    } else if value == 6 {
        '6'
    } else if value == 7 {
        '7'
    } else if value == 8 {
        '8'
    } else {
        '9'
    }
}

/// Renders `n` in decimal.
pub fn decimal(n: usize) -> (text: String)
    ensures
        text@ == decimal_text(n as nat),
{
    // Collect the digits least significant first, then write them reversed.
    let mut digits: Vec<char> = Vec::new();
    let mut rest: usize = n;
    while rest >= 10
        invariant
            decimal_text(n as nat) == decimal_text(rest as nat) + digits@.reverse(),
        decreases rest,
    {
        let ghost before = digits@;
        digits.push(digit(rest % 10));
        proof {
            assert(digits@.reverse() =~= seq![digit_char((rest % 10) as nat)] + before.reverse());
            assert(decimal_text(rest as nat) == decimal_text((rest / 10) as nat).push(
                digit_char((rest % 10) as nat),
            ));
            assert(decimal_text(rest as nat) + before.reverse() =~= decimal_text(
                (rest / 10) as nat,
            ) + digits@.reverse());
        }
        rest = rest / 10;
    }
    let mut text = String::new();
    text.push(digit(rest));
    let mut left: usize = digits.len();
    while left > 0
        invariant
            left <= digits@.len(),
            text@ == decimal_text(rest as nat) + digits@.reverse().take(digits@.len() - left),
        decreases left,
    {
        left -= 1;
        let ghost before = text@;
        text.push(digits[left]);
        proof {
            let taken = digits@.len() - left;
            assert(digits@.reverse()[taken - 1] == digits@[left as int]);
            assert(digits@.reverse().take(taken) =~= digits@.reverse().take(taken - 1).push(
                digits@[left as int],
            ));
            assert(text@ =~= decimal_text(rest as nat) + digits@.reverse().take(taken));
        }
    }
    proof {
        assert(digits@.reverse().take(digits@.len() as int) =~= digits@.reverse());
    }
    text
}

/// `word` written `times` times in a row.
pub open spec fn power(word: Seq<char>, times: nat) -> Seq<char>
    decreases times,
{
    if times == 0 {
        Seq::empty()
    } else {
        word + power(word, (times - 1) as nat)
    }
}

/// Whether two texts are both made of one word written some number of
/// times, as `"abab"` and `"ab"` are, or `""` and any text.
pub open spec fn powers_of_one_word(left: Seq<char>, right: Seq<char>) -> bool {
    exists|word: Seq<char>, m: nat, n: nat|
        left == #[trigger] power(word, m) && right == #[trigger] power(word, n)
}

/// Joining texts is associative.
pub proof fn lemma_join_is_associative(first: Seq<char>, second: Seq<char>, third: Seq<char>)
    ensures
        (first + second) + third == first + (second + third),
{
    assert((first + second) + third =~= first + (second + third));
}

/// A word written `m` times and then `n` times is written `m + n` times.
pub proof fn lemma_power_adds(word: Seq<char>, m: nat, n: nat)
    ensures
        power(word, m) + power(word, n) == power(word, m + n),
    decreases m,
{
    if m == 0 {
        assert(power(word, m) + power(word, n) =~= power(word, n));
    } else {
        lemma_power_adds(word, (m - 1) as nat, n);
        assert(power(word, m) + power(word, n) =~= word + (power(word, (m - 1) as nat) + power(
            word,
            n,
        )));
        assert(power(word, m + n) == word + power(word, (m + n - 1) as nat));
    }
}

/// A text written once is the text.
pub proof fn lemma_power_one(word: Seq<char>)
    ensures
        power(word, 1) == word,
{
    assert(power(word, 0) =~= Seq::<char>::empty());
    assert(power(word, 1) =~= word) by {
        reveal_with_fuel(power, 2);
    }
}

/// Two texts give the same text in either order if, and only if, both are
/// made of one word written some number of times.
pub proof fn lemma_join_commutes_for_powers_only(left: Seq<char>, right: Seq<char>)
    ensures
        (left + right == right + left) <==> powers_of_one_word(left, right),
    decreases left.len() + right.len(),
{
    if powers_of_one_word(left, right) {
        let (word, m, n) = choose|word: Seq<char>, m: nat, n: nat|
            left == #[trigger] power(word, m) && right == #[trigger] power(word, n);
        lemma_power_adds(word, m, n);
        lemma_power_adds(word, n, m);
    }
    if left + right == right + left {
        if left.len() == 0 {
            lemma_power_one(right);
            assert(left =~= power(right, 0));
            assert(left == power(right, 0) && right == power(right, 1));
        } else if right.len() == 0 {
            lemma_power_one(left);
            assert(right =~= power(left, 0));
            assert(left == power(left, 1) && right == power(left, 0));
        } else if left.len() == right.len() {
            assert(left =~= right) by {
                assert forall|i: int| 0 <= i < left.len() implies left[i] == right[i] by {
                    assert((left + right)[i] == left[i]);
                    assert((right + left)[i] == right[i]);
                }
            }
            lemma_power_one(left);
            assert(left == power(left, 1) && right == power(left, 1));
        } else if left.len() < right.len() {
            let rest = right.skip(left.len() as int);
            assert(right =~= left + rest) by {
                assert forall|i: int| 0 <= i < left.len() implies right[i] == left[i] by {
                    assert((left + right)[i] == left[i]);
                    assert((right + left)[i] == right[i]);
                }
            }
            assert(left + rest =~= rest + left) by {
                assert forall|i: int| 0 <= i < left.len() + rest.len() implies (left + rest)[i]
                    == (rest + left)[i] by {
                    assert((left + right)[i + left.len()] == right[i]);
                    assert((right + left)[i + left.len()] == (rest + left)[i]);
                }
            }
            lemma_join_commutes_for_powers_only(left, rest);
            let (word, m, k) = choose|word: Seq<char>, m: nat, k: nat|
                left == #[trigger] power(word, m) && rest == #[trigger] power(word, k);
            lemma_power_adds(word, m, k);
            assert(left == power(word, m) && right == power(word, m + k));
        } else {
            let rest = left.skip(right.len() as int);
            assert(left =~= right + rest) by {
                assert forall|i: int| 0 <= i < right.len() implies left[i] == right[i] by {
                    assert((left + right)[i] == left[i]);
                    assert((right + left)[i] == right[i]);
                }
            }
            assert(rest + right =~= right + rest) by {
                assert forall|i: int| 0 <= i < right.len() + rest.len() implies (rest + right)[i]
                    == (right + rest)[i] by {
                    assert((right + left)[i + right.len()] == left[i]);
                    assert((left + right)[i + right.len()] == (rest + right)[i]);
                }
            }
            lemma_join_commutes_for_powers_only(rest, right);
            let (word, k, n) = choose|word: Seq<char>, k: nat, n: nat|
                rest == #[trigger] power(word, k) && right == #[trigger] power(word, n);
            lemma_power_adds(word, n, k);
            assert(left == power(word, n + k) && right == power(word, n));
        }
    }
}

/// Joining is not commutative: two texts that are not made of one word
/// written some number of times give different texts in the two orders.
pub proof fn lemma_join_is_not_commutative(left: Seq<char>, right: Seq<char>)
    requires
        !powers_of_one_word(left, right),
    ensures
        left + right != right + left,
{
    lemma_join_commutes_for_powers_only(left, right);
}

/// Two different texts of one length give different texts in the two orders.
pub proof fn lemma_join_of_equally_long_texts(left: Seq<char>, right: Seq<char>)
    requires
        left.len() == right.len(),
        left != right,
    ensures
        left + right != right + left,
{
    if left + right == right + left {
        assert(left =~= right) by {
            assert forall|i: int| 0 <= i < left.len() implies left[i] == right[i] by {
                assert((left + right)[i] == left[i]);
                assert((right + left)[i] == right[i]);
            }
        }
    }
}

} // verus!
