//! Numbers written in decimal.

use vstd::prelude::*;
use vstd::string::StringExecFns;

verus! {

/// The character of one decimal digit.
pub open spec fn digit(d: nat) -> char {
    if d == 0 {
        '0'
    } else if d == 1 {
        '1'
    } else if d == 2 {
        '2'
    } else if d == 3 {
        '3'
    } else if d == 4 {
        '4'
    } else if d == 5 {
        '5'
    } else if d == 6 {
        '6'
    } else if d == 7 {
        '7'
    } else if d == 8 {
        '8'
    } else {
        '9'
    }
}

/// A number in decimal, without leading zeros.
pub open spec fn digits(n: nat) -> Seq<char>
    decreases n,
{
    if n < 10 {
        seq![digit(n)]
    } else {
        digits(n / 10).push(digit(n % 10))
    }
}

/// A name and a number, with a hyphen between them.
pub open spec fn label(name: Seq<char>, n: nat) -> Seq<char> {
    name.push('-') + digits(n)
}

fn digit_text(d: usize) -> (text: &'static str)
    requires
        d < 10,
    ensures
        text@ == seq![digit(d as nat)],
{
    proof {
        reveal_strlit("0");
        reveal_strlit("1");
        reveal_strlit("2");
        reveal_strlit("3");
        reveal_strlit("4");
        reveal_strlit("5");
        reveal_strlit("6");
        reveal_strlit("7");
        reveal_strlit("8");
        reveal_strlit("9");
    }
    let text = if d == 0 {
        "0"
    } else if d == 1 {
        "1"
    } else if d == 2 {
        "2"
    } else if d == 3 {
        "3"
    } else if d == 4 {
        "4"
    } else if d == 5 {
        "5"
    } else if d == 6 {
        "6"
    } else if d == 7 {
        "7"
    } else if d == 8 {
        "8"
    } else {
        "9"
    };
    text
}

/// Writes a number in decimal.
pub fn decimal(n: usize) -> (text: String)
    ensures
        text@ == digits(n as nat),
    decreases n,
{
    if n < 10 {
        String::from_str(digit_text(n))
    } else {
        let mut text = decimal(n / 10);
        text.append(digit_text(n % 10));
        text
    }
}

/// Writes a name and a number with a hyphen between them.
pub fn labelled(name: &String, n: usize) -> (text: String)
    ensures
        text@ == label(name@, n as nat),
{
    let mut text = name.clone();
    proof {
        reveal_strlit("-");
    }
    text.append("-");
    let number = decimal(n);
    text.append(number.as_str());
    text
}

/// A number in decimal has at least one digit.
pub proof fn lemma_digits_not_empty(n: nat)
    ensures
        digits(n).len() >= 1,
{
}

/// Two numbers that read the same in decimal are the same number.
pub proof fn lemma_digits_injective(a: nat, b: nat)
    requires
        digits(a) == digits(b),
    ensures
        a == b,
    decreases a,
{
    if a < 10 && b < 10 {
        assert(digits(a)[0] == digit(a));
    } else if a < 10 {
        lemma_digits_not_empty(b / 10);
    } else if b < 10 {
        lemma_digits_not_empty(a / 10);
    } else {
        let front_a = digits(a / 10);
        let front_b = digits(b / 10);
        assert(front_a.push(digit(a % 10)).drop_last() =~= front_a);
        assert(front_b.push(digit(b % 10)).drop_last() =~= front_b);
        assert(front_a.push(digit(a % 10)).last() == digit(a % 10));
        lemma_digits_injective(a / 10, b / 10);
    }
}

/// Under one name, different numbers give different labels.
pub proof fn lemma_labels_differ(name: Seq<char>, a: nat, b: nat)
    requires
        a != b,
    ensures
        label(name, a) != label(name, b),
{
    if label(name, a) == label(name, b) {
        let head = name.push('-');
        assert((head + digits(a)).subrange(head.len() as int, (head + digits(a)).len() as int)
            =~= digits(a));
        assert((head + digits(b)).subrange(head.len() as int, (head + digits(b)).len() as int)
            =~= digits(b));
        lemma_digits_injective(a, b);
    }
}

} // verus!
