use vstd::prelude::*;

use crate::solver::recreate::best_insertion::BestInsertionSortStrategy;
use vstd::string::StringExecFns;

verus! {

/// How a ruined solution is rebuilt.
#[derive(Clone, Copy, Debug, PartialEq, Eq, Hash, Structural)]
pub enum RecreateStrategy {
    CompleteBestInsertion,
    BestInsertion(BestInsertionSortStrategy),
    RegretInsertion(usize),
}

/// The character of the decimal digit `d`.
pub open spec fn digit_char(d: int) -> char {
    if d == 0 {
        '0'
    } else if d == 1 {
        '1'
    } else if d == 2 {
        '2'
    } else if d == 3 {
        '3'
    } else if d == 4 {
        '4'
    } else if d == 5 {
        '5'
    } else if d == 6 {
        '6'
    } else if d == 7 {
        '7'
    } else if d == 8 {
        '8'
    } else {
        '9'
    }
}

/// `n` written in decimal, without leading zeros.
pub open spec fn decimal(n: nat) -> Seq<char>
    decreases n,
{
    if n < 10 {
        seq![digit_char(n as int)]
    } else {
        decimal(n / 10).push(digit_char((n % 10) as int))
    }
}

impl RecreateStrategy {
    /// The name of the strategy, with its sort order or its regret level.
    pub open spec fn spec_name(&self) -> Seq<char> {
        match self {
            RecreateStrategy::CompleteBestInsertion => "CompleteBestInsertion"@,
            RecreateStrategy::BestInsertion(sort) => "BestInsertion("@ + sort.spec_name() + ")"@,
            RecreateStrategy::RegretInsertion(k) => "RegretInsertion("@ + decimal(*k as nat)
                + ")"@,
        }
    }

    /// The name of the strategy, as `BestInsertion(Far)` or
    /// `RegretInsertion(2)`.
    pub fn name(&self) -> (r: String)
        ensures
            r@ == self.spec_name(),
    {
        let mut s = String::new();
        match self {
            RecreateStrategy::CompleteBestInsertion => {
                s.append("CompleteBestInsertion");
            },
            RecreateStrategy::BestInsertion(sort) => {
                s.append("BestInsertion(");
                s.append(sort.name());
                s.append(")");
            },
            RecreateStrategy::RegretInsertion(k) => {
                s.append("RegretInsertion(");
                push_decimal(&mut s, *k);
                s.append(")");
            },
        }
        s
    }
}

/// Appends `n` in decimal to `s`.
fn push_decimal(s: &mut String, n: usize)
    ensures
        final(s)@ == old(s)@ + decimal(n as nat),
    decreases n,
{
    if n >= 10 {
        push_decimal(s, n / 10);
    }
    push_char(s, digit(n % 10));
    proof {
        if n < 10 {
            assert(n % 10 == n);
        }
        assert(final(s)@ =~= old(s)@ + decimal(n as nat));
    }
}

/// The character of the decimal digit `d`.
fn digit(d: usize) -> (c: char)
    requires
        d < 10,
    ensures
        c == digit_char(d as int),
{
    if d == 0 {
        '0'
    } else if d == 1 {
        '1'
    } else if d == 2 {
        '2'
    } else if d == 3 {
        '3'
    } else if d == 4 {
        '4'
    } else if d == 5 {
        '5'
    } else if d == 6 {
        '6'
    } else if d == 7 {
        '7'
    } else if d == 8 {
        '8'
    } else {
        '9'
    }
}

/// `String::push` of std: appends the character to the end of the string.
#[verifier::external_body]
fn push_char(s: &mut String, c: char)
    ensures
        final(s)@ == old(s)@.push(c),
{
    s.push(c);
}

} // verus!
