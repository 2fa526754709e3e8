//! The branch vocabulary: the three reserved branches and the numbered families
//! `a-<n>`, `b-<n>` and `p-<n>`.
use vstd::prelude::*;
use vstd::string::{StrSliceExecFns, StringExecFns};

use crate::codec::str_equal;

verus! {

pub const FINALIZED_BRANCH_NAME: &'static str = "finalized";

pub const WORK_BRANCH_NAME: &'static str = "work";

pub const FP_BRANCH_NAME: &'static str = "fp";

pub open spec fn finalized_spec() -> Seq<char> {
    seq!['f', 'i', 'n', 'a', 'l', 'i', 'z', 'e', 'd']
}

pub open spec fn work_spec() -> Seq<char> {
    seq!['w', 'o', 'r', 'k']
}

pub open spec fn fp_spec() -> Seq<char> {
    seq!['f', 'p']
}

/// Whether a branch name is one of `finalized`, `work` and `fp`.
pub open spec fn is_reserved_spec(name: Seq<char>) -> bool {
    name == finalized_spec() || name == work_spec() || name == fp_spec()
}

/// The name of the `finalized` branch.
pub fn finalized_branch() -> (r: &'static str)
    ensures
        r@ == finalized_spec(),
{
    proof {
        reveal_strlit("finalized");
    }
    "finalized"
}

/// The name of the `work` branch.
pub fn work_branch() -> (r: &'static str)
    ensures
        r@ == work_spec(),
{
    proof {
        reveal_strlit("work");
    }
    "work"
}

/// The name of the `fp` branch.
pub fn fp_branch() -> (r: &'static str)
    ensures
        r@ == fp_spec(),
{
    proof {
        reveal_strlit("fp");
    }
    "fp"
}

/// Whether a branch name is one of the three reserved ones.
pub fn is_reserved(name: &str) -> (r: bool)
    ensures
        r == is_reserved_spec(name@),
{
    str_equal(name, finalized_branch()) || str_equal(name, work_branch()) || str_equal(
        name,
        fp_branch(),
    )
}

/// A numbered family of branches.
#[derive(Clone, Copy, Debug, PartialEq, Eq, Structural)]
pub enum Family {
    /// `a-<n>`: a candidate agenda chain.
    Agenda,
    /// `b-<n>`: a block chain whose proof did not validate.
    Block,
    /// `p-<n>`: a pre-commit chain.
    PreCommit,
}

pub open spec fn family_letter(f: Family) -> char {
    match f {
        Family::Agenda => 'a',
        Family::Block => 'b',
        Family::PreCommit => 'p',
    }
}

pub open spec fn digit_char(d: nat) -> char {
    if d == 0 {
        '0'
    } else if d == 1 {
        '1'
    } else if d == 2 {
        '2'
    } else if d == 3 {
        '3'
    } else if d == 4 {
        '4'
    } else if d == 5 {
        '5'
    } else if d == 6 {
        '6'
    } else if d == 7 {
        '7'
    } else if d == 8 {
        '8'
    } else {
        '9'
    }
}

pub open spec fn is_digit(c: char) -> bool {
    '0' <= c && c <= '9'
}

pub open spec fn digit_value(c: char) -> int {
    c as u32 as int - 48
}

/// The decimal form of `n`, without leading zeros.
pub open spec fn decimal_of(n: nat) -> Seq<char>
    decreases n,
{
    if n < 10 {
        seq![digit_char(n)]
    } else {
        decimal_of(n / 10).push(digit_char(n % 10))
    }
}

/// The number that a string of digits writes.
pub open spec fn decimal_value(s: Seq<char>) -> int
    decreases s.len(),
{
    if s.len() == 0 {
        0
    } else {
        decimal_value(s.drop_last()) * 10 + digit_value(s.last())
    }
}

pub open spec fn all_digits(s: Seq<char>) -> bool {
    forall|i: int| 0 <= i < s.len() ==> is_digit(#[trigger] s[i])
}

/// The name of member `n` of a family: its letter, a dash, and `n` in decimal.
pub open spec fn family_name(f: Family, n: nat) -> Seq<char> {
    seq![family_letter(f), '-'] + decimal_of(n)
}

/// The index of a member of the family, if `name` is one.
pub open spec fn family_index_spec(f: Family, name: Seq<char>) -> Option<nat> {
    if name.len() >= 3 && name[0] == family_letter(f) && name[1] == '-' && all_digits(
        name.subrange(2, name.len() as int),
    ) {
        Some(decimal_value(name.subrange(2, name.len() as int)) as nat)
    } else {
        None
    }
}

/// The largest index in use in a family among `names` that fits in a `u64`, or zero.
pub open spec fn max_family_index(f: Family, names: Seq<Seq<char>>) -> nat
    decreases names.len(),
{
    if names.len() == 0 {
        0
    } else {
        let rest = max_family_index(f, names.drop_last());
        match family_index_spec(f, names.last()) {
            Some(v) => if v <= u64::MAX && v > rest {
                v
            } else {
                rest
            },
            None => rest,
        }
    }
}

proof fn lemma_digit_char(d: nat)
    requires
        d < 10,
    ensures
        is_digit(digit_char(d)),
        digit_value(digit_char(d)) == d,
{
}

proof fn lemma_decimal_value_nonneg(s: Seq<char>)
    requires
        all_digits(s),
    ensures
        decimal_value(s) >= 0,
    decreases s.len(),
{
    if s.len() > 0 {
        lemma_decimal_value_nonneg(s.drop_last());
    }
}

/// Reading back the decimal form of `n` gives `n`.
pub proof fn lemma_decimal_round_trip(n: nat)
    ensures
        all_digits(decimal_of(n)),
        decimal_value(decimal_of(n)) == n,
        decimal_of(n).len() >= 1,
    decreases n,
{
    if n < 10 {
        lemma_digit_char(n);
        assert(decimal_of(n).drop_last() =~= Seq::<char>::empty());
        assert(decimal_value(decimal_of(n).drop_last()) == 0);
    } else {
        lemma_decimal_round_trip(n / 10);
        lemma_digit_char(n % 10);
        let s = decimal_of(n);
        assert(s.drop_last() =~= decimal_of(n / 10));
        assert(s.last() == digit_char(n % 10));
        assert(decimal_value(s) == decimal_value(decimal_of(n / 10)) * 10 + digit_value(
            digit_char(n % 10),
        ));
        assert((n / 10) * 10 + n % 10 == n) by (nonlinear_arith);
        assert forall|i: int| 0 <= i < s.len() implies is_digit(#[trigger] s[i]) by {
            if i < s.len() - 1 {
                assert(s[i] == decimal_of(n / 10)[i]);
            }
        }
    }
}

/// The index of a family member's name is the number it was made with.
pub proof fn lemma_family_name_round_trip(f: Family, n: nat)
    ensures
        family_index_spec(f, family_name(f, n)) == Some(n),
{
    lemma_decimal_round_trip(n);
    let name = family_name(f, n);
    assert(name.subrange(2, name.len() as int) =~= decimal_of(n));
}

/// A name allocated as one past the largest index in use is not in use.
pub proof fn lemma_allocated_name_is_fresh(f: Family, names: Seq<Seq<char>>, i: int)
    requires
        0 <= i < names.len(),
        max_family_index(f, names) < u64::MAX,
    ensures
        names[i] != family_name(f, max_family_index(f, names) + 1),
{
    lemma_max_family_index_bounds(f, names, i);
    lemma_family_name_round_trip(f, max_family_index(f, names) + 1);
}

proof fn lemma_max_family_index_bounds(f: Family, names: Seq<Seq<char>>, i: int)
    requires
        0 <= i < names.len(),
    ensures
        max_family_index(f, names) <= u64::MAX,
        match family_index_spec(f, names[i]) {
            Some(v) => v <= u64::MAX ==> v <= max_family_index(f, names),
            None => true,
        },
    decreases names.len(),
{
    if names.len() > 1 {
        let j = if i < names.len() - 1 {
            i
        } else {
            0
        };
        lemma_max_family_index_bounds(f, names.drop_last(), j);
        if i < names.len() - 1 {
            assert(names.drop_last()[i] == names[i]);
        }
    } else {
        assert(names.drop_last().len() == 0);
        assert(max_family_index(f, names.drop_last()) == 0);
    }
}

fn family_prefix(f: Family) -> (r: &'static str)
    ensures
        r@ == seq![family_letter(f), '-'],
{
    match f {
        Family::Agenda => {
            proof {
                reveal_strlit("a-");
            }
            "a-"
        },
        Family::Block => {
            proof {
                reveal_strlit("b-");
            }
            "b-"
        },
        Family::PreCommit => {
            proof {
                reveal_strlit("p-");
            }
            "p-"
        },
    }
}

fn digit_str(d: u64) -> (r: &'static str)
    requires
        d < 10,
    ensures
        r@ == seq![digit_char(d as nat)],
{
    if d == 0 {
        proof { reveal_strlit("0"); }
        "0"
    } else if d == 1 {
        proof { reveal_strlit("1"); }
        "1"
    } else if d == 2 {
        proof { reveal_strlit("2"); }
        "2"
    } else if d == 3 {
        proof { reveal_strlit("3"); }
        "3"
    } else if d == 4 {
        proof { reveal_strlit("4"); }
        "4"
    } else if d == 5 {
        proof { reveal_strlit("5"); }
        "5"
    } else if d == 6 {
        proof { reveal_strlit("6"); }
        "6"
    } else if d == 7 {
        proof { reveal_strlit("7"); }
        "7"
    } else if d == 8 {
        proof { reveal_strlit("8"); }
        "8"
    } else {
        proof { reveal_strlit("9"); }
        "9"
    }
}

/// `n` in decimal.
pub fn decimal(n: u64) -> (r: String)
    ensures
        r@ == decimal_of(n as nat),
    decreases n,
{
    if n < 10 {
        String::from_str(digit_str(n))
    } else {
        let mut s = decimal(n / 10);
        s.append(digit_str(n % 10));
        proof {
            assert(s@ =~= decimal_of(n as nat));
        }
        s
    }
}

/// The name of member `n` of a family.
pub fn family_branch_name(f: Family, n: u64) -> (r: String)
    ensures
        r@ == family_name(f, n as nat),
{
    let mut s = String::from_str(family_prefix(f));
    let d = decimal(n);
    s.append(d.as_str());
    s
}

/// The index of a family member, if `name` is one and its index fits in a `u64`.
pub fn family_index(f: Family, name: &str) -> (r: Option<u64>)
    ensures
        match family_index_spec(f, name@) {
            Some(v) => if v <= u64::MAX {
                r == Some(v as u64)
            } else {
                r is None
            },
            None => r is None,
        },
{
    let n = name.unicode_len();
    let letter = match f {
        Family::Agenda => 'a',
        Family::Block => 'b',
        Family::PreCommit => 'p',
    };
    if n < 3 || name.get_char(0) != letter || name.get_char(1) != '-' {
        return None;
    }
    let ghost digits = name@.subrange(2, n as int);
    let mut value: u64 = 0;
    let mut fits = true;
    let mut i: usize = 2;
    while i < n
        invariant
            n == name@.len(),
            2 <= i <= n,
            digits == name@.subrange(2, n as int),
            all_digits(name@.subrange(2, i as int)),
            fits ==> value == decimal_value(name@.subrange(2, i as int)),
            !fits ==> decimal_value(name@.subrange(2, i as int)) > u64::MAX,
        decreases n - i,
    {
        let c = name.get_char(i);
        if !('0' <= c && c <= '9') {
            proof {
                assert(digits[i - 2] == c);
            }
            return None;
        }
        let d = (c as u32 - 48) as u64;
        proof {
            let pre = name@.subrange(2, i as int);
            let next = name@.subrange(2, i + 1);
            assert(next.drop_last() =~= pre);
            assert(next.last() == c);
            assert(all_digits(next));
            lemma_decimal_value_nonneg(pre);
        }
        if fits {
            if value > (u64::MAX - d) / 10 {
                fits = false;
                proof {
                    assert(decimal_value(name@.subrange(2, i + 1)) > u64::MAX) by (nonlinear_arith)
                        requires
                            decimal_value(name@.subrange(2, i + 1)) == value * 10 + d,
                            value > (u64::MAX - d) / 10,
                            d <= 9,
                    ;
                }
            } else {
                proof {
                    assert(value * 10 + d <= u64::MAX) by (nonlinear_arith)
                        requires
                            value <= (u64::MAX - d) / 10,
                            d <= 9,
                    ;
                }
                value = value * 10 + d;
            }
        } else {
            proof {
                lemma_decimal_value_nonneg(name@.subrange(2, i as int));
                assert(decimal_value(name@.subrange(2, i + 1)) > u64::MAX) by (nonlinear_arith)
                    requires
                        decimal_value(name@.subrange(2, i + 1)) == decimal_value(
                            name@.subrange(2, i as int),
                        ) * 10 + d,
                        decimal_value(name@.subrange(2, i as int)) > u64::MAX,
                        d <= 9,
                ;
            }
        }
        i = i + 1;
    }
    if fits {
        Some(value)
    } else {
        None
    }
}

/// The index for a new member of a family: one past the largest index in use among
/// `branches`, or `None` if that largest index is `u64::MAX`.
pub fn next_family_index(f: Family, branches: &Vec<String>) -> (r: Option<u64>)
    ensures
        ({
            let m = max_family_index(f, branches@.map_values(|s: String| s@));
            if m < u64::MAX {
                r == Some((m + 1) as u64)
            } else {
                r is None
            }
        }),
{
    let ghost names = branches@.map_values(|s: String| s@);
    let mut max: u64 = 0;
    let mut i: usize = 0;
    while i < branches.len()
        invariant
            i <= branches@.len(),
            names == branches@.map_values(|s: String| s@),
            max == max_family_index(f, names.subrange(0, i as int)),
        decreases branches@.len() - i,
    {
        let idx = family_index(f, branches[i].as_str());
        proof {
            assert(names.subrange(0, i + 1).drop_last() =~= names.subrange(0, i as int));
            assert(names.subrange(0, i + 1).last() == branches@[i as int]@);
        }
        match idx {
            Some(v) => {
                if v > max {
                    max = v;
                }
            },
            None => {},
        }
        i = i + 1;
    }
    proof {
        assert(names.subrange(0, branches@.len() as int) =~= names);
    }
    if max < u64::MAX {
        Some(max + 1)
    } else {
        None
    }
}

} // verus!
