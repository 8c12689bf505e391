//! The names under which metadata and tensors are looked up.

use vstd::prelude::*;
use vstd::string::{StrSliceExecFns, StringExecFns};

verus! {

/// The decimal digit of a number below ten.
pub open spec fn digit(n: nat) -> char {
    "0123456789"@[n as int]
}

/// A number in decimal, without leading zeros.
pub open spec fn decimal(n: nat) -> Seq<char>
    decreases n,
{
    if n < 10 {
        seq![digit(n)]
    } else {
        decimal(n / 10).push(digit(n % 10))
    }
}

/// The metadata key of an architecture's parameter.
pub open spec fn arch_key(arch: Seq<char>, parameter: Seq<char>) -> Seq<char> {
    arch + "."@ + parameter
}

/// The prefix of the tensors of one decoder layer.
pub open spec fn layer_prefix(index: nat) -> Seq<char> {
    "blk."@ + decimal(index)
}

/// Writes `n` in decimal.
pub fn decimal_string(n: usize) -> (text: String)
    ensures
        text@ == decimal(n as nat),
    decreases n,
{
    proof {
        reveal_strlit("0123456789");
    }
    let last: usize = n % 10;
    let shown = "0123456789".substring_ascii(last, last + 1);
    if n < 10 {
        let text = shown.to_owned();
        assert(text@ =~= seq![digit(n as nat)]);
        text
    } else {
        let mut text = decimal_string(n / 10);
        text.append(shown);
        assert(text@ =~= decimal((n / 10) as nat).push(digit((n % 10) as nat)));
        text
    }
}

/// The metadata key of `parameter` for the architecture `arch`.
pub fn arch_key_string(arch: &str, parameter: &str) -> (key: String)
    ensures
        key@ == arch_key(arch@, parameter@),
{
    let mut key = arch.to_owned();
    key.append(".");
    key.append(parameter);
    key
}

/// The prefix of the tensors of the layer `index`.
pub fn layer_prefix_string(index: usize) -> (prefix: String)
    ensures
        prefix@ == layer_prefix(index as nat),
{
    let mut prefix = "blk.".to_owned();
    let number = decimal_string(index);
    prefix.append(number.as_str());
    prefix
}

/// A number below ten is written as its digit, and one that is not as its tenth part, rounded down,
/// and its last digit behind it.
pub proof fn digits_are_written_from_the_left(n: nat)
    ensures
        n < 10 ==> decimal(n) == seq![('0' as int + n) as char],
        n >= 10 ==> decimal(n) == decimal(n / 10) + seq![('0' as int + n % 10) as char],
{
    reveal_strlit("0123456789");
    assert(digit(n % 10) == ('0' as int + n % 10) as char);
    if n >= 10 {
        assert(decimal(n) =~= decimal(n / 10) + seq![('0' as int + n % 10) as char]);
    }
}

/// The tensors of a layer stand under its number in decimal, and the metadata of an architecture
/// under its name.
pub proof fn names_are_put_together(index: nat, arch: Seq<char>, parameter: Seq<char>)
    ensures
        layer_prefix(index) == seq!['b', 'l', 'k', '.'] + decimal(index),
        arch_key(arch, parameter) == arch + seq!['.'] + parameter,
{
    reveal_strlit("blk.");
    reveal_strlit(".");
    assert("blk."@ =~= seq!['b', 'l', 'k', '.']);
    assert("."@ =~= seq!['.']);
}

/// No two numbers are written alike, so no two layers share a prefix.
pub proof fn layer_prefixes_differ(i: nat, j: nat)
    requires
        layer_prefix(i) == layer_prefix(j),
    ensures
        i == j,
{
    assert(decimal(i) =~= layer_prefix(i).skip("blk."@.len() as int));
    assert(decimal(j) =~= layer_prefix(j).skip("blk."@.len() as int));
    decimal_is_injective(i, j);
}

/// A number can be read back from its digits.
proof fn decimal_is_injective(i: nat, j: nat)
    requires
        decimal(i) == decimal(j),
    ensures
        i == j,
    decreases i,
{
    reveal_strlit("0123456789");
    assert(decimal(i).last() == digit(i % 10));
    assert(decimal(j).last() == digit(j % 10));
    if i < 10 && j < 10 {
    } else if i < 10 {
        decimal_is_nonempty(j / 10);
    } else if j < 10 {
        decimal_is_nonempty(i / 10);
    } else {
        assert(decimal(i).drop_last() =~= decimal(i / 10));
        assert(decimal(j).drop_last() =~= decimal(j / 10));
        decimal_is_injective(i / 10, j / 10);
    }
}

/// Every number has a digit.
proof fn decimal_is_nonempty(n: nat)
    ensures
        decimal(n).len() > 0,
{
}

} // verus!
