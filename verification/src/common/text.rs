//! Building message text: appending string slices and decimal numbers.
use vstd::prelude::*;
use crate::common::utils::string_push;
use crate::common::types::{Bandwidth, SubcarrierSpacing};

verus! {

broadcast use vstd::string::axiom_spec_iter;

/// The decimal digit character of `d < 10`.
pub open spec fn digit_char(d: nat) -> char {
    (48 + d) as char
}

/// The decimal representation of `n`, most significant digit first, with
/// no leading zeros ("0" for zero).
pub open spec fn decimal(n: nat) -> Seq<char>
    decreases n,
{
    if n < 10 {
        seq![digit_char(n)]
    } else {
        decimal(n / 10).push(digit_char(n % 10))
    }
}

/// Appends a string slice.
pub fn push_str(s: &mut String, t: &str)
    ensures
        final(s)@ == old(s)@ + t@,
{
    let ghost start = s@;
    for c in iter: t.chars()
        invariant
            s@ == start + iter.seq().take(iter.index() as int),
            iter.seq() == t@,
    {
        string_push(s, c);
        assert(iter.seq().take(iter.index() + 1) =~= iter.seq().take(iter.index() as int).push(c));
    }
    assert(t@.take(t@.len() as int) =~= t@);
}

/// The character of a decimal digit.
fn decimal_digit(d: u64) -> (c: char)
    requires
        d < 10,
    ensures
        c == digit_char(d as nat),
{
    match d {
        0 => '0',
        1 => '1',
        2 => '2',
        3 => '3',
        4 => '4',
        5 => '5',
        6 => '6',
        7 => '7',
        8 => '8',
        _ => '9',
    }
}

/// Appends the decimal representation of `n`.
pub fn push_decimal(s: &mut String, n: u64)
    ensures
        final(s)@ == old(s)@ + decimal(n as nat),
    decreases n,
{
    if n >= 10 {
        push_decimal(s, n / 10);
    }
    let c = decimal_digit(n % 10);
    string_push(s, c);
    proof {
        if n >= 10 {
            assert(decimal(n as nat) == decimal((n / 10) as nat).push(digit_char((n % 10) as nat)));
        } else {
            assert(decimal(n as nat) == seq![digit_char(n as nat)]);
        }
    }
    assert(s@ =~= old(s)@ + decimal(n as nat));
}

/// The variant name of a bandwidth, as its `Debug` form prints it.
pub open spec fn bandwidth_name_spec(bw: Bandwidth) -> Seq<char> {
    match bw {
        Bandwidth::Bw5 => "Bw5"@,
        Bandwidth::Bw10 => "Bw10"@,
        Bandwidth::Bw15 => "Bw15"@,
        Bandwidth::Bw20 => "Bw20"@,
        Bandwidth::Bw25 => "Bw25"@,
        Bandwidth::Bw30 => "Bw30"@,
        Bandwidth::Bw40 => "Bw40"@,
        Bandwidth::Bw50 => "Bw50"@,
        Bandwidth::Bw60 => "Bw60"@,
        Bandwidth::Bw80 => "Bw80"@,
        Bandwidth::Bw100 => "Bw100"@,
    }
}

/// The variant name of a bandwidth, as its `Debug` form prints it.
pub fn bandwidth_name(bw: Bandwidth) -> (s: &'static str)
    ensures
        s@ == bandwidth_name_spec(bw),
{
    match bw {
        Bandwidth::Bw5 => "Bw5",
        Bandwidth::Bw10 => "Bw10",
        Bandwidth::Bw15 => "Bw15",
        Bandwidth::Bw20 => "Bw20",
        Bandwidth::Bw25 => "Bw25",
        Bandwidth::Bw30 => "Bw30",
        Bandwidth::Bw40 => "Bw40",
        Bandwidth::Bw50 => "Bw50",
        Bandwidth::Bw60 => "Bw60",
        Bandwidth::Bw80 => "Bw80",
        Bandwidth::Bw100 => "Bw100",
    }
}

/// The variant name of a subcarrier spacing, as its `Debug` form prints it.
pub open spec fn scs_name_spec(scs: SubcarrierSpacing) -> Seq<char> {
    match scs {
        SubcarrierSpacing::Scs15 => "Scs15"@,
        SubcarrierSpacing::Scs30 => "Scs30"@,
        SubcarrierSpacing::Scs60 => "Scs60"@,
        SubcarrierSpacing::Scs120 => "Scs120"@,
        SubcarrierSpacing::Scs240 => "Scs240"@,
    }
}

/// The variant name of a subcarrier spacing, as its `Debug` form prints it.
pub fn scs_name(scs: SubcarrierSpacing) -> (s: &'static str)
    ensures
        s@ == scs_name_spec(scs),
{
    match scs {
        SubcarrierSpacing::Scs15 => "Scs15",
        SubcarrierSpacing::Scs30 => "Scs30",
        SubcarrierSpacing::Scs60 => "Scs60",
        SubcarrierSpacing::Scs120 => "Scs120",
        SubcarrierSpacing::Scs240 => "Scs240",
    }
}

} // verus!
