use vstd::arithmetic::power::pow;
use vstd::prelude::*;

verus! {

/// The binary size units, each 1024 times the one before it.
#[derive(Debug, Clone, Copy, PartialEq, Eq, Structural)]
pub enum SizeUnit {
    Byte,
    Kilobyte,
    Megabyte,
    Gigabyte,
    Terabyte,
    Petabyte,
    Exabyte,
}

impl SizeUnit {
    /// The power of 1024 that the unit stands for.
    pub open spec fn exponent(self) -> nat {
        match self {
            SizeUnit::Byte => 0,
            SizeUnit::Kilobyte => 1,
            SizeUnit::Megabyte => 2,
            SizeUnit::Gigabyte => 3,
            SizeUnit::Terabyte => 4,
            SizeUnit::Petabyte => 5,
            SizeUnit::Exabyte => 6,
        }
    }

    /// The number of bytes in one unit: 1024 raised to the unit's exponent.
    pub open spec fn spec_multiplier(self) -> int {
        pow(1024, self.exponent())
    }

    /// The lower-case suffix that names the unit.
    pub open spec fn suffix(self) -> Seq<char> {
        match self {
            SizeUnit::Byte => seq!['b'],
            SizeUnit::Kilobyte => seq!['k', 'b'],
            SizeUnit::Megabyte => seq!['m', 'b'],
            SizeUnit::Gigabyte => seq!['g', 'b'],
            SizeUnit::Terabyte => seq!['t', 'b'],
            SizeUnit::Petabyte => seq!['p', 'b'],
            SizeUnit::Exabyte => seq!['e', 'b'],
        }
    }

    /// The unit that `text` names, if any. The comparison is exact: `text`
    /// is expected in lower case.
    pub open spec fn spec_from_suffix(text: Seq<char>) -> Option<SizeUnit> {
        if text == SizeUnit::Byte.suffix() {
            Some(SizeUnit::Byte)
        } else if text == SizeUnit::Kilobyte.suffix() {
            Some(SizeUnit::Kilobyte)
        } else if text == SizeUnit::Megabyte.suffix() {
            Some(SizeUnit::Megabyte)
        } else if text == SizeUnit::Gigabyte.suffix() {
            Some(SizeUnit::Gigabyte)
        } else if text == SizeUnit::Terabyte.suffix() {
            Some(SizeUnit::Terabyte)
        } else if text == SizeUnit::Petabyte.suffix() {
            Some(SizeUnit::Petabyte)
        } else if text == SizeUnit::Exabyte.suffix() {
            Some(SizeUnit::Exabyte)
        } else {
            None
        }
    }

    /// The number of bytes in one unit.
    pub fn multiplier(self) -> (m: i64)
        ensures
            m == self.spec_multiplier(),
    {
        proof {
            lemma_powers_of_1024();
        }
        match self {
            SizeUnit::Byte => 1,
            SizeUnit::Kilobyte => 1024,
            SizeUnit::Megabyte => 1048576,
            SizeUnit::Gigabyte => 1073741824,
            SizeUnit::Terabyte => 1099511627776,
            SizeUnit::Petabyte => 1125899906842624,
            SizeUnit::Exabyte => 1152921504606846976,
        }
    }

    /// Looks a lower-case suffix up in the unit table.
    pub fn from_suffix(text: &[char]) -> (unit: Option<SizeUnit>)
        ensures
            unit == SizeUnit::spec_from_suffix(text@),
    {
        if text.len() == 1 {
            if text[0] == 'b' {
                assert(text@ =~= seq!['b']);
                Some(SizeUnit::Byte)
            } else {
                None
            }
        } else if text.len() == 2 && text[1] == 'b' {
            let letter = text[0];
            assert(text@ =~= seq![letter, 'b']);
            if letter == 'k' {
                Some(SizeUnit::Kilobyte)
            } else if letter == 'm' {
                Some(SizeUnit::Megabyte)
            } else if letter == 'g' {
                Some(SizeUnit::Gigabyte)
            } else if letter == 't' {
                Some(SizeUnit::Terabyte)
            } else if letter == 'p' {
                Some(SizeUnit::Petabyte)
            } else if letter == 'e' {
                Some(SizeUnit::Exabyte)
            } else {
                None
            }
        } else {
            None
        }
    }
}

/// The unit table is exact: a text names a unit if and only if it is that
/// unit's suffix, so no two units share a suffix.
pub proof fn lemma_suffix_names_unit(unit: SizeUnit, text: Seq<char>)
    ensures
        SizeUnit::spec_from_suffix(text) == Some(unit) <==> text == unit.suffix(),
{
    // The first letter tells the suffix of one unit from that of another.
    assert(unit != SizeUnit::Byte ==> unit.suffix()[0] != 'b');
}

/// Every multiplier is positive and fits a signed 64-bit integer.
pub proof fn lemma_multiplier_range(unit: SizeUnit)
    ensures
        1 <= unit.spec_multiplier() <= 1152921504606846976,
{
    lemma_powers_of_1024();
}

/// The first seven powers of 1024, written out.
pub proof fn lemma_powers_of_1024()
    ensures
        pow(1024, 0) == 1,
        pow(1024, 1) == 1024,
        pow(1024, 2) == 1048576,
        pow(1024, 3) == 1073741824,
        pow(1024, 4) == 1099511627776,
        pow(1024, 5) == 1125899906842624,
        pow(1024, 6) == 1152921504606846976,
{
    reveal_with_fuel(pow, 8);
}

} // verus!
