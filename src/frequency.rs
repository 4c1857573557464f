use vstd::prelude::*;
use vstd::string::*;

verus! {

/// The unit of a clock frequency.
#[derive(Clone, Copy, Debug, PartialEq, Eq, Structural)]
pub enum FrequencyUnit {
    KHz,
    MHz,
    GHz,
}

/// A target clock frequency. The magnitude is kept as the bit pattern of an
/// IEEE-754 single-precision number, which this library never interprets.
#[derive(Clone, Copy, Debug, PartialEq, Eq, Structural)]
pub struct Frequency {
    pub unit: FrequencyUnit,
    pub magnitude_bits: u32,
}

impl FrequencyUnit {
    /// The text that ends a frequency in this unit: one space and the unit's name.
    pub open spec fn suffix(self) -> Seq<char> {
        match self {
            FrequencyUnit::KHz => seq![' ', 'K', 'H', 'z'],
            FrequencyUnit::MHz => seq![' ', 'M', 'H', 'z'],
            FrequencyUnit::GHz => seq![' ', 'G', 'H', 'z'],
        }
    }

    fn suffix_str(&self) -> (r: &'static str)
        ensures
            r@ == self.suffix(),
    {
        proof {
            reveal_strlit(" KHz");
            reveal_strlit(" MHz");
            reveal_strlit(" GHz");
        }
        match self {
            FrequencyUnit::KHz => " KHz",
            FrequencyUnit::MHz => " MHz",
            FrequencyUnit::GHz => " GHz",
        }
    }
}

pub open spec fn ends_with(s: Seq<char>, suffix: Seq<char>) -> bool {
    suffix.len() <= s.len() && s.subrange(s.len() - suffix.len(), s.len() as int) == suffix
}

/// The unit that `text` ends in, trying kilo, then mega, then giga.
pub open spec fn unit_of(text: Seq<char>) -> Option<FrequencyUnit> {
    if ends_with(text, FrequencyUnit::KHz.suffix()) {
        Some(FrequencyUnit::KHz)
    } else if ends_with(text, FrequencyUnit::MHz.suffix()) {
        Some(FrequencyUnit::MHz)
    } else if ends_with(text, FrequencyUnit::GHz.suffix()) {
        Some(FrequencyUnit::GHz)
    } else {
        None
    }
}

fn str_ends_with(s: &str, suffix: &str) -> (r: bool)
    ensures
        r == ends_with(s@, suffix@),
{
    let n = s.unicode_len();
    let m = suffix.unicode_len();
    if m > n {
        return false;
    }
    let mut i: usize = 0;
    while i < m
        invariant
            m == suffix@.len(),
            n == s@.len(),
            m <= n,
            i <= m,
            forall|k: int| 0 <= k < i ==> s@[n - m + k] == suffix@[k],
        decreases m - i,
    {
        if s.get_char(n - m + i) != suffix.get_char(i) {
            proof {
                assert(s@.subrange(n - m, n as int)[i as int] != suffix@[i as int]);
            }
            return false;
        }
        i = i + 1;
    }
    proof {
        assert(s@.subrange(n - m, n as int) =~= suffix@);
    }
    true
}

/// Splits `"<magnitude> <unit>"` into its unit and the text before the space.
/// Text that ends in no known unit gives `None`.
pub fn split_frequency_text(text: &str) -> (r: Option<(FrequencyUnit, &str)>)
    ensures
        r is Some <==> unit_of(text@) is Some,
        r matches Some((u, m)) ==> u == unit_of(text@)->0 && m@ + u.suffix() == text@,
{
    let units = [FrequencyUnit::KHz, FrequencyUnit::MHz, FrequencyUnit::GHz];
    let mut i: usize = 0;
    while i < 3
        invariant
            i <= 3,
            units@ == seq![FrequencyUnit::KHz, FrequencyUnit::MHz, FrequencyUnit::GHz],
            forall|k: int| 0 <= k < i ==> !ends_with(text@, (#[trigger] units@[k]).suffix()),
        decreases 3 - i,
    {
        let unit = units[i];
        let suffix = unit.suffix_str();
        if str_ends_with(text, suffix) {
            let n = text.unicode_len();
            let magnitude = text.substring_char(0, n - 4);
            proof {
                assert(magnitude@ + unit.suffix() =~= text@);
            }
            return Some((unit, magnitude));
        }
        i = i + 1;
    }
    None
}

} // verus!
