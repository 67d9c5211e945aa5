//! Units of time, measurements and comparisons with a baseline.
//!
//! A measurement's magnitude is a floating-point value. This module never
//! computes with it: a [`TimeUnit`] carries its bit pattern (so that the
//! caller can compute ratios later) and its two-decimal figure (so that widths
//! and rendering are decided here).

use vstd::prelude::*;
use vstd::string::*;
use crate::error::BuildError;
use crate::text::char_count;

verus! {

/// Longest text, in characters, accepted for a name or a figure. Any width
/// computed from a few such texts fits in `usize`.
pub const TEXT_LIMIT: usize = 0x0fff_ffff;

/// The five units a measurement can be expressed in.
#[derive(Clone, Copy, Debug, PartialEq, Eq, Structural)]
pub enum UnitScale {
    Second,
    Millisecond,
    Microsecond,
    Nanosecond,
    Picosecond,
}

/// The unit that a label names, if any.
pub open spec fn scale_of_label(label: Seq<char>) -> Option<UnitScale> {
    if label == seq!['s'] {
        Some(UnitScale::Second)
    } else if label == seq!['m', 's'] {
        Some(UnitScale::Millisecond)
    } else if label == seq!['u', 's'] {
        Some(UnitScale::Microsecond)
    } else if label == seq!['n', 's'] {
        Some(UnitScale::Nanosecond)
    } else if label == seq!['p', 's'] {
        Some(UnitScale::Picosecond)
    } else {
        None
    }
}

impl UnitScale {
    /// The suffix written after a figure in this unit.
    pub open spec fn suffix_spec(self) -> Seq<char> {
        match self {
            UnitScale::Second => seq!['s'],
            UnitScale::Millisecond => seq!['m', 's'],
            UnitScale::Microsecond => seq!['u', 's'],
            UnitScale::Nanosecond => seq!['n', 's'],
            UnitScale::Picosecond => seq!['p', 's'],
        }
    }

    /// The unit a thousand times larger; seconds are the largest.
    pub open spec fn larger_spec(self) -> Option<UnitScale> {
        match self {
            UnitScale::Second => None,
            UnitScale::Millisecond => Some(UnitScale::Second),
            UnitScale::Microsecond => Some(UnitScale::Millisecond),
            UnitScale::Nanosecond => Some(UnitScale::Microsecond),
            UnitScale::Picosecond => Some(UnitScale::Nanosecond),
        }
    }

    /// Picoseconds in one of this unit.
    pub open spec fn picoseconds_spec(self) -> nat {
        match self {
            UnitScale::Second => 1_000_000_000_000,
            UnitScale::Millisecond => 1_000_000_000,
            UnitScale::Microsecond => 1_000_000,
            UnitScale::Nanosecond => 1_000,
            UnitScale::Picosecond => 1,
        }
    }

    /// Reads a unit label; any label but the five known ones is an error
    /// that names it.
    pub fn try_from_label(label: &str) -> (r: Result<UnitScale, BuildError>)
        ensures
            match scale_of_label(label@) {
                Some(s) => r == Ok::<UnitScale, BuildError>(s),
                None => r matches Err(BuildError::UnrecognizedTimeUnit(l)) && l@ == label@,
            },
    {
        let n = char_count(label);
        if n == 1 && label.get_char(0) == 's' {
            assert(label@ =~= seq!['s']);
            return Ok(UnitScale::Second);
        }
        if n == 2 && label.get_char(1) == 's' {
            let c = label.get_char(0);
            if c == 'm' {
                assert(label@ =~= seq!['m', 's']);
                return Ok(UnitScale::Millisecond);
            } else if c == 'u' {
                assert(label@ =~= seq!['u', 's']);
                return Ok(UnitScale::Microsecond);
            } else if c == 'n' {
                assert(label@ =~= seq!['n', 's']);
                return Ok(UnitScale::Nanosecond);
            } else if c == 'p' {
                assert(label@ =~= seq!['p', 's']);
                return Ok(UnitScale::Picosecond);
            }
        }
        assert(label@ != seq!['s'] && label@ != seq!['m', 's'] && label@ != seq!['u', 's']
            && label@ != seq!['n', 's'] && label@ != seq!['p', 's']) by {
            if label@.len() == 1 {
                assert(seq!['s'][0] == 's');
            }
            if label@.len() == 2 {
                assert(seq!['m', 's'][0] == 'm' && seq!['m', 's'][1] == 's');
                assert(seq!['u', 's'][0] == 'u' && seq!['n', 's'][0] == 'n');
                assert(seq!['p', 's'][0] == 'p');
            }
        }
        Err(BuildError::UnrecognizedTimeUnit(label.to_owned()))
    }

    /// The suffix written after a figure in this unit.
    pub fn suffix(&self) -> (r: &'static str)
        ensures
            r@ == self.suffix_spec(),
    {
        match self {
            UnitScale::Second => {
                proof { reveal_strlit("s"); }
                "s"
            },
            UnitScale::Millisecond => {
                proof { reveal_strlit("ms"); }
                "ms"
            },
            UnitScale::Microsecond => {
                proof { reveal_strlit("us"); }
                "us"
            },
            UnitScale::Nanosecond => {
                proof { reveal_strlit("ns"); }
                "ns"
            },
            UnitScale::Picosecond => {
                proof { reveal_strlit("ps"); }
                "ps"
            },
        }
    }

    /// The unit a thousand times larger, used when a magnitude exceeds 1000;
    /// `None` for seconds.
    pub fn larger(&self) -> (r: Option<UnitScale>)
        ensures
            r == self.larger_spec(),
    {
        match self {
            UnitScale::Second => None,
            UnitScale::Millisecond => Some(UnitScale::Second),
            UnitScale::Microsecond => Some(UnitScale::Millisecond),
            UnitScale::Nanosecond => Some(UnitScale::Microsecond),
            UnitScale::Picosecond => Some(UnitScale::Nanosecond),
        }
    }

    /// Picoseconds in one of this unit: the common base of comparisons.
    pub fn picoseconds(&self) -> (r: u64)
        ensures
            r as nat == self.picoseconds_spec(),
    {
        match self {
            UnitScale::Second => 1_000_000_000_000,
            UnitScale::Millisecond => 1_000_000_000,
            UnitScale::Microsecond => 1_000_000,
            UnitScale::Nanosecond => 1_000,
            UnitScale::Picosecond => 1,
        }
    }
}

/// A measurement: a unit, the magnitude's bit pattern and its figure, the
/// magnitude written with two decimals (`"12.34"`).
#[derive(Debug)]
pub struct TimeUnit {
    pub scale: UnitScale,
    /// IEEE-754 bit pattern of the magnitude, carried and never interpreted here.
    pub magnitude_bits: u64,
    pub figure: String,
}

impl TimeUnit {
    pub open spec fn wf(&self) -> bool {
        self.figure@.len() <= TEXT_LIMIT
    }

    /// The rendering `"{figure} {suffix}"`.
    pub open spec fn text_spec(&self) -> Seq<char> {
        self.figure@ + seq![' '] + self.scale.suffix_spec()
    }

    pub fn new(scale: UnitScale, magnitude_bits: u64, figure: String) -> (r: TimeUnit)
        requires
            figure@.len() <= TEXT_LIMIT,
        ensures
            r == (TimeUnit { scale, magnitude_bits, figure }),
            r.wf(),
    {
        TimeUnit { scale, magnitude_bits, figure }
    }

    /// The rendering `"{figure} {suffix}"`, e.g. `"12.34 ns"`.
    pub fn to_text(&self) -> (r: String)
        ensures
            r@ == self.text_spec(),
    {
        let mut r = self.figure.clone();
        proof { reveal_strlit(" "); }
        r.append(" ");
        r.append(self.scale.suffix());
        r
    }

    /// Display width in characters of [`TimeUnit::to_text`].
    pub fn width(&self) -> (r: usize)
        requires
            self.wf(),
        ensures
            r == self.text_spec().len(),
            r <= TEXT_LIMIT + 3,
    {
        char_count(self.figure.as_str()) + 1 + char_count(self.scale.suffix())
    }
}

impl Clone for TimeUnit {
    fn clone(&self) -> (r: Self)
        ensures
            r == *self,
    {
        TimeUnit { scale: self.scale, magnitude_bits: self.magnitude_bits, figure: self.figure.clone() }
    }
}

/// How a measurement relates to its row's baseline.
#[derive(Clone, Copy, Debug, PartialEq, Eq, Structural)]
pub enum Direction {
    /// Ratio above one: the measurement is faster than the baseline.
    Faster,
    /// Ratio below one: slower; the figure is that of the inverted ratio.
    Slower,
    /// Ratio exactly one.
    Even,
}

/// The words written after `x` for a direction.
pub open spec fn qualifier(d: Direction) -> Seq<char> {
    match d {
        Direction::Faster => " faster"@,
        Direction::Slower => " slower"@,
        Direction::Even => Seq::empty(),
    }
}

/// A measurement compared with its row's baseline: the direction and the
/// figure of the ratio (inverted when slower), with two decimals.
#[derive(Debug)]
pub struct Comparison {
    pub direction: Direction,
    pub figure: String,
}

impl Comparison {
    pub open spec fn wf(&self) -> bool {
        self.figure@.len() <= TEXT_LIMIT
    }

    /// The comparison of a row's first column with itself: ratio one, `"1.00x"`.
    pub open spec fn is_baseline(&self) -> bool {
        self.direction == Direction::Even && self.figure@ == "1.00"@
    }

    /// `"{figure}x faster"`, `"{figure}x slower"` or `"{figure}x"`.
    pub open spec fn text_spec(&self) -> Seq<char> {
        self.figure@ + seq!['x'] + qualifier(self.direction)
    }

    pub fn new(direction: Direction, figure: String) -> (r: Comparison)
        requires
            figure@.len() <= TEXT_LIMIT,
        ensures
            r == (Comparison { direction, figure }),
            r.wf(),
    {
        Comparison { direction, figure }
    }

    /// The comparison of a row's first column with itself: a ratio of one.
    pub fn baseline() -> (r: Comparison)
        ensures
            r.is_baseline(),
            r.wf(),
    {
        proof { reveal_strlit("1.00"); }
        Comparison { direction: Direction::Even, figure: "1.00".to_owned() }
    }

    /// The rendering, e.g. `"10.00x faster"`.
    pub fn to_text(&self) -> (r: String)
        ensures
            r@ == self.text_spec(),
    {
        let mut r = self.figure.clone();
        proof { reveal_strlit("x"); }
        r.append("x");
        match self.direction {
            Direction::Faster => r.append(" faster"),
            Direction::Slower => r.append(" slower"),
            Direction::Even => {
                assert(r@ =~= r@ + qualifier(Direction::Even));
            },
        }
        r
    }

    /// Display width in characters of [`Comparison::to_text`].
    pub fn width(&self) -> (r: usize)
        requires
            self.wf(),
        ensures
            r == self.text_spec().len(),
            r <= TEXT_LIMIT + 8,
    {
        proof {
            reveal_strlit(" faster");
            reveal_strlit(" slower");
        }
        let extra: usize = match self.direction {
            Direction::Faster => 7,
            Direction::Slower => 7,
            Direction::Even => 0,
        };
        char_count(self.figure.as_str()) + 1 + extra
    }
}

impl Clone for Comparison {
    fn clone(&self) -> (r: Self)
        ensures
            r == *self,
    {
        Comparison { direction: self.direction, figure: self.figure.clone() }
    }
}

} // verus!
