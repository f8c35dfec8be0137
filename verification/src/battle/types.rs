//! Values shared by the Destiny battle resolvers.
use crate::text::push_str;
use vstd::prelude::*;

verus! {

/// A signed fixed-point value in tenths of a percent:
/// `FixedTenths(45)` is 4.5%.
#[derive(Clone, Copy, Debug, Default, PartialEq, Eq, Structural)]
pub struct FixedTenths(pub i64);

/// `a / b` as Rust's integer division computes it: truncated toward zero.
pub open spec fn div_trunc(a: int, b: int) -> int {
    if a >= 0 {
        a / b
    } else {
        -((-a) / b)
    }
}

/// The share of `base` that `tenths` tenths of a percent make, truncated
/// toward zero.
pub open spec fn percent_of(tenths: int, base: int) -> int {
    div_trunc(base * tenths, 1000)
}

impl FixedTenths {
    /// The sum, or `Overflow` when it leaves `i64`.
    pub fn checked_add(self, other: Self) -> (r: Result<Self, DestinyResolveError>)
        ensures
            match r {
                Ok(v) => v.0 == self.0 + other.0,
                Err(e) => e is Overflow && !(i64::MIN <= self.0 + other.0 <= i64::MAX),
            },
    {
        match self.0.checked_add(other.0) {
            Some(v) => Ok(FixedTenths(v)),
            None => Err(DestinyResolveError::Overflow),
        }
    }

    /// The share of `base` that this percentage makes, truncated toward zero;
    /// `Overflow` when `base * self` leaves `i64` or the share leaves `i32`.
    pub fn floor_percent_of(self, base: i32) -> (r: Result<i32, DestinyResolveError>)
        ensures
            match r {
                Ok(v) => v == percent_of(self.0 as int, base as int),
                Err(e) => e is Overflow && (!(i64::MIN <= base * self.0 <= i64::MAX) || !(i32::MIN
                    <= percent_of(self.0 as int, base as int) <= i32::MAX)),
            },
    {
        let scaled = match (base as i64).checked_mul(self.0) {
            Some(v) => v,
            None => return Err(DestinyResolveError::Overflow),
        };
        let value = scaled / 1000;
        assert(value == div_trunc(scaled as int, 1000)) by {
            if scaled < 0 {
                assert((-scaled) / 1000 >= 0) by (nonlinear_arith)
                    requires
                        scaled < 0,
                ;
            }
        }
        if i32::MIN as i64 <= value && value <= i32::MAX as i64 {
            Ok(value as i32)
        } else {
            Err(DestinyResolveError::Overflow)
        }
    }
}

/// A hero's Destiny progress as battle setup reads it.
#[derive(Clone, Copy, Debug, Default, PartialEq, Eq, Structural)]
pub struct DestinyState {
    pub rank: i32,
    pub level: i32,
    pub facet_id: i32,
}

/// The four base attributes that Destiny percentages apply to.
#[derive(Clone, Copy, Debug, Default, PartialEq, Eq, Structural)]
pub struct HeroBaseAttributes {
    pub hp: i32,
    pub attack: i32,
    pub defense: i32,
    pub mdefense: i32,
}

/// Where a battle hero comes from.
#[derive(Clone, Copy, Debug, PartialEq, Eq, Structural)]
pub enum HeroSource {
    Owned,
    Trial,
    Activity,
}

/// Everything the kit and attribute resolvers read about a battle hero.
#[derive(Clone, Copy, Debug, PartialEq, Eq, Structural)]
pub struct HeroBuildContext {
    pub hero_id: i32,
    pub skin: i32,
    pub rank: i32,
    pub ex_skill_level: i32,
    pub destiny: DestinyState,
    pub is_substitute: bool,
    pub hero_type: i32,
    pub source: HeroSource,
}

/// One step a resolver took: the configuration row and what it did.
#[derive(Debug)]
pub struct DestinyTrace {
    pub source_key: String,
    pub detail: String,
}

/// Why a Destiny resolver refused.
#[derive(Debug)]
pub enum DestinyResolveError {
    InvalidState(String),
    InvalidConfig(String),
    Overflow,
}

/// The message of a resolver error.
pub open spec fn resolve_error_text(e: DestinyResolveError) -> Seq<char> {
    match e {
        DestinyResolveError::InvalidState(m) => "invalid Destiny state: "@ + m@,
        DestinyResolveError::InvalidConfig(m) => "invalid Destiny config: "@ + m@,
        DestinyResolveError::Overflow => "Destiny arithmetic overflow"@,
    }
}

impl DestinyResolveError {
    /// The error's message.
    pub fn message(&self) -> (m: String)
        ensures
            m@ == resolve_error_text(*self),
    {
        match self {
            DestinyResolveError::InvalidState(d) => {
                let mut m = String::from_str("invalid Destiny state: ");
                push_str(&mut m, d.as_str());
                m
            },
            DestinyResolveError::InvalidConfig(d) => {
                let mut m = String::from_str("invalid Destiny config: ");
                push_str(&mut m, d.as_str());
                m
            },
            DestinyResolveError::Overflow => String::from_str("Destiny arithmetic overflow"),
        }
    }
}

} // verus!
