use vstd::prelude::*;
use std::sync::Arc;
use crate::token::NumberType;

verus! {

/// How angles are interpreted by trigonometric functions.
#[derive(Debug, Clone, Copy, PartialEq, Eq, Structural)]
pub enum AngleMode {
    Degrees,
    Radians,
}

impl Default for AngleMode {
    fn default() -> (r: Self)
        ensures
            r == AngleMode::Radians,
    {
        AngleMode::Radians
    }
}

/// Number of significant digits used when nothing else is asked for.
pub const DEFAULT_PRECISION: u32 = 10;

/// The largest precision a configuration is meant to carry.
pub const MAX_PRECISION: u32 = 100;

/// Settings of a calculator.
#[derive(Debug, Clone)]
pub struct CalculatorConfig {
    pub precision: u32,
    pub angle_mode: AngleMode,
    pub notation: NumberType,
}

/// The standard configuration: default precision, radians, decimal notation.
pub open spec fn is_standard_config(c: CalculatorConfig) -> bool {
    &&& c.precision == DEFAULT_PRECISION
    &&& c.angle_mode == AngleMode::Radians
    &&& c.notation == NumberType::Decimal
}

impl Default for CalculatorConfig {
    fn default() -> (r: Self)
        ensures
            is_standard_config(r),
    {
        CalculatorConfig {
            precision: DEFAULT_PRECISION,
            angle_mode: AngleMode::Radians,
            notation: NumberType::Decimal,
        }
    }
}

impl CalculatorConfig {
    /// The standard configuration (the default one).
    pub fn standard() -> (r: Self)
        ensures
            is_standard_config(r),
    {
        Self::default()
    }

    /// Scientific notation with 15 digits of precision, radians.
    pub fn scientific() -> (r: Self)
        ensures
            r.precision == 15,
            r.angle_mode == AngleMode::Radians,
            r.notation == NumberType::Scientific,
    {
        let base = Self::default();
        CalculatorConfig { precision: 15, notation: NumberType::Scientific, ..base }
    }

    /// Engineering notation, everything else as in the standard configuration.
    pub fn engineering() -> (r: Self)
        ensures
            r.precision == DEFAULT_PRECISION,
            r.angle_mode == AngleMode::Radians,
            r.notation == NumberType::Engineering,
    {
        let base = Self::default();
        CalculatorConfig { notation: NumberType::Engineering, ..base }
    }
}

/// The configuration shared by the whole program: the standard one, the same on every call.
pub fn get_global_config() -> (r: &'static CalculatorConfig)
    ensures
        is_standard_config(*r),
{
    &CalculatorConfig {
        precision: DEFAULT_PRECISION,
        angle_mode: AngleMode::Radians,
        notation: NumberType::Decimal,
    }
}

/// `Arc::clone`: a second handle on the same shared value.
#[verifier::external_body]
fn share<T>(a: &Arc<T>) -> (r: Arc<T>)
    ensures
        *r == **a,
{
    Arc::clone(a)
}

/// Calculators that share one configuration.
pub struct CalculatorPool {
    shared_config: Arc<CalculatorConfig>,
    _calculators: Vec<()>,
}

impl CalculatorPool {
    /// The configuration that every calculator of the pool uses.
    pub closed spec fn config(&self) -> CalculatorConfig {
        *self.shared_config
    }

    pub fn new(config: CalculatorConfig) -> (r: Self)
        ensures
            r.config() == config,
    {
        CalculatorPool { shared_config: Arc::new(config), _calculators: Vec::new() }
    }

    /// A handle on the shared configuration.
    pub fn get_config(&self) -> (r: Arc<CalculatorConfig>)
        ensures
            *r == self.config(),
    {
        share(&self.shared_config)
    }
}

impl Default for CalculatorPool {
    fn default() -> (r: Self)
        ensures
            is_standard_config(r.config()),
    {
        CalculatorPool::new(CalculatorConfig::default())
    }
}

} // verus!
