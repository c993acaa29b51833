use calculator::config::{
    get_global_config, AngleMode, CalculatorConfig, CalculatorPool, DEFAULT_PRECISION,
    MAX_PRECISION,
};
use calculator::token::NumberType;

#[test]
fn test_default_config() {
    let c = CalculatorConfig::default();
    assert_eq!(c.precision, 10);
    assert!(matches!(c.angle_mode, AngleMode::Radians));
    assert!(matches!(c.notation, NumberType::Decimal));
}

#[test]
fn test_scientific_config() {
    let c = CalculatorConfig::scientific();
    assert_eq!(c.precision, 15);
    assert!(matches!(c.angle_mode, AngleMode::Radians));
    assert!(matches!(c.notation, NumberType::Scientific));
}

#[test]
fn test_engineering_config() {
    let c = CalculatorConfig::engineering();
    assert_eq!(c.precision, 10);
    assert!(matches!(c.angle_mode, AngleMode::Radians));
    assert!(matches!(c.notation, NumberType::Engineering));
}

#[test]
fn test_global_config() {
    let cfg = get_global_config();
    assert_eq!(cfg.precision, 10);
    assert!(matches!(cfg.angle_mode, AngleMode::Radians));
    assert!(matches!(cfg.notation, NumberType::Decimal));
}

#[test]
fn test_pool_get_config() {
    let pool = CalculatorPool::new(CalculatorConfig::default());
    let cfg = pool.get_config();
    assert_eq!(cfg.precision, 10);
    assert!(matches!(cfg.angle_mode, AngleMode::Radians));
    assert!(matches!(cfg.notation, NumberType::Decimal));
}

#[test]
fn standard_config_is_the_default() {
    let c = CalculatorConfig::standard();
    assert_eq!(c.precision, DEFAULT_PRECISION);
    assert_eq!(c.angle_mode, AngleMode::Radians);
    assert_eq!(c.notation, NumberType::Decimal);
    assert!(DEFAULT_PRECISION <= MAX_PRECISION);
}

#[test]
fn global_config_is_the_same_every_time() {
    let a = get_global_config();
    let b = get_global_config();
    assert_eq!(a.precision, b.precision);
    assert_eq!(a.angle_mode, b.angle_mode);
    assert_eq!(a.notation, b.notation);
}

#[test]
fn pool_shares_the_configuration_it_was_made_with() {
    let pool = CalculatorPool::new(CalculatorConfig::engineering());
    let first = pool.get_config();
    let second = pool.get_config();
    assert_eq!(first.notation, NumberType::Engineering);
    assert_eq!(second.precision, 10);
    assert!(std::sync::Arc::ptr_eq(&first, &second));
    let default_pool = CalculatorPool::default();
    assert_eq!(default_pool.get_config().precision, 10);
    assert_eq!(AngleMode::default(), AngleMode::Radians);
}
