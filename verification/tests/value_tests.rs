use pdh_collector::PdhCollectValue;
use pdh_collector::PdhCounterPathElement;
use pdh_collector::PdhCounterPathElementOptions;
use pdh_collector::PdhRawCounterValue;
use pdh_collector::PdhValue;
use pdh_collector::value::PDH_FMT_DOUBLE;
use pdh_collector::value::PDH_FMT_LARGE;
use pdh_collector::value::PDH_FMT_LONG;
use pdh_collector::value::to_value;

fn raw(long_value: i32, large_value: i64, double: f64) -> PdhRawCounterValue {
    PdhRawCounterValue {
        c_status: 0,
        long_value,
        large_value,
        double_bits: double.to_bits(),
    }
}

#[test]
fn decode_picks_the_requested_member() {
    let s = raw(-7, 1_000_000_000_000, 2.5);
    assert_eq!(to_value(&s, PDH_FMT_DOUBLE), PdhValue::Double(2.5f64.to_bits()));
    assert_eq!(to_value(&s, PDH_FMT_LONG), PdhValue::Long(-7));
    assert_eq!(to_value(&s, PDH_FMT_LARGE), PdhValue::LongLong(1_000_000_000_000));
}

#[test]
fn decode_unrecognized_format_defaults_to_long() {
    let s = raw(19, 23, 29.0);
    assert_eq!(to_value(&s, 0), PdhValue::Long(19));
    assert_eq!(to_value(&s, 0x8200), PdhValue::Long(19));
}

#[test]
fn value_display_integers_render_three_decimal_fixed() {
    assert_eq!(PdhValue::Long(5).to_string(), Some("5.000".to_string()));
    assert_eq!(PdhValue::Long(-42).to_string(), Some("-42.000".to_string()));
    assert_eq!(PdhValue::LongLong(0).to_string(), Some("0.000".to_string()));
    assert_eq!(
        PdhValue::LongLong(i64::MIN).to_string(),
        Some("-9223372036854775808.000".to_string())
    );
}

#[test]
fn value_display_text_renders_verbatim() {
    assert_eq!(
        PdhValue::Str("healthy".to_string()).to_string(),
        Some("healthy".to_string())
    );
}

#[test]
fn value_display_double_is_left_to_the_application() {
    assert_eq!(PdhValue::Double(2.5f64.to_bits()).to_string(), None);
}

#[test]
fn collect_value_display_line() {
    let e = PdhCounterPathElement::new(
        "Memory".to_string(),
        "Available Mbytes".to_string(),
        PdhCounterPathElementOptions { ..Default::default() },
    );
    let cv = PdhCollectValue::new(&e, PdhValue::Long(2048));
    assert_eq!(
        cv.to_string(),
        Some("Memory\\Available Mbytes \t 2048.000".to_string())
    );
    let cv = PdhCollectValue::new(&e, PdhValue::Double(1.0f64.to_bits()));
    assert_eq!(cv.to_string(), None);
}

#[test]
fn element_display_is_object_backslash_counter() {
    let e = PdhCounterPathElement::new(
        "Processor".to_string(),
        "% User Time".to_string(),
        PdhCounterPathElementOptions { ..Default::default() },
    );
    assert_eq!(e.to_string(), "Processor\\% User Time");
}

#[test]
fn double_round_trip_redisplays_with_three_decimals() {
    // A sample requested in double format decodes to its exact bits; the
    // display formatting the application applies to them is 3-decimal
    // fixed-point.
    let sample = raw(0, 0, 12.3456);
    let decoded = to_value(&sample, PDH_FMT_DOUBLE);
    let bits = match decoded {
        PdhValue::Double(bits) => bits,
        other => panic!("expected a double, got {:?}", other),
    };
    assert_eq!(f64::from_bits(bits), 12.3456);
    assert_eq!(format!("{:.3}", f64::from_bits(bits)), "12.346");
    let rendered = format!("{:.3}", f64::from_bits(bits));
    let decimals = rendered.split('.').nth(1).unwrap();
    assert_eq!(decimals.len(), 3);
}
