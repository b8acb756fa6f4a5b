use calnexus::ast::{AstNode, BinaryOp, UnaryOp};
use calnexus::calendar::{format_mismatch_error, TimeUnit};
use calnexus::datetime::parse_datetime_multi_format;
use calnexus::error::{CalcError, ErrorKind};
use calnexus::time_eval::{
    day_of_year, eval_time_call, time_factorial_error, time_node_step, timestamp_range_error,
    unknown_timezone_error, weekday, EvaluatedArg, TimeCall, TimeStep, TimeValue, ZoneChoice,
};
use calnexus::datetime::CivilDate;
use calnexus::zoned::{zoned_to_rfc3339, ZonedParts};

// ----- trees -----

fn num(v: f64) -> AstNode {
    AstNode::Number(v.to_bits())
}

fn text(s: &str) -> AstNode {
    AstNode::Str(s.to_string())
}

fn call(name: &str, args: Vec<AstNode>) -> AstNode {
    AstNode::FunctionCall(name.to_string(), args)
}

// ----- a caller of the library's evaluator, as a program would run it -----

fn jiff_of(z: &ZonedParts) -> jiff::Zoned {
    let t = z.datetime;
    let dt = jiff::civil::DateTime::new(
        t.date.year, t.date.month, t.date.day, t.hour, t.minute, t.second, t.subsec_nanosecond,
    )
    .unwrap();
    let off = jiff::tz::Offset::from_seconds(z.offset_seconds).unwrap();
    let tz = match &z.time_zone {
        Some(name) => jiff::tz::TimeZone::get(name).unwrap(),
        None => jiff::tz::TimeZone::fixed(off),
    };
    off.to_timestamp(dt).unwrap().to_zoned(tz)
}

fn parts_of(z: &jiff::Zoned) -> ZonedParts {
    ZonedParts {
        datetime: calnexus::datetime::CivilDateTime {
            date: CivilDate { year: z.year(), month: z.month(), day: z.day() },
            hour: z.hour(),
            minute: z.minute(),
            second: z.second(),
            subsec_nanosecond: z.subsec_nanosecond(),
        },
        offset_seconds: z.offset().seconds(),
        time_zone: match z.time_zone().to_fixed_offset() {
            Ok(_) => None,
            Err(_) => z.time_zone().iana_name().map(str::to_string),
        },
    }
}

fn zone(choice: &ZoneChoice) -> Result<jiff::tz::TimeZone, CalcError> {
    match choice {
        ZoneChoice::Utc => Ok(jiff::tz::TimeZone::UTC),
        ZoneChoice::Named(name) => jiff::tz::TimeZone::get(name).map_err(|_| unknown_timezone_error(name)),
    }
}

fn jiff_unit(u: TimeUnit) -> jiff::Unit {
    match u {
        TimeUnit::Second => jiff::Unit::Second,
        TimeUnit::Minute => jiff::Unit::Minute,
        TimeUnit::Hour => jiff::Unit::Hour,
        TimeUnit::Day => jiff::Unit::Day,
        TimeUnit::Week => jiff::Unit::Week,
        TimeUnit::Month => jiff::Unit::Month,
        TimeUnit::Year => jiff::Unit::Year,
    }
}

fn scalar(ast: &AstNode, vars: &Vec<(String, u64)>) -> Result<f64, CalcError> {
    match value(ast, vars)? {
        TimeValue::Number(b) => Ok(f64::from_bits(b)),
        TimeValue::Integer(n) => Ok(n as f64),
        TimeValue::DateTime(s) => {
            let z = calnexus::zoned::parse_str_to_zoned(&s)?;
            Ok(jiff_of(&z).timestamp().as_second() as f64)
        }
        TimeValue::Symbolic(_) => Err(CalcError::domain("not a number".to_string())),
    }
}

fn value(ast: &AstNode, vars: &Vec<(String, u64)>) -> Result<TimeValue, CalcError> {
    match time_node_step(ast, vars)? {
        TimeStep::Value(v) => Ok(v),
        TimeStep::ParseNumber(s) => Ok(TimeValue::Number(s.parse::<f64>().unwrap().to_bits())),
        TimeStep::Binary(op) => {
            let AstNode::BinaryOp(_, l, r) = ast else { panic!("binary node") };
            let (a, b) = (scalar(l, vars)?, scalar(r, vars)?);
            let x = match op {
                BinaryOp::Add => a + b,
                BinaryOp::Sub => a - b,
                BinaryOp::Mul => a * b,
                BinaryOp::Div if b == 0.0 => return Err(CalcError::division_by_zero()),
                BinaryOp::Div => a / b,
                BinaryOp::Pow => a.powf(b),
                BinaryOp::Mod => a % b,
            };
            Ok(TimeValue::Number(x.to_bits()))
        }
        TimeStep::Unary(op) => {
            let AstNode::UnaryOp(_, e) = ast else { panic!("unary node") };
            let v = scalar(e, vars)?;
            Ok(TimeValue::Number(if op == UnaryOp::Neg { -v } else { v.abs() }.to_bits()))
        }
        TimeStep::Factorial => {
            let AstNode::UnaryOp(_, e) = ast else { panic!("unary node") };
            scalar(e, vars)?;
            Err(time_factorial_error())
        }
        TimeStep::Call => {
            let AstNode::FunctionCall(name, args) = ast else { panic!("call node") };
            let mut supplied: Vec<Option<EvaluatedArg>> = args.iter().map(|_| None).collect();
            loop {
                match eval_time_call(name, args, &supplied)? {
                    TimeCall::Done(v) => return Ok(v),
                    TimeCall::Evaluate(i) => {
                        let v = value(&args[i], vars)?;
                        let text = match &v {
                            TimeValue::Number(b) => f64::from_bits(*b).to_string(),
                            TimeValue::Integer(n) => (*n as f64).to_string(),
                            TimeValue::DateTime(s) | TimeValue::Symbolic(s) => s.clone(),
                        };
                        supplied[i] = Some(EvaluatedArg { value: v, text });
                    }
                    TimeCall::DateTimeInZone { input, zone_name } => {
                        let tz = zone(&ZoneChoice::Named(zone_name))?;
                        let t = parse_datetime_multi_format(&input)?;
                        let dt = jiff::civil::DateTime::new(
                            t.date.year, t.date.month, t.date.day, t.hour, t.minute, t.second, t.subsec_nanosecond,
                        )
                        .unwrap();
                        let z = dt.to_zoned(tz).unwrap();
                        return Ok(TimeValue::DateTime(zoned_to_rfc3339(&parts_of(&z))));
                    }
                    TimeCall::InstantInZone { second, second_text, zone_name } => {
                        let tz = zone(&ZoneChoice::Named(zone_name))?;
                        let ts = jiff::Timestamp::from_second(second).map_err(|_| timestamp_range_error(&second_text))?;
                        return Ok(TimeValue::DateTime(zoned_to_rfc3339(&parts_of(&ts.to_zoned(tz)))));
                    }
                    TimeCall::DateDiff { from, to, unit } => {
                        let (a, b) = (jiff_of(&from), jiff_of(&to));
                        let span = b.since(&a).unwrap();
                        return Ok(TimeValue::Number(span.total((jiff_unit(unit), &a)).unwrap().to_bits()));
                    }
                    TimeCall::DateAdd { start, count, unit } => {
                        let span = match unit {
                            TimeUnit::Day => jiff::Span::new().days(count),
                            TimeUnit::Month => jiff::Span::new().months(count),
                            _ => panic!("unit not used here"),
                        };
                        let z = jiff_of(&start).checked_add(span).unwrap();
                        return Ok(TimeValue::DateTime(zoned_to_rfc3339(&parts_of(&z))));
                    }
                    TimeCall::FormatInZone { zoned, in_zone, fmt } => {
                        let z = jiff_of(&zoned).with_time_zone(zone(&in_zone)?);
                        let fmt = fmt?;
                        let out = jiff::fmt::strtime::format(&fmt, &z).map_err(|_| format_mismatch_error(&fmt))?;
                        return Ok(TimeValue::Symbolic(out));
                    }
                    TimeCall::Now(choice) => {
                        let z = jiff::Zoned::now().with_time_zone(zone(&choice)?);
                        return Ok(TimeValue::DateTime(zoned_to_rfc3339(&parts_of(&z))));
                    }
                    TimeCall::Today(choice) => {
                        let tz = zone(&choice)?;
                        let z = jiff::Zoned::now().with_time_zone(tz.clone()).date().to_zoned(tz).unwrap();
                        return Ok(TimeValue::DateTime(zoned_to_rfc3339(&parts_of(&z))));
                    }
                }
            }
        }
    }
}

fn eval(ast: &AstNode) -> Result<TimeValue, CalcError> {
    value(ast, &vec![])
}

fn eval_scalar(ast: &AstNode) -> Result<f64, CalcError> {
    eval(ast).map(|v| match v {
        TimeValue::Number(b) => f64::from_bits(b),
        TimeValue::Integer(n) => n as f64,
        other => panic!("expected scalar result, got {:?}", other),
    })
}

fn eval_datetime_str(ast: &AstNode) -> Result<String, CalcError> {
    eval(ast).map(|v| match v {
        TimeValue::DateTime(s) => s,
        other => panic!("expected datetime result, got {:?}", other),
    })
}

fn eval_symbolic(ast: &AstNode) -> Result<String, CalcError> {
    eval(ast).map(|v| match v {
        TimeValue::Symbolic(s) => s,
        other => panic!("expected symbolic result, got {:?}", other),
    })
}

fn is_domain(r: Result<TimeValue, CalcError>) -> bool {
    matches!(r, Err(e) if e.kind == ErrorKind::Domain)
}

// ----- date / datetime / timestamp / from_timestamp -----

#[test]
fn test_date_iso_basic() {
    let result = eval_datetime_str(&call("date", vec![text("2026-07-25")])).unwrap();
    assert_eq!(result, "2026-07-25T00:00:00+00:00");
}

#[test]
fn test_date_invalid() {
    assert!(is_domain(eval(&call("date", vec![text("2026-02-30")]))));
}

#[test]
fn test_datetime_with_timezone() {
    let result = eval_datetime_str(&call("datetime", vec![text("2026-07-25T12:30:00"), text("Asia/Shanghai")])).unwrap();
    assert!(result.contains("+08:00"), "expected +08:00 offset, got {}", result);
}

#[test]
fn test_datetime_unknown_timezone() {
    assert!(is_domain(eval(&call("datetime", vec![text("2026-01-01T00:00:00"), text("Not/AZone")]))));
}

#[test]
fn test_datetime_default_utc() {
    let result = eval_datetime_str(&call("datetime", vec![text("2026-07-25T12:30:00")])).unwrap();
    assert_eq!(result, "2026-07-25T12:30:00+00:00");
}

#[test]
fn test_timestamp_iso() {
    let result = eval_scalar(&call("timestamp", vec![text("2026-07-25T00:00:00Z")])).unwrap();
    assert!(result > 1.7e9 && result < 1.8e9, "expected ~1.78e9, got {}", result);
}

#[test]
fn test_from_timestamp_zero() {
    let result = eval_datetime_str(&call("from_timestamp", vec![num(0.0), text("UTC")])).unwrap();
    assert_eq!(result, "1970-01-01T00:00:00+00:00");
}

#[test]
fn test_from_timestamp_default_utc() {
    let result = eval_datetime_str(&call("from_timestamp", vec![num(0.0)])).unwrap();
    assert_eq!(result, "1970-01-01T00:00:00+00:00");
}

#[test]
fn test_from_timestamp_out_of_range() {
    assert!(is_domain(eval(&call("from_timestamp", vec![num(1000000000000000000.0)]))));
}

#[test]
fn test_timestamp_from_timestamp_roundtrip() {
    let ts = eval_scalar(&call("timestamp", vec![text("2026-07-25T00:00:00Z")])).unwrap();
    let dt = eval_datetime_str(&call("from_timestamp", vec![num(ts)])).unwrap();
    let ts2 = eval_scalar(&call("timestamp", vec![text(&dt)])).unwrap();
    assert_eq!(ts, ts2);
}

#[test]
fn test_timestamp_arithmetic() {
    let stamp = call("timestamp", vec![text("2026-07-25T00:00:00Z")]);
    let result = eval_scalar(&AstNode::BinaryOp(BinaryOp::Add, Box::new(stamp), Box::new(num(3600.0)))).unwrap();
    let base = eval_scalar(&call("timestamp", vec![text("2026-07-25T00:00:00Z")])).unwrap();
    assert_eq!(result, base + 3600.0);
}

#[test]
fn test_nested_function_call() {
    let result = eval_scalar(&call("weekday", vec![call("from_timestamp", vec![num(0.0)])])).unwrap();
    assert_eq!(result, 4.0);
}

#[test]
fn test_unknown_function_rejected() {
    let err = eval(&call("sin", vec![num(1.0)])).unwrap_err();
    assert_eq!(err.kind, ErrorKind::Domain);
    assert!(err.message.contains("sin"));
}

#[test]
fn test_wrong_arg_count() {
    let err = eval(&call("date", vec![text("2026-07-25"), text("extra")])).unwrap_err();
    assert_eq!(err.kind, ErrorKind::Domain);
    assert_eq!(err.message, "date() requires exactly 1 argument, got 2");
    assert_eq!(err.i18n_key, Some("msg.function_arg_count"));
}

// ----- date_diff / date_add -----

#[test]
fn test_date_diff_days() {
    let result = eval_scalar(&call("date_diff", vec![text("2026-01-01"), text("2026-07-25")])).unwrap();
    assert_eq!(result, 205.0);
}

#[test]
fn test_date_diff_negative() {
    let result = eval_scalar(&call("date_diff", vec![text("2026-07-25"), text("2026-01-01")])).unwrap();
    assert_eq!(result, -205.0);
}

#[test]
fn test_date_diff_seconds() {
    let result = eval_scalar(&call("date_diff", vec![text("1970-01-01"), text("1970-01-02"), text("s")])).unwrap();
    assert_eq!(result, 86400.0);
}

#[test]
fn test_date_diff_hours() {
    let result = eval_scalar(&call("date_diff", vec![text("1970-01-01"), text("1970-01-02"), text("h")])).unwrap();
    assert_eq!(result, 24.0);
}

#[test]
fn test_date_diff_invalid_unit() {
    assert!(is_domain(eval(&call("date_diff", vec![text("2026-01-01"), text("2026-07-25"), text("invalid")]))));
}

#[test]
fn test_date_add_month_clamp() {
    let result = eval_datetime_str(&call("date_add", vec![text("2026-01-31"), num(1.0), text("month")])).unwrap();
    assert!(result.starts_with("2026-02-28"), "expected 2026-02-28, got {}", result);
}

#[test]
fn test_date_add_month_leap_year() {
    let result = eval_datetime_str(&call("date_add", vec![text("2024-01-31"), num(1.0), text("month")])).unwrap();
    assert!(result.starts_with("2024-02-29"), "expected 2024-02-29, got {}", result);
}

#[test]
fn test_date_add_negative() {
    let result = eval_datetime_str(&call("date_add", vec![text("2026-07-25"), num(-1.0), text("day")])).unwrap();
    assert!(result.starts_with("2026-07-24"), "expected 2026-07-24, got {}", result);
}

#[test]
fn test_date_add_days() {
    let result = eval_datetime_str(&call("date_add", vec![text("2026-01-01"), num(31.0), text("day")])).unwrap();
    assert!(result.starts_with("2026-02-01"), "expected 2026-02-01, got {}", result);
}

// ----- format_date -----

#[test]
fn test_format_date_from_timestamp() {
    let result = eval_symbolic(&call("format_date", vec![num(0.0), text("%Y-%m-%d"), text("UTC")])).unwrap();
    assert_eq!(result, "1970-01-01");
}

#[test]
fn test_format_date_from_datetime() {
    let result = eval_symbolic(&call("format_date", vec![text("2026-07-25T12:30:00Z"), text("%Y-%m-%d")])).unwrap();
    assert_eq!(result, "2026-07-25");
}

// ----- the accepted date formats -----

fn date_of(s: &str) -> String {
    eval_datetime_str(&call("date", vec![text(s)])).unwrap()
}

#[test]
fn test_date_multi_format_slash() {
    assert_eq!(date_of("2026/07/25"), "2026-07-25T00:00:00+00:00");
}

#[test]
fn test_date_multi_format_basic() {
    assert_eq!(date_of("20260725"), "2026-07-25T00:00:00+00:00");
}

#[test]
fn test_date_multi_format_english_abbr() {
    assert_eq!(date_of("25 Jul 2026"), "2026-07-25T00:00:00+00:00");
}

#[test]
fn test_date_multi_format_english_abbr2() {
    assert_eq!(date_of("Jul 25, 2026"), "2026-07-25T00:00:00+00:00");
}

#[test]
fn test_date_multi_format_english_full() {
    assert_eq!(date_of("July 25, 2026"), "2026-07-25T00:00:00+00:00");
}

#[test]
fn test_date_multi_format_chinese() {
    assert_eq!(date_of("2026年7月25日"), "2026-07-25T00:00:00+00:00");
}

#[test]
fn test_date_multi_format_dot() {
    assert_eq!(date_of("2026.07.25"), "2026-07-25T00:00:00+00:00");
}

#[test]
fn test_datetime_multi_format_space() {
    let result = eval_datetime_str(&call("datetime", vec![text("2026/07/25 12:30:00")])).unwrap();
    assert!(result.starts_with("2026-07-25T12:30:00"), "got {}", result);
}

#[test]
fn test_datetime_multi_format_iso() {
    let result = eval_datetime_str(&call("datetime", vec![text("2026-07-25T12:30:00")])).unwrap();
    assert!(result.starts_with("2026-07-25T12:30:00"), "got {}", result);
}

#[test]
fn test_date_ambiguous_rejected() {
    assert!(is_domain(eval(&call("date", vec![text("01/02/2026")]))));
}

#[test]
fn test_date_ambiguous_rejected2() {
    assert!(is_domain(eval(&call("date", vec![text("13/07/2026")]))));
}

// ----- weekday / day_of_year -----

#[test]
fn test_weekday_basic() {
    assert_eq!(eval_scalar(&call("weekday", vec![text("2026-07-25")])).unwrap(), 6.0);
}

#[test]
fn test_weekday_thursday() {
    assert_eq!(eval_scalar(&call("weekday", vec![text("1970-01-01")])).unwrap(), 4.0);
}

#[test]
fn test_day_of_year_basic() {
    assert_eq!(eval_scalar(&call("day_of_year", vec![text("2026-07-25")])).unwrap(), 206.0);
}

#[test]
fn is_leap_year_through_the_evaluator() {
    assert_eq!(eval_scalar(&call("is_leap_year", vec![num(2024.0)])).unwrap(), 1.0);
    assert_eq!(eval_scalar(&call("is_leap_year", vec![num(1900.0)])).unwrap(), 0.0);
    let e = eval(&call("is_leap_year", vec![num(2024.5)])).unwrap_err();
    assert_eq!(e.i18n_key, Some("msg.time.requires_integer_arg"));
    assert_eq!(e.message, "expected integer argument, got 2024.5");
    assert_eq!(eval(&call("is_leap_year", vec![num(1e300)])).unwrap_err().kind, ErrorKind::Overflow);
}

#[test]
fn weekday_and_day_of_year_of_dates() {
    let d = |year: i16, month: i8, day: i8| CivilDate { year, month, day };
    assert_eq!(weekday(d(2026, 7, 25)), 6);
    assert_eq!(weekday(d(1970, 1, 1)), 4);
    assert_eq!(weekday(d(2000, 1, 1)), 6);
    assert_eq!(weekday(d(1, 1, 1)), 1);
    assert_eq!(day_of_year(d(2024, 12, 31)), 366);
    assert_eq!(day_of_year(d(2026, 3, 1)), 60);
    assert_eq!(day_of_year(d(2024, 3, 1)), 61);
    // against jiff for a spread of dates
    let mut day = jiff::civil::date(-9999, 1, 1);
    while day < jiff::civil::date(9999, 12, 1) {
        let c = d(day.year(), day.month(), day.day());
        assert_eq!(weekday(c), day.weekday().to_monday_one_offset() as i64);
        assert_eq!(day_of_year(c), day.day_of_year() as i64);
        day = day.checked_add(jiff::Span::new().days(997)).unwrap();
    }
}

// ----- now / today -----

#[test]
fn test_now_returns_valid_rfc3339() {
    let result = eval_datetime_str(&call("now", vec![])).unwrap();
    assert!(calnexus::zoned::parse_str_to_zoned(&result).is_ok(), "now() result should be parseable: {}", result);
}

#[test]
fn test_now_with_timezone() {
    let result = eval_datetime_str(&call("now", vec![text("Asia/Shanghai")])).unwrap();
    assert!(result.contains("+08:00"), "expected +08:00, got {}", result);
}

#[test]
fn test_today_returns_valid_date() {
    let result = eval_datetime_str(&call("today", vec![])).unwrap();
    assert!(result.contains("T00:00:00"), "expected midnight, got {}", result);
    assert!(calnexus::zoned::parse_str_to_zoned(&result).is_ok(), "today() result should be parseable: {}", result);
}

// ----- nodes and errors -----

#[test]
fn time_test_unsupported_function() {
    assert!(is_domain(eval(&call("foo", vec![]))));
}

#[test]
fn test_date_wrong_args() {
    assert!(is_domain(eval(&call("date", vec![text("2026-07-25"), num(1.0)]))));
}

#[test]
fn test_str_operand_rejected() {
    assert!(is_domain(eval(&text("hello"))));
}

#[test]
fn time_test_complex_rejected() {
    assert!(is_domain(eval(&AstNode::Complex(1.0f64.to_bits(), 2.0f64.to_bits()))));
}

#[test]
fn time_test_matrix_rejected() {
    assert!(is_domain(eval(&AstNode::Matrix(vec![vec![num(1.0)]]))));
}

#[test]
fn time_test_list_rejected() {
    assert!(is_domain(eval(&AstNode::List(vec![num(1.0)]))));
}

#[test]
fn test_variable_pi() {
    let v = eval_scalar(&AstNode::Variable("pi".to_string())).unwrap();
    assert_eq!(v, std::f64::consts::PI);
}

#[test]
fn test_variable_e() {
    let v = eval_scalar(&AstNode::Variable("e".to_string())).unwrap();
    assert_eq!(v, std::f64::consts::E);
}

#[test]
fn test_variable_user_binding() {
    let vars = vec![("x".to_string(), 42.0f64.to_bits())];
    let v = value(&AstNode::Variable("x".to_string()), &vars).unwrap();
    assert_eq!(v, TimeValue::Number(42.0f64.to_bits()));
}

#[test]
fn time_test_unbound_variable() {
    let r = eval(&AstNode::Variable("unknown".to_string()));
    assert!(matches!(r, Err(e) if e.kind == ErrorKind::Eval));
}

#[test]
fn test_binary_add() {
    let ast = AstNode::BinaryOp(BinaryOp::Add, Box::new(num(2.0)), Box::new(num(3.0)));
    assert_eq!(eval_scalar(&ast).unwrap(), 5.0);
}

#[test]
fn test_binary_div_by_zero() {
    let ast = AstNode::BinaryOp(BinaryOp::Div, Box::new(num(10.0)), Box::new(num(0.0)));
    assert!(matches!(eval(&ast), Err(e) if e.kind == ErrorKind::DivisionByZero));
}

#[test]
fn test_unary_neg() {
    let ast = AstNode::UnaryOp(UnaryOp::Neg, Box::new(num(5.0)));
    assert_eq!(eval_scalar(&ast).unwrap(), -5.0);
}

#[test]
fn test_unary_abs() {
    let ast = AstNode::UnaryOp(UnaryOp::Abs, Box::new(num(-5.0)));
    assert_eq!(eval_scalar(&ast).unwrap(), 5.0);
}

#[test]
fn time_test_unary_factorial_rejected() {
    let ast = AstNode::UnaryOp(UnaryOp::Factorial, Box::new(num(5.0)));
    let e = eval(&ast).unwrap_err();
    assert_eq!(e.kind, ErrorKind::Domain);
    assert_eq!(e.i18n_key, Some("msg.time.factorial_not_supported"));
}

#[test]
fn test_from_timestamp_nested_in_weekday() {
    let result = eval_scalar(&call("weekday", vec![call("from_timestamp", vec![num(0.0)])])).unwrap();
    assert_eq!(result, 4.0);
}

#[test]
fn test_from_timestamp_nested_in_date_diff() {
    let a = call("from_timestamp", vec![num(0.0)]);
    let b = call("from_timestamp", vec![num(86400.0)]);
    assert_eq!(eval_scalar(&call("date_diff", vec![a, b])).unwrap(), 1.0);
}

#[test]
fn test_invalid_date_has_i18n_key() {
    let err = eval(&call("date", vec![text("2026-02-30")])).unwrap_err();
    assert_eq!(err.i18n_key, Some("msg.time.invalid_date"));
}

#[test]
fn test_unknown_timezone_has_i18n_key() {
    let err = eval(&call("datetime", vec![text("2026-01-01T00:00:00"), text("Not/AZone")])).unwrap_err();
    assert_eq!(err.i18n_key, Some("msg.time.unknown_timezone"));
}

#[test]
fn test_invalid_unit_has_i18n_key() {
    let err = eval(&call("date_diff", vec![text("2026-01-01"), text("2026-07-25"), text("invalid")])).unwrap_err();
    assert_eq!(err.i18n_key, Some("msg.time.invalid_unit"));
}

#[test]
fn test_ambiguous_format_has_i18n_key() {
    let err = eval(&call("date", vec![text("01/02/2026")])).unwrap_err();
    assert_eq!(err.i18n_key, Some("msg.time.ambiguous_format"));
}

#[test]
fn calls_ask_for_argument_values_in_order() {
    let args = vec![num(0.0), num(86400.0)];
    let none: Vec<Option<EvaluatedArg>> = vec![None, None];
    assert!(matches!(eval_time_call("date_diff", &args, &none), Ok(TimeCall::Evaluate(0))));
    let first = vec![Some(EvaluatedArg { value: TimeValue::Integer(0), text: "0".to_string() }), None];
    assert!(matches!(eval_time_call("date_diff", &args, &first), Ok(TimeCall::Evaluate(1))));
    // the argument count is checked before any argument is asked for
    let e = eval_time_call("from_timestamp", &vec![num(1.0), num(2.0), num(3.0)], &vec![None, None, None]).unwrap_err();
    assert_eq!(e.message, "from_timestamp() requires 1 or 2 arguments, got 3");
    // a zone named in any letter case is UTC
    let r = eval_time_call("now", &vec![text("utc")], &vec![None]).unwrap();
    assert!(matches!(r, TimeCall::Now(ZoneChoice::Utc)));
}
