use pmd_core::opna::trace::{compare_register_traces, parse_trace_csv, RegisterWrite, TraceError};

#[test]
fn parses_reference_header_hex_fields_and_comments() {
    let input = b"# time_us,tick,address,value\n0,0,0x026,0x00\n12,3,42,255\n";
    assert_eq!(
        parse_trace_csv(input),
        Ok(vec![
            RegisterWrite { time_us: 0, tick: 0, address: 0x26, value: 0 },
            RegisterWrite { time_us: 12, tick: 3, address: 42, value: 255 },
        ])
    );
}

#[test]
fn rejects_malformed_rows_without_partial_success() {
    assert!(parse_trace_csv(b"0,0,0x20\n").is_err());
    assert!(parse_trace_csv(b"0,0,0x20,0x100\n").is_err());
    assert!(parse_trace_csv(b"0,0,0x20,0,extra\n").is_err());
}

#[test]
fn trace_errors_name_the_first_bad_line() {
    assert_eq!(parse_trace_csv(b"0,0,1,2\n\n  # note\n1,1,x,2\n"), Err(TraceError { line: 4 }));
    assert_eq!(parse_trace_csv(&[0xff, 0x0a]), Err(TraceError { line: 1 }));
    assert_eq!(
        parse_trace_csv(b" +7 , 0X1f ,\t0xFFFF, 9 \r\n"),
        Ok(vec![RegisterWrite { time_us: 7, tick: 0x1f, address: 0xffff, value: 9 }])
    );
    assert!(parse_trace_csv(b"0,0,0x10000,0\n").is_err());
    assert_eq!(parse_trace_csv(b""), Ok(vec![]));
}

#[test]
fn compares_order_tick_time_address_and_value() {
    let expected = [RegisterWrite { time_us: 16_154, tick: 1, address: 0x22, value: 0x5a }];
    assert_eq!(compare_register_traces(&expected, &expected), Ok(()));

    let mut actual = expected;
    actual[0].time_us += 1;
    let mismatch = compare_register_traces(&expected, &actual).expect_err("time differs");
    assert_eq!(mismatch.index, 0);
    assert_eq!(mismatch.expected, Some(expected[0]));
    assert_eq!(mismatch.actual, Some(actual[0]));
}

#[test]
fn reports_trace_length_mismatch() {
    let expected = [RegisterWrite { time_us: 0, tick: 0, address: 0x20, value: 1 }];
    let mismatch = compare_register_traces(&expected, &[]).expect_err("missing row");
    assert_eq!(mismatch.index, 0);
    assert_eq!(mismatch.expected, Some(expected[0]));
    assert_eq!(mismatch.actual, None);
}
