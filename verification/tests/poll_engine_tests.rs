use dpoll::codec::{ScalarValue, WordOrder};
use dpoll::errors::ConfigError;
use dpoll::format_spec::{Formats, Functions, Type};
use dpoll::poll_engine::{
    build_write_payload, decode_read_values, encode_f32_write_words, on_connect_failure,
    plan_read_sweep, read_quantity, record_outcome, record_outcomes, validate_write_slave_count,
    ConnectAction, ReadRequest, RequestOutcome, WritePayload,
};
use dpoll::stats::TransferStats;

#[test]
fn sixteen_bit_read_displays_consecutive_addresses() {
    // count = 4 under a 16-bit format starting at reference 0:
    // exactly 4 lines, displayed addresses 0, 1, 2, 3
    let data: Vec<u16> = vec![10, 20, 30, 40];
    let lines = decode_read_values(&data, 0, 4, Formats::U16, WordOrder::Abcd);
    assert_eq!(lines.len(), 4);
    let addrs: Vec<u16> = lines.iter().map(|l| l.address).collect();
    assert_eq!(addrs, vec![0, 1, 2, 3]);
    assert_eq!(lines[2].value, ScalarValue::U16(30));
}

#[test]
fn thirty_two_bit_read_advances_addresses_by_two() {
    // count = 2 under a 32-bit format starting at 0: 2 lines, addresses 0, 2
    let data: Vec<u16> = vec![0x1234, 0x5678, 0x0000, 0x0001];
    let lines = decode_read_values(&data, 0, 2, Formats::U32, WordOrder::Abcd);
    assert_eq!(lines.len(), 2);
    let addrs: Vec<u16> = lines.iter().map(|l| l.address).collect();
    assert_eq!(addrs, vec![0, 2]);
    assert_eq!(lines[0].value, ScalarValue::U32(0x1234_5678));
    assert_eq!(lines[1].value, ScalarValue::U32(1));
}

#[test]
fn read_addresses_start_at_the_reference() {
    let data: Vec<u16> = vec![1, 2, 3];
    let lines = decode_read_values(&data, 100, 3, Formats::I16, WordOrder::Abcd);
    let addrs: Vec<u16> = lines.iter().map(|l| l.address).collect();
    assert_eq!(addrs, vec![100, 101, 102]);
}

#[test]
fn statistics_count_a_whole_run() {
    // N successful requests, 1 timeout, 1 protocol error:
    // transmitted == N + 2, received == N, error == 2
    let n = 3;
    let mut outcomes = vec![RequestOutcome::Success; n];
    outcomes.push(RequestOutcome::Timeout);
    outcomes.push(RequestOutcome::ProtocolError);
    let mut stats = TransferStats::new();
    record_outcomes(&mut stats, &outcomes);
    assert_eq!(stats.snapshot(), ((n + 2) as u64, n as u64, 2));
}

#[test]
fn each_outcome_lands_once() {
    let mut stats = TransferStats::new();
    record_outcome(&mut stats, RequestOutcome::Success);
    assert_eq!(stats.snapshot(), (1, 1, 0));
    record_outcome(&mut stats, RequestOutcome::Timeout);
    assert_eq!(stats.snapshot(), (2, 1, 1));
    record_outcome(&mut stats, RequestOutcome::ProtocolError);
    assert_eq!(stats.snapshot(), (3, 1, 2));
}

#[test]
fn sweep_visits_every_slave_and_reference() {
    let slaves: Vec<u8> = vec![1, 2];
    let refs: Vec<u16> = vec![0, 100];
    let reqs = plan_read_sweep(&slaves, &refs, 1, Formats::U16);
    assert_eq!(
        reqs,
        vec![
            ReadRequest { slave: 1, reference: 0, quantity: 1 },
            ReadRequest { slave: 1, reference: 100, quantity: 1 },
            ReadRequest { slave: 2, reference: 0, quantity: 1 },
            ReadRequest { slave: 2, reference: 100, quantity: 1 },
        ]
    );
}

#[test]
fn quantity_scales_with_register_width() {
    assert_eq!(read_quantity(4, Formats::U16), 4);
    assert_eq!(read_quantity(4, Formats::F32cdab), 8);
    let reqs = plan_read_sweep(&vec![1], &vec![0], 3, Formats::I32);
    assert_eq!(reqs[0].quantity, 6);
}

#[test]
fn single_coil_write_takes_the_fast_path() {
    let t = Type { function: Functions::Coil, format: Formats::Bin16 };
    let lits = vec!["true".to_string()];
    match build_write_payload(t, &lits, WordOrder::Abcd) {
        Ok(WritePayload::SingleCoil(true)) => {}
        other => panic!("expected the single-coil fast path, got {:?}", discriminant(&other)),
    }
}

#[test]
fn multiple_coils_write() {
    let t = Type { function: Functions::Coil, format: Formats::Bin16 };
    let lits = vec!["true".to_string(), "false".to_string(), "true".to_string()];
    match build_write_payload(t, &lits, WordOrder::Abcd) {
        Ok(WritePayload::MultipleCoils(v)) => assert_eq!(v, vec![true, false, true]),
        other => panic!("expected multiple coils, got {:?}", discriminant(&other)),
    }
}

#[test]
fn bad_coil_literal_aborts_before_io() {
    let t = Type { function: Functions::Coil, format: Formats::Bin16 };
    let lits = vec!["true".to_string(), "tru".to_string()];
    match build_write_payload(t, &lits, WordOrder::Abcd) {
        Err(e) => assert_eq!(e, ConfigError::InvalidLiteral),
        Ok(_) => panic!("a bad literal must abort the write"),
    }
}

#[test]
fn single_register_write_takes_the_fast_path() {
    let t = Type { function: Functions::HoldingRegister, format: Formats::U16 };
    let lits = vec!["123".to_string()];
    match build_write_payload(t, &lits, WordOrder::Abcd) {
        Ok(WritePayload::SingleRegister(123)) => {}
        other => panic!("expected the single-register fast path, got {:?}", discriminant(&other)),
    }
}

#[test]
fn signed_register_write_encodes_twos_complement() {
    let t = Type { function: Functions::HoldingRegister, format: Formats::I16 };
    let lits = vec!["-1".to_string()];
    match build_write_payload(t, &lits, WordOrder::Abcd) {
        Ok(WritePayload::SingleRegister(w)) => assert_eq!(w, 0xFFFF),
        other => panic!("expected one register word, got {:?}", discriminant(&other)),
    }
}

#[test]
fn thirty_two_bit_write_is_always_multi_register() {
    // one 32-bit value still needs two words, so no fast path applies
    let t = Type { function: Functions::HoldingRegister, format: Formats::I32cdab };
    let lits = vec!["-2".to_string()];
    match build_write_payload(t, &lits, WordOrder::Cdab) {
        Ok(WritePayload::MultipleRegisters(v)) => assert_eq!(v, vec![0xFFFE, 0xFFFF]),
        other => panic!("expected two register words, got {:?}", discriminant(&other)),
    }
}

#[test]
fn hex_literals_write_under_u32_formats() {
    let t = Type { function: Functions::HoldingRegister, format: Formats::U32 };
    let lits = vec!["0x12345678".to_string()];
    match build_write_payload(t, &lits, WordOrder::Abcd) {
        Ok(WritePayload::MultipleRegisters(v)) => assert_eq!(v, vec![0x1234, 0x5678]),
        other => panic!("expected two register words, got {:?}", discriminant(&other)),
    }
}

#[test]
fn writes_to_read_only_functions_are_config_errors() {
    let lits = vec!["1".to_string()];
    let di = Type { function: Functions::DiscreteInput, format: Formats::Bin16 };
    assert!(matches!(
        build_write_payload(di, &lits, WordOrder::Abcd),
        Err(ConfigError::WriteToReadOnly)
    ));
    let ir = Type { function: Functions::InputRegister, format: Formats::U16 };
    assert!(matches!(
        build_write_payload(ir, &lits, WordOrder::Abcd),
        Err(ConfigError::WriteToReadOnly)
    ));
    let all = Type { function: Functions::All, format: Formats::Unkonwn };
    assert!(matches!(
        build_write_payload(all, &lits, WordOrder::Abcd),
        Err(ConfigError::WriteNotAllowed)
    ));
}

#[test]
fn float_bit_patterns_lay_out_under_the_word_order() {
    let bits = vec![1.1_f32.to_bits()];
    assert_eq!(encode_f32_write_words(&bits, WordOrder::Abcd), vec![0x3F8C, 0xCCCD]);
    assert_eq!(encode_f32_write_words(&bits, WordOrder::Cdab), vec![0xCCCD, 0x3F8C]);
}

#[test]
fn a_write_targets_one_slave() {
    assert_eq!(validate_write_slave_count(1), Ok(()));
    assert_eq!(validate_write_slave_count(0), Ok(()));
    assert_eq!(validate_write_slave_count(2), Err(ConfigError::TooManySlaves));
}

#[test]
fn a_read_may_end_at_the_last_register() {
    let data: Vec<u16> = vec![7, 8];
    let lines = decode_read_values(&data, 0xFFFE, 1, Formats::U32, WordOrder::Abcd);
    assert_eq!(lines.len(), 1);
    assert_eq!(lines[0].address, 0xFFFE);
    assert_eq!(lines[0].value, ScalarValue::U32(0x0007_0008));
}

#[test]
fn connection_failure_is_fatal_only_in_single_pass_mode() {
    assert_eq!(on_connect_failure(true), ConnectAction::Fatal);
    assert_eq!(on_connect_failure(false), ConnectAction::Retry);
}

fn discriminant(r: &Result<WritePayload, ConfigError>) -> &'static str {
    match r {
        Ok(WritePayload::SingleCoil(_)) => "SingleCoil",
        Ok(WritePayload::MultipleCoils(_)) => "MultipleCoils",
        Ok(WritePayload::SingleRegister(_)) => "SingleRegister",
        Ok(WritePayload::MultipleRegisters(_)) => "MultipleRegisters",
        Err(_) => "Err",
    }
}
