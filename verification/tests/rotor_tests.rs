use skycomet::rotor::backend::RotorBackendError;
use skycomet::rotor::engine::{
    decode_readout, pad_number, parse_fmt, parse_template, render_segments, token_format,
    Field, FormatSpec, NumberText, ProtocolError, Segment,
};
use skycomet::rotor::profile::{
    check_axis_presence, check_flip_axis, check_protocol_templates, AxisType, RotorError,
};
use skycomet::rotor::serial::{
    backs_off_after, effective_data_bits, reply_complete, terminator_of, PortKind, Watchdog, read_reply, send_bytes, absorb_step, write_outcome, ReadStep, RotorTransport,
};
use skycomet::rotor::spec::{Operation, Parity, ProtocolTemplates, StopBits, TransportHints};

/// The number text of a value at a token's precision, as `{:.*}` writes it.
fn number_text(value: f64, prec: usize) -> NumberText {
    NumberText {
        negative: value.is_sign_negative() && value != 0.0,
        magnitude: format!("{:.*}", prec, value.abs()),
    }
}

/// Formats a value per an optional printf spec through the library.
fn format_value(value: f64, spec: Option<&str>) -> Result<String, ProtocolError> {
    let fs = token_format(&spec.map(|s| s.to_string()))?;
    Ok(pad_number(&number_text(value, fs.prec), fs))
}

/// Renders a template with an optional (az, el) position.
fn render(template: &str, pos: Option<(f64, f64)>) -> Result<String, ProtocolError> {
    let segs = parse_template(template)?;
    let numbers = pos.map(|(az, el)| {
        segs.iter()
            .filter_map(|s| match s {
                Segment::Token { field, fmt } => {
                    let prec = token_format(fmt).map(|f| f.prec).unwrap_or(0);
                    let v = match field {
                        Field::Az => az,
                        Field::El => el,
                    };
                    Some(number_text(v, prec))
                }
                Segment::Literal(_) => None,
            })
            .collect::<Vec<_>>()
    });
    render_segments(&segs, numbers.as_ref())
}

/// Decodes a readout into (az, el) degrees.
fn decode(pattern: &str, bytes: &[u8]) -> Result<(f64, f64), ProtocolError> {
    let t = decode_readout(pattern, bytes)?;
    Ok((t.az.parse::<f64>().unwrap(), t.el.parse::<f64>().unwrap()))
}

#[test]
fn format_zero_pad_width() {
    assert_eq!(format_value(180.0, Some("%03.0f")).unwrap(), "180");
    assert_eq!(format_value(5.0, Some("%03.0f")).unwrap(), "005");
}

#[test]
fn format_force_sign_zero_pad() {
    assert_eq!(format_value(180.0, Some("%+04.0f")).unwrap(), "+180");
    assert_eq!(format_value(5.0, Some("%+04.0f")).unwrap(), "+005");
    assert_eq!(format_value(-5.0, Some("%+04.0f")).unwrap(), "-005");
}

#[test]
fn format_precision() {
    assert_eq!(format_value(45.5, Some("%.1f")).unwrap(), "45.5");
    assert_eq!(format_value(180.0, Some("%.1f")).unwrap(), "180.0");
}

#[test]
fn format_rejects_bad_spec() {
    assert!(matches!(
        format_value(1.0, Some("%03d")),
        Err(ProtocolError::BadFormatSpec(_))
    ));
    assert!(matches!(
        format_value(1.0, Some("03.0f")),
        Err(ProtocolError::BadFormatSpec(_))
    ));
}

#[test]
fn format_space_pads_before_the_sign() {
    assert_eq!(format_value(-5.0, Some("%5.1f")).unwrap(), " -5.0");
    assert_eq!(
        parse_fmt("%0+12.3f").unwrap(),
        FormatSpec { zero: true, plus: true, width: 12, prec: 3 }
    );
    assert!(matches!(parse_fmt("%3.f"), Err(ProtocolError::BadFormatSpec(_))));
}

#[test]
fn parse_template_literal_and_tokens() {
    let segs = parse_template("AZ={az|%03.0f} EL={el|%03.0f}").unwrap();
    assert_eq!(segs.len(), 4);
    assert_eq!(segs[0], Segment::Literal("AZ=".to_string()));
    assert!(matches!(segs[1], Segment::Token { field: Field::Az, .. }));
    assert_eq!(segs[2], Segment::Literal(" EL=".to_string()));
    assert!(matches!(segs[3], Segment::Token { field: Field::El, .. }));
}

#[test]
fn parse_template_rejects_unterminated() {
    assert!(matches!(
        parse_template("AZ={az"),
        Err(ProtocolError::UnterminatedToken)
    ));
}

#[test]
fn parse_template_rejects_unknown_field() {
    assert!(matches!(
        parse_template("{foo}"),
        Err(ProtocolError::UnknownField(_))
    ));
}

#[test]
fn encode_gs232_set() {
    let t = ProtocolTemplates::gs232b();
    let bytes = render(t.template_for(Operation::SetPosition), Some((180.0, 45.0))).unwrap();
    assert_eq!(bytes, "W180 045\r");
}

#[test]
fn encode_query_and_stop_need_no_position() {
    let t = ProtocolTemplates::gs232b();
    assert_eq!(render(t.template_for(Operation::QueryPosition), None).unwrap(), "C2\r");
    assert_eq!(render(t.template_for(Operation::Stop), None).unwrap(), "S\r");
}

#[test]
fn encode_set_without_position_errors() {
    let t = ProtocolTemplates::gs232b();
    assert!(matches!(
        render(t.template_for(Operation::SetPosition), None),
        Err(ProtocolError::MissingPosition)
    ));
}

#[test]
fn encode_easycomm2_set() {
    let t = ProtocolTemplates::easycomm2();
    let bytes = render(t.template_for(Operation::SetPosition), Some((180.0, 45.5))).unwrap();
    assert_eq!(bytes, "AZ180.0 EL45.5\n");
}

#[test]
fn encode_gs232a_response_shape_uses_signed_pad() {
    let t = ProtocolTemplates::gs232a();
    let segs = parse_template(&t.response_pattern).unwrap();
    assert_eq!(segs.len(), 2);
}

#[test]
fn decode_gs232b() {
    let t = ProtocolTemplates::gs232b();
    assert_eq!(decode(&t.response_pattern, b"AZ=180 EL=045").unwrap(), (180.0, 45.0));
}

#[test]
fn decode_gs232b_ignores_trailing() {
    let t = ProtocolTemplates::gs232b();
    assert_eq!(decode(&t.response_pattern, b"AZ=180 EL=045\r\n").unwrap(), (180.0, 45.0));
}

#[test]
fn decode_gs232a_adjacent_signed() {
    let t = ProtocolTemplates::gs232a();
    assert_eq!(decode(&t.response_pattern, b"+0180+0090").unwrap(), (180.0, 90.0));
}

#[test]
fn decode_easycomm2() {
    let t = ProtocolTemplates::easycomm2();
    assert_eq!(decode(&t.response_pattern, b"AZ180.5 EL045.2").unwrap(), (180.5, 45.2));
}

#[test]
fn decode_rejects_literal_mismatch() {
    let t = ProtocolTemplates::gs232b();
    assert!(matches!(
        decode_readout(&t.response_pattern, b"XY=180 EL=045"),
        Err(ProtocolError::ParseFailed(_))
    ));
}

#[test]
fn decode_rejects_missing_number() {
    let t = ProtocolTemplates::gs232b();
    match decode_readout(&t.response_pattern, b"AZ= EL=045") {
        Err(ProtocolError::ParseFailed(m)) => assert_eq!(m, "no number at offset 3"),
        other => panic!("unexpected {other:?}"),
    }
}

#[test]
fn decode_rejects_invalid_utf8() {
    let t = ProtocolTemplates::gs232b();
    assert!(matches!(
        decode_readout(&t.response_pattern, &[0xff, 0xfe]),
        Err(ProtocolError::NotUtf8)
    ));
}

#[test]
fn roundtrip_gs232b_loopback() {
    let t = ProtocolTemplates::gs232b();
    let set = render(&t.set_template, Some((123.0, 67.0))).unwrap();
    assert_eq!(set, "W123 067\r");
    let readout = format!("AZ={:03} EL={:03}", 123, 67);
    assert_eq!(decode(&t.response_pattern, readout.as_bytes()).unwrap(), (123.0, 67.0));
}

#[test]
fn roundtrip_all_presets_via_response_pattern() {
    for t in [
        ProtocolTemplates::gs232a(),
        ProtocolTemplates::gs232b(),
        ProtocolTemplates::easycomm2(),
    ] {
        let wire = render(&t.response_pattern, Some((200.0, 12.0))).unwrap();
        assert_eq!(decode(&t.response_pattern, wire.as_bytes()).unwrap(), (200.0, 12.0));
    }
}

#[test]
fn profile_error_maps_to_backend_profile_variant() {
    let e: RotorBackendError = RotorError::InvalidField("az unreachable".into()).into();
    assert!(matches!(e, RotorBackendError::Profile(_)));
    assert_eq!(
        e.message(),
        "invalid rotor profile: invalid rotor field az unreachable"
    );
}

#[test]
fn protocol_error_maps_to_backend_protocol_variant() {
    let e: RotorBackendError = ProtocolError::MissingPosition.into();
    match e {
        RotorBackendError::Protocol(m) => assert_eq!(m, "operation requires a position"),
        other => panic!("unexpected {other:?}"),
    }
}

#[test]
fn az_el_requires_both_axes() {
    assert!(matches!(
        check_axis_presence(AxisType::AzEl, true, false),
        Err(RotorError::InvalidField(_))
    ));
    assert!(check_axis_presence(AxisType::AzEl, true, true).is_ok());
}

#[test]
fn az_only_must_not_carry_el() {
    assert!(matches!(
        check_axis_presence(AxisType::AzOnly, true, true),
        Err(RotorError::InvalidField(_))
    ));
    assert!(check_axis_presence(AxisType::AzOnly, true, false).is_ok());
    assert!(check_axis_presence(AxisType::ElOnly, false, true).is_ok());
}

#[test]
fn rejects_flip_on_non_azel() {
    assert!(matches!(
        check_flip_axis(true, AxisType::AzOnly),
        Err(RotorError::InvalidField(_))
    ));
    assert!(check_flip_axis(false, AxisType::AzOnly).is_ok());
    assert!(check_flip_axis(true, AxisType::AzEl).is_ok());
}

#[test]
fn preset_g5500_carries_gs232_protocol() {
    assert!(check_protocol_templates(&ProtocolTemplates::gs232b()).is_ok());
    assert!(check_protocol_templates(&ProtocolTemplates::gs232a()).is_ok());
    assert!(check_protocol_templates(&ProtocolTemplates::easycomm2()).is_ok());
}

#[test]
fn rejects_protocol_with_invalid_template() {
    let mut t = ProtocolTemplates::gs232b();
    t.set_template = "W{az".to_string();
    match check_protocol_templates(&t) {
        Err(RotorError::InvalidField(m)) => {
            assert_eq!(m, "protocol: unterminated token in template")
        }
        other => panic!("unexpected {other:?}"),
    }
    let mut u = ProtocolTemplates::gs232b();
    u.response_pattern = "AZ={az}".to_string();
    match check_protocol_templates(&u) {
        Err(RotorError::InvalidField(m)) => assert_eq!(
            m,
            "protocol: response parse failed: response_pattern must contain both az and el tokens"
        ),
        other => panic!("unexpected {other:?}"),
    }
}

#[test]
fn read_reply_stops_at_terminator() {
    let term = terminator_of("\r");
    assert_eq!(term, Some(b'\r'));
    assert!(!reply_complete(&b"AZ=180".to_vec(), term));
    assert!(reply_complete(&b"AZ=180 EL=045\r".to_vec(), term));
    assert!(reply_complete(&vec![b'x'; 64], None));
    assert_eq!(terminator_of(""), None);
}

#[test]
fn watchdog_expires_after_its_window() {
    let mut w = Watchdog::new();
    assert!(!w.is_alive(0));
    w.touch(1_000);
    assert!(w.is_alive(1_000));
    assert!(w.is_alive(5_999));
    assert!(!w.is_alive(6_000));
    assert!(w.is_alive(500));
}

#[test]
fn retry_pacing_and_port_settings() {
    assert!(backs_off_after(0));
    assert!(backs_off_after(1));
    assert!(!backs_off_after(2));
    assert_eq!(effective_data_bits(7), 7);
    assert_eq!(effective_data_bits(9), 8);
    assert_eq!(PortKind::Usb.label(), "usb");
    let hints = TransportHints::default_9600_8n1("\n");
    assert_eq!(hints.baud, 9600);
    assert_eq!(hints.data_bits, 8);
    assert_eq!(hints.parity, Parity::NoParity);
    assert_eq!(hints.stop_bits, StopBits::One);
    assert_eq!(hints.line_ending, "\n");
}

struct Scripted {
    steps: Vec<ReadStep>,
    written: Vec<u8>,
    fail_writes: bool,
}

impl Scripted {
    fn bytes(text: &[u8]) -> Self {
        Scripted { steps: text.iter().map(|b| ReadStep::Byte(*b)).collect(), written: Vec::new(), fail_writes: false }
    }
}

impl RotorTransport for Scripted {
    fn read_step(&mut self) -> ReadStep {
        if self.steps.is_empty() {
            ReadStep::End
        } else {
            self.steps.remove(0)
        }
    }

    fn write_all_bytes(&mut self, bytes: &[u8]) -> Result<(), String> {
        if self.fail_writes {
            return Err("broken pipe".to_string());
        }
        self.written.extend_from_slice(bytes);
        Ok(())
    }

    fn discard_input(&mut self) -> Result<(), String> {
        Ok(())
    }
}

#[test]
fn reply_reading_stops_at_the_terminator() {
    let mut port = Scripted::bytes(b"AZ=010 EL=020\rAZ=011");
    let reply = read_reply(&mut port, Some(b'\r')).unwrap();
    assert_eq!(reply, b"AZ=010 EL=020\r".to_vec());
    assert_eq!(port.steps.len(), 6);
}

#[test]
fn reply_reading_stops_at_end_timeout_and_cap() {
    let mut port = Scripted::bytes(b"+0180");
    assert_eq!(read_reply(&mut port, Some(b'\r')).unwrap(), b"+0180".to_vec());

    let mut port = Scripted { steps: vec![ReadStep::Byte(b'A'), ReadStep::TimedOut, ReadStep::Byte(b'Z')], written: Vec::new(), fail_writes: false };
    assert_eq!(read_reply(&mut port, None).unwrap(), b"A".to_vec());

    let mut port = Scripted::bytes(&[b'9'; 100]);
    assert_eq!(read_reply(&mut port, Some(b'\n')).unwrap().len(), 64);
}

#[test]
fn failed_reads_and_writes_are_io_errors() {
    let mut port = Scripted { steps: vec![ReadStep::Byte(b'A'), ReadStep::Failed("unplugged".to_string())], written: Vec::new(), fail_writes: true };
    assert_eq!(read_reply(&mut port, None), Err(RotorBackendError::Io("unplugged".to_string())));
    assert_eq!(send_bytes(&mut port, b"C2\r"), Err(RotorBackendError::Io("broken pipe".to_string())));
    port.fail_writes = false;
    assert_eq!(send_bytes(&mut port, b"C2\r"), Ok(()));
    assert_eq!(port.written, b"C2\r".to_vec());
}

#[test]
fn each_read_outcome_moves_the_reply_on() {
    let mut buf = b"AZ".to_vec();
    assert_eq!(absorb_step(&mut buf, ReadStep::Byte(b'=')), None);
    assert_eq!(buf, b"AZ=".to_vec());
    assert_eq!(absorb_step(&mut buf, ReadStep::End), Some(Ok(())));
    assert_eq!(absorb_step(&mut buf, ReadStep::TimedOut), Some(Ok(())));
    assert_eq!(
        absorb_step(&mut buf, ReadStep::Failed("framing error".to_string())),
        Some(Err(RotorBackendError::Io("framing error".to_string())))
    );
    assert_eq!(buf, b"AZ=".to_vec());
}

#[test]
fn write_outcomes_map_to_io_errors() {
    assert_eq!(write_outcome(Ok(())), Ok(()));
    assert_eq!(write_outcome(Err("timed out".to_string())), Err(RotorBackendError::Io("timed out".to_string())));
}
