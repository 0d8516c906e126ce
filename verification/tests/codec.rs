use aviator5g::codec::{decode_members, DecodeError, Member};
use aviator5g::json::Field;
use aviator5g::message::{parse_id, Number};
use aviator5g::{
    build_control_message, id_from_str, parse_control_message, ClientType, ControlMessage,
    ControlMessageData, DateTime, Id, IdentificationMessageData, LatencyRequestMessageData,
    LatencyResponseMessageData,
};

const GROUP: &str = "14ed4af8-5256-4e74-a5d6-545dfc0b004c";
const VEHICLE: &str = "e72029c7-ce0f-45c7-bc3a-3e01e5c53944";

fn member(name: &str, field: Field) -> (String, Field) {
    (name.to_string(), field)
}

fn words(text: &str) -> Field {
    Field::Text(text.to_string())
}

#[test]
fn an_identifier_is_its_value() {
    assert_eq!(id_from_str(VEHICLE), Id(0xe72029c7_ce0f_45c7_bc3a_3e01e5c53944));
    assert_eq!(parse_id("00000000-0000-0000-0000-000000000001"), Some(Id(1)));
    assert_eq!(parse_id("E72029C7CE0F45C7BC3A3E01E5C53944"), Some(id_from_str(VEHICLE)));
    assert_eq!(parse_id("not an identifier"), None);
    assert_eq!(parse_id(""), None);
}

#[test]
fn an_identifier_is_written_lower_case_with_hyphens() {
    assert_eq!(Id(0xe72029c7_ce0f_45c7_bc3a_3e01e5c53944).to_text(), VEHICLE);
    assert_eq!(Id(0).to_text(), "00000000-0000-0000-0000-000000000000");
    assert_eq!(parse_id("E72029C7-CE0F-45C7-BC3A-3E01E5C53944").unwrap().to_text(), VEHICLE);
}

#[test]
fn an_instant_keeps_its_text() {
    let noon = DateTime::parse("2021-06-01T12:00:00Z").unwrap();
    assert_eq!(noon.timestamp(), 1_622_548_800);
    assert_eq!(noon.timestamp_subsec_nanos(), 0);
    assert_eq!(noon.text(), "2021-06-01T12:00:00Z");
    let shifted = DateTime::parse("2021-06-01T14:00:00.25+02:00").unwrap();
    assert_eq!(shifted.timestamp(), 1_622_548_800);
    assert_eq!(shifted.timestamp_subsec_nanos(), 250_000_000);
    assert_eq!(shifted.text(), "2021-06-01T14:00:00.25+02:00");
    assert!(DateTime::parse("yesterday").is_none());
    assert!(DateTime::parse("2021-06-01").is_none());
}

#[test]
fn identification_decodes() {
    let text = format!(
        "{{\"type\":\"identification\",\"id\":\"{}\",\"group_id\":\"{}\",\"client_type\":\"vehicle\"}}",
        VEHICLE, GROUP
    );
    let expected = ControlMessage::Identification(IdentificationMessageData {
        id: id_from_str(VEHICLE),
        group_id: id_from_str(GROUP),
        client_type: ClientType::Vehicle,
    });
    assert_eq!(parse_control_message(&text), Ok(expected));
}

#[test]
fn control_decodes_with_the_bits_of_its_axes() {
    let message = parse_control_message("{\"type\":\"control\",\"axes\":[0.5,-0.25,0,1e2]}").unwrap();
    let axes = match message {
        ControlMessage::Control(data) => data.axes,
        other => panic!("not a control frame: {:?}", other),
    };
    let bits: Vec<u64> = axes.iter().map(|axis| axis.to_bits()).collect();
    assert_eq!(
        bits,
        vec![0.5f64.to_bits(), (-0.25f64).to_bits(), 0.0f64.to_bits(), 100.0f64.to_bits()]
    );
    let literals: Vec<&str> = axes.iter().map(|axis| axis.literal()).collect();
    assert_eq!(literals, vec!["0.5", "-0.25", "0", "100.0"]);
    assert_eq!(axes[0].duplicate(), axes[0]);
}

#[test]
fn latency_frames_decode() {
    let request = parse_control_message(&format!(
        "{{\"timestamp\":\"2021-06-01T12:00:00Z\",\"initiator_id\":\"{}\",\"type\":\"latency_request\"}}",
        VEHICLE
    ))
    .unwrap();
    let expected = ControlMessage::LatencyRequest(LatencyRequestMessageData {
        initiator_id: id_from_str(VEHICLE),
        timestamp: DateTime::parse("2021-06-01T12:00:00Z").unwrap(),
    });
    assert_eq!(request, expected);
    let response = parse_control_message(&format!(
        "{{\"type\":\"latency_response\",\"initiator_id\":\"{}\",\"responder_id\":\"{}\",\"timestamp\":\"2021-06-01T12:00:00Z\"}}",
        VEHICLE, GROUP
    ))
    .unwrap();
    let expected = ControlMessage::LatencyResponse(LatencyResponseMessageData {
        initiator_id: id_from_str(VEHICLE),
        responder_id: id_from_str(GROUP),
        timestamp: DateTime::parse("2021-06-01T12:00:00Z").unwrap(),
    });
    assert_eq!(response, expected);
}

#[test]
fn unknown_members_are_passed_over() {
    let message = parse_control_message(
        "{\"type\":\"control\",\"axes\":[],\"note\":{\"deep\":[1,2]},\"seq\":7,\"ok\":true,\"gone\":null}",
    )
    .unwrap();
    assert_eq!(message, parse_control_message("{\"axes\":[],\"type\":\"control\"}").unwrap());
}

#[test]
fn what_is_no_message_is_refused_with_a_cause() {
    let refused = |text: &str| parse_control_message(text).unwrap_err();
    assert_eq!(refused("{\"type\":\"takeoff\"}"), "unknown variant in field `type`");
    assert_eq!(refused("{\"axes\":[1]}"), "missing field `type`");
    assert_eq!(refused("{\"type\":7}"), "missing field `type`");
    assert_eq!(refused("{}"), "missing field `type`");
    assert_eq!(refused("{\"type\":\"control\"}"), "missing or invalid field `axes`");
    assert_eq!(refused("{\"type\":\"control\",\"axes\":[1,\"2\"]}"), "missing or invalid field `axes`");
    assert_eq!(refused("{\"type\":\"control\",\"axes\":1}"), "missing or invalid field `axes`");
    assert_eq!(
        refused("{\"type\":\"identification\",\"id\":\"x\"}"),
        "missing or invalid field `id`"
    );
    assert_eq!(
        refused(&format!("{{\"type\":\"identification\",\"id\":\"{}\"}}", VEHICLE)),
        "missing or invalid field `group_id`"
    );
    assert_eq!(
        refused(&format!(
            "{{\"type\":\"identification\",\"id\":\"{}\",\"group_id\":\"{}\",\"client_type\":\"drone\"}}",
            VEHICLE, GROUP
        )),
        "missing or invalid field `client_type`"
    );
    assert_eq!(
        refused(&format!("{{\"type\":\"latency_request\",\"initiator_id\":\"{}\"}}", VEHICLE)),
        "missing or invalid field `timestamp`"
    );
    assert_eq!(
        refused("{\"type\":\"latency_request\",\"timestamp\":\"2021-06-01T12:00:00Z\"}"),
        "missing or invalid field `initiator_id`"
    );
    assert_eq!(
        refused(&format!(
            "{{\"type\":\"latency_response\",\"initiator_id\":\"{}\",\"timestamp\":\"2021-06-01T12:00:00Z\"}}",
            VEHICLE
        )),
        "missing or invalid field `responder_id`"
    );
    assert!(!refused("[1,2]").is_empty());
    assert!(!refused("null").is_empty());
    assert!(!refused("\"control\"").is_empty());
    assert!(!refused("{\"type\":").is_empty());
    assert!(!refused("").is_empty());
}

#[test]
fn members_decode_without_a_text() {
    let control = vec![member("type", words("control")), member("axes", Field::List(vec![]))];
    let decoded = decode_members(&control).unwrap();
    assert_eq!(decoded, parse_control_message("{\"type\":\"control\",\"axes\":[]}").unwrap());
    assert_eq!(decode_members(&vec![]), Err(DecodeError::MissingType));
    assert_eq!(
        decode_members(&vec![member("type", Field::Other)]),
        Err(DecodeError::MissingType)
    );
    assert_eq!(
        decode_members(&vec![member("type", words("Control"))]),
        Err(DecodeError::UnknownType)
    );
    assert_eq!(
        decode_members(&vec![member("type", words("control")), member("axes", Field::List(vec![None]))]),
        Err(DecodeError::InvalidMember(Member::Axes))
    );
    assert_eq!(
        decode_members(&vec![member("type", words("latency_request")), member("initiator_id", words(VEHICLE))]),
        Err(DecodeError::InvalidMember(Member::Timestamp))
    );
}

#[test]
fn of_two_members_with_one_name_the_last_counts() {
    let members = vec![
        member("type", words("identification")),
        member("type", words("control")),
        member("axes", Field::Other),
        member("axes", Field::List(vec![])),
    ];
    assert!(matches!(decode_members(&members), Ok(ControlMessage::Control(_))));
}

#[test]
fn decode_errors_have_words() {
    assert_eq!(DecodeError::Syntax.describe(), "not a JSON object");
    assert_eq!(DecodeError::MissingType.describe(), "missing field `type`");
    assert_eq!(DecodeError::UnknownType.describe(), "unknown variant in field `type`");
    assert_eq!(
        DecodeError::InvalidMember(Member::ResponderId).describe(),
        "missing or invalid field `responder_id`"
    );
}

#[test]
fn identification_encodes() {
    let message = ControlMessage::Identification(IdentificationMessageData {
        id: id_from_str(VEHICLE),
        group_id: id_from_str(GROUP),
        client_type: ClientType::Pilot,
    });
    assert_eq!(
        build_control_message(&message),
        format!(
            "{{\"type\":\"identification\",\"id\":\"{}\",\"group_id\":\"{}\",\"client_type\":\"pilot\"}}",
            VEHICLE, GROUP
        )
    );
}

#[test]
fn control_encodes_with_its_literals() {
    let message = parse_control_message("{ \"axes\" : [ 0.50, -25e-2, 0, 1 ], \"type\" : \"control\" }").unwrap();
    assert_eq!(build_control_message(&message), "{\"type\":\"control\",\"axes\":[0.5,-0.25,0,1]}");
    let single = parse_control_message("{\"type\":\"control\",\"axes\":[3]}").unwrap();
    assert_eq!(build_control_message(&single), "{\"type\":\"control\",\"axes\":[3]}");
    let none = parse_control_message("{\"type\":\"control\",\"axes\":[]}").unwrap();
    assert_eq!(build_control_message(&none), "{\"type\":\"control\",\"axes\":[]}");
}

#[test]
fn latency_frames_encode_with_the_timestamp_as_written() {
    let request = ControlMessage::LatencyRequest(LatencyRequestMessageData {
        initiator_id: id_from_str(VEHICLE),
        timestamp: DateTime::parse("2021-06-01T14:00:00+02:00").unwrap(),
    });
    assert_eq!(
        build_control_message(&request),
        format!(
            "{{\"type\":\"latency_request\",\"initiator_id\":\"{}\",\"timestamp\":\"2021-06-01T14:00:00+02:00\"}}",
            VEHICLE
        )
    );
    let response = ControlMessage::LatencyResponse(LatencyResponseMessageData {
        initiator_id: id_from_str(VEHICLE),
        responder_id: id_from_str(GROUP),
        timestamp: DateTime::parse("2021-06-01T12:00:00Z").unwrap(),
    });
    assert_eq!(
        build_control_message(&response),
        format!(
            "{{\"type\":\"latency_response\",\"initiator_id\":\"{}\",\"responder_id\":\"{}\",\"timestamp\":\"2021-06-01T12:00:00Z\"}}",
            VEHICLE, GROUP
        )
    );
}

#[test]
fn what_is_encoded_decodes_to_itself() {
    let texts = [
        format!(
            "{{\"type\":\"identification\",\"id\":\"{}\",\"group_id\":\"{}\",\"client_type\":\"vehicle\"}}",
            VEHICLE, GROUP
        ),
        "{\"type\":\"control\",\"axes\":[0.5,-0.25,0,0,1e-7,123456789.125]}".to_string(),
        format!(
            "{{\"type\":\"latency_request\",\"initiator_id\":\"{}\",\"timestamp\":\"2021-06-01T12:00:00.123456789Z\"}}",
            VEHICLE
        ),
        format!(
            "{{\"type\":\"latency_response\",\"initiator_id\":\"{}\",\"responder_id\":\"{}\",\"timestamp\":\"1999-12-31T23:59:59Z\"}}",
            VEHICLE, GROUP
        ),
    ];
    for text in texts {
        let message = parse_control_message(&text).unwrap();
        let again = parse_control_message(&build_control_message(&message)).unwrap();
        assert_eq!(again, message);
    }
}

#[test]
fn an_answer_copies_the_probe() {
    let probe = LatencyRequestMessageData {
        initiator_id: Id(5),
        timestamp: DateTime::parse("2021-06-01T12:00:00Z").unwrap(),
    };
    let answer = probe.respond(Id(6));
    assert_eq!(answer.initiator_id, Id(5));
    assert_eq!(answer.responder_id, Id(6));
    assert_eq!(answer.timestamp, probe.timestamp);
    assert_eq!(answer.timestamp.text(), "2021-06-01T12:00:00Z");
    assert_eq!(probe.timestamp.duplicate(), probe.timestamp);
}

#[test]
fn an_identifier_shows_every_digit_in_its_place() {
    assert_eq!(
        Id(0x0123_4567_89ab_cdef_fedc_ba98_7654_3210).to_text(),
        "01234567-89ab-cdef-fedc-ba9876543210"
    );
    assert_eq!(Id(0).to_text(), "00000000-0000-0000-0000-000000000000");
    assert_eq!(Id(u128::MAX).to_text(), "ffffffff-ffff-ffff-ffff-ffffffffffff");
    assert_eq!(Id(0xa0).to_text(), "00000000-0000-0000-0000-0000000000a0");
    assert_eq!(Id(1 << 127).to_text(), "80000000-0000-0000-0000-000000000000");
}

#[test]
fn a_number_is_read_from_its_literal() {
    let quarter = Number::parse("0.25").unwrap();
    assert_eq!(quarter.to_bits(), 0.25f64.to_bits());
    assert_eq!(quarter.literal(), "0.25");
    let one = Number::parse("1").unwrap();
    assert_eq!(one.to_bits(), 1f64.to_bits());
    assert_eq!(one.literal(), "1");
    let down = Number::parse("-1.0").unwrap();
    assert_eq!(down.to_bits(), (-1f64).to_bits());
    assert_eq!(down.literal(), "-1.0");
    let small = Number::parse("1e-3").unwrap();
    assert_eq!(small.to_bits(), 0.001f64.to_bits());
    assert_eq!(small.literal(), "0.001");
    let zero = Number::parse("-0.0").unwrap();
    assert_eq!(zero.to_bits(), (-0f64).to_bits());
}

#[test]
fn what_is_no_literal_is_no_number() {
    for text in ["", " ", "1 ", " 1", "1,2", "1],\"value\":[2", "abc", "--1", "+1", "1e", ".", "1e999", "null", "\"1\"", "0x10", "[1]", "1}"] {
        assert_eq!(Number::parse(text), None, "{:?}", text);
    }
}

#[test]
fn a_pilot_writes_its_own_axes() {
    let axes = ["0.5", "-0.25", "0", "1"]
        .iter()
        .map(|literal| Number::parse(literal).unwrap())
        .collect::<Vec<_>>();
    let message = ControlMessage::Control(ControlMessageData { axes });
    let text = build_control_message(&message);
    assert_eq!(text, "{\"type\":\"control\",\"axes\":[0.5,-0.25,0,1]}");
    assert_eq!(parse_control_message(&text), Ok(message));
}
