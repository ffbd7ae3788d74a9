use macwincontrol::codec::encode_message;
use macwincontrol::messages::Message;
use macwincontrol::parse::parse_message;
use macwincontrol::screens::ScreenData;

fn round_trip(m: &Message) {
    let line = encode_message(m);
    let back = parse_message(&line).expect("own encoding must parse");
    assert_eq!(&back, m);
}

#[test]
fn every_message_type_round_trips() {
    round_trip(&Message::ping());
    round_trip(&Message::pong());
    round_trip(&Message::hello("MacBook"));
    round_trip(&Message::mouse_move(160, 540));
    round_trip(&Message::mouse_move(-7, -12));
    round_trip(&Message::mouse_click("left", "press"));
    round_trip(&Message::key_event(4294967295, "release"));
    round_trip(&Message::control_start(10, 540));
    round_trip(&Message::control_end());
    round_trip(&Message::clipboard("plain text"));
    round_trip(&Message::layout_sync("{\"saved\":true}"));
    let screens = vec![
        ScreenData {
            name: "Main".to_string(),
            x: 0,
            y: 0,
            width: 1920,
            height: 1080,
            is_primary: true,
        },
        ScreenData {
            name: "Side".to_string(),
            x: -1280,
            y: 24,
            width: 1280,
            height: 1024,
            is_primary: false,
        },
    ];
    round_trip(&Message::hello_with_screens("A", screens, "mac"));
}

#[test]
fn escaped_strings_round_trip() {
    round_trip(&Message::clipboard("a\"b\\c\nd\te\rf\u{8}g\u{c}h"));
    round_trip(&Message::clipboard("\u{1}\u{1f}\u{0}"));
    round_trip(&Message::clipboard("unicode: \u{e9}\u{4e16}\u{754c}"));
    round_trip(&Message::mouse_click("\"quoted\"", "pr\\ess"));
}

#[test]
fn extreme_coordinates_round_trip() {
    round_trip(&Message::mouse_move(i32::MAX, i32::MIN));
    round_trip(&Message::mouse_move(0, -1));
}

#[test]
fn malformed_lines_are_rejected() {
    assert!(parse_message("{not json}").is_none());
    assert!(parse_message("").is_none());
    assert!(parse_message("{}").is_none());
    assert!(parse_message("{\"x\":1}").is_none());
    assert!(parse_message("{\"type\":\"ping\"").is_none());
    assert!(parse_message("{\"type\":\"ping\"}trailing").is_none());
    assert!(parse_message("{\"type\":\"ping\",}").is_none());
    assert!(parse_message("{\"type\":\"mouse_move\",\"x\":12.5}").is_none());
    assert!(parse_message("{\"type\":\"mouse_move\",\"x\":99999999999}").is_none());
    assert!(parse_message("{\"type\":\"ping\",\"screens\":{}}").is_none());
}

#[test]
fn fields_parse_in_any_order() {
    let m = parse_message("{\"type\":\"mouse_move\",\"y\":2,\"x\":1}").unwrap();
    assert_eq!(m.x, Some(1));
    assert_eq!(m.y, Some(2));
    assert_eq!(m.msg_type, "mouse_move");
}

#[test]
fn unknown_scalar_fields_are_ignored() {
    let m = parse_message(
        "{\"type\":\"ping\",\"extra\":\"hi\",\"n\":-3,\"b\":true,\"z\":null}",
    )
    .unwrap();
    assert_eq!(m.msg_type, "ping");
    assert_eq!(m, Message::ping());
}

#[test]
fn unknown_nested_fields_are_ignored() {
    let m = parse_message(
        "{\"type\":\"ping\",\"meta\":{\"a\":[1,2,{\"b\":null}],\"c\":\"x\"},\"empty\":{},\"arr\":[],\"deep\":[[[true]]]}",
    )
    .unwrap();
    assert_eq!(m, Message::ping());
    let m = parse_message(
        "{\"type\":\"mouse_move\",\"unknown\":[{\"k\":\"v\"},-7],\"x\":1,\"y\":2}",
    )
    .unwrap();
    assert_eq!((m.x, m.y), (Some(1), Some(2)));
    // ill-formed nesting still makes the line malformed
    assert!(parse_message("{\"type\":\"ping\",\"meta\":{]}").is_none());
    assert!(parse_message("{\"type\":\"ping\",\"meta\":[1,}").is_none());
    assert!(parse_message("{\"type\":\"ping\",\"meta\":{\"a\":}}").is_none());
}

#[test]
fn screens_parse_from_the_wire() {
    let line = "{\"type\":\"hello\",\"name\":\"A\",\"screens\":[{\"name\":\"M\",\"x\":0,\"y\":0,\"width\":1920,\"height\":1080,\"is_primary\":true},{\"name\":\"S\",\"x\":1920,\"y\":0,\"width\":800,\"height\":600,\"is_primary\":false}]}";
    let m = parse_message(line).unwrap();
    let ss = m.screens.unwrap();
    assert_eq!(ss.len(), 2);
    assert_eq!(ss[0].name, "M");
    assert_eq!(ss[1].x, 1920);
    assert_eq!(ss[1].width, 800);
    assert!(!ss[1].is_primary);
}

#[test]
fn unicode_escapes_decode() {
    let m = parse_message("{\"type\":\"clipboard\",\"text\":\"a\\u0009b\\u001fc\"}").unwrap();
    assert_eq!(m.text.as_deref(), Some("a\tb\u{1f}c"));
    // escapes outside the control range are not what the encoder emits
    assert!(parse_message("{\"type\":\"clipboard\",\"text\":\"\\u0041\"}").is_none());
}

#[test]
fn serde_encoded_peer_messages_parse() {
    // what a peer's serde-based encoder puts on the wire for each type
    let m = parse_message("{\"type\":\"key_event\",\"action\":\"press\",\"key_code\":56}")
        .unwrap();
    assert_eq!(m.key_code, Some(56));
    assert_eq!(m.action.as_deref(), Some("press"));
    let m = parse_message(
        "{\"type\":\"hello\",\"name\":\"Win\",\"version\":\"1.0\",\"computer_type\":\"windows\",\"screens\":[]}",
    )
    .unwrap();
    assert_eq!(m.version.as_deref(), Some("1.0"));
    assert_eq!(m.screens, Some(Vec::new()));
}
