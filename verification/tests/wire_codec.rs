use macwincontrol::codec::encode_message;
use macwincontrol::messages::{Message, MsgKind};
use macwincontrol::screens::ScreenData;

#[test]
fn encode_ping_and_pong() {
    assert_eq!(encode_message(&Message::ping()), "{\"type\":\"ping\"}");
    assert_eq!(encode_message(&Message::pong()), "{\"type\":\"pong\"}");
}

#[test]
fn encode_mouse_move() {
    let s = encode_message(&Message::mouse_move(160, 540));
    assert_eq!(s, "{\"type\":\"mouse_move\",\"x\":160,\"y\":540}");
}

#[test]
fn encode_negative_coordinates() {
    let s = encode_message(&Message::mouse_move(-5, 0));
    assert_eq!(s, "{\"type\":\"mouse_move\",\"x\":-5,\"y\":0}");
}

#[test]
fn encode_control_messages() {
    let s = encode_message(&Message::control_start(10, 540));
    assert_eq!(s, "{\"type\":\"control_start\",\"x\":10,\"y\":540}");
    let s = encode_message(&Message::control_end());
    assert_eq!(s, "{\"type\":\"control_end\",\"x\":0,\"y\":0}");
}

#[test]
fn encode_click_and_key() {
    let s = encode_message(&Message::mouse_click("left", "press"));
    assert_eq!(s, "{\"type\":\"mouse_click\",\"button\":\"left\",\"action\":\"press\"}");
    let s = encode_message(&Message::key_event(42, "release"));
    assert_eq!(s, "{\"type\":\"key_event\",\"action\":\"release\",\"key_code\":42}");
}

#[test]
fn encode_hello_with_screens() {
    let screens = vec![ScreenData {
        name: "Main".to_string(),
        x: 0,
        y: 0,
        width: 1920,
        height: 1080,
        is_primary: true,
    }];
    let s = encode_message(&Message::hello_with_screens("Mac", screens, "mac"));
    assert_eq!(
        s,
        "{\"type\":\"hello\",\"name\":\"Mac\",\"version\":\"1.0\",\"screens\":[{\"name\":\"Main\",\"x\":0,\"y\":0,\"width\":1920,\"height\":1080,\"is_primary\":true}],\"computer_type\":\"mac\"}"
    );
}

#[test]
fn encode_escapes_strings() {
    let s = encode_message(&Message::clipboard("a\"b\\c\nd\tz"));
    assert_eq!(s, "{\"type\":\"clipboard\",\"text\":\"a\\\"b\\\\c\\nd\\tz\"}");
    let s = encode_message(&Message::clipboard("\u{1}"));
    assert_eq!(s, "{\"type\":\"clipboard\",\"text\":\"\\u0001\"}");
}

#[test]
fn encoded_output_is_valid_json() {
    let screens = vec![
        ScreenData {
            name: "Quote\"d".to_string(),
            x: -1280,
            y: 0,
            width: 1280,
            height: 1024,
            is_primary: false,
        },
        ScreenData {
            name: "Main".to_string(),
            x: 0,
            y: 0,
            width: 1920,
            height: 1080,
            is_primary: true,
        },
    ];
    let m = Message::hello_with_screens("Mac\u{9}Book", screens, "mac");
    let s = encode_message(&m);
    let v: serde_json::Value = serde_json::from_str(&s).expect("encoder output must be JSON");
    assert_eq!(v["type"], "hello");
    assert_eq!(v["name"], "Mac\tBook");
    assert_eq!(v["version"], "1.0");
    assert_eq!(v["computer_type"], "mac");
    assert!(v.get("x").is_none());
    let arr = v["screens"].as_array().unwrap();
    assert_eq!(arr.len(), 2);
    assert_eq!(arr[0]["name"], "Quote\"d");
    assert_eq!(arr[0]["x"], -1280);
    assert_eq!(arr[1]["is_primary"], true);

    let v: serde_json::Value =
        serde_json::from_str(&encode_message(&Message::mouse_move(-7, 12))).unwrap();
    assert_eq!(v["x"], -7);
    assert_eq!(v["y"], 12);
}

#[test]
fn message_kinds_classify_by_type_field() {
    assert_eq!(Message::ping().kind(), MsgKind::Ping);
    assert_eq!(Message::pong().kind(), MsgKind::Pong);
    assert_eq!(Message::hello("a").kind(), MsgKind::Hello);
    assert_eq!(Message::mouse_move(0, 0).kind(), MsgKind::MouseMove);
    assert_eq!(Message::mouse_click("l", "p").kind(), MsgKind::MouseClick);
    assert_eq!(Message::key_event(1, "p").kind(), MsgKind::KeyEvent);
    assert_eq!(Message::control_start(0, 0).kind(), MsgKind::ControlStart);
    assert_eq!(Message::control_end().kind(), MsgKind::ControlEnd);
    assert_eq!(Message::clipboard("t").kind(), MsgKind::Clipboard);
    assert_eq!(Message::layout_sync("{}").kind(), MsgKind::LayoutSync);
    let mut m = Message::ping();
    m.msg_type = "mystery".to_string();
    assert_eq!(m.kind(), MsgKind::Unknown);
}
