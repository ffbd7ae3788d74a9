//! The session protocol's message vocabulary.
//!
//! Every message on the wire is one flat object with a required `type`
//! field and a superset of optional fields; a constructor exists for each
//! message the core sends. Unknown `type` values are classified as
//! [`MsgKind::Unknown`] and dropped by the handler.

use vstd::prelude::*;
use crate::screens::ScreenData;
use crate::screens::ScreenV;

verus! {

/// One protocol message: the flat schema shared by every message type.
#[derive(Clone, Debug, PartialEq)]
pub struct Message {
    pub msg_type: String,
    pub x: Option<i32>,
    pub y: Option<i32>,
    pub button: Option<String>,
    pub action: Option<String>,
    pub key_code: Option<u32>,
    pub text: Option<String>,
    pub name: Option<String>,
    pub version: Option<String>,
    pub screens: Option<Vec<ScreenData>>,
    pub computer_type: Option<String>,
    pub layout: Option<String>,
}

/// Mathematical model of a message.
pub ghost struct MessageV {
    pub msg_type: Seq<char>,
    pub x: Option<i32>,
    pub y: Option<i32>,
    pub button: Option<Seq<char>>,
    pub action: Option<Seq<char>>,
    pub key_code: Option<u32>,
    pub text: Option<Seq<char>>,
    pub name: Option<Seq<char>>,
    pub version: Option<Seq<char>>,
    pub screens: Option<Seq<ScreenV>>,
    pub computer_type: Option<Seq<char>>,
    pub layout: Option<Seq<char>>,
}

pub open spec fn opt_str_view(o: Option<String>) -> Option<Seq<char>> {
    match o {
        Some(s) => Some(s@),
        None => None,
    }
}

pub open spec fn screens_view(v: Seq<ScreenData>) -> Seq<ScreenV> {
    v.map_values(|s: ScreenData| s@)
}

pub open spec fn opt_screens_view(o: Option<Vec<ScreenData>>) -> Option<Seq<ScreenV>> {
    match o {
        Some(v) => Some(screens_view(v@)),
        None => None,
    }
}

impl View for Message {
    type V = MessageV;

    open spec fn view(&self) -> MessageV {
        MessageV {
            msg_type: self.msg_type@,
            x: self.x,
            y: self.y,
            button: opt_str_view(self.button),
            action: opt_str_view(self.action),
            key_code: self.key_code,
            text: opt_str_view(self.text),
            name: opt_str_view(self.name),
            version: opt_str_view(self.version),
            screens: opt_screens_view(self.screens),
            computer_type: opt_str_view(self.computer_type),
            layout: opt_str_view(self.layout),
        }
    }
}

/// The classification of a message by its `type` field.
#[derive(Clone, Copy, Debug, PartialEq, Eq, Structural)]
pub enum MsgKind {
    Hello,
    MouseMove,
    MouseClick,
    KeyEvent,
    ControlStart,
    ControlEnd,
    Clipboard,
    LayoutSync,
    Ping,
    Pong,
    Unknown,
}

/// Classifies a `type` field value.
pub open spec fn spec_kind(t: Seq<char>) -> MsgKind {
    if t == "hello"@ {
        MsgKind::Hello
    } else if t == "mouse_move"@ {
        MsgKind::MouseMove
    } else if t == "mouse_click"@ {
        MsgKind::MouseClick
    } else if t == "key_event"@ {
        MsgKind::KeyEvent
    } else if t == "control_start"@ {
        MsgKind::ControlStart
    } else if t == "control_end"@ {
        MsgKind::ControlEnd
    } else if t == "clipboard"@ {
        MsgKind::Clipboard
    } else if t == "layout_sync"@ {
        MsgKind::LayoutSync
    } else if t == "ping"@ {
        MsgKind::Ping
    } else if t == "pong"@ {
        MsgKind::Pong
    } else {
        MsgKind::Unknown
    }
}

/// Character-by-character string equality.
pub fn str_eq(a: &str, b: &str) -> (r: bool)
    ensures
        r == (a@ == b@),
{
    let la = a.unicode_len();
    let lb = b.unicode_len();
    if la != lb {
        assert(a@ != b@) by {
            assert(a@.len() != b@.len());
        }
        return false;
    }
    let mut i: usize = 0;
    while i < la
        invariant
            0 <= i <= la,
            la as nat == a@.len(),
            la as nat == b@.len(),
            forall|j: int| 0 <= j < i ==> a@[j] == b@[j],
        decreases la - i,
    {
        if a.get_char(i) != b.get_char(i) {
            return false;
        }
        i = i + 1;
    }
    proof {
        assert(a@ =~= b@);
    }
    true
}

impl Message {
    /// The classification of this message.
    pub fn kind(&self) -> (k: MsgKind)
        ensures
            k == spec_kind(self.msg_type@),
    {
        let t = self.msg_type.as_str();
        if str_eq(t, "hello") {
            MsgKind::Hello
        } else if str_eq(t, "mouse_move") {
            MsgKind::MouseMove
        } else if str_eq(t, "mouse_click") {
            MsgKind::MouseClick
        } else if str_eq(t, "key_event") {
            MsgKind::KeyEvent
        } else if str_eq(t, "control_start") {
            MsgKind::ControlStart
        } else if str_eq(t, "control_end") {
            MsgKind::ControlEnd
        } else if str_eq(t, "clipboard") {
            MsgKind::Clipboard
        } else if str_eq(t, "layout_sync") {
            MsgKind::LayoutSync
        } else if str_eq(t, "ping") {
            MsgKind::Ping
        } else if str_eq(t, "pong") {
            MsgKind::Pong
        } else {
            MsgKind::Unknown
        }
    }

    /// The `hello` a side sends right after connecting: advertises its
    /// name, protocol version and display inventory.
    pub fn hello_with_screens(name: &str, screens: Vec<ScreenData>, computer_type: &str) -> (m: Message)
        ensures
            m.msg_type@ == "hello"@,
            m.name matches Some(n) && n@ == name@,
            m.version matches Some(v) && v@ == "1.0"@,
            m.screens matches Some(s) && s@ == screens@,
            m.computer_type matches Some(c) && c@ == computer_type@,
            m.x is None && m.y is None && m.button is None && m.action is None,
            m.key_code is None && m.text is None && m.layout is None,
    {
        Message {
            msg_type: "hello".to_owned(),
            name: Some(name.to_owned()),
            version: Some("1.0".to_owned()),
            screens: Some(screens),
            computer_type: Some(computer_type.to_owned()),
            x: None,
            y: None,
            button: None,
            action: None,
            key_code: None,
            text: None,
            layout: None,
        }
    }

    /// A bare `hello` without a display inventory.
    pub fn hello(name: &str) -> (m: Message)
        ensures
            m.msg_type@ == "hello"@,
            m.name matches Some(n) && n@ == name@,
            m.version matches Some(v) && v@ == "1.0"@,
            m.x is None && m.y is None && m.button is None && m.action is None,
            m.key_code is None && m.text is None && m.screens is None,
            m.computer_type is None && m.layout is None,
    {
        Message {
            msg_type: "hello".to_owned(),
            name: Some(name.to_owned()),
            version: Some("1.0".to_owned()),
            x: None,
            y: None,
            button: None,
            action: None,
            key_code: None,
            text: None,
            screens: None,
            computer_type: None,
            layout: None,
        }
    }

    /// An absolute cursor move, in the recipient's virtual-desktop coords.
    pub fn mouse_move(x: i32, y: i32) -> (m: Message)
        ensures
            m.msg_type@ == "mouse_move"@,
            m.x == Some(x),
            m.y == Some(y),
            m.button is None && m.action is None && m.key_code is None,
            m.text is None && m.name is None && m.version is None,
            m.screens is None && m.computer_type is None && m.layout is None,
    {
        Message {
            msg_type: "mouse_move".to_owned(),
            x: Some(x),
            y: Some(y),
            button: None,
            action: None,
            key_code: None,
            text: None,
            name: None,
            version: None,
            screens: None,
            computer_type: None,
            layout: None,
        }
    }

    /// A mouse button press or release.
    pub fn mouse_click(button: &str, action: &str) -> (m: Message)
        ensures
            m.msg_type@ == "mouse_click"@,
            m.button matches Some(b) && b@ == button@,
            m.action matches Some(a) && a@ == action@,
            m.x is None && m.y is None && m.key_code is None,
            m.text is None && m.name is None && m.version is None,
            m.screens is None && m.computer_type is None && m.layout is None,
    {
        Message {
            msg_type: "mouse_click".to_owned(),
            button: Some(button.to_owned()),
            action: Some(action.to_owned()),
            x: None,
            y: None,
            key_code: None,
            text: None,
            name: None,
            version: None,
            screens: None,
            computer_type: None,
            layout: None,
        }
    }

    /// A key press or release, carrying the sender's native virtual-key code.
    pub fn key_event(key_code: u32, action: &str) -> (m: Message)
        ensures
            m.msg_type@ == "key_event"@,
            m.key_code == Some(key_code),
            m.action matches Some(a) && a@ == action@,
            m.x is None && m.y is None && m.button is None,
            m.text is None && m.name is None && m.version is None,
            m.screens is None && m.computer_type is None && m.layout is None,
    {
        Message {
            msg_type: "key_event".to_owned(),
            key_code: Some(key_code),
            action: Some(action.to_owned()),
            x: None,
            y: None,
            button: None,
            text: None,
            name: None,
            version: None,
            screens: None,
            computer_type: None,
            layout: None,
        }
    }

    /// A clipboard transfer.
    pub fn clipboard(text: &str) -> (m: Message)
        ensures
            m.msg_type@ == "clipboard"@,
            m.text matches Some(t) && t@ == text@,
            m.x is None && m.y is None && m.button is None && m.action is None,
            m.key_code is None && m.name is None && m.version is None,
            m.screens is None && m.computer_type is None && m.layout is None,
    {
        Message {
            msg_type: "clipboard".to_owned(),
            text: Some(text.to_owned()),
            x: None,
            y: None,
            button: None,
            action: None,
            key_code: None,
            name: None,
            version: None,
            screens: None,
            computer_type: None,
            layout: None,
        }
    }

    /// A liveness probe; the peer must answer with `pong`.
    pub fn ping() -> (m: Message)
        ensures
            m.msg_type@ == "ping"@,
            m.x is None && m.y is None && m.button is None && m.action is None,
            m.key_code is None && m.text is None && m.name is None,
            m.version is None && m.screens is None && m.computer_type is None,
            m.layout is None,
    {
        Message {
            msg_type: "ping".to_owned(),
            x: None,
            y: None,
            button: None,
            action: None,
            key_code: None,
            text: None,
            name: None,
            version: None,
            screens: None,
            computer_type: None,
            layout: None,
        }
    }

    /// The answer to a `ping`.
    pub fn pong() -> (m: Message)
        ensures
            m.msg_type@ == "pong"@,
            m.x is None && m.y is None && m.button is None && m.action is None,
            m.key_code is None && m.text is None && m.name is None,
            m.version is None && m.screens is None && m.computer_type is None,
            m.layout is None,
    {
        Message {
            msg_type: "pong".to_owned(),
            x: None,
            y: None,
            button: None,
            action: None,
            key_code: None,
            text: None,
            name: None,
            version: None,
            screens: None,
            computer_type: None,
            layout: None,
        }
    }

    /// Carries an opaque layout string for the GUI collaborator.
    pub fn layout_sync(layout_json: &str) -> (m: Message)
        ensures
            m.msg_type@ == "layout_sync"@,
            m.layout matches Some(l) && l@ == layout_json@,
            m.x is None && m.y is None && m.button is None && m.action is None,
            m.key_code is None && m.text is None && m.name is None,
            m.version is None && m.screens is None && m.computer_type is None,
    {
        Message {
            msg_type: "layout_sync".to_owned(),
            layout: Some(layout_json.to_owned()),
            x: None,
            y: None,
            button: None,
            action: None,
            key_code: None,
            text: None,
            name: None,
            version: None,
            screens: None,
            computer_type: None,
        }
    }

    /// The notice that the sender is taking control, carrying the entry
    /// point in the recipient's coords.
    pub fn control_start(x: i32, y: i32) -> (m: Message)
        ensures
            m.msg_type@ == "control_start"@,
            m.x == Some(x),
            m.y == Some(y),
            m.button is None && m.action is None && m.key_code is None,
            m.text is None && m.name is None && m.version is None,
            m.screens is None && m.computer_type is None && m.layout is None,
    {
        Message {
            msg_type: "control_start".to_owned(),
            x: Some(x),
            y: Some(y),
            button: None,
            action: None,
            key_code: None,
            text: None,
            name: None,
            version: None,
            screens: None,
            computer_type: None,
            layout: None,
        }
    }

    /// The notice that the sender is releasing control.
    pub fn control_end() -> (m: Message)
        ensures
            m.msg_type@ == "control_end"@,
            m.x == Some(0i32),
            m.y == Some(0i32),
            m.button is None && m.action is None && m.key_code is None,
            m.text is None && m.name is None && m.version is None,
            m.screens is None && m.computer_type is None && m.layout is None,
    {
        Message {
            msg_type: "control_end".to_owned(),
            x: Some(0),
            y: Some(0),
            button: None,
            action: None,
            key_code: None,
            text: None,
            name: None,
            version: None,
            screens: None,
            computer_type: None,
            layout: None,
        }
    }
}

} // verus!
