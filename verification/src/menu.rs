//! The menus' decisions: the in-game escape menu, and the "Connect!" button
//! of the main menu.

use vstd::prelude::*;
use vstd::string::StringExecFns;
use crate::text::{is_i32_text, parses_as_i32};

verus! {

/// Which in-game windows are open.
#[derive(Clone, Copy, Debug, PartialEq, Eq, Structural)]
pub struct EscMenu {
    pub esc_open: bool,
    pub settings_open: bool,
}

/// No window open.
pub open spec fn all_closed() -> EscMenu {
    EscMenu { esc_open: false, settings_open: false }
}

/// The menu open, the settings closed.
pub open spec fn menu_only() -> EscMenu {
    EscMenu { esc_open: true, settings_open: false }
}

/// The settings open, the menu closed.
pub open spec fn settings_only() -> EscMenu {
    EscMenu { esc_open: false, settings_open: true }
}

/// What the Escape key does: open settings close (back to the menu), an open
/// menu closes, and with nothing open the menu opens.
pub open spec fn escape_step(m: EscMenu) -> EscMenu {
    if m.settings_open {
        menu_only()
    } else if m.esc_open {
        all_closed()
    } else {
        menu_only()
    }
}

impl EscMenu {
    /// The Escape key: closes the settings if they are open (going back to
    /// the menu), otherwise toggles the menu.
    pub fn on_escape(self) -> (r: EscMenu)
        ensures
            r == escape_step(self),
    {
        let mut m = self;
        if m.esc_open {
            if m.settings_open {
                m.settings_open = false;
            } else {
                m.esc_open = false;
            }
        } else {
            if m.settings_open {
                m.settings_open = false;
                m.esc_open = true;
            } else {
                m.esc_open = true;
            }
        }
        m
    }

    /// The "CONTINUE" button: everything closes.
    pub fn on_continue(self) -> (r: EscMenu)
        ensures
            r == all_closed(),
    {
        EscMenu { esc_open: false, settings_open: false }
    }

    /// The "SETTINGS" button: the menu gives way to the settings.
    pub fn on_settings_button(self) -> (r: EscMenu)
        ensures
            r == settings_only(),
    {
        EscMenu { esc_open: false, settings_open: true }
    }

    /// The settings window was closed by its own cross: back to the menu.
    pub fn on_settings_closed(self) -> (r: EscMenu)
        ensures
            r == menu_only(),
    {
        EscMenu { esc_open: true, settings_open: false }
    }
}

pub open spec fn one_window(m: EscMenu) -> bool {
    !(m.esc_open && m.settings_open)
}

/// The menu and the settings are never open together: whatever the state
/// before, each key press and button leaves at most one of them open.
pub proof fn law_one_window_at_a_time(m: EscMenu)
    ensures
        one_window(escape_step(m)),
        one_window(all_closed()),
        one_window(settings_only()),
        one_window(menu_only()),
{
}

/// Pressing Escape twice with the menu closed leaves every window closed.
pub proof fn law_escape_twice_closes(m: EscMenu)
    requires
        !m.esc_open,
    ensures
        escape_step(escape_step(m)) == all_closed(),
{
}

/// Escape in the settings goes back to the menu, never straight to the game.
pub proof fn law_escape_leaves_settings_for_menu(m: EscMenu)
    requires
        m.settings_open,
    ensures
        escape_step(m) == menu_only(),
{
}

/// What "Connect!" does with the typed address and port: the fields after
/// the click (an empty port becomes "8567", an empty address "127.0.0.1"),
/// and the "host:port" to connect to, when the port is a number.
pub struct ConnectChoice {
    pub adress: String,
    pub port: String,
    pub target: Option<String>,
}

pub open spec fn port_after(port: Seq<char>) -> Seq<char> {
    if port.len() == 0 { "8567"@ } else { port }
}

pub open spec fn adress_after(adress: Seq<char>) -> Seq<char> {
    if adress.len() == 0 { "127.0.0.1"@ } else { adress }
}

/// The "Connect!" button of the play window.
pub fn on_connect_clicked(adress: &str, port: &str) -> (r: ConnectChoice)
    ensures
        r.adress@ == adress_after(adress@),
        r.port@ == port_after(port@),
        r.target.is_some() == is_i32_text(port_after(port@)),
        r.target matches Some(t) ==> t@ == adress_after(adress@) + ":"@ + port_after(port@),
{
    let port_text = if port.is_empty() {
        String::from_str("8567")
    } else {
        String::from_str(port)
    };
    let adress_text = if adress.is_empty() {
        String::from_str("127.0.0.1")
    } else {
        String::from_str(adress)
    };
    let target = if parses_as_i32(port_text.as_str()) {
        let t = adress_text.clone().concat(":").concat(port_text.as_str());
        Some(t)
    } else {
        None
    };
    ConnectChoice { adress: adress_text, port: port_text, target }
}

/// The warnings of the play window: whether the address field is empty, and
/// whether the port field is not a number.
pub fn connect_form_warnings(adress: &str, port: &str) -> (r: (bool, bool))
    ensures
        r.0 == (adress@.len() == 0),
        r.1 == !is_i32_text(port@),
{
    (adress.is_empty(), !parses_as_i32(port))
}

/// The warning of the server's start window: the port field holds something
/// that is not a number.
pub fn server_port_warning(port: &str) -> (r: bool)
    ensures
        r == (!is_i32_text(port@) && port@.len() != 0),
{
    !parses_as_i32(port) && !port.is_empty()
}

} // verus!
