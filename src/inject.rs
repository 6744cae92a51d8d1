//! Which external tool types a transcript into the focused window.
use vstd::prelude::*;

verus! {

/// The kind of graphical session, which decides the typing tool.
#[derive(Debug, Clone, Copy, PartialEq, Eq, Structural)]
pub enum DisplayServer {
    Wayland,
    X11,
}

impl DisplayServer {
    /// A session that announces a Wayland display is Wayland; any other is X11.
    pub fn from_session(wayland_display_set: bool) -> (r: DisplayServer)
        ensures
            r == (if wayland_display_set {
                DisplayServer::Wayland
            } else {
                DisplayServer::X11
            }),
    {
        if wayland_display_set {
            DisplayServer::Wayland
        } else {
            DisplayServer::X11
        }
    }
}

/// A program to run and its arguments.
#[derive(Debug, Clone, PartialEq, Eq)]
pub struct InjectCommand {
    pub program: String,
    pub args: Vec<String>,
}

/// The arguments of a command, as text.
pub open spec fn args_view(c: InjectCommand) -> Seq<Seq<char>> {
    c.args@.map_values(|a: String| a@)
}

/// The command that types `text` on a display server, or none for empty text.
pub fn inject_text(text: &str, display: &DisplayServer) -> (r: Option<InjectCommand>)
    ensures
        text@.len() == 0 ==> r is None,
        text@.len() > 0 ==> r is Some,
        r matches Some(c) ==> match *display {
            DisplayServer::Wayland => c.program@ == "wtype"@ && args_view(c) == seq![
                "--"@,
                text@,
            ],
            DisplayServer::X11 => c.program@ == "xdotool"@ && args_view(c) == seq![
                "type"@,
                "--clearmodifiers"@,
                "--"@,
                text@,
            ],
        },
{
    if text.unicode_len() == 0 {
        return None;
    }
    let mut args: Vec<String> = Vec::new();
    let program = match display {
        DisplayServer::Wayland => String::from_str("wtype"),
        DisplayServer::X11 => {
            args.push(String::from_str("type"));
            args.push(String::from_str("--clearmodifiers"));
            String::from_str("xdotool")
        },
    };
    args.push(String::from_str("--"));
    args.push(String::from_str(text));
    let c = InjectCommand { program, args };
    assert(args_view(c) =~= match *display {
        DisplayServer::Wayland => seq!["--"@, text@],
        DisplayServer::X11 => seq!["type"@, "--clearmodifiers"@, "--"@, text@],
    });
    Some(c)
}

} // verus!
