//! System controls: which program a system operation runs, and what is
//! reported when it has run.
use crate::text::{chars_of, push_str, same, string_of};
use vstd::prelude::*;

verus! {

/// How a system operation is carried out.
pub enum ControlCommand {
    /// A desktop notification.
    Notify { title: String, message: String },
    /// A media-player command, tried through `playerctl` and then over
    /// D-Bus (MPRIS).
    Media(&'static str),
    /// A shell command; `done` is reported when it succeeds.
    Shell { command: &'static str, done: &'static str },
}

pub enum CommandView {
    Notify(Seq<char>, Seq<char>),
    Media(Seq<char>),
    Shell(Seq<char>, Seq<char>),
}

pub open spec fn command_view(c: ControlCommand) -> CommandView {
    match c {
        ControlCommand::Notify { title, message } => CommandView::Notify(title@, message@),
        ControlCommand::Media(a) => CommandView::Media(a@),
        ControlCommand::Shell { command, done } => CommandView::Shell(command@, done@),
    }
}

pub open spec fn or_else(o: Option<Seq<char>>, d: Seq<char>) -> Seq<char> {
    match o {
        Some(s) => s,
        None => d,
    }
}

pub open spec fn opt_str(o: Option<&str>) -> Option<Seq<char>> {
    match o {
        Some(s) => Some(s@),
        None => None,
    }
}

/// The command for an operation (absent, it reads "unknown"), with the
/// notification's title defaulting to "MAVIS" and its message to nothing.
pub open spec fn control_spec(op: Option<Seq<char>>, title: Option<Seq<char>>, message: Option<Seq<char>>) -> Result<
    CommandView,
    Seq<char>,
> {
    let op = or_else(op, "unknown"@);
    if op == "notify"@ {
        Ok(CommandView::Notify(or_else(title, "MAVIS"@), or_else(message, Seq::empty())))
    } else if op == "media_play_pause"@ {
        Ok(CommandView::Media("play-pause"@))
    } else if op == "media_next"@ {
        Ok(CommandView::Media("next"@))
    } else if op == "media_previous"@ {
        Ok(CommandView::Media("previous"@))
    } else if op == "brightness_up"@ {
        Ok(CommandView::Shell("brightnessctl set +10%"@, "Brightness up"@))
    } else if op == "brightness_down"@ {
        Ok(CommandView::Shell("brightnessctl set 10%-"@, "Brightness down"@))
    } else if op == "volume_up"@ {
        Ok(CommandView::Shell("pactl set-sink-volume @DEFAULT_SINK@ +5%"@, "Volume up"@))
    } else if op == "volume_down"@ {
        Ok(CommandView::Shell("pactl set-sink-volume @DEFAULT_SINK@ -5%"@, "Volume down"@))
    } else if op == "volume_mute"@ {
        Ok(CommandView::Shell("pactl set-sink-mute @DEFAULT_SINK@ toggle"@, "Volume mute"@))
    } else {
        Err("unknown system op: "@ + op)
    }
}

fn owned(s: &str) -> (r: String)
    ensures
        r@ == s@,
{
    string_of(&chars_of(s))
}

fn is(op: &[char], word: &str) -> (r: bool)
    ensures
        r == (op@ == word@),
{
    same(op, &chars_of(word))
}

/// How to carry out a system operation, or why it cannot be.
pub fn control_command(op: Option<&str>, title: Option<&str>, message: Option<&str>) -> (r: Result<ControlCommand, String>)
    ensures
        match control_spec(opt_str(op), opt_str(title), opt_str(message)) {
            Ok(v) => r matches Ok(c) && command_view(c) == v,
            Err(e) => r matches Err(m) && m@ == e,
        },
{
    let o = match op {
        Some(s) => chars_of(s),
        None => chars_of("unknown"),
    };
    if is(&o, "notify") {
        let t = match title {
            Some(s) => owned(s),
            None => owned("MAVIS"),
        };
        let m = match message {
            Some(s) => owned(s),
            None => owned(""),
        };
        proof {
            reveal_strlit("");
        }
        assert(o@ == or_else(opt_str(op), "unknown"@));
        assert(t@ == or_else(opt_str(title), "MAVIS"@));
        assert(m@ == or_else(opt_str(message), Seq::empty()));
        return Ok(ControlCommand::Notify { title: t, message: m });
    }
    if is(&o, "media_play_pause") {
        return Ok(ControlCommand::Media("play-pause"));
    }
    if is(&o, "media_next") {
        return Ok(ControlCommand::Media("next"));
    }
    if is(&o, "media_previous") {
        return Ok(ControlCommand::Media("previous"));
    }
    if is(&o, "brightness_up") {
        return Ok(ControlCommand::Shell { command: "brightnessctl set +10%", done: "Brightness up" });
    }
    if is(&o, "brightness_down") {
        return Ok(ControlCommand::Shell { command: "brightnessctl set 10%-", done: "Brightness down" });
    }
    if is(&o, "volume_up") {
        return Ok(ControlCommand::Shell { command: "pactl set-sink-volume @DEFAULT_SINK@ +5%", done: "Volume up" });
    }
    if is(&o, "volume_down") {
        return Ok(ControlCommand::Shell { command: "pactl set-sink-volume @DEFAULT_SINK@ -5%", done: "Volume down" });
    }
    if is(&o, "volume_mute") {
        return Ok(ControlCommand::Shell { command: "pactl set-sink-mute @DEFAULT_SINK@ toggle", done: "Volume mute" });
    }
    let mut m: Vec<char> = Vec::new();
    push_str(&mut m, "unknown system op: ");
    crate::text::push_chars(&mut m, &o);
    Err(string_of(&m))
}

/// The MPRIS method for a media command.
pub open spec fn mpris_method_spec(action: Seq<char>) -> Seq<char> {
    if action == "play-pause"@ {
        "PlayPause"@
    } else if action == "next"@ {
        "Next"@
    } else if action == "previous"@ {
        "Previous"@
    } else {
        action
    }
}

/// The D-Bus member that performs a media command when `playerctl` could
/// not: `org.mpris.MediaPlayer2.Player.` and the method.
pub fn mpris_member(action: &str) -> (r: String)
    ensures
        r@ == "org.mpris.MediaPlayer2.Player."@ + mpris_method_spec(action@),
{
    let a = chars_of(action);
    let mut v: Vec<char> = Vec::new();
    push_str(&mut v, "org.mpris.MediaPlayer2.Player.");
    if is(&a, "play-pause") {
        push_str(&mut v, "PlayPause");
    } else if is(&a, "next") {
        push_str(&mut v, "Next");
    } else if is(&a, "previous") {
        push_str(&mut v, "Previous");
    } else {
        crate::text::push_chars(&mut v, &a);
    }
    string_of(&v)
}

/// What a media command reports, by the route that worked.
pub fn media_done(action: &str, via_playerctl: bool) -> (r: String)
    ensures
        r@ == "Media "@ + action@ + (if via_playerctl {
            " via playerctl"@
        } else {
            " via dbus-send"@
        }),
{
    let mut v: Vec<char> = Vec::new();
    push_str(&mut v, "Media ");
    push_str(&mut v, action);
    if via_playerctl {
        push_str(&mut v, " via playerctl");
    } else {
        push_str(&mut v, " via dbus-send");
    }
    string_of(&v)
}

/// What a notification reports once shown.
pub fn notification_done(title: &str, body: &str) -> (r: String)
    ensures
        r@ == "Notification: "@ + title@ + " \u{2014} "@ + body@,
{
    let mut v: Vec<char> = Vec::new();
    push_str(&mut v, "Notification: ");
    push_str(&mut v, title);
    push_str(&mut v, " \u{2014} ");
    push_str(&mut v, body);
    string_of(&v)
}

} // verus!
