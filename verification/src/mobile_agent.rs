//! Control of an Android phone through shell commands that the outbox carries out.

use vstd::prelude::*;
use vstd::string::StrSliceExecFns;
use crate::outbox::{enqueue_command, queued, EffectOutbox};
use crate::text::{decimal, push_char, push_decimal, push_str};

verus! {

/// The tail of every command: errors are silenced and a failure prints `FAILED`.
pub open spec fn or_failed() -> Seq<char> {
    " 2>/dev/null || echo 'FAILED'"@
}

/// `s` made safe inside single quotes: each `'` becomes `'\''`.
pub open spec fn shell_escaped(s: Seq<char>) -> Seq<char>
    decreases s.len(),
{
    if s.len() == 0 {
        Seq::empty()
    } else {
        shell_escaped(s.drop_last()) + if s.last() == '\'' {
            seq!['\'', '\\', '\'', '\'']
        } else {
            seq![s.last()]
        }
    }
}

pub open spec fn open_app_command(pkg: Seq<char>) -> Seq<char> {
    "am start -n "@ + pkg + "/.MainActivity"@ + or_failed()
}

pub open spec fn input_text_command(text: Seq<char>) -> Seq<char> {
    "input text '"@ + shell_escaped(text) + "'"@ + or_failed()
}

pub open spec fn press_key_command(keycode: u32) -> Seq<char> {
    "input keyevent "@ + decimal(keycode as nat) + or_failed()
}

pub open spec fn screenshot_command(path: Seq<char>) -> Seq<char> {
    "screencap "@ + path + or_failed()
}

pub open spec fn swipe_command(x1: u32, y1: u32, x2: u32, y2: u32) -> Seq<char> {
    "input swipe "@ + decimal(x1 as nat) + seq![' '] + decimal(y1 as nat) + seq![' '] + decimal(x2 as nat) + seq![' ']
        + decimal(y2 as nat) + or_failed()
}

pub open spec fn tap_command(x: u32, y: u32) -> Seq<char> {
    "input tap "@ + decimal(x as nat) + seq![' '] + decimal(y as nat) + or_failed()
}

pub open spec fn get_clipboard_command() -> Seq<char> {
    "termux-clipboard-get"@ + or_failed()
}

pub open spec fn set_clipboard_command(text: Seq<char>) -> Seq<char> {
    "echo '"@ + text + "' | termux-clipboard-set"@ + or_failed()
}

pub open spec fn notification_command(title: Seq<char>, msg: Seq<char>) -> Seq<char> {
    "termux-notification --title '"@ + title + "' --content '"@ + msg + "'"@ + or_failed()
}

/// The largest screen coordinate that a gesture may use.
pub const MAX_COORDINATE: u32 = 3000;

/// Appends `s` with every `'` escaped for a single-quoted shell word.
pub(crate) fn push_shell_escaped(out: &mut String, s: &str)
    ensures
        final(out)@ == old(out)@ + shell_escaped(s@),
{
    let n = s.unicode_len();
    let mut i: usize = 0;
    while i < n
        invariant
            n == s@.len(),
            i <= n,
            out@ == old(out)@ + shell_escaped(s@.take(i as int)),
        decreases n - i,
    {
        let c = s.get_char(i);
        assert(s@.take(i + 1).drop_last() =~= s@.take(i as int));
        if c == '\'' {
            push_char(out, '\'');
            push_char(out, '\\');
            push_char(out, '\'');
            push_char(out, '\'');
        } else {
            push_char(out, c);
        }
        i = i + 1;
        assert(out@ =~= old(out)@ + shell_escaped(s@.take(i as int)));
    }
    assert(s@.take(n as int) =~= s@);
}

fn push_or_failed(out: &mut String)
    ensures
        final(out)@ == old(out)@ + or_failed(),
{
    push_str(out, " 2>/dev/null || echo 'FAILED'");
}

pub struct MobileControlAgent;

impl MobileControlAgent {
    /// Queues the start of the main activity of package `pkg`.
    pub fn open_app(pkg: &str, outbox: &mut EffectOutbox)
        ensures
            queued(old(outbox)@, final(outbox)@, open_app_command(pkg@)),
    {
        let mut cmd = String::new();
        push_str(&mut cmd, "am start -n ");
        push_str(&mut cmd, pkg);
        push_str(&mut cmd, "/.MainActivity");
        push_or_failed(&mut cmd);
        assert(cmd@ =~= open_app_command(pkg@));
        enqueue_command(outbox, cmd);
    }

    /// Queues typing `text`.
    pub fn input_text(text: &str, outbox: &mut EffectOutbox)
        ensures
            queued(old(outbox)@, final(outbox)@, input_text_command(text@)),
    {
        let mut cmd = String::new();
        push_str(&mut cmd, "input text '");
        push_shell_escaped(&mut cmd, text);
        push_str(&mut cmd, "'");
        push_or_failed(&mut cmd);
        assert(cmd@ =~= input_text_command(text@));
        enqueue_command(outbox, cmd);
    }

    /// Queues a key press.
    pub fn press_key(keycode: u32, outbox: &mut EffectOutbox)
        ensures
            queued(old(outbox)@, final(outbox)@, press_key_command(keycode)),
    {
        let mut cmd = String::new();
        push_str(&mut cmd, "input keyevent ");
        push_decimal(&mut cmd, keycode as u64);
        push_or_failed(&mut cmd);
        assert(cmd@ =~= press_key_command(keycode));
        enqueue_command(outbox, cmd);
    }

    /// Queues a screenshot saved at `path`.
    pub fn screenshot(path: &str, outbox: &mut EffectOutbox)
        ensures
            queued(old(outbox)@, final(outbox)@, screenshot_command(path@)),
    {
        let mut cmd = String::new();
        push_str(&mut cmd, "screencap ");
        push_str(&mut cmd, path);
        push_or_failed(&mut cmd);
        assert(cmd@ =~= screenshot_command(path@));
        enqueue_command(outbox, cmd);
    }

    /// Queues a swipe; a coordinate beyond the screen bound queues nothing.
    pub fn swipe(x1: u32, y1: u32, x2: u32, y2: u32, outbox: &mut EffectOutbox)
        ensures
            (x1 > MAX_COORDINATE || y1 > MAX_COORDINATE || x2 > MAX_COORDINATE || y2 > MAX_COORDINATE)
                ==> final(outbox)@ == old(outbox)@,
            !(x1 > MAX_COORDINATE || y1 > MAX_COORDINATE || x2 > MAX_COORDINATE || y2 > MAX_COORDINATE)
                ==> queued(old(outbox)@, final(outbox)@, swipe_command(x1, y1, x2, y2)),
    {
        if x1 > MAX_COORDINATE || y1 > MAX_COORDINATE || x2 > MAX_COORDINATE || y2 > MAX_COORDINATE {
            return;
        }
        let mut cmd = String::new();
        push_str(&mut cmd, "input swipe ");
        push_decimal(&mut cmd, x1 as u64);
        push_char(&mut cmd, ' ');
        push_decimal(&mut cmd, y1 as u64);
        push_char(&mut cmd, ' ');
        push_decimal(&mut cmd, x2 as u64);
        push_char(&mut cmd, ' ');
        push_decimal(&mut cmd, y2 as u64);
        push_or_failed(&mut cmd);
        assert(cmd@ =~= swipe_command(x1, y1, x2, y2));
        enqueue_command(outbox, cmd);
    }

    /// Queues a tap; a coordinate beyond the screen bound queues nothing.
    pub fn tap(x: u32, y: u32, outbox: &mut EffectOutbox)
        ensures
            (x > MAX_COORDINATE || y > MAX_COORDINATE) ==> final(outbox)@ == old(outbox)@,
            !(x > MAX_COORDINATE || y > MAX_COORDINATE) ==> queued(old(outbox)@, final(outbox)@, tap_command(x, y)),
    {
        if x > MAX_COORDINATE || y > MAX_COORDINATE {
            return;
        }
        let mut cmd = String::new();
        push_str(&mut cmd, "input tap ");
        push_decimal(&mut cmd, x as u64);
        push_char(&mut cmd, ' ');
        push_decimal(&mut cmd, y as u64);
        push_or_failed(&mut cmd);
        assert(cmd@ =~= tap_command(x, y));
        enqueue_command(outbox, cmd);
    }

    /// Queues reading the clipboard.
    pub fn get_clipboard(outbox: &mut EffectOutbox)
        ensures
            queued(old(outbox)@, final(outbox)@, get_clipboard_command()),
    {
        let mut cmd = String::new();
        push_str(&mut cmd, "termux-clipboard-get");
        push_or_failed(&mut cmd);
        assert(cmd@ =~= get_clipboard_command());
        enqueue_command(outbox, cmd);
    }

    /// Queues setting the clipboard to `text`.
    pub fn set_clipboard(text: &str, outbox: &mut EffectOutbox)
        ensures
            queued(old(outbox)@, final(outbox)@, set_clipboard_command(text@)),
    {
        let mut cmd = String::new();
        push_str(&mut cmd, "echo '");
        push_str(&mut cmd, text);
        push_str(&mut cmd, "' | termux-clipboard-set");
        push_or_failed(&mut cmd);
        assert(cmd@ =~= set_clipboard_command(text@));
        enqueue_command(outbox, cmd);
    }

    /// Queues a notification.
    pub fn notification(title: &str, msg: &str, outbox: &mut EffectOutbox)
        ensures
            queued(old(outbox)@, final(outbox)@, notification_command(title@, msg@)),
    {
        let mut cmd = String::new();
        push_str(&mut cmd, "termux-notification --title '");
        push_str(&mut cmd, title);
        push_str(&mut cmd, "' --content '");
        push_str(&mut cmd, msg);
        push_str(&mut cmd, "'");
        push_or_failed(&mut cmd);
        assert(cmd@ =~= notification_command(title@, msg@));
        enqueue_command(outbox, cmd);
    }
}

} // verus!
