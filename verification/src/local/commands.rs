//! The demo chat's saved transcript.
use crate::chars::{decimal, push_all, push_decimal};
use crate::local::app::{App, Message};
use vstd::prelude::*;

verus! {

pub const APP_NAME: &'static str = "zappawcli";

pub const COMMAND_FILE: &'static str = "zappawcli_messages.txt";

/// Who a transcript line names as the sender: the user's nickname for the
/// user's own messages, "peer" for the others.
pub open spec fn sender_of(nick: Seq<char>, m: Message) -> Seq<char> {
    if m.is_mine {
        nick
    } else {
        "peer"@
    }
}

/// One line of the transcript.
pub open spec fn transcript_line(nick: Seq<char>, k: nat, m: Message) -> Seq<char> {
    "#"@ + decimal(k) + " ["@ + sender_of(nick, m) + "] "@ + m.text@ + "\n"@
}

/// The transcript lines of `msgs`, numbered from one.
pub open spec fn transcript_body(nick: Seq<char>, msgs: Seq<Message>) -> Seq<char>
    decreases msgs.len(),
{
    if msgs.len() == 0 {
        Seq::empty()
    } else {
        transcript_body(nick, msgs.drop_last()) + transcript_line(nick, msgs.len(), msgs.last())
    }
}

/// The saved transcript: the application name, the nickname, a separator
/// line, and one numbered line per message.
pub open spec fn transcript_of(nick: Seq<char>, msgs: Seq<Message>) -> Seq<char> {
    APP_NAME@ + "\n"@ + "nick: "@ + nick + "\n"@ + "---\n"@ + transcript_body(nick, msgs)
}

/// The text that saving the demo chat writes.
pub fn transcript(app: &App) -> (r: String)
    ensures
        r@ == transcript_of(app.my_nick@, app.messages@),
{
    let mut out = APP_NAME.to_owned();
    push_all(&mut out, "\n");
    push_all(&mut out, "nick: ");
    push_all(&mut out, app.my_nick.as_str());
    push_all(&mut out, "\n");
    push_all(&mut out, "---\n");
    let ghost head = out@;
    let mut i: usize = 0;
    assert(app.messages@.take(0) =~= Seq::<Message>::empty());
    while i < app.messages.len()
        invariant
            i <= app.messages@.len(),
            out@ == head + transcript_body(app.my_nick@, app.messages@.take(i as int)),
        decreases app.messages@.len() - i,
    {
        let msg = &app.messages[i];
        let ghost prev = out@;
        push_all(&mut out, "#");
        push_decimal(&mut out, (i + 1) as u64);
        push_all(&mut out, " [");
        if msg.is_mine {
            push_all(&mut out, app.my_nick.as_str());
        } else {
            push_all(&mut out, "peer");
        }
        push_all(&mut out, "] ");
        push_all(&mut out, msg.text.as_str());
        push_all(&mut out, "\n");
        assert(app.messages@.take(i + 1).drop_last() =~= app.messages@.take(i as int));
        assert(out@ =~= prev + transcript_line(app.my_nick@, (i + 1) as nat, app.messages@[i as int]));
        i += 1;
    }
    assert(app.messages@.take(app.messages@.len() as int) =~= app.messages@);
    assert(out@ =~= transcript_of(app.my_nick@, app.messages@));
    out
}

} // verus!
