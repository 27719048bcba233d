use vstd::prelude::*;

use crate::p2p::event::EventView;
use crate::p2p::message::MessageView;
use crate::ui::color::Color;
use crate::ui::main_app::{main_app_chat, main_app_dial, main_app_event, MainAppView, SENT_WIDTH};
use crate::ui::text_format::{right_aligned, spaces};
use crate::ui::web_app::{web_app_event, JiriWebAppView};
use crate::wasm::event::Event;

verus! {

/// The log of the chat window only grows: every event, chat and dial keeps the lines
/// already shown, in order, and adds at most one.
pub proof fn law_main_log_only_grows(state: MainAppView, event: EventView<String>)
    ensures
        ({
            let a = main_app_event(state, event).messages;
            let b = main_app_chat(state).messages;
            let c = main_app_dial(state).messages;
            &&& a.take(state.messages.len() as int) == state.messages
            &&& a.len() <= state.messages.len() + 1
            &&& b.take(state.messages.len() as int) == state.messages
            &&& b.len() == state.messages.len() + 1
            &&& c.take(state.messages.len() as int) == state.messages
            &&& c.len() <= state.messages.len() + 1
        }),
{
    let a = main_app_event(state, event).messages;
    let b = main_app_chat(state).messages;
    let c = main_app_dial(state).messages;
    assert(a.take(state.messages.len() as int) =~= state.messages);
    assert(b.take(state.messages.len() as int) =~= state.messages);
    assert(c.take(state.messages.len() as int) =~= state.messages);
}

/// The line logged for a sent chat is the whole sent text right-aligned in 20 columns:
/// light blue, as long as the text or 20 characters if the text is shorter, ending with the
/// text, with spaces before it; nothing of the text is cut.
pub proof fn law_sent_chat_logged_whole(state: MainAppView)
    ensures
        ({
            let log = main_app_chat(state).messages;
            let line = log[log.len() - 1].1;
            let text = state.text;
            let pad = line.len() - text.len();
            &&& log.len() == state.messages.len() + 1
            &&& log[log.len() - 1].0 == Color::LightBlue
            &&& line.len() == if text.len() < 20 { 20 } else { text.len() }
            &&& line.subrange(pad, line.len() as int) == text
            &&& forall|i: int| 0 <= i < pad ==> line[i] == ' '
        }),
{
    law_right_aligned(state.text, SENT_WIDTH as nat);
}

/// Each event the chat window shows gets its own line at the end of the log: a received
/// text in green as it is, a connection and a disconnection in yellow naming the peer, an
/// error in red after `Error: `; a connection also clears the typed text.
pub proof fn law_main_event_lines(
    state: MainAppView,
    source_peer_id: Seq<char>,
    text: Seq<char>,
    peer: String,
    error: Seq<char>,
)
    ensures
        ({
            let got = main_app_event(state, EventView::Msg(MessageView::Text { source_peer_id, text }));
            got.messages == state.messages.push((Color::Green, text)) && got.text == state.text
        }),
        ({
            let got = main_app_event(state, EventView::Connected(peer));
            got.messages == state.messages.push((Color::Yellow, "Connected to "@ + peer@))
                && got.text.len() == 0 && got.connected
        }),
        ({
            let got = main_app_event(state, EventView::Disconnected(peer));
            got.messages == state.messages.push((Color::Yellow, "Disconnected to "@ + peer@))
                && got.text == state.text
        }),
        ({
            let got = main_app_event(state, EventView::Error(error));
            got.messages == state.messages.push((Color::Red, "Error: "@ + error)) && !got.connected
                && got.text == state.text
        }),
{
}

/// The log of the in-browser window only grows the same way.
pub proof fn law_web_log_only_grows(state: JiriWebAppView, event: Event)
    ensures
        ({
            let a = web_app_event(state, event).messages;
            a.take(state.messages.len() as int) == state.messages && a.len() <= state.messages.len() + 1
        }),
{
    let a = web_app_event(state, event).messages;
    assert(a.take(state.messages.len() as int) =~= state.messages);
}

/// Only an error makes the chat window count as disconnected: every other event leaves
/// it connected if it was, and a connection makes it connected.
pub proof fn law_main_connection_state(state: MainAppView, event: EventView<String>)
    ensures
        (event is Error) ==> !main_app_event(state, event).connected,
        (event is Connected || event is Disconnected) ==> main_app_event(state, event).connected,
        (event is Msg) ==> main_app_event(state, event).connected == state.connected,
{
}

/// `n` spaces are `n` characters, all spaces.
pub proof fn lemma_spaces(n: nat)
    ensures
        spaces(n).len() == n,
        forall|i: int| 0 <= i < n ==> spaces(n)[i] == ' ',
    decreases n,
{
    if n > 0 {
        lemma_spaces((n - 1) as nat);
    }
}

/// Right-aligned text is as wide as the field or as the text, whichever is wider; it ends
/// with the text, and everything before the text is spaces.
pub proof fn law_right_aligned(text: Seq<char>, width: nat)
    ensures
        ({
            let r = right_aligned(text, width);
            let pad = r.len() - text.len();
            &&& r.len() == if text.len() < width { width } else { text.len() }
            &&& r.subrange(pad, r.len() as int) == text
            &&& forall|i: int| 0 <= i < pad ==> r[i] == ' '
        }),
{
    let r = right_aligned(text, width);
    if text.len() < width {
        lemma_spaces((width - text.len()) as nat);
        assert(r.subrange(r.len() - text.len(), r.len() as int) =~= text);
    } else {
        assert(r.subrange(0, r.len() as int) =~= text);
    }
}

} // verus!
