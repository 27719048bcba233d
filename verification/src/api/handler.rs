use vstd::prelude::*;

use crate::p2p::command::{Command, CommandView};
use crate::p2p::event::{Event, EventView};
use crate::p2p::message::{Message, MessageView};
use crate::p2p::text::{bytes_to_text_lossy, utf8_lossy};
use vstd::utf8::{decode_utf8, valid_utf8};

verus! {

/// The largest chat message body the API accepts, in bytes.
pub const MAX_MESSAGE_BODY: u64 = 16384;

/// The largest file body the API accepts, in bytes.
pub const MAX_FILE_BODY: u64 = 536_870_912;

/// The API version reported by the status route.
pub const API_VERSION: &'static str = "v0.0.1";

/// The peer named as the source of chat messages posted through the API.
pub const API_SOURCE_PEER: &'static str = "ANONYMOUS FROM API";

/// What a websocket subscriber is sent.
#[derive(Debug, PartialEq, Eq)]
pub enum WsFrame {
    Text(String),
    Binary(Vec<u8>),
}

/// A [`WsFrame`] as mathematical values.
pub enum WsFrameView {
    Text(Seq<char>),
    Binary(Seq<u8>),
}

impl View for WsFrame {
    type V = WsFrameView;

    open spec fn view(&self) -> WsFrameView {
        match self {
            WsFrame::Text(t) => WsFrameView::Text(t@),
            WsFrame::Binary(b) => WsFrameView::Binary(b@),
        }
    }
}

/// The chat message made of a body posted to the API: its text, with a replacement
/// character where it is not UTF-8 (a UTF-8 body is taken as it is), from the anonymous
/// API peer.
pub fn api_message(body: &[u8]) -> (m: Message)
    ensures
        m@ == (MessageView::Text { source_peer_id: API_SOURCE_PEER@, text: utf8_lossy(body@) }),
        valid_utf8(body@) ==> m@ == (MessageView::Text {
            source_peer_id: API_SOURCE_PEER@,
            text: decode_utf8(body@),
        }),
{
    Message::Text { source_peer_id: String::from_str(API_SOURCE_PEER), text: bytes_to_text_lossy(body) }
}

/// What a websocket subscriber is sent for a node event: the text of a chat message, the
/// bytes of a received file, and nothing for anything else.
pub open spec fn ws_frame_for<P>(event: EventView<P>) -> Option<WsFrameView> {
    match event {
        EventView::Msg(MessageView::Text { text, .. }) => Some(WsFrameView::Text(text)),
        EventView::Msg(MessageView::File { file, .. }) => Some(WsFrameView::Binary(file)),
        _ => None,
    }
}

/// The websocket frame for a node event, if it has one.
pub fn ws_frame<P>(event: Event<P>) -> (f: Option<WsFrame>)
    ensures
        match f {
            Some(frame) => ws_frame_for(event@) == Some(frame@),
            None => ws_frame_for(event@) is None,
        },
{
    match event {
        Event::Msg(Message::Text { text, .. }) => Some(WsFrame::Text(text)),
        Event::Msg(Message::File { file, .. }) => Some(WsFrame::Binary(file)),
        _ => None,
    }
}

/// The two commands that offering a file through the API sends, in order: start providing
/// the file, and, once that has started, advertise it to the peers.
pub fn file_offer_commands<A, P, S, C>(file_name: String, file: Vec<u8>, sender: S) -> (r: (
    Command<A, P, S, C>,
    Command<A, P, S, C>,
))
    ensures
        r.0@ == (CommandView::<A, P, S, C>::StartFileProviding { file_name: file_name@, file: file@, sender }),
        r.1@ == CommandView::<A, P, S, C>::SendMessage(MessageView::FileAd(file_name@)),
{
    let ad = Message::FileAd(file_name.clone());
    (Command::StartFileProviding { file_name, file, sender }, Command::SendMessage(ad))
}

/// The HTTP status of a request that was carried out.
pub const STATUS_OK: u16 = 200;

/// The HTTP status of a request that failed on the node's side.
pub const STATUS_INTERNAL_SERVER_ERROR: u16 = 500;

/// Where offering a file through the API stands: sending the command that starts
/// providing it, waiting for the signal that providing has started, sending the
/// advertisement, or done with the status to answer.
#[derive(Debug, Clone, Copy, PartialEq, Eq, Structural)]
pub enum FileOfferStage {
    SendProvide,
    AwaitProvided,
    SendAdvertisement,
    Done(u16),
}

/// The stage after the outside work of `stage` succeeded (`ok`) or failed: each step
/// goes on to the next only when it succeeded, any failure answers with an internal
/// error, and the offer succeeds once the advertisement is sent.
pub open spec fn spec_file_offer_next(stage: FileOfferStage, ok: bool) -> FileOfferStage {
    match stage {
        FileOfferStage::SendProvide => if ok {
            FileOfferStage::AwaitProvided
        } else {
            FileOfferStage::Done(STATUS_INTERNAL_SERVER_ERROR)
        },
        FileOfferStage::AwaitProvided => if ok {
            FileOfferStage::SendAdvertisement
        } else {
            FileOfferStage::Done(STATUS_INTERNAL_SERVER_ERROR)
        },
        FileOfferStage::SendAdvertisement => if ok {
            FileOfferStage::Done(STATUS_OK)
        } else {
            FileOfferStage::Done(STATUS_INTERNAL_SERVER_ERROR)
        },
        FileOfferStage::Done(status) => FileOfferStage::Done(status),
    }
}

/// Decides the next stage of offering a file, given whether the outside work of the
/// current stage succeeded.
pub fn file_offer_next(stage: FileOfferStage, ok: bool) -> (next: FileOfferStage)
    ensures
        next == spec_file_offer_next(stage, ok),
{
    match stage {
        FileOfferStage::SendProvide => if ok {
            FileOfferStage::AwaitProvided
        } else {
            FileOfferStage::Done(STATUS_INTERNAL_SERVER_ERROR)
        },
        FileOfferStage::AwaitProvided => if ok {
            FileOfferStage::SendAdvertisement
        } else {
            FileOfferStage::Done(STATUS_INTERNAL_SERVER_ERROR)
        },
        FileOfferStage::SendAdvertisement => if ok {
            FileOfferStage::Done(STATUS_OK)
        } else {
            FileOfferStage::Done(STATUS_INTERNAL_SERVER_ERROR)
        },
        FileOfferStage::Done(status) => FileOfferStage::Done(status),
    }
}

/// The file is advertised only after providing it has started: the only stage from which
/// the advertisement is sent is reached from the start only by sending the providing
/// command and then receiving the signal, and an offer answers success only once all
/// three steps succeeded.
pub proof fn law_file_advertised_after_providing(a: bool, b: bool, c: bool)
    ensures
        (spec_file_offer_next(spec_file_offer_next(FileOfferStage::SendProvide, a), b)
            == FileOfferStage::SendAdvertisement) <==> (a && b),
        (spec_file_offer_next(
            spec_file_offer_next(spec_file_offer_next(FileOfferStage::SendProvide, a), b),
            c,
        ) == FileOfferStage::Done(STATUS_OK)) <==> (a && b && c),
        forall|stage: FileOfferStage, ok: bool|
            #[trigger] spec_file_offer_next(stage, ok) == FileOfferStage::SendAdvertisement
                ==> stage == FileOfferStage::AwaitProvided && ok,
{
}

} // verus!
