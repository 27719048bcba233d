use vstd::prelude::*;

verus! {

/// What peers publish to one another on the chat topic.
#[derive(Debug)]
pub enum Message {
    Text { source_peer_id: String, text: String },
    FileAd(String),
    File { file_name: String, file: Vec<u8> },
}

/// A [`Message`] as mathematical values.
pub enum MessageView {
    Text { source_peer_id: Seq<char>, text: Seq<char> },
    FileAd(Seq<char>),
    File { file_name: Seq<char>, file: Seq<u8> },
}

impl View for Message {
    type V = MessageView;

    open spec fn view(&self) -> MessageView {
        match self {
            Message::Text { source_peer_id, text } => MessageView::Text {
                source_peer_id: source_peer_id@,
                text: text@,
            },
            Message::FileAd(name) => MessageView::FileAd(name@),
            Message::File { file_name, file } => MessageView::File {
                file_name: file_name@,
                file: file@,
            },
        }
    }
}

} // verus!
