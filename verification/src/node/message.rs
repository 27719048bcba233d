use vstd::prelude::*;

verus! {

/// What the peers of a chat node publish to one another.
#[derive(Debug)]
pub enum Message {
    Text(String),
    FileAd(String),
    File { file_name: String, file: Vec<u8> },
}

/// A [`Message`] as mathematical values.
pub enum MessageView {
    Text(Seq<char>),
    FileAd(Seq<char>),
    File { file_name: Seq<char>, file: Seq<u8> },
}

impl View for Message {
    type V = MessageView;

    open spec fn view(&self) -> MessageView {
        match self {
            Message::Text(t) => MessageView::Text(t@),
            Message::FileAd(name) => MessageView::FileAd(name@),
            Message::File { file_name, file } => MessageView::File {
                file_name: file_name@,
                file: file@,
            },
        }
    }
}

} // verus!
