use vstd::prelude::*;

use crate::node::message::{Message, MessageView};

verus! {

/// What the user interface, or the node itself, asks a chat node to do.
///
/// `P` identifies a peer, `S` is the handle on which a caller is told that providing a
/// file has started, and `C` is the channel on which a file request is answered.
#[derive(Debug)]
pub enum Command<P, S, C> {
    SendMessage(Message),
    StartFileProviding { file_name: String, file: Vec<u8>, sender: S },
    GetFileProviders { file_name: String },
    RequestFile { file_name: String, peer: P },
    ResponseFile { file_name: String, file: Vec<u8>, channel: C },
}

/// A [`Command`] as mathematical values.
pub enum CommandView<P, S, C> {
    SendMessage(MessageView),
    StartFileProviding { file_name: Seq<char>, file: Seq<u8>, sender: S },
    GetFileProviders { file_name: Seq<char> },
    RequestFile { file_name: Seq<char>, peer: P },
    ResponseFile { file_name: Seq<char>, file: Seq<u8>, channel: C },
}

impl<P, S, C> View for Command<P, S, C> {
    type V = CommandView<P, S, C>;

    open spec fn view(&self) -> CommandView<P, S, C> {
        match self {
            Command::SendMessage(m) => CommandView::SendMessage(m@),
            Command::StartFileProviding { file_name, file, sender } =>
                CommandView::StartFileProviding { file_name: file_name@, file: file@, sender: *sender },
            Command::GetFileProviders { file_name } =>
                CommandView::GetFileProviders { file_name: file_name@ },
            Command::RequestFile { file_name, peer } =>
                CommandView::RequestFile { file_name: file_name@, peer: *peer },
            Command::ResponseFile { file_name, file, channel } =>
                CommandView::ResponseFile { file_name: file_name@, file: file@, channel: *channel },
        }
    }
}

} // verus!
