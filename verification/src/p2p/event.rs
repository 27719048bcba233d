use vstd::prelude::*;

use crate::p2p::message::{Message, MessageView};

verus! {

/// What a node reports to its user interface. `P` identifies peers.
#[derive(Debug)]
pub enum Event<P> {
    Msg(Message),
    Connected(P),
    Disconnected(P),
    Error(String),
}

/// An [`Event`] as mathematical values.
pub enum EventView<P> {
    Msg(MessageView),
    Connected(P),
    Disconnected(P),
    Error(Seq<char>),
}

impl<P> View for Event<P> {
    type V = EventView<P>;

    open spec fn view(&self) -> EventView<P> {
        match self {
            Event::Msg(m) => EventView::Msg(m@),
            Event::Connected(p) => EventView::Connected(*p),
            Event::Disconnected(p) => EventView::Disconnected(*p),
            Event::Error(e) => EventView::Error(e@),
        }
    }
}

} // verus!
