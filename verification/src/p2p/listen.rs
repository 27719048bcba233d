use vstd::prelude::*;

use crate::p2p::address::{multiaddr_of, parse_multiaddr};

verus! {

/// The character of a decimal digit.
pub open spec fn digit_char(d: nat) -> char {
    ((48 + d) as u32) as char
}

/// `n` written in decimal, without leading zeros.
pub open spec fn decimal(n: nat) -> Seq<char>
    decreases n,
{
    if n < 10 {
        seq![digit_char(n)]
    } else {
        decimal(n / 10).push(digit_char(n % 10))
    }
}

/// The text of the address `/ip4/a.b.c.d/tcp/port`.
pub open spec fn tcp_address_text(ip: Seq<u8>, port: u16) -> Seq<char> {
    "/ip4/"@ + decimal(ip[0] as nat) + "."@ + decimal(ip[1] as nat) + "."@ + decimal(
        ip[2] as nat,
    ) + "."@ + decimal(ip[3] as nat) + "/tcp/"@ + decimal(port as nat)
}

/// The text of the websocket address `/ip4/a.b.c.d/tcp/port/ws`.
pub open spec fn ws_address_text(ip: Seq<u8>, port: u16) -> Seq<char> {
    tcp_address_text(ip, port) + "/ws"@
}

/// Appends one decimal digit.
fn push_digit(out: &mut String, d: u8)
    requires
        d < 10,
    ensures
        final(out)@ == old(out)@.push(digit_char(d as nat)),
{
    let s: &str = match d {
        0 => "0",
        1 => "1",
        2 => "2",
        3 => "3",
        4 => "4",
        5 => "5",
        6 => "6",
        7 => "7",
        8 => "8",
        _ => "9",
    };
    proof {
        reveal_strlit("0");
        reveal_strlit("1");
        reveal_strlit("2");
        reveal_strlit("3");
        reveal_strlit("4");
        reveal_strlit("5");
        reveal_strlit("6");
        reveal_strlit("7");
        reveal_strlit("8");
        reveal_strlit("9");
        assert(s@ =~= seq![digit_char(d as nat)]);
    }
    out.append(s);
}

/// Appends `n` in decimal.
fn push_decimal(out: &mut String, n: u16)
    ensures
        final(out)@ == old(out)@ + decimal(n as nat),
    decreases n,
{
    if n < 10 {
        push_digit(out, n as u8);
        assert(decimal(n as nat) =~= seq![digit_char(n as nat)]);
    } else {
        push_decimal(out, n / 10);
        push_digit(out, (n % 10) as u8);
        assert(decimal(n as nat) == decimal((n / 10) as nat).push(digit_char((n % 10) as nat)));
    }
}

/// The text of the address `/ip4/a.b.c.d/tcp/port`, as the node writes its listen address.
pub fn tcp_address(ip: [u8; 4], port: u16) -> (t: String)
    ensures
        t@ == tcp_address_text(ip@, port),
{
    let mut t = String::from_str("/ip4/");
    push_decimal(&mut t, ip[0] as u16);
    t.append(".");
    push_decimal(&mut t, ip[1] as u16);
    t.append(".");
    push_decimal(&mut t, ip[2] as u16);
    t.append(".");
    push_decimal(&mut t, ip[3] as u16);
    t.append("/tcp/");
    push_decimal(&mut t, port);
    t
}

/// The text of the address to listen on at `ip` and `port`, with `/ws` after it for
/// websocket connections.
pub open spec fn listen_text(ip: Seq<u8>, port: u16, websocket: bool) -> Seq<char> {
    if websocket {
        ws_address_text(ip, port)
    } else {
        tcp_address_text(ip, port)
    }
}

/// The address to listen on at `ip` and `port`: `/ip4/a.b.c.d/tcp/port`, with `/ws` after it
/// for websocket connections, parsed by the network layer; `None` where it does not
/// accept the text.
pub fn listen_address(ip: [u8; 4], port: u16, websocket: bool) -> (r: Option<multiaddr::Multiaddr>)
    ensures
        r == multiaddr_of(listen_text(ip@, port, websocket)),
{
    let mut text = tcp_address(ip, port);
    if websocket {
        text.append("/ws");
    }
    parse_multiaddr(text.as_str())
}

} // verus!
