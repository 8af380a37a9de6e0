//! Websocket endpoints: the URL a websocket client connects to, when a
//! websocket may take a packet, and which received messages carry one.

use vstd::prelude::*;

verus! {

/// The character of a decimal digit `d` (`d < 10`).
pub open spec fn digit_char(d: int) -> char {
    ('0' as int + d) as char
}

/// The decimal notation of `n`, most significant digit first, without leading zeros.
pub open spec fn decimal(n: nat) -> Seq<char>
    decreases n,
{
    if n < 10 {
        seq![digit_char(n as int)]
    } else {
        decimal(n / 10).push(digit_char((n % 10) as int))
    }
}

/// The websocket URL of a host and port: `ws://a.b.c.d:port`.
pub open spec fn ws_url_spec(ip: [u8; 4], port: u16) -> Seq<char> {
    seq!['w', 's', ':', '/', '/'] + decimal(ip[0] as nat) + seq!['.'] + decimal(ip[1] as nat)
        + seq!['.'] + decimal(ip[2] as nat) + seq!['.'] + decimal(ip[3] as nat) + seq![':']
        + decimal(port as nat)
}

fn digit_str(d: u16) -> (s: &'static str)
    requires
        d < 10,
    ensures
        s@ == seq![digit_char(d as int)],
{
    proof {
        reveal_strlit("0");
        reveal_strlit("1");
        reveal_strlit("2");
        reveal_strlit("3");
        reveal_strlit("4");
        reveal_strlit("5");
        reveal_strlit("6");
        reveal_strlit("7");
        reveal_strlit("8");
        reveal_strlit("9");
    }
    match d {
        0 => "0",
        1 => "1",
        2 => "2",
        3 => "3",
        4 => "4",
        5 => "5",
        6 => "6",
        7 => "7",
        8 => "8",
        _ => "9",
    }
}

fn push_decimal(out: &mut String, n: u16)
    ensures
        final(out)@ == old(out)@ + decimal(n as nat),
    decreases n,
{
    let ghost start = out@;
    if n >= 10 {
        push_decimal(out, n / 10);
    }
    out.append(digit_str(n % 10));
    assert(out@ =~= start + decimal(n as nat));
}

/// The URL a websocket client connects to for `address` and `port`:
/// `ws://a.b.c.d:port`, each number in decimal.
pub fn ws_url(address: [u8; 4], port: u16) -> (url: String)
    ensures
        url@ == ws_url_spec(address, port),
        names_endpoint(url@, address, port),
{
    let mut url = String::new();
    proof {
        reveal_strlit("ws://");
        reveal_strlit(".");
        reveal_strlit(":");
    }
    url.append("ws://");
    push_decimal(&mut url, address[0] as u16);
    url.append(".");
    push_decimal(&mut url, address[1] as u16);
    url.append(".");
    push_decimal(&mut url, address[2] as u16);
    url.append(".");
    push_decimal(&mut url, address[3] as u16);
    url.append(":");
    push_decimal(&mut url, port);
    assert(url@ =~= ws_url_spec(address, port));
    proof {
        law_ws_url_names_endpoint(address, port);
    }
    url
}

/// The `readyState` of a websocket whose connection is open.
pub const WS_OPEN: u16 = 1;

/// Whether a packet may be sent on a websocket in `ready_state`: only an open
/// socket takes one; any other state is refused with `Err(())`.
pub fn check_open(ready_state: u16) -> (r: Result<(), ()>)
    ensures
        r is Ok <==> ready_state == WS_OPEN,
{
    if ready_state == WS_OPEN {
        Ok(())
    } else {
        Err(())
    }
}

/// The value of a sequence of decimal digits, most significant first.
pub open spec fn digits_value(s: Seq<char>) -> int
    decreases s.len(),
{
    if s.len() == 0 {
        0
    } else {
        digits_value(s.drop_last()) * 10 + (s.last() as int - '0' as int)
    }
}

/// `decimal(n)` is the decimal notation of `n`: it is made of digits only, has
/// no leading zero (but for zero itself), and its digits denote `n`.
pub proof fn law_decimal_denotes(n: nat)
    ensures
        decimal(n).len() > 0,
        forall|k: int| 0 <= k < decimal(n).len() ==> '0' <= #[trigger] decimal(n)[k] <= '9',
        decimal(n)[0] == '0' ==> n == 0,
        digits_value(decimal(n)) == n,
    decreases n,
{
    let last = (n % 10) as int;
    assert(digit_char(last) as int == '0' as int + last);
    if n < 10 {
        assert(decimal(n).drop_last() =~= Seq::<char>::empty());
        assert(decimal(n).last() == digit_char(last));
        assert(digits_value(decimal(n)) == digits_value(decimal(n).drop_last()) * 10 + (
        decimal(n).last() as int - '0' as int));
    } else {
        law_decimal_denotes(n / 10);
        let d = decimal(n);
        assert(d.drop_last() =~= decimal(n / 10));
        assert(n == (n / 10) * 10 + n % 10);
        assert(d.last() == digit_char(last));
        assert(digits_value(d) == digits_value(d.drop_last()) * 10 + (d.last() as int - '0' as int));
        assert forall|k: int| 0 <= k < d.len() implies '0' <= #[trigger] d[k] <= '9' by {
            if k < d.len() - 1 {
                assert(d[k] == decimal(n / 10)[k]);
            }
        }
    }
}

/// `field` is the canonical decimal notation of `n`: one or more digits, no
/// leading zero (but for zero itself), denoting `n`.
pub open spec fn is_decimal_of(field: Seq<char>, n: int) -> bool {
    &&& field.len() > 0
    &&& forall|k: int| 0 <= k < field.len() ==> '0' <= #[trigger] field[k] <= '9'
    &&& (field[0] == '0' ==> field.len() == 1)
    &&& digits_value(field) == n
}

/// `url` names the host `ip` and the port `port` in the websocket scheme: it is
/// `ws://`, then the four octets of `ip` in order, each in canonical decimal and
/// separated by `.`, then `:` and the port in canonical decimal.
pub open spec fn names_endpoint(url: Seq<char>, ip: [u8; 4], port: u16) -> bool {
    exists|f0: Seq<char>, f1: Seq<char>, f2: Seq<char>, f3: Seq<char>, fp: Seq<char>|
        #![trigger is_decimal_of(f0, ip[0] as int), is_decimal_of(f1, ip[1] as int), is_decimal_of(f2, ip[2] as int), is_decimal_of(f3, ip[3] as int), is_decimal_of(fp, port as int)]
        {
            &&& url == seq!['w', 's', ':', '/', '/'] + f0 + seq!['.'] + f1 + seq!['.'] + f2
                + seq!['.'] + f3 + seq![':'] + fp
            &&& is_decimal_of(f0, ip[0] as int)
            &&& is_decimal_of(f1, ip[1] as int)
            &&& is_decimal_of(f2, ip[2] as int)
            &&& is_decimal_of(f3, ip[3] as int)
            &&& is_decimal_of(fp, port as int)
        }
}

proof fn lemma_decimal_is_decimal_of(n: nat)
    ensures
        is_decimal_of(decimal(n), n as int),
{
    law_decimal_denotes(n);
}

/// The websocket URL of a host and port names exactly that host and port: read
/// back field by field, its four host fields are the octets of `ip` in order and
/// its port field is `port`, each written in full canonical decimal.
pub proof fn law_ws_url_names_endpoint(ip: [u8; 4], port: u16)
    ensures
        names_endpoint(ws_url_spec(ip, port), ip, port),
{
    let f0 = decimal(ip[0] as nat);
    let f1 = decimal(ip[1] as nat);
    let f2 = decimal(ip[2] as nat);
    let f3 = decimal(ip[3] as nat);
    let fp = decimal(port as nat);
    lemma_decimal_is_decimal_of(ip[0] as nat);
    lemma_decimal_is_decimal_of(ip[1] as nat);
    lemma_decimal_is_decimal_of(ip[2] as nat);
    lemma_decimal_is_decimal_of(ip[3] as nat);
    lemma_decimal_is_decimal_of(port as nat);
    assert(ws_url_spec(ip, port) == seq!['w', 's', ':', '/', '/'] + f0 + seq!['.'] + f1 + seq![
        '.',
    ] + f2 + seq!['.'] + f3 + seq![':'] + fp);
}

/// A websocket message as received, with the payload of the kinds that carry one.
#[derive(Debug)]
pub enum WsMessage {
    Text(String),
    Binary(Vec<u8>),
    Ping(Vec<u8>),
    Pong(Vec<u8>),
    Close,
    Frame,
}

/// The bytes of a packet carried by a websocket message: only binary messages
/// carry packets; every other kind is ignored.
pub fn packet_payload(msg: WsMessage) -> (payload: Option<Vec<u8>>)
    ensures
        match msg {
            WsMessage::Binary(data) => payload == Some(data),
            _ => payload is None,
        },
{
    match msg {
        WsMessage::Binary(data) => Some(data),
        _ => None,
    }
}

} // verus!
