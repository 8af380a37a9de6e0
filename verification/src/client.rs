//! The packet buffers of a client: packets queued for the server and packets
//! received from it.
//!
//! A connected client shares one `Client` between the caller and the threads
//! that do the network work: the caller queues packets with `send` and
//! `send_vec` and collects received ones with `get_packets`; the writer takes
//! the queued packets with `take_outgoing`, the reader hands received ones to
//! `receive`.

use crate::Packet;
use vstd::prelude::*;

verus! {

/// What a client holds: received packets not yet collected, and packets queued
/// for sending, each in arrival order.
pub struct ClientState<P> {
    pub incoming: Seq<P>,
    pub outgoing: Seq<P>,
}

/// The state after `packet` is queued for sending.
pub open spec fn sent<P>(s: ClientState<P>, packet: P) -> ClientState<P> {
    ClientState { incoming: s.incoming, outgoing: s.outgoing.push(packet) }
}

/// The state after `packets` are queued for sending, in their order.
pub open spec fn sent_all<P>(s: ClientState<P>, packets: Seq<P>) -> ClientState<P> {
    ClientState { incoming: s.incoming, outgoing: s.outgoing + packets }
}

/// The state after `packet` arrived from the network.
pub open spec fn received<P>(s: ClientState<P>, packet: P) -> ClientState<P> {
    ClientState { incoming: s.incoming.push(packet), outgoing: s.outgoing }
}

/// The state after the received packets were collected.
pub open spec fn collected<P>(s: ClientState<P>) -> ClientState<P> {
    ClientState { incoming: Seq::empty(), outgoing: s.outgoing }
}

/// The state after the queued packets were taken for writing.
pub open spec fn flushed<P>(s: ClientState<P>) -> ClientState<P> {
    ClientState { incoming: s.incoming, outgoing: Seq::empty() }
}

/// One call on a client, by its caller (`send`, `send_vec`, `get_packets`) or by
/// the threads that do its network work (`receive`, `take_outgoing`).
pub enum ClientCall<P> {
    Send(P),
    SendVec(Seq<P>),
    Receive(P),
    GetPackets,
    TakeOutgoing,
}

/// The state after `call`, the packets it returned from the received ones, and
/// the packets it returned from the queued ones, as the calls' contracts state them.
pub open spec fn step<P>(s: ClientState<P>, call: ClientCall<P>) -> (ClientState<P>, Seq<P>, Seq<P>) {
    match call {
        ClientCall::Send(p) => (sent(s, p), Seq::empty(), Seq::empty()),
        ClientCall::SendVec(ps) => (sent_all(s, ps), Seq::empty(), Seq::empty()),
        ClientCall::Receive(p) => (received(s, p), Seq::empty(), Seq::empty()),
        ClientCall::GetPackets => (collected(s), s.incoming, Seq::empty()),
        ClientCall::TakeOutgoing => (flushed(s), Seq::empty(), s.outgoing),
    }
}

/// The state after `calls`, first to last, and the concatenations of everything
/// `get_packets` and `take_outgoing` returned along the way.
pub open spec fn run<P>(s: ClientState<P>, calls: Seq<ClientCall<P>>) -> (ClientState<P>, Seq<P>, Seq<P>)
    decreases calls.len(),
{
    if calls.len() == 0 {
        (s, Seq::empty(), Seq::empty())
    } else {
        let before = run(s, calls.drop_last());
        let last = step(before.0, calls.last());
        (last.0, before.1 + last.1, before.2 + last.2)
    }
}

/// The packets that arrived during `calls`, in arrival order.
pub open spec fn arrivals<P>(calls: Seq<ClientCall<P>>) -> Seq<P>
    decreases calls.len(),
{
    if calls.len() == 0 {
        Seq::empty()
    } else {
        match calls.last() {
            ClientCall::Receive(p) => arrivals(calls.drop_last()).push(p),
            _ => arrivals(calls.drop_last()),
        }
    }
}

/// The packets queued during `calls`, in the order they were sent.
pub open spec fn sendings<P>(calls: Seq<ClientCall<P>>) -> Seq<P>
    decreases calls.len(),
{
    if calls.len() == 0 {
        Seq::empty()
    } else {
        match calls.last() {
            ClientCall::Send(p) => sendings(calls.drop_last()).push(p),
            ClientCall::SendVec(ps) => sendings(calls.drop_last()) + ps,
            _ => sendings(calls.drop_last()),
        }
    }
}

/// Over any interleaving of calls, no packet is lost, duplicated or reordered:
/// everything `get_packets` returned, followed by what is still held, is what was
/// held at the start followed by every packet that arrived, in arrival order;
/// and everything `take_outgoing` returned, followed by what is still queued, is
/// what was queued at the start followed by every packet sent, in sending order.
pub proof fn law_every_packet_once_in_order<P>(s: ClientState<P>, calls: Seq<ClientCall<P>>)
    ensures
        run(s, calls).1 + run(s, calls).0.incoming == s.incoming + arrivals(calls),
        run(s, calls).2 + run(s, calls).0.outgoing == s.outgoing + sendings(calls),
    decreases calls.len(),
{
    if calls.len() == 0 {
        assert(Seq::<P>::empty() + s.incoming =~= s.incoming + Seq::<P>::empty());
        assert(Seq::<P>::empty() + s.outgoing =~= s.outgoing + Seq::<P>::empty());
    } else {
        let init = calls.drop_last();
        law_every_packet_once_in_order(s, init);
        let before = run(s, init);
        let got = before.1;
        let taken = before.2;
        let b = before.0;
        match calls.last() {
            ClientCall::Send(p) => {
                assert(got + Seq::<P>::empty() =~= got);
                assert(taken + Seq::<P>::empty() + b.outgoing.push(p) =~= (taken + b.outgoing).push(p));
                assert(s.outgoing + sendings(init).push(p) =~= (s.outgoing + sendings(init)).push(p));
            },
            ClientCall::SendVec(ps) => {
                assert(got + Seq::<P>::empty() =~= got);
                assert(taken + Seq::<P>::empty() + (b.outgoing + ps) =~= (taken + b.outgoing) + ps);
                assert(s.outgoing + (sendings(init) + ps) =~= (s.outgoing + sendings(init)) + ps);
            },
            ClientCall::Receive(p) => {
                assert(taken + Seq::<P>::empty() =~= taken);
                assert(got + Seq::<P>::empty() + b.incoming.push(p) =~= (got + b.incoming).push(p));
                assert(s.incoming + arrivals(init).push(p) =~= (s.incoming + arrivals(init)).push(p));
            },
            ClientCall::GetPackets => {
                assert(taken + Seq::<P>::empty() =~= taken);
                assert(got + b.incoming + Seq::<P>::empty() =~= got + b.incoming);
            },
            ClientCall::TakeOutgoing => {
                assert(got + Seq::<P>::empty() =~= got);
                assert(taken + b.outgoing + Seq::<P>::empty() =~= taken + b.outgoing);
            },
        }
    }
}

/// Represents a client's buffers towards a server. Used to read and write from the network.
pub struct Client<P: Packet> {
    incoming: Vec<P>,
    outgoing: Vec<P>,
}

impl<P: Packet> View for Client<P> {
    type V = ClientState<P>;

    closed spec fn view(&self) -> ClientState<P> {
        ClientState { incoming: self.incoming@, outgoing: self.outgoing@ }
    }
}

impl<P: Packet> Client<P> {
    /// A client with nothing received and nothing queued.
    pub fn new() -> (c: Self)
        ensures
            c@.incoming == Seq::<P>::empty(),
            c@.outgoing == Seq::<P>::empty(),
    {
        Client { incoming: Vec::new(), outgoing: Vec::new() }
    }

    /// Sends a packet to the remote server: queues it behind the packets already queued.
    pub fn send(&mut self, packet: P)
        ensures
            final(self)@ == sent(old(self)@, packet),
    {
        self.outgoing.push(packet);
    }

    /// Sends a vector of packets to the remote server: queues them, in order,
    /// behind the packets already queued.
    pub fn send_vec(&mut self, packets: Vec<P>)
        ensures
            final(self)@ == sent_all(old(self)@, packets@),
    {
        let mut packets = packets;
        self.outgoing.append(&mut packets);
    }

    /// Grabs all buffered packets from the remote server, in the order they arrived,
    /// and forgets them. Does not always contain elements, does not block.
    pub fn get_packets(&mut self) -> (packets: Vec<P>)
        ensures
            packets@ == old(self)@.incoming,
            final(self)@ == collected(old(self)@),
    {
        let mut packets = Vec::new();
        std::mem::swap(&mut packets, &mut self.incoming);
        packets
    }

    /// Takes every queued packet, in the order it was queued, for the writer to send.
    pub fn take_outgoing(&mut self) -> (packets: Vec<P>)
        ensures
            packets@ == old(self)@.outgoing,
            final(self)@ == flushed(old(self)@),
    {
        let mut packets = Vec::new();
        std::mem::swap(&mut packets, &mut self.outgoing);
        packets
    }

    /// Stores a packet that arrived from the server behind those not yet collected.
    pub fn receive(&mut self, packet: P)
        ensures
            final(self)@ == received(old(self)@, packet),
    {
        self.incoming.push(packet);
    }
}

/// The state after each of `packets` is sent with `send`, first to last.
pub open spec fn send_each<P>(s: ClientState<P>, packets: Seq<P>) -> ClientState<P>
    decreases packets.len(),
{
    if packets.len() == 0 {
        s
    } else {
        sent(send_each(s, packets.drop_last()), packets.last())
    }
}

/// The state after each of `packets` arrives, first to last.
pub open spec fn receive_each<P>(s: ClientState<P>, packets: Seq<P>) -> ClientState<P>
    decreases packets.len(),
{
    if packets.len() == 0 {
        s
    } else {
        received(receive_each(s, packets.drop_last()), packets.last())
    }
}

/// Sending a vector of packets with `send_vec` is the same as sending its
/// packets one by one with `send`, first to last.
pub proof fn law_send_vec_is_send_each<P>(s: ClientState<P>, packets: Seq<P>)
    ensures
        sent_all(s, packets) == send_each(s, packets),
    decreases packets.len(),
{
    if packets.len() == 0 {
        assert(s.outgoing + packets =~= s.outgoing);
    } else {
        law_send_vec_is_send_each(s, packets.drop_last());
        assert(s.outgoing + packets =~= (s.outgoing + packets.drop_last()).push(packets.last()));
    }
}

/// Packets leave in the order they were sent: after the queue has been taken,
/// the next `take_outgoing` hands out exactly the packets sent since, in sending
/// order, and nothing that was received.
pub proof fn law_outgoing_in_send_order<P>(s: ClientState<P>, packets: Seq<P>)
    ensures
        send_each(flushed(s), packets).outgoing == packets,
        send_each(flushed(s), packets).incoming == s.incoming,
    decreases packets.len(),
{
    law_send_vec_is_send_each(flushed(s), packets);
    assert(Seq::<P>::empty() + packets =~= packets);
}

/// Packets are collected in the order they arrived: after a `get_packets`,
/// the next one returns exactly the packets received since, in arrival order,
/// and a `get_packets` right after another returns nothing.
pub proof fn law_incoming_in_arrival_order<P>(s: ClientState<P>, packets: Seq<P>)
    ensures
        receive_each(collected(s), packets).incoming == packets,
        receive_each(collected(s), packets).outgoing == s.outgoing,
        collected(collected(s)).incoming == Seq::<P>::empty(),
        collected(collected(s)) == collected(s),
    decreases packets.len(),
{
    if packets.len() > 0 {
        law_incoming_in_arrival_order(s, packets.drop_last());
        assert(packets.drop_last().push(packets.last()) =~= packets);
    } else {
        assert(Seq::<P>::empty() =~= packets);
    }
}

/// The two queues are independent: sending and receiving commute, sending
/// leaves what was received untouched, and receiving leaves what was queued untouched.
pub proof fn law_queues_independent<P>(s: ClientState<P>, out_packet: P, in_packet: P)
    ensures
        sent(received(s, in_packet), out_packet) == received(sent(s, out_packet), in_packet),
        sent(s, out_packet).incoming == s.incoming,
        received(s, in_packet).outgoing == s.outgoing,
        collected(sent(s, out_packet)) == sent(collected(s), out_packet),
        flushed(received(s, in_packet)) == received(flushed(s), in_packet),
{
}

} // verus!
