use netty::address::SocketAddress;
use netty::outbox::Outbox;
use netty::Packet;

#[derive(Clone, Debug, PartialEq, Eq, PartialOrd, Ord)]
struct Reply(u8);

impl Packet for Reply {
    fn from_reader<R: std::io::Read>(reader: &mut R) -> Option<Self> {
        let mut byte = [0u8; 1];
        reader.read_exact(&mut byte).ok()?;
        Some(Reply(byte[0]))
    }

    fn to_vec(&self) -> Vec<u8> {
        vec![self.0]
    }

    fn write<W: std::io::Write + ?Sized>(&self, writer: &mut W) {
        let _ = writer.write_all(&[self.0]);
    }
}

fn peer(last: u8, port: u16) -> SocketAddress {
    SocketAddress { ip: [127, 0, 0, last], port }
}

#[test]
fn empty_outbox_has_nothing_for_anyone() {
    let mut outbox: Outbox<Reply> = Outbox::new();
    assert_eq!(outbox.len(), 0);
    assert_eq!(outbox.take_next_for(peer(1, 9000)), None);
    assert!(outbox.drain_for(peer(1, 9000)).is_empty());
}

#[test]
fn take_next_is_fifo_per_address() {
    let a = peer(2, 5000);
    let b = peer(3, 5000);
    let mut outbox = Outbox::new();
    outbox.post(vec![(Reply(1), a), (Reply(2), b), (Reply(3), a)]);
    outbox.post(vec![(Reply(4), b), (Reply(5), a)]);
    assert_eq!(outbox.len(), 5);
    assert_eq!(outbox.take_next_for(a), Some(Reply(1)));
    assert_eq!(outbox.take_next_for(a), Some(Reply(3)));
    assert_eq!(outbox.take_next_for(b), Some(Reply(2)));
    assert_eq!(outbox.take_next_for(a), Some(Reply(5)));
    assert_eq!(outbox.take_next_for(a), None);
    assert_eq!(outbox.take_next_for(b), Some(Reply(4)));
    assert_eq!(outbox.take_next_for(b), None);
    assert_eq!(outbox.len(), 0);
}

#[test]
fn same_host_other_port_is_another_address() {
    let a = peer(4, 6000);
    let b = peer(4, 6001);
    let mut outbox = Outbox::new();
    outbox.post(vec![(Reply(1), b)]);
    assert_eq!(outbox.take_next_for(a), None);
    assert_eq!(outbox.len(), 1);
    assert_eq!(outbox.take_next_for(b), Some(Reply(1)));
}

#[test]
fn drain_delivers_every_packet_for_the_address_in_order() {
    let a = peer(7, 8000);
    let b = peer(8, 8000);
    let mut outbox = Outbox::new();
    outbox.post(vec![(Reply(1), a), (Reply(2), b), (Reply(3), a), (Reply(4), b), (Reply(5), a)]);
    assert_eq!(outbox.drain_for(a), vec![Reply(1), Reply(3), Reply(5)]);
    assert!(outbox.drain_for(a).is_empty());
    assert_eq!(outbox.len(), 2);
    assert_eq!(outbox.drain_for(b), vec![Reply(2), Reply(4)]);
    assert_eq!(outbox.len(), 0);
}

#[test]
fn drain_keeps_the_handlers_order() {
    // A handler answering one packet with A, B, A (0, 1, 0) to the sender.
    let a = peer(11, 50000);
    let other = peer(12, 50000);
    let mut outbox = Outbox::new();
    outbox.post(vec![(Reply(7), other)]);
    outbox.post(vec![(Reply(0), a), (Reply(1), a), (Reply(0), a)]);
    assert_eq!(outbox.drain_for(a), vec![Reply(0), Reply(1), Reply(0)]);
    assert_eq!(outbox.take_next_for(other), Some(Reply(7)));
}

#[test]
fn reflecting_server_answers_each_peer() {
    // A handler that answers `A` (0) with `B` (1) and `B` with `A`, to the sender.
    fn reflect(packet: Reply, from: SocketAddress) -> Vec<(Reply, SocketAddress)> {
        vec![(Reply(1 - packet.0), from)]
    }
    let alice = peer(9, 4000);
    let bob = peer(10, 4000);
    let mut outbox = Outbox::new();
    outbox.post(reflect(Reply(0), alice));
    outbox.post(reflect(Reply(1), bob));
    outbox.post(reflect(Reply(1), alice));
    assert_eq!(outbox.take_next_for(bob), Some(Reply(0)));
    assert_eq!(outbox.take_next_for(alice), Some(Reply(1)));
    assert_eq!(outbox.take_next_for(alice), Some(Reply(0)));
    assert_eq!(outbox.take_next_for(alice), None);
}
