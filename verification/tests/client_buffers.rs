use netty::client::Client;
use netty::Packet;

#[derive(Clone, Debug, PartialEq)]
struct Note(u8);

impl Packet for Note {
    fn from_reader<R: std::io::Read>(reader: &mut R) -> Option<Self> {
        let mut byte = [0u8; 1];
        reader.read_exact(&mut byte).ok()?;
        Some(Note(byte[0]))
    }

    fn to_vec(&self) -> Vec<u8> {
        vec![self.0]
    }

    fn write<W: std::io::Write + ?Sized>(&self, writer: &mut W) {
        let _ = writer.write_all(&[self.0]);
    }
}

#[test]
fn new_client_has_nothing() {
    let mut client: Client<Note> = Client::new();
    assert!(client.get_packets().is_empty());
    assert!(client.take_outgoing().is_empty());
}

#[test]
fn sent_packets_leave_in_send_order() {
    let mut client = Client::new();
    client.send(Note(1));
    client.send(Note(2));
    client.send_vec(vec![Note(3), Note(4)]);
    client.send(Note(5));
    assert_eq!(client.take_outgoing(), vec![Note(1), Note(2), Note(3), Note(4), Note(5)]);
    assert!(client.take_outgoing().is_empty());
}

#[test]
fn send_vec_is_sending_each() {
    let mut by_vec = Client::new();
    let mut by_each = Client::new();
    by_vec.send(Note(9));
    by_each.send(Note(9));
    by_vec.send_vec(vec![Note(1), Note(2), Note(3)]);
    for n in [1, 2, 3] {
        by_each.send(Note(n));
    }
    assert_eq!(by_vec.take_outgoing(), by_each.take_outgoing());
}

#[test]
fn send_vec_of_nothing_changes_nothing() {
    let mut client = Client::new();
    client.send(Note(7));
    client.send_vec(Vec::new());
    assert_eq!(client.take_outgoing(), vec![Note(7)]);
}

#[test]
fn received_packets_come_out_in_arrival_order_once() {
    let mut client = Client::new();
    client.receive(Note(10));
    client.receive(Note(11));
    assert_eq!(client.get_packets(), vec![Note(10), Note(11)]);
    assert!(client.get_packets().is_empty());
    client.receive(Note(12));
    assert_eq!(client.get_packets(), vec![Note(12)]);
}

#[test]
fn the_two_queues_are_independent() {
    let mut client = Client::new();
    client.send(Note(1));
    client.receive(Note(2));
    assert_eq!(client.get_packets(), vec![Note(2)]);
    assert_eq!(client.take_outgoing(), vec![Note(1)]);
    client.receive(Note(3));
    client.send(Note(4));
    assert_eq!(client.take_outgoing(), vec![Note(4)]);
    assert_eq!(client.get_packets(), vec![Note(3)]);
}

#[test]
fn a_packet_written_reads_back() {
    let mut buf: Vec<u8> = Vec::new();
    Note(42).write(&mut buf);
    assert_eq!(buf, Note(42).to_vec());
    assert_eq!(Note::from_reader(&mut std::io::Cursor::new(buf)), Some(Note(42)));
    assert_eq!(Note::from_reader(&mut std::io::Cursor::new(Vec::new())), None);
}

#[test]
fn interleaved_calls_lose_and_repeat_nothing() {
    let mut client = Client::new();
    let mut got = Vec::new();
    let mut taken = Vec::new();
    client.receive(Note(1));
    client.send(Note(100));
    got.extend(client.get_packets());
    client.receive(Note(2));
    client.receive(Note(3));
    client.send_vec(vec![Note(101), Note(102)]);
    taken.extend(client.take_outgoing());
    got.extend(client.get_packets());
    client.receive(Note(4));
    client.send(Note(103));
    got.extend(client.get_packets());
    taken.extend(client.take_outgoing());
    assert_eq!(got, vec![Note(1), Note(2), Note(3), Note(4)]);
    assert_eq!(taken, vec![Note(100), Note(101), Note(102), Note(103)]);
}
