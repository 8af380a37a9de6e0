//! The server's outgoing packets: every packet a handler or a tick produced,
//! paired with the address of the connection it is meant for. Each
//! connection's writer takes the packets meant for its own address.

use crate::address::SocketAddress;
use crate::Packet;
use vstd::prelude::*;

verus! {

broadcast use vstd::seq_lib::group_seq_properties;

/// The packets among `entries` that are addressed to `addr`, in the order they appear.
pub open spec fn queue_for<P>(entries: Seq<(P, SocketAddress)>, addr: SocketAddress) -> Seq<P>
    decreases entries.len(),
{
    if entries.len() == 0 {
        Seq::empty()
    } else if entries[0].1 == addr {
        seq![entries[0].0] + queue_for(entries.drop_first(), addr)
    } else {
        queue_for(entries.drop_first(), addr)
    }
}

/// The position of the first entry addressed to `addr`, or the length of
/// `entries` when there is none.
pub open spec fn first_index_for<P>(entries: Seq<(P, SocketAddress)>, addr: SocketAddress) -> int
    decreases entries.len(),
{
    if entries.len() == 0 {
        0
    } else if entries[0].1 == addr {
        0
    } else {
        1 + first_index_for(entries.drop_first(), addr)
    }
}

/// `first_index_for` is the first matching position, or the length when none matches.
pub proof fn lemma_first_index<P>(entries: Seq<(P, SocketAddress)>, addr: SocketAddress)
    ensures
        0 <= first_index_for(entries, addr) <= entries.len(),
        first_index_for(entries, addr) < entries.len() ==> entries[first_index_for(
            entries,
            addr,
        )].1 == addr,
        forall|j: int| 0 <= j < first_index_for(entries, addr) ==> entries[j].1 != addr,
        (first_index_for(entries, addr) == entries.len()) == (queue_for(entries, addr).len()
            == 0),
    decreases entries.len(),
{
    if entries.len() > 0 && entries[0].1 != addr {
        let rest = entries.drop_first();
        lemma_first_index(rest, addr);
        assert forall|j: int| 0 <= j < first_index_for(entries, addr) implies entries[j].1
            != addr by {
            if j > 0 {
                assert(entries[j] == rest[j - 1]);
            }
        }
    }
}

/// A position with no match before it, and a match at it or the end there, is `first_index_for`.
pub proof fn lemma_first_index_unique<P>(
    entries: Seq<(P, SocketAddress)>,
    addr: SocketAddress,
    i: int,
)
    requires
        0 <= i <= entries.len(),
        forall|j: int| 0 <= j < i ==> entries[j].1 != addr,
        i < entries.len() ==> entries[i].1 == addr,
    ensures
        first_index_for(entries, addr) == i,
    decreases entries.len(),
{
    if entries.len() > 0 && i > 0 {
        let rest = entries.drop_first();
        assert forall|j: int| 0 <= j < i - 1 implies rest[j].1 != addr by {
            assert(rest[j] == entries[j + 1]);
        }
        lemma_first_index_unique(rest, addr, i - 1);
    }
}

/// The packets for an address in two lists of entries, one after the other, are
/// those of the first list followed by those of the second.
pub proof fn lemma_queue_concat<P>(
    first: Seq<(P, SocketAddress)>,
    second: Seq<(P, SocketAddress)>,
    addr: SocketAddress,
)
    ensures
        queue_for(first + second, addr) == queue_for(first, addr) + queue_for(second, addr),
    decreases first.len(),
{
    if first.len() == 0 {
        assert(first + second =~= second);
        assert(queue_for(first, addr) + queue_for(second, addr) =~= queue_for(second, addr));
    } else {
        lemma_queue_concat(first.drop_first(), second, addr);
        assert((first + second).drop_first() =~= first.drop_first() + second);
        assert((first + second)[0] == first[0]);
        if first[0].1 == addr {
            assert(seq![first[0].0] + (queue_for(first.drop_first(), addr) + queue_for(
                second,
                addr,
            )) =~= seq![first[0].0] + queue_for(first.drop_first(), addr) + queue_for(
                second,
                addr,
            ));
        }
    }
}

/// The packets for an address in a single entry.
pub proof fn lemma_queue_single<P>(entry: (P, SocketAddress), addr: SocketAddress)
    ensures
        queue_for(seq![entry], addr) == (if entry.1 == addr {
            seq![entry.0]
        } else {
            Seq::<P>::empty()
        }),
{
    let s = seq![entry];
    assert(s.drop_first() =~= Seq::<(P, SocketAddress)>::empty());
    assert(queue_for(s.drop_first(), addr) =~= Seq::<P>::empty());
    if entry.1 == addr {
        assert(seq![entry.0] + Seq::<P>::empty() =~= seq![entry.0]);
    }
}

/// No packet in a list of entries none of which is addressed to `addr`.
pub proof fn lemma_queue_none<P>(entries: Seq<(P, SocketAddress)>, addr: SocketAddress)
    requires
        forall|j: int| 0 <= j < entries.len() ==> entries[j].1 != addr,
    ensures
        queue_for(entries, addr) == Seq::<P>::empty(),
    decreases entries.len(),
{
    if entries.len() > 0 {
        let rest = entries.drop_first();
        assert forall|j: int| 0 <= j < rest.len() implies rest[j].1 != addr by {
            assert(rest[j] == entries[j + 1]);
        }
        lemma_queue_none(rest, addr);
    }
}

/// Posting appends per address: after `post(results)`, the packets waiting for
/// any address are those that waited before, followed by the packets of
/// `results` addressed to it, in their order.
pub proof fn law_post_appends_per_address<P>(
    entries: Seq<(P, SocketAddress)>,
    results: Seq<(P, SocketAddress)>,
    addr: SocketAddress,
)
    ensures
        queue_for(entries + results, addr) == queue_for(entries, addr) + queue_for(results, addr),
{
    lemma_queue_concat(entries, results, addr);
}

/// Taking the next packet for `addr` (the first entry addressed to it, removed
/// in place) yields the head of that address's queue and pops it, while the
/// queue of every other address stays exactly as it was. When nothing waits
/// for `addr` there is no first entry.
pub proof fn law_take_next_is_per_address_fifo<P>(
    entries: Seq<(P, SocketAddress)>,
    addr: SocketAddress,
    other: SocketAddress,
)
    ensures
        ({
            let i = first_index_for(entries, addr);
            if queue_for(entries, addr).len() == 0 {
                i == entries.len()
            } else {
                &&& 0 <= i < entries.len()
                &&& entries[i].0 == queue_for(entries, addr)[0]
                &&& queue_for(entries.remove(i), addr) == queue_for(entries, addr).drop_first()
                &&& (other != addr ==> queue_for(entries.remove(i), other) == queue_for(
                    entries,
                    other,
                ))
            }
        }),
{
    lemma_first_index(entries, addr);
    let i = first_index_for(entries, addr);
    if i < entries.len() {
        let before = entries.take(i);
        let after = entries.skip(i + 1);
        let entry = entries[i];
        assert(entries =~= before + seq![entry] + after);
        assert(entries.remove(i) =~= before + after);
        assert forall|j: int| 0 <= j < before.len() implies before[j].1 != addr by {}
        lemma_queue_none(before, addr);
        lemma_queue_concat(before + seq![entry], after, addr);
        lemma_queue_concat(before, seq![entry], addr);
        lemma_queue_concat(before, after, addr);
        lemma_queue_single(entry, addr);
        assert(queue_for(entries, addr) =~= seq![entry.0] + queue_for(after, addr));
        assert(queue_for(entries, addr).drop_first() =~= queue_for(after, addr));
        assert(queue_for(entries.remove(i), addr) =~= queue_for(after, addr));
        if other != addr {
            lemma_queue_concat(before + seq![entry], after, other);
            lemma_queue_concat(before, seq![entry], other);
            lemma_queue_concat(before, after, other);
            lemma_queue_single(entry, other);
            assert(queue_for(entries, other) =~= queue_for(before, other) + queue_for(
                after,
                other,
            ));
        }
    }
}

/// Whether an entry is meant for an address other than `addr`.
pub open spec fn not_for<P>(addr: SocketAddress) -> spec_fn((P, SocketAddress)) -> bool {
    |e: (P, SocketAddress)| e.1 != addr
}

/// Keeping the entries not meant for `addr` keeps all of a list none of which is.
proof fn lemma_filter_keeps_all<P>(entries: Seq<(P, SocketAddress)>, addr: SocketAddress)
    requires
        forall|j: int| 0 <= j < entries.len() ==> entries[j].1 != addr,
    ensures
        entries.filter(not_for::<P>(addr)) == entries,
    decreases entries.len(),
{
    reveal(Seq::filter);
    if entries.len() > 0 {
        lemma_filter_keeps_all(entries.drop_last(), addr);
        assert(entries.drop_last().push(entries.last()) =~= entries);
    }
}

/// Taking the next packet for `addr` leaves every entry meant for another
/// address in place, in order.
pub proof fn law_take_next_keeps_others<P>(entries: Seq<(P, SocketAddress)>, addr: SocketAddress)
    requires
        queue_for(entries, addr).len() > 0,
    ensures
        entries.remove(first_index_for(entries, addr)).filter(not_for::<P>(addr)) == entries.filter(
            not_for::<P>(addr),
        ),
{
    broadcast use vstd::seq_lib::group_seq_lib_default;

    reveal(Seq::filter);
    lemma_first_index(entries, addr);
    let i = first_index_for(entries, addr);
    let before = entries.take(i);
    let after = entries.skip(i + 1);
    let entry = entries[i];
    assert(entries =~= before + seq![entry] + after);
    assert(entries.remove(i) =~= before + after);
    let single = seq![entry];
    assert(single.drop_last() =~= Seq::<(P, SocketAddress)>::empty());
    assert(single.filter(not_for::<P>(addr)) =~= Seq::<(P, SocketAddress)>::empty()) by {
        assert(Seq::<(P, SocketAddress)>::empty().filter(not_for::<P>(addr)) =~= Seq::<
            (P, SocketAddress),
        >::empty());
    }
    assert((before + single + after).filter(not_for::<P>(addr)) =~= (before + single).filter(
        not_for::<P>(addr),
    ) + after.filter(not_for::<P>(addr)));
    assert((before + single).filter(not_for::<P>(addr)) =~= before.filter(not_for::<P>(addr))
        + single.filter(not_for::<P>(addr)));
    assert((before + after).filter(not_for::<P>(addr)) =~= before.filter(not_for::<P>(addr))
        + after.filter(not_for::<P>(addr)));
}

/// Once every entry for `addr` is gone, nothing waits for `addr`, and every
/// other address still has exactly the packets that waited for it, in order.
pub proof fn law_drain_keeps_other_queues<P>(
    entries: Seq<(P, SocketAddress)>,
    addr: SocketAddress,
    other: SocketAddress,
)
    ensures
        queue_for(entries.filter(not_for::<P>(addr)), addr) == Seq::<P>::empty(),
        other != addr ==> queue_for(entries.filter(not_for::<P>(addr)), other) == queue_for(
            entries,
            other,
        ),
    decreases entries.len(),
{
    reveal(Seq::filter);
    if entries.len() > 0 {
        let init = entries.drop_last();
        let last = entries.last();
        law_drain_keeps_other_queues(init, addr, other);
        assert(init.push(last) =~= init + seq![last]);
        assert(entries =~= init + seq![last]);
        lemma_queue_concat(init, seq![last], other);
        lemma_queue_single(last, other);
        let kept = init.filter(not_for::<P>(addr));
        if last.1 != addr {
            assert(entries.filter(not_for::<P>(addr)) =~= kept + seq![last]);
            lemma_queue_concat(kept, seq![last], addr);
            lemma_queue_concat(kept, seq![last], other);
            lemma_queue_single(last, addr);
            assert(queue_for(kept, addr) + Seq::<P>::empty() =~= queue_for(kept, addr));
        } else {
            assert(entries.filter(not_for::<P>(addr)) =~= kept);
            assert(queue_for(init, other) + Seq::<P>::empty() =~= queue_for(init, other));
        }
    } else {
        assert(entries.filter(not_for::<P>(addr)) =~= entries);
    }
}

/// The packets waiting to be written, each paired with the address of the
/// connection it is meant for, in the order they were posted.
pub struct Outbox<P: Packet> {
    entries: Vec<(P, SocketAddress)>,
}

impl<P: Packet> View for Outbox<P> {
    type V = Seq<(P, SocketAddress)>;

    closed spec fn view(&self) -> Seq<(P, SocketAddress)> {
        self.entries@
    }
}

impl<P: Packet> Outbox<P> {
    /// An outbox with nothing waiting.
    pub fn new() -> (outbox: Self)
        ensures
            outbox@ == Seq::<(P, SocketAddress)>::empty(),
    {
        Outbox { entries: Vec::new() }
    }

    /// The number of packets waiting, for all addresses together.
    pub fn len(&self) -> (n: usize)
        ensures
            n == self@.len(),
    {
        self.entries.len()
    }

    /// Queues what a handler or a tick returned: each packet with the address it
    /// is to be sent to, behind everything already waiting.
    pub fn post(&mut self, results: Vec<(P, SocketAddress)>)
        ensures
            final(self)@ == old(self)@ + results@,
    {
        let mut results = results;
        self.entries.append(&mut results);
    }

    /// Where the first packet for `addr` waits, or the number of entries if none does.
    fn find_first(&self, addr: SocketAddress) -> (i: usize)
        ensures
            i == first_index_for(self@, addr),
    {
        let n = self.entries.len();
        let mut i: usize = 0;
        while i < n
            invariant
                n == self@.len(),
                0 <= i <= n,
                forall|j: int| 0 <= j < i ==> self@[j].1 != addr,
            decreases n - i,
        {
            if self.entries[i].1 == addr {
                proof {
                    lemma_first_index_unique(self@, addr, i as int);
                }
                return i;
            }
            i = i + 1;
        }
        proof {
            lemma_first_index_unique(self@, addr, i as int);
        }
        i
    }

    /// Takes the first packet waiting for `addr` out of the outbox, keeping the
    /// order of all the others. `None` when nothing waits for `addr`.
    pub fn take_next_for(&mut self, addr: SocketAddress) -> (packet: Option<P>)
        ensures
            ({
                let i = first_index_for(old(self)@, addr);
                match packet {
                    None => i == old(self)@.len() && final(self)@ == old(self)@,
                    Some(p) => i < old(self)@.len() && p == old(self)@[i].0 && final(self)@
                        == old(self)@.remove(i),
                }
            }),
    {
        proof {
            lemma_first_index(self@, addr);
        }
        let i = self.find_first(addr);
        if i < self.entries.len() {
            let (p, _) = self.entries.remove(i);
            Some(p)
        } else {
            None
        }
    }

    /// Takes every packet waiting for `addr`, in the order they were posted,
    /// by repeated `take_next_for` until none is left; every entry meant for
    /// another address stays, in order.
    pub fn drain_for(&mut self, addr: SocketAddress) -> (packets: Vec<P>)
        ensures
            packets@ == queue_for(old(self)@, addr),
            final(self)@ == old(self)@.filter(not_for::<P>(addr)),
    {
        let ghost start = self@;
        let mut packets: Vec<P> = Vec::new();
        loop
            invariant
                queue_for(start, addr) == packets@ + queue_for(self@, addr),
                start.filter(not_for::<P>(addr)) == self@.filter(not_for::<P>(addr)),
            ensures
                packets@ == queue_for(start, addr),
                self@ == start.filter(not_for::<P>(addr)),
            decreases self@.len(),
        {
            let ghost before = self@;
            proof {
                lemma_first_index(before, addr);
                law_take_next_is_per_address_fifo(before, addr, addr);
            }
            match self.take_next_for(addr) {
                Some(p) => {
                    proof {
                        law_take_next_keeps_others(before, addr);
                    }
                    packets.push(p);
                    proof {
                        assert(queue_for(before, addr) =~= seq![p] + queue_for(self@, addr));
                        assert(queue_for(start, addr) =~= packets@ + queue_for(self@, addr));
                    }
                },
                None => {
                    proof {
                        lemma_filter_keeps_all(before, addr);
                        assert(queue_for(start, addr) =~= packets@ + Seq::<P>::empty());
                    }
                    break;
                },
            }
        }
        packets
    }
}

} // verus!
