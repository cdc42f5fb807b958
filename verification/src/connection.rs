use crate::packet::{consumed_of, packets_of, split_packets};
use vstd::prelude::*;

verus! {

/// What is kept of a connection between two reads.
#[derive(Debug)]
pub struct Connection {
    leftover: Vec<u8>,
}

impl View for Connection {
    type V = Seq<u8>;

    /// The bytes since the last read that ended with a packet.
    closed spec fn view(&self) -> Seq<u8> {
        self.leftover@
    }
}

impl Connection {
    /// A connection from which nothing was read.
    pub fn new() -> (c: Connection)
        ensures
            c@ == Seq::<u8>::empty(),
    {
        Connection { leftover: Vec::new() }
    }

    /// Takes what a read gave: `None` for a read that failed, no bytes for a
    /// connection that the other side closed. Either ends the connection.
    /// Otherwise all packets of `read` are handed out. The bytes behind the
    /// last one are kept, but never searched again.
    pub fn handle_read<'a>(&mut self, read: Option<&'a [u8]>) -> (r: Option<Vec<&'a [u8]>>)
        ensures
            r is Some <==> (read matches Some(data) && data@.len() > 0),
            r matches Some(packets) ==> packets@.map_values(|p: &'a [u8]| p@) == packets_of(
                read->0@,
            ),
            r is None ==> final(self)@ == old(self)@,
            r is Some ==> final(self)@ == if consumed_of(read->0@) < read->0@.len() {
                old(self)@ + read->0@.skip(consumed_of(read->0@))
            } else {
                Seq::empty()
            },
    {
        let data: &'a [u8] = match read {
            Some(data) => data,
            None => return None,
        };
        if data.len() == 0 {
            return None;
        }
        let (packets, offset) = split_packets(data);
        if offset < data.len() {
            let rest: &[u8] = vstd::slice::slice_subrange(data, offset, data.len());
            self.leftover.extend_from_slice(rest);
            assert(rest@ =~= data@.skip(offset as int));
            assert(self@ =~= old(self)@ + data@.skip(offset as int));
        } else {
            self.leftover.clear();
        }
        Some(packets)
    }
}

} // verus!
