use vstd::prelude::*;

verus! {

/// The clients that get every message. A client is known by a number.
#[derive(Debug)]
pub struct Broadcaster {
    clients: Vec<u64>,
}

impl View for Broadcaster {
    type V = Seq<u64>;

    /// The clients, in the order in which they came.
    closed spec fn view(&self) -> Seq<u64> {
        self.clients@
    }
}

/// The clients without `client`.
pub open spec fn without(clients: Seq<u64>, client: u64) -> Seq<u64> {
    clients.filter(|c: u64| c != client)
}

impl Broadcaster {
    /// A broadcaster without clients.
    pub fn new() -> (b: Broadcaster)
        ensures
            b@ == Seq::<u64>::empty(),
    {
        Broadcaster { clients: Vec::new() }
    }

    /// How many clients there are.
    pub fn client_count(&self) -> (n: usize)
        ensures
            n == self@.len(),
    {
        self.clients.len()
    }

    /// Takes in a client.
    pub fn connect(&mut self, client: u64)
        ensures
            final(self)@ == old(self)@.push(client),
    {
        self.clients.push(client);
    }

    /// Leaves out a client. The others stay in their order.
    pub fn disconnect(&mut self, client: u64)
        ensures
            final(self)@ == without(old(self)@, client),
    {
        let ghost before = self.clients@;
        let mut kept: Vec<u64> = Vec::new();
        let n: usize = self.clients.len();
        assert(without(before.take(0), client) =~= Seq::empty()) by {
            reveal(Seq::filter);
        }
        for i in 0..n
            invariant
                n == before.len(),
                self.clients@ == before,
                kept@ == without(before.take(i as int), client),
        {
            let c: u64 = self.clients[i];
            proof {
                reveal(Seq::filter);
                assert(before.take(i + 1).drop_last() =~= before.take(i as int));
            }
            if c != client {
                kept.push(c);
            }
        }
        assert(before.take(n as int) =~= before);
        self.clients = kept;
    }

    /// Who gets `message`, and what: every client gets it as it is, in the
    /// order in which they came.
    pub fn deliveries(&self, message: &str) -> (r: Vec<(u64, String)>)
        ensures
            r@.map_values(|d: (u64, String)| (d.0, d.1@)) == self@.map_values(
                |c: u64| (c, message@),
            ),
    {
        let mut r: Vec<(u64, String)> = Vec::new();
        let n: usize = self.clients.len();
        for i in 0..n
            invariant
                n == self.clients@.len(),
                r@.len() == i,
                forall|j: int|
                    0 <= j < i ==> (#[trigger] r@[j]).0 == self.clients@[j] && r@[j].1@ == message@,
        {
            r.push((self.clients[i], message.to_owned()));
        }
        assert(r@.map_values(|d: (u64, String)| (d.0, d.1@)) =~= self@.map_values(
            |c: u64| (c, message@),
        ));
        r
    }
}

proof fn lemma_without(clients: Seq<u64>, client: u64)
    ensures
        !without(clients, client).contains(client),
        forall|c: u64|
            c != client ==> (#[trigger] without(clients, client).contains(c) <==> clients.contains(
                c,
            )),
        !clients.contains(client) ==> without(clients, client) == clients,
        without(clients, client).len() <= clients.len(),
    decreases clients.len(),
{
    reveal(Seq::filter);
    if clients.len() > 0 {
        let front = clients.drop_last();
        lemma_without(front, client);
        let w = without(front, client);
        assert(clients =~= front.push(clients.last()));
        assert forall|c: u64| c != client implies (#[trigger] without(clients, client).contains(c)
            <==> clients.contains(c)) by {
            assert(clients.contains(c) <==> front.contains(c) || c == clients.last()) by {
                if front.contains(c) {
                    let k = choose|k: int| 0 <= k < front.len() && front[k] == c;
                    assert(clients[k] == c);
                }
                assert(clients[clients.len() - 1] == clients.last());
            }
            if clients.last() != client {
                assert(without(clients, client) == w.push(clients.last()));
                assert(w.push(clients.last()).contains(c) <==> w.contains(c) || c
                    == clients.last()) by {
                    if w.contains(c) {
                        let k = choose|k: int| 0 <= k < w.len() && w[k] == c;
                        assert(w.push(clients.last())[k] == c);
                    }
                    assert(w.push(clients.last())[w.len() as int] == clients.last());
                }
            }
        }
        if !clients.contains(client) {
            assert(clients[clients.len() - 1] == clients.last());
            assert(!front.contains(client)) by {
                if front.contains(client) {
                    let k = choose|k: int| 0 <= k < front.len() && front[k] == client;
                    assert(clients[k] == client);
                }
            }
        }
    } else {
        assert(without(clients, client) =~= clients);
    }
}

/// A client that left gets no message any more, and every other client gets
/// them as before.
pub proof fn law_only_the_leaving_client_leaves(clients: Seq<u64>, client: u64, other: u64)
    requires
        other != client,
    ensures
        !without(clients, client).contains(client),
        without(clients, client).contains(other) <==> clients.contains(other),
{
    lemma_without(clients, client);
}

/// A client that was not there, comes and leaves, changes nothing.
pub proof fn law_leaving_undoes_coming(clients: Seq<u64>, client: u64)
    requires
        !clients.contains(client),
    ensures
        without(clients.push(client), client) == clients,
{
    reveal(Seq::filter);
    lemma_without(clients, client);
    assert(clients.push(client).drop_last() =~= clients);
}

/// A client that leaves twice has left once.
pub proof fn law_leaving_twice_is_leaving_once(clients: Seq<u64>, client: u64)
    ensures
        without(without(clients, client), client) == without(clients, client),
{
    lemma_without(clients, client);
    lemma_without(without(clients, client), client);
}

/// Leaving keeps the others in their order, each as often as it came: one that
/// came last is kept last, unless it is the one that leaves.
pub proof fn law_the_others_keep_their_order(clients: Seq<u64>, last: u64, client: u64)
    ensures
        without(Seq::empty(), client).len() == 0,
        last == client ==> without(clients.push(last), client) == without(clients, client),
        last != client ==> without(clients.push(last), client) == without(clients, client).push(
            last,
        ),
{
    reveal(Seq::filter);
    assert(clients.push(last).drop_last() =~= clients);
    assert(without(Seq::empty(), client) =~= Seq::empty());
}

} // verus!
