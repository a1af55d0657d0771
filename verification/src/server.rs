//! The relay's side: the registry of connected peers and the decision of
//! who is sent each line that arrives.

use vstd::prelude::*;

verus! {

/// Whether `c` is white space in Unicode's sense (the property White_Space).
pub open spec fn is_space(c: char) -> bool {
    let n = c as u32;
    ||| 0x09 <= n <= 0x0D
    ||| n == 0x20
    ||| n == 0x85
    ||| n == 0xA0
    ||| n == 0x1680
    ||| 0x2000 <= n <= 0x200A
    ||| n == 0x2028
    ||| n == 0x2029
    ||| n == 0x202F
    ||| n == 0x205F
    ||| n == 0x3000
}

/// Whether a line holds nothing but white space.
pub open spec fn blank(line: Seq<char>) -> bool {
    forall|i: int| 0 <= i < line.len() ==> is_space(#[trigger] line[i])
}

/// A line as it goes onto a connection: its text and the line terminator.
pub open spec fn framed(line: Seq<char>) -> Seq<char> {
    line.push('\n')
}

/// The handles that a line from `sender` goes to: the positions in
/// `identities` that hold another identity, in registration order.
pub open spec fn recipients(identities: Seq<Seq<char>>, sender: Seq<char>) -> Seq<int>
    decreases identities.len(),
{
    if identities.len() == 0 {
        Seq::empty()
    } else if identities.last() == sender {
        recipients(identities.drop_last(), sender)
    } else {
        recipients(identities.drop_last(), sender).push(identities.len() - 1)
    }
}

/// Whether `c` is white space.
pub fn is_whitespace(c: char) -> (space: bool)
    ensures
        space == is_space(c),
{
    let n: u32 = c as u32;
    (0x09 <= n && n <= 0x0D) || n == 0x20 || n == 0x85 || n == 0xA0 || n == 0x1680 || (0x2000 <= n
        && n <= 0x200A) || n == 0x2028 || n == 0x2029 || n == 0x202F || n == 0x205F || n == 0x3000
}

/// Whether `line` holds nothing but white space. The empty line does.
pub fn is_blank(line: &str) -> (all_space: bool)
    ensures
        all_space == blank(line@),
{
    broadcast use vstd::string::axiom_spec_iter;

    for c in it: line.chars()
        invariant
            it.seq() == line@,
            forall|k: int| 0 <= k < it.index() ==> is_space(#[trigger] line@[k]),
    {
        if !is_whitespace(c) {
            return false;
        }
    }
    true
}

/// `line` with the line terminator behind it.
pub fn frame_line(line: &str) -> (wire: String)
    ensures
        wire@ == framed(line@),
{
    let mut wire: String = line.to_owned();
    proof {
        reveal_strlit("\n");
    }
    wire.append("\n");
    assert(wire@ =~= framed(line@));
    wire
}

/// One write that a broadcast asks for: `line`, terminator included, onto
/// the connection registered as `handle`.
#[derive(Debug)]
pub struct Delivery {
    pub handle: usize,
    pub line: String,
}

/// The handles that a list of deliveries names, in order.
pub open spec fn targets(deliveries: Seq<Delivery>) -> Seq<int> {
    deliveries.map_values(|d: Delivery| d.handle as int)
}

/// The relay's registry: the identity of every peer that has connected,
/// in the order of registration. A peer's handle is its position. Nothing
/// ever leaves the registry.
pub struct Registry {
    identities: Vec<String>,
}

impl View for Registry {
    type V = Seq<Seq<char>>;

    closed spec fn view(&self) -> Seq<Seq<char>> {
        self.identities@.map_values(|identity: String| identity@)
    }
}

impl Registry {
    /// A registry without peers.
    pub fn new() -> (registry: Self)
        ensures
            registry@ == Seq::<Seq<char>>::empty(),
    {
        let registry = Registry { identities: Vec::new() };
        assert(registry@ =~= Seq::<Seq<char>>::empty());
        registry
    }

    /// The number of registered peers.
    pub fn len(&self) -> (n: usize)
        ensures
            n == self@.len(),
    {
        self.identities.len()
    }

    /// The identity registered under `handle`, if there is one.
    pub fn identity(&self, handle: usize) -> (identity: Option<&str>)
        ensures
            handle < self@.len() ==> (identity matches Some(text) && text@ == self@[handle as int]),
            handle >= self@.len() ==> identity is None,
    {
        if handle < self.identities.len() {
            Some(self.identities[handle].as_str())
        } else {
            None
        }
    }

    /// Registers a peer behind all earlier ones and returns its handle.
    pub fn register(&mut self, identity: String) -> (handle: usize)
        ensures
            final(self)@ == old(self)@.push(identity@),
            handle == old(self)@.len(),
    {
        let handle: usize = self.identities.len();
        self.identities.push(identity);
        assert(self@ =~= old(self)@.push(identity@));
        handle
    }

    /// Fans `message` out: one delivery of the framed line for every
    /// registered peer but `sender`, in registration order.
    pub fn broadcast(&self, message: &str, sender: &str) -> (deliveries: Vec<Delivery>)
        ensures
            targets(deliveries@) == recipients(self@, sender@),
            forall|k: int|
                0 <= k < deliveries@.len() ==> (#[trigger] deliveries@[k]).line@ == framed(
                    message@,
                ),
    {
        let sender_id: String = sender.to_owned();
        let mut deliveries: Vec<Delivery> = Vec::new();
        let mut i: usize = 0;
        assert(self@.take(0) =~= Seq::<Seq<char>>::empty());
        assert(targets(deliveries@) =~= recipients(self@.take(0), sender@));
        while i < self.identities.len()
            invariant
                i <= self.identities.len(),
                sender_id@ == sender@,
                targets(deliveries@) == recipients(self@.take(i as int), sender@),
                forall|k: int|
                    0 <= k < deliveries@.len() ==> (#[trigger] deliveries@[k]).line@ == framed(
                        message@,
                    ),
            decreases self.identities.len() - i,
        {
            let ghost before = deliveries@;
            assert(self@.take(i + 1).drop_last() =~= self@.take(i as int));
            assert(self@.take(i + 1).last() == self.identities@[i as int]@);
            if !(self.identities[i] == sender_id) {
                deliveries.push(Delivery { handle: i, line: frame_line(message) });
                assert(targets(deliveries@) =~= targets(before).push(i as int));
            }
            i += 1;
        }
        assert(self@.take(i as int) =~= self@);
        deliveries
    }

    /// Handles one line read from the connection of `sender`: a line of
    /// nothing but white space is dropped, any other line is broadcast.
    pub fn relay_line(&self, line: &str, sender: &str) -> (deliveries: Vec<Delivery>)
        ensures
            blank(line@) ==> deliveries@.len() == 0,
            !blank(line@) ==> targets(deliveries@) == recipients(self@, sender@),
            forall|k: int|
                0 <= k < deliveries@.len() ==> (#[trigger] deliveries@[k]).line@ == framed(line@),
    {
        if is_blank(line) {
            Vec::new()
        } else {
            self.broadcast(line, sender)
        }
    }
}

/// A broadcast never goes back to its sender: every recipient is a
/// registered handle, and none of them holds the sender's identity.
pub proof fn lemma_sender_is_excluded(identities: Seq<Seq<char>>, sender: Seq<char>)
    ensures
        forall|k: int|
            0 <= k < recipients(identities, sender).len() ==> {
                let handle = #[trigger] recipients(identities, sender)[k];
                0 <= handle < identities.len() && identities[handle] != sender
            },
    decreases identities.len(),
{
    if identities.len() > 0 {
        let all = recipients(identities, sender);
        let rest = recipients(identities.drop_last(), sender);
        lemma_sender_is_excluded(identities.drop_last(), sender);
        assert forall|k: int| 0 <= k < all.len() implies 0 <= #[trigger] all[k] < identities.len()
            && identities[all[k]] != sender by {
            if k < rest.len() {
                assert(all[k] == rest[k]);
                assert(identities.drop_last()[rest[k]] == identities[rest[k]]);
            }
        }
    }
}

/// A broadcast reaches every other peer: each handle whose identity is not
/// the sender's is among the recipients.
pub proof fn lemma_others_are_reached(identities: Seq<Seq<char>>, sender: Seq<char>, handle: int)
    requires
        0 <= handle < identities.len(),
        identities[handle] != sender,
    ensures
        recipients(identities, sender).contains(handle),
    decreases identities.len(),
{
    let rest = recipients(identities.drop_last(), sender);
    if handle == identities.len() - 1 {
        assert(rest.push(handle)[rest.len() as int] == handle);
    } else {
        lemma_others_are_reached(identities.drop_last(), sender, handle);
        let k = choose|k: int| 0 <= k < rest.len() && rest[k] == handle;
        assert(recipients(identities, sender)[k] == handle);
    }
}

/// A broadcast reaches each peer once and in registration order: the
/// recipients' handles strictly increase.
pub proof fn lemma_recipients_increase(identities: Seq<Seq<char>>, sender: Seq<char>)
    ensures
        forall|j: int, k: int|
            0 <= j < k < recipients(identities, sender).len() ==> #[trigger] recipients(
                identities,
                sender,
            )[j] < #[trigger] recipients(identities, sender)[k],
    decreases identities.len(),
{
    if identities.len() > 0 {
        let all = recipients(identities, sender);
        let rest = recipients(identities.drop_last(), sender);
        lemma_recipients_increase(identities.drop_last(), sender);
        lemma_sender_is_excluded(identities.drop_last(), sender);
        assert forall|j: int, k: int| 0 <= j < k < all.len() implies #[trigger] all[j]
            < #[trigger] all[k] by {
            assert(all[j] == rest[j]);
            if k < rest.len() {
                assert(all[k] == rest[k]);
            }
        }
    }
}

} // verus!
