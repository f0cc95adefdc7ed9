//! Descriptors and the bounded traversal of a descriptor chain.
use vstd::prelude::*;

verus! {

/// One guest buffer: `len` bytes from `addr`, with its direction and link.
#[derive(Clone, Copy, Debug, PartialEq, Eq, Structural)]
pub struct Descriptor {
    pub addr: u64,
    pub len: u32,
    /// The device may write the buffer; otherwise it may only read it.
    pub writable: bool,
    /// `next` names the following descriptor of the chain.
    pub has_next: bool,
    pub next: u16,
}

/// The chain that starts at index `idx` of `table`, following at most `budget`
/// descriptors; `None` where an index leaves the table or the budget runs out
/// before a descriptor without a link.
pub open spec fn walk(table: Seq<Descriptor>, idx: int, budget: nat) -> Option<Seq<Descriptor>>
    decreases budget,
{
    if idx < 0 || idx >= table.len() || budget == 0 {
        None
    } else {
        let d = table[idx];
        if !d.has_next {
            Some(seq![d])
        } else {
            match walk(table, d.next as int, (budget - 1) as nat) {
                Some(rest) => Some(seq![d] + rest),
                None => None,
            }
        }
    }
}

/// A chain that is walked to its end starts with the descriptor at its head.
pub proof fn lemma_walk_head(table: Seq<Descriptor>, idx: int, budget: nat)
    requires
        walk(table, idx, budget) is Some,
    ensures
        walk(table, idx, budget)->Some_0.len() >= 1,
        walk(table, idx, budget)->Some_0[0] == table[idx],
{
}

/// A descriptor that links to itself never ends a walk that reaches it:
/// the walk runs out of budget instead of looping.
pub proof fn lemma_self_loop_never_ends(table: Seq<Descriptor>, idx: int, budget: nat)
    requires
        0 <= idx < table.len(),
        table[idx].has_next,
        table[idx].next as int == idx,
    ensures
        walk(table, idx, budget) is None,
    decreases budget,
{
    if budget > 0 {
        lemma_self_loop_never_ends(table, idx, (budget - 1) as nat);
    }
}

/// A descriptor table and the index of a chain's head in it.
pub struct DescriptorChain {
    pub table: Vec<Descriptor>,
    pub head: u16,
}

impl DescriptorChain {
    pub fn new(table: Vec<Descriptor>, head: u16) -> (r: DescriptorChain)
        ensures
            r.table@ == table@,
            r.head == head,
    {
        DescriptorChain { table, head }
    }

    /// The descriptors of the chain, in order. A chain never holds more
    /// descriptors than the table, so a cycle ends the walk.
    pub open spec fn spec_descriptors(&self) -> Option<Seq<Descriptor>> {
        walk(self.table@, self.head as int, self.table@.len())
    }

    /// The descriptors of the chain, or `None` where the chain is malformed.
    pub fn descriptors(&self) -> (r: Option<Vec<Descriptor>>)
        ensures
            r matches Some(v) ==> self.spec_descriptors() == Some(v@),
            r is None ==> self.spec_descriptors() is None,
    {
        let n = self.table.len();
        let mut out: Vec<Descriptor> = Vec::new();
        let mut idx: u16 = self.head;
        loop
            invariant
                n == self.table@.len(),
                out@.len() <= n,
                self.spec_descriptors() == match walk(
                    self.table@,
                    idx as int,
                    (n - out@.len()) as nat,
                ) {
                    Some(rest) => Some(out@ + rest),
                    None => None::<Seq<Descriptor>>,
                },
            decreases n - out@.len(),
        {
            if idx as usize >= n || out.len() >= n {
                return None;
            }
            let d = self.table[idx as usize];
            let ghost before = out@;
            out.push(d);
            if !d.has_next {
                proof {
                    assert(before + seq![d] =~= out@);
                }
                return Some(out);
            }
            proof {
                let budget = (n - before.len() - 1) as nat;
                match walk(self.table@, d.next as int, budget) {
                    Some(rest) => {
                        assert(before + (seq![d] + rest) =~= out@ + rest);
                    },
                    None => {},
                }
            }
            idx = d.next;
        }
    }
}

} // verus!
