//! The filter that selects the logs to index.
use vstd::prelude::*;
use crate::keys::{
    ascending, in_ascending_order, key_at_most, lemma_ascending_bounded,
    lemma_lex_le_antisymmetric,
};

verus! {

/// A topic: one 32-byte word of a log.
pub type Topic = [u8; 32];

/// The address of a contract.
pub type Address = [u8; 20];

/// What a filter says: where it starts, and per topic position and for the
/// emitting contract the values it admits. An empty set admits any value.
pub struct FilterView {
    pub from_block: Option<u64>,
    pub topics: Seq<Set<Topic>>,
    pub address: Set<Address>,
}

/// A filter over the logs of a chain. Each of its five sets holds a value at
/// most once; the order in which values were added is kept but carries no
/// meaning.
pub struct Filter {
    from_block: Option<u64>,
    topic0: Vec<Topic>,
    topic1: Vec<Topic>,
    topic2: Vec<Topic>,
    topic3: Vec<Topic>,
    address: Vec<Address>,
}

/// The block at which a filter without a start block begins.
pub const DEFAULT_START_BLOCK: u64 = 1;

/// The start block that a filter's setting resolves to.
pub open spec fn resolved_start(from_block: Option<u64>) -> u64 {
    match from_block {
        Some(block) => block,
        None => DEFAULT_START_BLOCK,
    }
}

/// Whether two keys are the same.
fn same_key<const N: usize>(a: &[u8; N], b: &[u8; N]) -> (r: bool)
    ensures
        r == (*a == *b),
{
    let r = key_at_most(a, b) && key_at_most(b, a);
    proof {
        if r {
            lemma_lex_le_antisymmetric(a@, b@);
            assert(*a =~= *b);
        } else {
            crate::keys::lemma_lex_le_reflexive(a@);
        }
    }
    r
}

/// Adds `value` to `items` unless it is there.
fn insert_key<const N: usize>(items: &mut Vec<[u8; N]>, value: [u8; N])
    requires
        old(items)@.no_duplicates(),
    ensures
        final(items)@.no_duplicates(),
        final(items)@.to_set() == old(items)@.to_set().insert(value),
        old(items)@.contains(value) ==> final(items)@ == old(items)@,
        !old(items)@.contains(value) ==> final(items)@ == old(items)@.push(value),
{
    let mut i: usize = 0;
    while i < items.len()
        invariant
            i <= items.len(),
            *items == *old(items),
            old(items)@.no_duplicates(),
            forall|k: int| 0 <= k < i ==> items@[k] != value,
        decreases items.len() - i,
    {
        if same_key(&items[i], &value) {
            assert(items@.contains(value));
            assert(items@.to_set() =~= items@.to_set().insert(value));
            return ;
        }
        i = i + 1;
    }
    assert(!items@.contains(value));
    items.push(value);
    assert(final(items)@.to_set() =~= old(items)@.to_set().insert(value)) by {
        assert forall|x: [u8; N]|
            final(items)@.to_set().contains(x) == old(items)@.to_set().insert(value).contains(
                x,
            ) by {
            if final(items)@.contains(x) {
                let k = choose|k: int| 0 <= k < final(items)@.len() && final(items)@[k] == x;
                if k < old(items)@.len() {
                    assert(old(items)@[k] == x);
                }
            }
            if old(items)@.contains(x) {
                let k = choose|k: int| 0 <= k < old(items)@.len() && old(items)@[k] == x;
                assert(final(items)@[k] == x);
            }
            if x == value {
                assert(final(items)@[old(items)@.len() as int] == x);
            }
        }
    }
}

impl View for Filter {
    type V = FilterView;

    closed spec fn view(&self) -> FilterView {
        FilterView {
            from_block: self.from_block,
            topics: seq![
                self.topic0@.to_set(),
                self.topic1@.to_set(),
                self.topic2@.to_set(),
                self.topic3@.to_set(),
            ],
            address: self.address@.to_set(),
        }
    }
}

impl Filter {
    #[verifier::type_invariant]
    spec fn no_value_twice(self) -> bool {
        &&& self.topic0@.no_duplicates()
        &&& self.topic1@.no_duplicates()
        &&& self.topic2@.no_duplicates()
        &&& self.topic3@.no_duplicates()
        &&& self.address@.no_duplicates()
    }

    /// The filter that admits every log and names no start block.
    pub fn new() -> (filter: Filter)
        ensures
            filter@.from_block.is_none(),
            filter@.topics == Seq::new(4, |i: int| Set::<Topic>::empty()),
            filter@.address == Set::<Address>::empty(),
    {
        let filter = Filter {
            from_block: None,
            topic0: Vec::new(),
            topic1: Vec::new(),
            topic2: Vec::new(),
            topic3: Vec::new(),
            address: Vec::new(),
        };
        proof {
            assert(Seq::<Topic>::empty().to_set() =~= Set::<Topic>::empty());
            assert(Seq::<Address>::empty().to_set() =~= Set::<Address>::empty());
            assert(filter@.topics =~= Seq::new(4, |i: int| Set::<Topic>::empty()));
        }
        filter
    }

    /// The same filter, starting at `block`.
    pub fn from_block(self, block: u64) -> (filter: Filter)
        ensures
            filter@ == (FilterView { from_block: Some(block), ..self@ }),
    {
        proof {
            use_type_invariant(&self);
        }
        Filter { from_block: Some(block), ..self }
    }

    /// The same filter, admitting `value` too at topic position `position`.
    pub fn with_topic(self, position: usize, value: Topic) -> (filter: Filter)
        requires
            position < 4,
        ensures
            filter@ == (FilterView {
                topics: self@.topics.update(
                    position as int,
                    self@.topics[position as int].insert(value),
                ),
                ..self@
            }),
    {
        proof {
            use_type_invariant(&self);
        }
        let Filter { from_block, mut topic0, mut topic1, mut topic2, mut topic3, address } = self;
        if position == 0 {
            insert_key(&mut topic0, value);
        } else if position == 1 {
            insert_key(&mut topic1, value);
        } else if position == 2 {
            insert_key(&mut topic2, value);
        } else {
            insert_key(&mut topic3, value);
        }
        let filter = Filter { from_block, topic0, topic1, topic2, topic3, address };
        proof {
            assert(filter@.topics =~= self@.topics.update(
                position as int,
                self@.topics[position as int].insert(value),
            ));
        }
        filter
    }

    /// The same filter, admitting the contract at `value` too.
    pub fn with_address(self, value: Address) -> (filter: Filter)
        ensures
            filter@ == (FilterView { address: self@.address.insert(value), ..self@ }),
    {
        proof {
            use_type_invariant(&self);
        }
        let Filter { from_block, topic0, topic1, topic2, topic3, mut address } = self;
        insert_key(&mut address, value);
        Filter { from_block, topic0, topic1, topic2, topic3, address }
    }

    /// The start block as it was set, if it was.
    pub fn get_from_block(&self) -> (block: Option<u64>)
        ensures
            block == self@.from_block,
    {
        self.from_block
    }

    /// The block at which indexing starts: the one that was set, else 1.
    pub fn start_block(&self) -> (block: u64)
        ensures
            block == resolved_start(self@.from_block),
    {
        match self.from_block {
            Some(block) => block,
            None => DEFAULT_START_BLOCK,
        }
    }

    /// The values admitted at topic position `position`, each once, in the
    /// order in which they were added.
    pub fn topic_values(&self, position: usize) -> (values: &Vec<Topic>)
        requires
            position < 4,
        ensures
            values@.no_duplicates(),
            values@.to_set() == self@.topics[position as int],
    {
        proof {
            use_type_invariant(self);
        }
        if position == 0 {
            &self.topic0
        } else if position == 1 {
            &self.topic1
        } else if position == 2 {
            &self.topic2
        } else {
            &self.topic3
        }
    }

    /// The contracts admitted, each once, in the order in which they were
    /// added.
    pub fn addresses(&self) -> (values: &Vec<Address>)
        ensures
            values@.no_duplicates(),
            values@.to_set() == self@.address,
    {
        proof {
            use_type_invariant(self);
        }
        &self.address
    }

    /// Each set of a filter is that of its values in ascending order, and
    /// the number of its values fits a machine word.
    pub proof fn lemma_sets_in_order(self)
        ensures
            forall|position: int|
                0 <= position < 4 ==> in_ascending_order(
                    ascending(#[trigger] self@.topics[position]),
                    self@.topics[position],
                ) && ascending(self@.topics[position]).len() <= usize::MAX,
            in_ascending_order(ascending(self@.address), self@.address),
            ascending(self@.address).len() <= usize::MAX,
    {
        lemma_ascending_bounded(self.topic0@);
        lemma_ascending_bounded(self.topic1@);
        lemma_ascending_bounded(self.topic2@);
        lemma_ascending_bounded(self.topic3@);
        lemma_ascending_bounded(self.address@);
        vstd::std_specs::vec::axiom_spec_len(&self.topic0);
        vstd::std_specs::vec::axiom_spec_len(&self.topic1);
        vstd::std_specs::vec::axiom_spec_len(&self.topic2);
        vstd::std_specs::vec::axiom_spec_len(&self.topic3);
        vstd::std_specs::vec::axiom_spec_len(&self.address);
    }

    /// A filter always has four topic positions.
    pub proof fn lemma_four_positions(self)
        ensures
            self@.topics.len() == 4,
    {
    }
}

} // verus!
