//! The instrument index: from an instrument's symbol to its dense number.

use vstd::prelude::*;
use vstd::utf8::encode_utf8;
use crate::parsing::bytes::same_bytes;

verus! {

/// The numbers that a run of insertions leaves, by the bytes of the symbol:
/// a later insertion of a symbol replaces an earlier one.
pub open spec fn entries_map(entries: Seq<(String, usize)>) -> Map<Seq<u8>, usize>
    decreases entries.len(),
{
    if entries.len() == 0 {
        Map::empty()
    } else {
        entries_map(entries.drop_last()).insert(
            encode_utf8(entries.last().0@),
            entries.last().1,
        )
    }
}

/// A map from symbols to instrument numbers. Built once, then only read.
#[derive(Debug, Clone)]
pub struct InstrumentIndex {
    entries: Vec<(String, usize)>,
}

impl View for InstrumentIndex {
    type V = Map<Seq<u8>, usize>;

    closed spec fn view(&self) -> Map<Seq<u8>, usize> {
        entries_map(self.entries@)
    }
}

impl InstrumentIndex {
    /// An index that knows no instrument.
    pub fn new() -> (index: Self)
        ensures
            index@ == Map::<Seq<u8>, usize>::empty(),
    {
        InstrumentIndex { entries: Vec::new() }
    }

    /// Gives the symbol the number `idx`, whatever number it had.
    pub fn insert(&mut self, symbol: String, idx: usize)
        ensures
            final(self)@ == old(self)@.insert(encode_utf8(symbol@), idx),
    {
        proof {
            assert(self.entries@.push((symbol, idx)).drop_last() =~= self.entries@);
        }
        self.entries.push((symbol, idx));
    }

    /// The number of the instrument whose symbol has the bytes `symbol`.
    pub fn get(&self, symbol: &[u8]) -> (found: Option<usize>)
        ensures
            found == if self@.contains_key(symbol@) {
                Some(self@[symbol@])
            } else {
                None::<usize>
            },
    {
        let mut i: usize = self.entries.len();
        assert(self.entries@.take(i as int) =~= self.entries@);
        while i > 0
            invariant
                i <= self.entries@.len(),
                entries_map(self.entries@).contains_key(symbol@) == entries_map(
                    self.entries@.take(i as int),
                ).contains_key(symbol@),
                entries_map(self.entries@).contains_key(symbol@) ==> entries_map(
                    self.entries@,
                )[symbol@] == entries_map(self.entries@.take(i as int))[symbol@],
            decreases i,
        {
            proof {
                let part = self.entries@.take(i as int);
                assert(part.drop_last() =~= self.entries@.take(i - 1));
                assert(part.last() == self.entries@[i - 1]);
            }
            let name: &[u8] = self.entries[i - 1].0.as_str().as_bytes();
            if same_bytes(name, symbol) {
                return Some(self.entries[i - 1].1);
            }
            i = i - 1;
        }
        None
    }
}

} // verus!
