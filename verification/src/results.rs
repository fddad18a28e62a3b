//! Result entries produced by one completed search, and selection
//! navigation over them: the selection moves by one, wrapping modulo the
//! number of entries, and never moves on an empty set.

use vstd::prelude::*;

verus! {

/// One entry of a result set: a stable identifier handed back to the caller
/// on selection, a display title, and the confidence score as the numeric
/// text the search process produced.
#[derive(Debug, Clone)]
pub struct ResultEntry {
    pub identifier: String,
    pub title: String,
    pub confidence: String,
}

/// The mathematical value of an entry: its three fields as character
/// sequences.
pub struct EntryView {
    pub identifier: Seq<char>,
    pub title: Seq<char>,
    pub confidence: Seq<char>,
}

impl View for ResultEntry {
    type V = EntryView;

    open spec fn view(&self) -> EntryView {
        EntryView {
            identifier: self.identifier@,
            title: self.title@,
            confidence: self.confidence@,
        }
    }
}

/// The sequence of entry values a result list stands for.
pub open spec fn entries_view(rs: Seq<ResultEntry>) -> Seq<EntryView> {
    rs.map_values(|e: ResultEntry| e@)
}

/// Selection moved one up, wrapping: `(selected + count - 1) % count`.
pub fn nav_up(selected: usize, count: usize) -> (r: usize)
    requires
        count > 0,
        selected < count,
    ensures
        r == (selected + count - 1) % (count as int),
        r < count,
{
    proof {
        if selected == 0 {
            vstd::arithmetic::div_mod::lemma_small_mod((count - 1) as nat, count as nat);
        } else {
            vstd::arithmetic::div_mod::lemma_mod_multiples_vanish(
                1,
                selected - 1,
                count as int,
            );
            vstd::arithmetic::div_mod::lemma_small_mod((selected - 1) as nat, count as nat);
        }
    }
    if selected == 0 {
        count - 1
    } else {
        selected - 1
    }
}

/// Selection moved one down, wrapping: `(selected + 1) % count`.
pub fn nav_down(selected: usize, count: usize) -> (r: usize)
    requires
        count > 0,
        selected < count,
    ensures
        r == (selected + 1) % (count as int),
        r < count,
{
    proof {
        if selected + 1 == count {
            vstd::arithmetic::div_mod::lemma_mod_self_0(count as int);
        } else {
            vstd::arithmetic::div_mod::lemma_small_mod((selected + 1) as nat, count as nat);
        }
    }
    if selected + 1 == count {
        0
    } else {
        selected + 1
    }
}

} // verus!
