//! Lazy join: interleave a separator between the elements of a sequence
//! that arrives one element at a time.

use vstd::prelude::*;

verus! {

/// The elements of `items` with `sep` between each two neighbours.
pub open spec fn join(items: Seq<Seq<char>>, sep: Seq<char>) -> Seq<char>
    decreases items.len(),
{
    if items.len() == 0 {
        Seq::empty()
    } else if items.len() == 1 {
        items[0]
    } else {
        join(items.drop_last(), sep) + sep + items.last()
    }
}

/// What the join emits for one element: the element itself when it is the
/// first, the separator followed by the element otherwise.
pub open spec fn joined_chunk(started: bool, sep: Seq<char>, item: Seq<char>) -> Seq<char> {
    if started {
        sep + item
    } else {
        item
    }
}

/// The parts that a join of `items` is made of, separators included, in
/// the order in which they are emitted.
pub open spec fn interleave(items: Seq<Seq<char>>, sep: Seq<char>) -> Seq<Seq<char>>
    decreases items.len(),
{
    if items.len() == 0 {
        Seq::empty()
    } else if items.len() == 1 {
        seq![items[0]]
    } else {
        interleave(items.drop_last(), sep).push(sep).push(items.last())
    }
}

/// All parts of `parts`, one after the other.
pub open spec fn concat(parts: Seq<Seq<char>>) -> Seq<char>
    decreases parts.len(),
{
    if parts.len() == 0 {
        Seq::empty()
    } else {
        concat(parts.drop_last()) + parts.last()
    }
}

/// State of a join in progress: the separator, and whether an element has
/// been emitted already.
#[derive(Debug)]
pub struct JoinIter {
    pub separator: String,
    pub started: bool,
}

impl JoinIter {
    /// A join that has emitted nothing yet.
    pub fn new(separator: String) -> (joiner: Self)
        ensures
            joiner.separator@ == separator@,
            !joiner.started,
    {
        JoinIter { separator, started: false }
    }

    /// The chunk for the next element. The first element comes out as it
    /// is; every later one has the separator in front of it.
    pub fn next(&mut self, item: &str) -> (chunk: String)
        ensures
            chunk@ == joined_chunk(old(self).started, old(self).separator@, item@),
            final(self).started,
            final(self).separator@ == old(self).separator@,
    {
        let mut chunk = String::new();
        if self.started {
            chunk.append(self.separator.as_str());
        }
        chunk.append(item);
        self.started = true;
        assert(chunk@ =~= joined_chunk(old(self).started, old(self).separator@, item@));
        chunk
    }
}

/// Joining one element more appends exactly the chunk that the lazy join
/// emits for it.
pub proof fn lemma_join_push(items: Seq<Seq<char>>, sep: Seq<char>, item: Seq<char>)
    ensures
        join(items.push(item), sep) == join(items, sep) + joined_chunk(
            items.len() > 0,
            sep,
            item,
        ),
{
    let all = items.push(item);
    assert(all.drop_last() =~= items);
    assert(all.last() == item);
    if items.len() == 0 {
        assert(join(all, sep) =~= join(items, sep) + item);
    } else {
        assert(join(all, sep) =~= join(items, sep) + (sep + item));
    }
}

/// A join of N elements, N > 0, is made of 2N - 1 parts. The parts at even
/// places are the elements in their order, the parts at odd places are
/// separators: so there are N - 1 separators, each between two elements,
/// none in front and none at the end.
pub proof fn lemma_interleave_shape(items: Seq<Seq<char>>, sep: Seq<char>)
    ensures
        items.len() == 0 ==> interleave(items, sep).len() == 0,
        items.len() > 0 ==> interleave(items, sep).len() == 2 * items.len() - 1,
        forall|i: int|
            0 <= i < items.len() ==> #[trigger] interleave(items, sep)[2 * i] == items[i],
        forall|i: int|
            0 <= i < items.len() - 1 ==> #[trigger] interleave(items, sep)[2 * i + 1] == sep,
    decreases items.len(),
{
    if items.len() > 1 {
        let front = items.drop_last();
        lemma_interleave_shape(front, sep);
        let parts = interleave(items, sep);
        assert forall|i: int| 0 <= i < items.len() implies #[trigger] parts[2 * i]
            == items[i] by {
            if i < front.len() {
                assert(interleave(front, sep)[2 * i] == front[i]);
            }
        }
        assert forall|i: int| 0 <= i < items.len() - 1 implies #[trigger] parts[2 * i + 1]
            == sep by {
            if i < front.len() - 1 {
                assert(interleave(front, sep)[2 * i + 1] == sep);
            }
        }
    }
}

/// The parts of a join, put together, are the join.
pub proof fn lemma_concat_interleave(items: Seq<Seq<char>>, sep: Seq<char>)
    ensures
        concat(interleave(items, sep)) == join(items, sep),
    decreases items.len(),
{
    if items.len() == 0 {
    } else if items.len() == 1 {
        let parts = interleave(items, sep);
        assert(parts.drop_last() =~= Seq::<Seq<char>>::empty());
        assert(concat(parts.drop_last()) =~= Seq::<char>::empty());
        assert(concat(parts) =~= items[0]);
    } else {
        let front = items.drop_last();
        lemma_concat_interleave(front, sep);
        let inner = interleave(front, sep).push(sep);
        let parts = inner.push(items.last());
        assert(parts.drop_last() =~= inner);
        assert(inner.drop_last() =~= interleave(front, sep));
        assert(concat(inner) == concat(interleave(front, sep)) + sep);
        assert(concat(parts) == concat(inner) + items.last());
    }
}

} // verus!
