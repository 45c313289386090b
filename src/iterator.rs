use vstd::prelude::*;

verus! {

/// The character sequences held by a list of strings.
pub open spec fn texts(v: Seq<String>) -> Seq<Seq<char>> {
    v.map_values(|s: String| s@)
}

/// The cursor after one advance: it moves forward by one until it reaches `count`, and
/// stays there afterwards.
pub open spec fn step(cursor: nat, count: nat) -> nat {
    if cursor < count {
        cursor + 1
    } else {
        cursor
    }
}

/// The cursor after `k` advances from `cursor`.
pub open spec fn steps(cursor: nat, count: nat, k: nat) -> nat
    decreases k,
{
    if k == 0 {
        cursor
    } else {
        steps(step(cursor, count), count, (k - 1) as nat)
    }
}

/// The segments that a consumer sees when it reads `current` and advances while the
/// cursor is valid, starting at `cursor`.
pub open spec fn traversal(items: Seq<Seq<char>>, cursor: nat) -> Seq<Seq<char>>
    decreases items.len() - cursor,
{
    if cursor < items.len() {
        seq![items[cursor as int]] + traversal(items, cursor + 1)
    } else {
        Seq::empty()
    }
}

/// A restartable, cursor-based sequence over a fixed list of segments.
#[derive(Debug)]
pub struct SegmentIterator {
    segments: Vec<String>,
    position: usize,
}

/// A one-shot cursor over a copy of a `SegmentIterator`'s segments.
#[derive(Debug)]
pub struct InternalIterator {
    segments: Vec<String>,
    position: usize,
}

impl SegmentIterator {
    #[verifier::type_invariant]
    spec fn cursor_in_range(&self) -> bool {
        self.position <= self.segments.len()
    }

    /// The segments, in order.
    pub closed spec fn items(&self) -> Seq<Seq<char>> {
        texts(self.segments@)
    }

    /// The cursor position.
    pub closed spec fn cursor(&self) -> nat {
        self.position as nat
    }

    /// A sequence over `segments` with its cursor at the start.
    pub fn new(segments: Vec<String>) -> (r: Self)
        ensures
            r.items() == texts(segments@),
            r.cursor() == 0,
    {
        SegmentIterator { segments, position: 0 }
    }

    /// The number of segments.
    pub fn count(&self) -> (r: usize)
        ensures
            r == self.items().len(),
    {
        self.segments.len()
    }

    /// A fresh one-shot cursor over the same segments, leaving this one's cursor alone.
    pub fn get_iterator(&self) -> (r: InternalIterator)
        ensures
            r.items() == self.items(),
            r.cursor() == 0,
    {
        InternalIterator::new(self.segments.clone())
    }

    /// The segment at the cursor, or `None` once the cursor is past the last one.
    pub fn current(&self) -> (r: Option<String>)
        ensures
            self.cursor() < self.items().len() ==> r is Some && r->0@ == self.items()[
                self.cursor() as int
            ],
            self.cursor() >= self.items().len() ==> r is None,
    {
        if self.position < self.segments.len() {
            Some(self.segments[self.position].clone())
        } else {
            None
        }
    }

    /// The cursor position.
    pub fn key(&self) -> (r: usize)
        ensures
            r == self.cursor(),
    {
        self.position
    }

    /// Moves the cursor forward by one; once every segment has been passed it stays put.
    pub fn next(&mut self)
        ensures
            final(self).items() == old(self).items(),
            final(self).cursor() == step(old(self).cursor(), old(self).items().len()),
    {
        proof {
            use_type_invariant(&*self);
        }
        if self.position < self.segments.len() {
            self.position = self.position + 1;
        }
    }

    /// Moves the cursor back to the first segment.
    pub fn rewind(&mut self)
        ensures
            final(self).items() == old(self).items(),
            final(self).cursor() == 0,
    {
        self.position = 0;
    }

    /// Whether the cursor stands on a segment.
    pub fn valid(&self) -> (r: bool)
        ensures
            r == (self.cursor() < self.items().len()),
    {
        self.position < self.segments.len()
    }

    /// A copy of all segments, whatever the cursor position.
    pub fn to_array(&self) -> (r: Vec<String>)
        ensures
            texts(r@) == self.items(),
    {
        self.segments.clone()
    }
}

impl InternalIterator {
    #[verifier::type_invariant]
    spec fn cursor_in_range(&self) -> bool {
        self.position <= self.segments.len()
    }

    /// The segments, in order.
    pub closed spec fn items(&self) -> Seq<Seq<char>> {
        texts(self.segments@)
    }

    /// The cursor position.
    pub closed spec fn cursor(&self) -> nat {
        self.position as nat
    }

    /// A cursor over `segments`, at the start.
    pub fn new(segments: Vec<String>) -> (r: Self)
        ensures
            r.items() == texts(segments@),
            r.cursor() == 0,
    {
        InternalIterator { segments, position: 0 }
    }

    /// The segment at the cursor, or `None` once the cursor is past the last one.
    pub fn current(&self) -> (r: Option<String>)
        ensures
            self.cursor() < self.items().len() ==> r is Some && r->0@ == self.items()[
                self.cursor() as int
            ],
            self.cursor() >= self.items().len() ==> r is None,
    {
        if self.position < self.segments.len() {
            Some(self.segments[self.position].clone())
        } else {
            None
        }
    }

    /// The cursor position.
    pub fn key(&self) -> (r: usize)
        ensures
            r == self.cursor(),
    {
        self.position
    }

    /// Moves the cursor forward by one; once every segment has been passed it stays put.
    pub fn next(&mut self)
        ensures
            final(self).items() == old(self).items(),
            final(self).cursor() == step(old(self).cursor(), old(self).items().len()),
    {
        proof {
            use_type_invariant(&*self);
        }
        if self.position < self.segments.len() {
            self.position = self.position + 1;
        }
    }

    /// Moves the cursor back to the first segment.
    pub fn rewind(&mut self)
        ensures
            final(self).items() == old(self).items(),
            final(self).cursor() == 0,
    {
        self.position = 0;
    }

    /// Whether the cursor stands on a segment.
    pub fn valid(&self) -> (r: bool)
        ensures
            r == (self.cursor() < self.items().len()),
    {
        self.position < self.segments.len()
    }
}

/// Advancing never moves the cursor back, and once the cursor has reached the end it stays
/// there, so the sequence stays invalid however often it is advanced.
pub proof fn cursor_is_monotonic(cursor: nat, count: nat, k: nat)
    requires
        cursor <= count,
    ensures
        steps(cursor, count, k) >= cursor,
        steps(cursor, count, k) <= count,
        cursor == count ==> steps(cursor, count, k) == count,
    decreases k,
{
    if k > 0 {
        cursor_is_monotonic(step(cursor, count), count, (k - 1) as nat);
    }
}

/// Driving a sequence from its start to its end yields exactly its segments in order; as
/// rewinding and advancing never change the segments, every traversal after a rewind
/// yields the same list.
pub proof fn traversal_after_rewind(items: Seq<Seq<char>>)
    ensures
        traversal(items, 0) == items,
{
    traversal_suffix(items, 0);
    assert(items.subrange(0, items.len() as int) =~= items);
}

/// A traversal from `cursor` yields the segments from `cursor` on.
pub proof fn traversal_suffix(items: Seq<Seq<char>>, cursor: nat)
    requires
        cursor <= items.len(),
    ensures
        traversal(items, cursor) == items.subrange(cursor as int, items.len() as int),
    decreases items.len() - cursor,
{
    if cursor < items.len() {
        traversal_suffix(items, cursor + 1);
        assert(items.subrange(cursor as int, items.len() as int) =~= seq![items[cursor as int]]
            + items.subrange(cursor + 1 as int, items.len() as int));
    } else {
        assert(items.subrange(cursor as int, items.len() as int) =~= Seq::<Seq<char>>::empty());
    }
}

} // verus!
