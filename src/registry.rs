use vstd::prelude::*;
use crate::json::str_eq;

verus! {

#[derive(PartialEq, Eq, Structural, Clone, Copy, Debug)]
pub enum Direction {
    Upload,
    Download,
}

/// One transfer in flight or waiting to be authorized.
pub struct Sharer<H> {
    /// Meaningful once the sharer is promoted.
    pub id: u64,
    /// The file's name as exchanged with the peer.
    pub name: String,
    /// Where the file lies on this machine.
    pub path: String,
    /// The open file, owned by the sharer while it lives.
    pub handle: H,
    /// Total byte length, known once the sharer is promoted.
    pub size: u64,
    /// Bytes written so far (downloads).
    pub received: u64,
    pub direction: Direction,
}

/// What became of a chunk of data.
#[derive(Debug, PartialEq, Eq)]
pub enum ChunkAccept {
    /// No download holds that id: nothing is to be written.
    Stray,
    /// Write `len` bytes of the chunk at `offset`; `done` when the file is
    /// then complete.
    Write { offset: u64, len: usize, done: bool },
}

pub open spec fn has_id<H>(s: Seq<Sharer<H>>, id: u64) -> bool {
    exists|i: int| 0 <= i < s.len() && (#[trigger] s[i]).id == id
}

pub open spec fn has_name<H>(s: Seq<Sharer<H>>, name: Seq<char>) -> bool {
    exists|i: int| 0 <= i < s.len() && (#[trigger] s[i]).name@ == name
}

pub open spec fn ids_unique<H>(s: Seq<Sharer<H>>) -> bool {
    forall|i: int, j: int| 0 <= i < j < s.len() ==> (#[trigger] s[i]).id != (#[trigger] s[j]).id
}

pub open spec fn names_unique<H>(s: Seq<Sharer<H>>) -> bool {
    forall|i: int, j: int|
        0 <= i < j < s.len() ==> (#[trigger] s[i]).name@ != (#[trigger] s[j]).name@
}

pub open spec fn within_size<H>(s: Seq<Sharer<H>>) -> bool {
    forall|i: int| 0 <= i < s.len() ==> (#[trigger] s[i]).received <= s[i].size
}

/// Bytes received after a chunk of `len` bytes: what fits in the file.
pub open spec fn chunk_step(size: u64, received: u64, len: nat) -> nat {
    if received + len <= size {
        (received + len) as nat
    } else {
        size as nat
    }
}

/// `after` is `before` without the sharer bound to `id`, which `r` holds;
/// or, when no sharer holds `id`, `r` is `None` and nothing changed.
pub open spec fn removal<H>(before: Seq<Sharer<H>>, after: Seq<Sharer<H>>, id: u64, r: Option<Sharer<H>>) -> bool {
    match r {
        Some(s) => exists|i: int|
            0 <= i < before.len() && (#[trigger] before[i]).id == id && s == before[i] && after
                == before.remove(i),
        None => !has_id(before, id) && after == before,
    }
}

/// `after` is `before` with the sharer waiting under `name` bound to `id`
/// and `size`, which `r` tells; or, when no sharer waits under `name` or
/// `id` is already held, `r` is false and nothing changed.
pub open spec fn promotion<H>(
    before: SharerRegistry<H>,
    after: SharerRegistry<H>,
    name: Seq<char>,
    size: u64,
    id: u64,
    r: bool,
) -> bool {
    &&& r == (has_name(before.pending(), name) && !has_id(before.promoted(), id))
    &&& !r ==> after.pending() == before.pending() && after.promoted() == before.promoted()
    &&& r ==> exists|i: int|
        0 <= i < before.pending().len() && (#[trigger] before.pending()[i]).name@ == name
            && after.pending() == before.pending().remove(i) && after.promoted()
            == before.promoted().push((Sharer { id, size, received: 0, ..before.pending()[i] }))
}

/// The table of transfers of one connection: sharers waiting by name for an
/// id, and sharers bound to an id.
pub struct SharerRegistry<H> {
    pending: Vec<Sharer<H>>,
    promoted: Vec<Sharer<H>>,
    next_id: u64,
}

impl<H> SharerRegistry<H> {
    pub closed spec fn pending(&self) -> Seq<Sharer<H>> {
        self.pending@
    }

    pub closed spec fn promoted(&self) -> Seq<Sharer<H>> {
        self.promoted@
    }

    /// Ids from here up have not been handed out by `free_id`.
    pub closed spec fn id_floor(&self) -> u64 {
        self.next_id
    }

    pub open spec fn wf(&self) -> bool {
        &&& names_unique(self.pending())
        &&& ids_unique(self.promoted())
        &&& within_size(self.promoted())
    }

    pub fn new() -> (r: SharerRegistry<H>)
        ensures
            r.wf(),
            r.pending() == Seq::<Sharer<H>>::empty(),
            r.promoted() == Seq::<Sharer<H>>::empty(),
            r.id_floor() == 0,
    {
        SharerRegistry { pending: Vec::new(), promoted: Vec::new(), next_id: 0 }
    }

    fn find_id(&self, id: u64) -> (r: Option<usize>)
        ensures
            match r {
                Some(i) => i < self.promoted().len() && self.promoted()[i as int].id == id,
                None => !has_id(self.promoted(), id),
            },
    {
        let mut i: usize = 0;
        while i < self.promoted.len()
            invariant
                0 <= i <= self.promoted@.len(),
                forall|j: int| 0 <= j < i ==> (#[trigger] self.promoted@[j]).id != id,
            decreases self.promoted@.len() - i,
        {
            if self.promoted[i].id == id {
                return Some(i);
            }
            i = i + 1;
        }
        None
    }

    fn find_name(&self, name: &str) -> (r: Option<usize>)
        ensures
            match r {
                Some(i) => i < self.pending().len() && self.pending()[i as int].name@ == name@,
                None => !has_name(self.pending(), name@),
            },
    {
        let mut i: usize = 0;
        while i < self.pending.len()
            invariant
                0 <= i <= self.pending@.len(),
                forall|j: int| 0 <= j < i ==> (#[trigger] self.pending@[j]).name@ != name@,
            decreases self.pending@.len() - i,
        {
            if str_eq(&self.pending[i].name, name) {
                return Some(i);
            }
            i = i + 1;
        }
        None
    }

    /// Whether a promoted sharer holds `id`.
    pub fn contains_id(&self, id: u64) -> (r: bool)
        ensures
            r == has_id(self.promoted(), id),
    {
        self.find_id(id).is_some()
    }

    /// Whether a sharer waits under `name` for an id.
    pub fn contains_pending(&self, name: &str) -> (r: bool)
        ensures
            r == has_name(self.pending(), name@),
    {
        self.find_name(name).is_some()
    }

    /// Registers a sharer under `name` that waits for an id; gives the
    /// handle back when a sharer already waits under that name.
    pub fn prepare(&mut self, path: String, handle: H, name: String, direction: Direction) -> (r:
        Result<(), H>)
        requires
            old(self).wf(),
        ensures
            final(self).wf(),
            final(self).promoted() == old(self).promoted(),
            final(self).id_floor() == old(self).id_floor(),
            has_name(old(self).pending(), name@) ==> r == Err::<(), H>(handle) && final(self).pending()
                == old(self).pending(),
            !has_name(old(self).pending(), name@) ==> r is Ok && final(self).pending()
                == old(self).pending().push(
                (Sharer { id: 0, name, path, handle, size: 0, received: 0, direction }),
            ),
    {
        if self.contains_pending(name.as_str()) {
            return Err(handle);
        }
        let sharer = Sharer { id: 0, name, path, handle, size: 0, received: 0, direction };
        self.pending.push(sharer);
        Ok(())
    }

    /// Binds the sharer waiting under `name` to `id`, with its size. Does
    /// nothing and returns false when no sharer waits under that name or
    /// `id` is already held.
    pub fn promote(&mut self, name: &str, size: u64, id: u64) -> (r: bool)
        requires
            old(self).wf(),
        ensures
            final(self).wf(),
            final(self).id_floor() == old(self).id_floor(),
            promotion(*old(self), *final(self), name@, size, id, r),
    {
        if self.contains_id(id) {
            return false;
        }
        match self.find_name(name) {
            None => false,
            Some(i) => {
                let ghost old_pending = self.pending@;
                let mut sharer = self.pending.remove(i);
                sharer.id = id;
                sharer.size = size;
                sharer.received = 0;
                self.promoted.push(sharer);
                assert forall|a: int, b: int| 0 <= a < b < self.pending@.len() implies
                    (#[trigger] self.pending@[a]).name@ != (#[trigger] self.pending@[b]).name@ by {
                    let a0 = if a < i { a } else { a + 1 };
                    let b0 = if b < i { b } else { b + 1 };
                    assert(self.pending@[a] == old_pending[a0]);
                    assert(self.pending@[b] == old_pending[b0]);
                }
                assert(ids_unique(self.promoted@)) by {
                    let n = self.promoted@.len() - 1;
                    assert(self.promoted@[n].id == id);
                    assert forall|a: int, b: int| 0 <= a < b < self.promoted@.len() implies
                        (#[trigger] self.promoted@[a]).id != (#[trigger] self.promoted@[b]).id by {
                        if b == n {
                            assert(old(self).promoted()[a] == self.promoted@[a]);
                        } else {
                            assert(old(self).promoted()[a] == self.promoted@[a]);
                            assert(old(self).promoted()[b] == self.promoted@[b]);
                        }
                    }
                }
                assert(within_size(self.promoted@)) by {
                    assert forall|a: int| 0 <= a < self.promoted@.len() implies
                        (#[trigger] self.promoted@[a]).received <= self.promoted@[a].size by {
                        if a < self.promoted@.len() - 1 {
                            assert(old(self).promoted()[a] == self.promoted@[a]);
                        }
                    }
                }
                true
            },
        }
    }

    /// Takes out the sharer bound to `id`, if any.
    pub fn remove_by_id(&mut self, id: u64) -> (r: Option<Sharer<H>>)
        requires
            old(self).wf(),
        ensures
            final(self).wf(),
            final(self).pending() == old(self).pending(),
            final(self).id_floor() == old(self).id_floor(),
            removal(old(self).promoted(), final(self).promoted(), id, r),
            !has_id(final(self).promoted(), id),
    {
        match self.find_id(id) {
            None => None,
            Some(i) => {
                let ghost before = self.promoted@;
                let s = self.promoted.remove(i);
                assert forall|a: int, b: int| 0 <= a < b < self.promoted@.len() implies
                    (#[trigger] self.promoted@[a]).id != (#[trigger] self.promoted@[b]).id by {
                    let a0 = if a < i { a } else { a + 1 };
                    let b0 = if b < i { b } else { b + 1 };
                    assert(self.promoted@[a] == before[a0]);
                    assert(self.promoted@[b] == before[b0]);
                }
                assert forall|a: int| 0 <= a < self.promoted@.len() implies
                    (#[trigger] self.promoted@[a]).received <= self.promoted@[a].size by {
                    let a0 = if a < i { a } else { a + 1 };
                    assert(self.promoted@[a] == before[a0]);
                }
                proof {
                    lemma_remove_by_id_idempotent(*old(self), i as int);
                }
                Some(s)
            },
        }
    }

    /// Takes out the sharer waiting under `name`, if any.
    pub fn remove_unpromoted_by_name(&mut self, name: &str) -> (r: Option<Sharer<H>>)
        requires
            old(self).wf(),
        ensures
            final(self).wf(),
            final(self).promoted() == old(self).promoted(),
            final(self).id_floor() == old(self).id_floor(),
            match r {
                Some(s) => exists|i: int|
                    0 <= i < old(self).pending().len() && (#[trigger] old(self).pending()[i]).name@
                        == name@ && s == old(self).pending()[i] && final(self).pending()
                        == old(self).pending().remove(i),
                None => !has_name(old(self).pending(), name@) && final(self).pending()
                    == old(self).pending(),
            },
    {
        match self.find_name(name) {
            None => None,
            Some(i) => {
                let ghost before = self.pending@;
                let s = self.pending.remove(i);
                assert forall|a: int, b: int| 0 <= a < b < self.pending@.len() implies
                    (#[trigger] self.pending@[a]).name@ != (#[trigger] self.pending@[b]).name@ by {
                    let a0 = if a < i { a } else { a + 1 };
                    let b0 = if b < i { b } else { b + 1 };
                    assert(self.pending@[a] == before[a0]);
                    assert(self.pending@[b] == before[b0]);
                }
                Some(s)
            },
        }
    }

    /// Hands out the least id from the floor up that no promoted sharer
    /// holds, and raises the floor past it, so no later call hands it out
    /// again; `None` once every id from the floor up is taken.
    pub fn free_id(&mut self) -> (r: Option<u64>)
        requires
            old(self).wf(),
        ensures
            final(self).wf(),
            final(self).pending() == old(self).pending(),
            final(self).promoted() == old(self).promoted(),
            match r {
                Some(id) => {
                    &&& !has_id(old(self).promoted(), id)
                    &&& old(self).id_floor() <= id
                    &&& final(self).id_floor() == id + 1
                    &&& forall|k: u64|
                        old(self).id_floor() <= k < id ==> #[trigger] has_id(old(self).promoted(), k)
                },
                None => final(self).id_floor() == old(self).id_floor() && forall|k: u64|
                    old(self).id_floor() <= k < u64::MAX ==> #[trigger] has_id(
                        old(self).promoted(),
                        k,
                    ),
            },
    {
        let mut candidate: u64 = self.next_id;
        while candidate < u64::MAX && self.contains_id(candidate)
            invariant
                self.next_id <= candidate,
                self.pending@ == old(self).pending@,
                self.promoted@ == old(self).promoted@,
                self.next_id == old(self).next_id,
                forall|k: u64| self.next_id <= k < candidate ==> #[trigger] has_id(self.promoted@, k),
            decreases u64::MAX - candidate,
        {
            candidate = candidate + 1;
        }
        if candidate == u64::MAX {
            return None;
        }
        self.next_id = candidate + 1;
        Some(candidate)
    }

    /// Accounts for a chunk of `len` bytes for the download bound to `id`:
    /// as much of it as fits in the file is to be written at the bytes
    /// received so far. A chunk for any other id is stray: nothing changes
    /// and nothing is to be written.
    pub fn accept_chunk(&mut self, id: u64, len: usize) -> (r: ChunkAccept)
        requires
            old(self).wf(),
        ensures
            final(self).wf(),
            final(self).pending() == old(self).pending(),
            final(self).id_floor() == old(self).id_floor(),
            r is Stray <==> !exists|i: int|
                0 <= i < old(self).promoted().len() && (#[trigger] old(self).promoted()[i]).id == id
                    && old(self).promoted()[i].direction == Direction::Download,
            r is Stray ==> final(self).promoted() == old(self).promoted(),
            r matches ChunkAccept::Write { offset, len: n, done } ==> exists|i: int|
                {
                    let s = old(self).promoted()[i];
                    let got = chunk_step(s.size, s.received, len as nat);
                    &&& 0 <= i < old(self).promoted().len()
                    &&& (#[trigger] old(self).promoted()[i]).id == id
                    &&& s.direction == Direction::Download
                    &&& offset == s.received
                    &&& n == got - s.received
                    &&& done == (got == s.size)
                    &&& final(self).promoted() == old(self).promoted().update(
                        i,
                        (Sharer { received: got as u64, ..s }),
                    )
                },
    {
        let i = match self.find_id(id) {
            None => {
                return ChunkAccept::Stray;
            },
            Some(i) => i,
        };
        if self.promoted[i].direction != Direction::Download {
            assert forall|j: int|
                0 <= j < self.promoted@.len() && (#[trigger] self.promoted@[j]).id == id implies
                self.promoted@[j].direction != Direction::Download by {
                if j != i {
                    assert(self.promoted@[j].id != self.promoted@[i as int].id);
                }
            }
            return ChunkAccept::Stray;
        }
        let ghost before = self.promoted@;
        let size = self.promoted[i].size;
        let received = self.promoted[i].received;
        let room = size - received;
        let n: u64 = if (len as u64) <= room && len as u128 <= u64::MAX as u128 {
            len as u64
        } else {
            room
        };
        let got = received + n;
        let mut sharer = self.promoted.remove(i);
        sharer.received = got;
        self.promoted.insert(i, sharer);
        proof {
            assert(self.promoted@ =~= before.update(i as int, Sharer { received: got, ..before[i as int] }));
            assert forall|a: int, b: int| 0 <= a < b < self.promoted@.len() implies
                (#[trigger] self.promoted@[a]).id != (#[trigger] self.promoted@[b]).id by {
                assert(self.promoted@[a].id == before[a].id);
                assert(self.promoted@[b].id == before[b].id);
            }
            assert forall|a: int| 0 <= a < self.promoted@.len() implies
                (#[trigger] self.promoted@[a]).received <= self.promoted@[a].size by {
                if a != i {
                    assert(self.promoted@[a] == before[a]);
                }
            }
        }
        ChunkAccept::Write { offset: received, len: n as usize, done: got == size }
    }

    /// The file of the sharer bound to `id`, if any.
    pub fn handle(&self, id: u64) -> (r: Option<&H>)
        requires
            self.wf(),
        ensures
            match r {
                Some(h) => exists|i: int|
                    0 <= i < self.promoted().len() && (#[trigger] self.promoted()[i]).id == id
                        && *h == self.promoted()[i].handle,
                None => !has_id(self.promoted(), id),
            },
    {
        match self.find_id(id) {
            Some(i) => Some(&self.promoted[i].handle),
            None => None,
        }
    }
}

/// A sharer taken out by its id leaves no sharer with that id behind, so
/// removing by the same id again finds nothing.
pub proof fn lemma_remove_by_id_idempotent<H>(reg: SharerRegistry<H>, i: int)
    requires
        reg.wf(),
        0 <= i < reg.promoted().len(),
    ensures
        !has_id(reg.promoted().remove(i), reg.promoted()[i].id),
{
    let s = reg.promoted();
    let t = s.remove(i);
    assert forall|j: int| 0 <= j < t.len() implies (#[trigger] t[j]).id != s[i].id by {
        let j0 = if j < i { j } else { j + 1 };
        assert(t[j] == s[j0]);
    }
}

/// The number of bytes in a run of chunks of the given lengths.
pub open spec fn total(lens: Seq<nat>) -> nat
    decreases lens.len(),
{
    if lens.len() == 0 {
        0
    } else {
        total(lens.drop_last()) + lens.last()
    }
}

proof fn lemma_total_step(lens: Seq<nat>, k: int)
    requires
        0 <= k < lens.len(),
    ensures
        total(lens.take(k + 1)) == total(lens.take(k)) + lens[k],
{
    assert(lens.take(k + 1).drop_last() =~= lens.take(k));
}

proof fn lemma_total_grows(lens: Seq<nat>, k: int, j: int)
    requires
        0 <= k < j <= lens.len(),
        forall|i: int| 0 <= i < lens.len() ==> #[trigger] lens[i] > 0,
    ensures
        total(lens.take(k)) < total(lens.take(j)),
    decreases j - k,
{
    lemma_total_step(lens, j - 1);
    if k < j - 1 {
        lemma_total_grows(lens, k, j - 1);
    }
}

/// Chunks of non-zero length that add up to a download's size, accepted
/// one after another from nothing received: each brings the count to the
/// bytes so far, and the file is complete after the last one and after no
/// other.
pub proof fn lemma_chunk_accounting(size: u64, lens: Seq<nat>)
    requires
        total(lens) == size,
        forall|i: int| 0 <= i < lens.len() ==> #[trigger] lens[i] > 0,
    ensures
        forall|k: int|
            0 <= k < lens.len() ==> {
                &&& #[trigger] chunk_step(size, total(lens.take(k)) as u64, lens[k]) == total(
                    lens.take(k + 1),
                )
                &&& (total(lens.take(k + 1)) == size <==> k == lens.len() - 1)
            },
{
    assert(lens.take(lens.len() as int) =~= lens);
    assert forall|k: int| 0 <= k < lens.len() implies {
        &&& #[trigger] chunk_step(size, total(lens.take(k)) as u64, lens[k]) == total(
            lens.take(k + 1),
        )
        &&& (total(lens.take(k + 1)) == size <==> k == lens.len() - 1)
    } by {
        lemma_total_step(lens, k);
        if k + 1 < lens.len() {
            lemma_total_grows(lens, k + 1, lens.len() as int);
        }
    }
}

} // verus!
