use crate::prefix_arena::{ArenaView, PrefixArena};
use vstd::prelude::*;
use vstd::string::StringExecFns;

verus! {

/// The storage that results from writing `bytes` over `storage` starting at
/// index `at`; everything else is kept.
pub open spec fn write_at(storage: Seq<u8>, at: int, bytes: Seq<u8>) -> Seq<u8> {
    storage.take(at) + bytes + storage.skip(at + bytes.len())
}

/// Writing `a` and then `b` right after it succeeds exactly when writing
/// `a + b` at once does, and leaves the same storage: staging output in pieces
/// is the same as staging it whole.
pub proof fn lemma_extend_twice(storage: Seq<u8>, used: int, a: Seq<u8>, b: Seq<u8>)
    requires
        0 <= used <= storage.len(),
    ensures
        (used + a.len() <= storage.len() && used + a.len() + b.len() <= storage.len()) <==> used + (
        a + b).len() <= storage.len(),
        used + (a + b).len() <= storage.len() ==> write_at(
            write_at(storage, used, a),
            used + a.len(),
            b,
        ) == write_at(storage, used, a + b),
{
    if used + (a + b).len() <= storage.len() {
        assert(write_at(write_at(storage, used, a), used + a.len(), b) =~= write_at(
            storage,
            used,
            a + b,
        ));
    }
}

/// Pushing one byte is extending by a one-byte slice: both succeed exactly
/// when a byte of spare capacity is left, and write the same storage.
pub proof fn lemma_push_is_extend(storage: Seq<u8>, used: int, byte: u8)
    requires
        0 <= used <= storage.len(),
    ensures
        used < storage.len() <==> used + seq![byte].len() <= storage.len(),
        used < storage.len() ==> storage.update(used, byte) == write_at(storage, used, seq![byte]),
{
    if used < storage.len() {
        assert(storage.update(used, byte) =~= write_at(storage, used, seq![byte]));
    }
}

/// After a write of `bytes` at the end of the written prefix, the written
/// prefix is the old one followed by `bytes`, and the storage keeps its length.
pub proof fn lemma_write_extends_prefix(storage: Seq<u8>, used: int, bytes: Seq<u8>)
    requires
        0 <= used,
        used + bytes.len() <= storage.len(),
    ensures
        write_at(storage, used, bytes).len() == storage.len(),
        write_at(storage, used, bytes).take(used + bytes.len()) == storage.take(used) + bytes,
        write_at(storage, used, bytes).skip(used + bytes.len()) == storage.skip(used + bytes.len()),
{
    assert(write_at(storage, used, bytes).take(used + bytes.len()) =~= storage.take(used) + bytes);
    assert(write_at(storage, used, bytes).skip(used + bytes.len()) =~= storage.skip(
        used + bytes.len(),
    ));
}

/// The error returned when staged output would exceed the buffer's capacity.
#[derive(Debug, Clone, Copy, PartialEq, Eq, Structural)]
pub struct StagingBufferError;

impl StagingBufferError {
    /// The message this error stands for.
    pub fn to_string(&self) -> (r: String)
        ensures
            r@ == "staging buffer capacity exceeded"@,
    {
        String::from_str("staging buffer capacity exceeded")
    }
}

/// A staging buffer over the remaining bytes of a [`PrefixArena`].
///
/// `StagingBuffer` lets callers append bytes into temporary arena-backed
/// storage, inspect the written prefix, and finally detach that written prefix
/// from the underlying arena. Its fields are public so that contracts can
/// speak of the arena once the buffer is gone; [`Self::wf`] is its invariant.
pub struct StagingBuffer<'arena, 'b> {
    pub inner: ArenaView<'arena, 'b, u8>,
    pub used: usize,
}

impl<'arena, 'b> StagingBuffer<'arena, 'b> {
    /// The written prefix never exceeds the backing storage.
    pub open spec fn wf(&self) -> bool {
        self.used <= self.inner.contents().len()
    }

    /// The whole backing storage, written prefix included.
    pub open spec fn storage(&self) -> Seq<u8> {
        self.inner.contents()
    }

    /// The bytes written so far.
    pub open spec fn staged(&self) -> Seq<u8> {
        self.inner.contents().take(self.used as int)
    }

    /// How many bytes the buffer can hold in all.
    pub open spec fn cap(&self) -> nat {
        self.inner.contents().len()
    }

    /// Creates a staging buffer over the arena's current remaining space,
    /// with nothing written. Nothing is detached until
    /// [`Self::into_written_slice`].
    pub fn new(arena: &'arena mut PrefixArena<'b, u8>) -> (r: Self)
        ensures
            r.wf(),
            r.used == 0,
            r.storage() == old(arena).contents(),
            final(arena).contents() == (*final(r.inner.remaining))@,
            final(*r.inner.remaining)@ == final(old(arena).remaining)@,
            final(final(arena).remaining)@ == final(*final(r.inner.remaining))@,
    {
        StagingBuffer { inner: arena.view(), used: 0 }
    }

    /// Writes `count` bytes of `slice` right after the written prefix.
    fn copy_in(&mut self, slice: &[u8], count: usize)
        requires
            old(self).wf(),
            count <= slice@.len(),
            old(self).used + count <= old(self).cap(),
        ensures
            final(self).used == old(self).used + count,
            final(self).storage() == write_at(
                old(self).storage(),
                old(self).used as int,
                slice@.take(count as int),
            ),
            *final(final(self).inner.remaining) == *final(old(self).inner.remaining),
            final(*final(self).inner.remaining)@ == final(*old(self).inner.remaining)@,
    {
        let start = self.used;
        let dst = self.inner.as_slice_mut();
        let ghost pre = dst@;
        let len: usize = dst.len();
        let mut i: usize = 0;
        while i < count
            invariant
                i <= count,
                count <= slice@.len(),
                start + count <= len,
                len == pre.len(),
                dst@.len() == pre.len(),
                forall|k: int| 0 <= k < start ==> dst@[k] == pre[k],
                forall|k: int| 0 <= k < i ==> dst@[start + k] == slice@[k],
                forall|k: int| start + i <= k < pre.len() ==> dst@[k] == pre[k],
            decreases count - i,
        {
            dst[start + i] = slice[i];
            i += 1;
        }
        assert(dst@ =~= write_at(pre, start as int, slice@.take(count as int)));
        self.used = start + count;
    }

    /// Appends one byte to the written prefix; fails, changing nothing, when
    /// no spare capacity remains.
    pub fn push_byte(&mut self, byte: u8) -> (r: Result<(), StagingBufferError>)
        requires
            old(self).wf(),
        ensures
            final(self).wf(),
            final(self).cap() == old(self).cap(),
            *final(final(self).inner.remaining) == *final(old(self).inner.remaining),
            final(*final(self).inner.remaining)@ == final(*old(self).inner.remaining)@,
            r is Ok <==> old(self).used < old(self).cap(),
            r is Ok ==> {
                &&& final(self).used == old(self).used + 1
                &&& final(self).storage() == old(self).storage().update(old(self).used as int, byte)
                &&& final(self).staged() == old(self).staged().push(byte)
            },
            r is Err ==> final(self).used == old(self).used && final(self).storage() == old(
                self,
            ).storage(),
    {
        if self.used >= self.inner.len() {
            return Err(StagingBufferError);
        }
        let used = self.used;
        let dst = self.inner.as_slice_mut();
        dst[used] = byte;
        self.used = used + 1;
        assert(final(self).staged() =~= old(self).staged().push(byte));
        Ok(())
    }

    /// Appends all of `slice` to the written prefix; fails, changing nothing,
    /// when the whole slice does not fit.
    pub fn extend_from_slice(&mut self, slice: &[u8]) -> (r: Result<(), StagingBufferError>)
        requires
            old(self).wf(),
        ensures
            final(self).wf(),
            final(self).cap() == old(self).cap(),
            *final(final(self).inner.remaining) == *final(old(self).inner.remaining),
            final(*final(self).inner.remaining)@ == final(*old(self).inner.remaining)@,
            r is Ok <==> old(self).used + slice@.len() <= old(self).cap(),
            r is Ok ==> {
                &&& final(self).used == old(self).used + slice@.len()
                &&& final(self).storage() == write_at(old(self).storage(), old(self).used as int, slice@)
                &&& final(self).staged() == old(self).staged() + slice@
            },
            r is Err ==> final(self).used == old(self).used && final(self).storage() == old(
                self,
            ).storage(),
    {
        if slice.len() > self.inner.len() - self.used {
            return Err(StagingBufferError);
        }
        self.copy_in(slice, slice.len());
        assert(slice@.take(slice@.len() as int) =~= slice@);
        assert(final(self).staged() =~= old(self).staged() + slice@);
        Ok(())
    }

    /// Appends as much of `slice` as fits and returns how many bytes that was:
    /// the smaller of the spare capacity and `slice.len()`.
    pub fn extend_from_slice_capped(&mut self, slice: &[u8]) -> (r: usize)
        requires
            old(self).wf(),
        ensures
            final(self).wf(),
            final(self).cap() == old(self).cap(),
            *final(final(self).inner.remaining) == *final(old(self).inner.remaining),
            final(*final(self).inner.remaining)@ == final(*old(self).inner.remaining)@,
            r == if slice@.len() <= old(self).cap() - old(self).used {
                slice@.len()
            } else {
                (old(self).cap() - old(self).used) as nat
            },
            final(self).used == old(self).used + r,
            final(self).storage() == write_at(
                old(self).storage(),
                old(self).used as int,
                slice@.take(r as int),
            ),
            final(self).staged() == old(self).staged() + slice@.take(r as int),
    {
        let spare = self.spare_capacity();
        let to_fill = if slice.len() <= spare {
            slice.len()
        } else {
            spare
        };
        self.copy_in(slice, to_fill);
        assert(final(self).staged() =~= old(self).staged() + slice@.take(to_fill as int));
        to_fill
    }

    /// Returns the written prefix.
    pub fn written(&self) -> (r: &[u8])
        requires
            self.wf(),
        ensures
            r@ == self.staged(),
    {
        let (w, _rest) = self.inner.as_slice().split_at(self.used);
        w
    }

    /// Returns the written prefix as a mutable slice; what it holds when
    /// released becomes the written prefix.
    pub fn written_mut(&mut self) -> (r: &mut [u8])
        requires
            old(self).wf(),
        ensures
            r@ == old(self).staged(),
            final(self).used == old(self).used,
            final(self).storage() == final(r)@ + old(self).storage().skip(old(self).used as int),
            *final(final(self).inner.remaining) == *final(old(self).inner.remaining),
            final(*final(self).inner.remaining)@ == final(*old(self).inner.remaining)@,
    {
        let used = self.used;
        let (w, _rest) = self.inner.as_slice_mut().split_at_mut(used);
        w
    }

    /// Returns how many bytes have been written.
    pub fn len(&self) -> (r: usize)
        ensures
            r == self.used,
    {
        self.used
    }

    /// Reports whether nothing has been written.
    pub fn is_empty(&self) -> (r: bool)
        ensures
            r <==> self.used == 0,
    {
        self.used == 0
    }

    /// Returns how many bytes the buffer can hold in all.
    pub fn capacity(&self) -> (r: usize)
        ensures
            r == self.cap(),
    {
        self.inner.len()
    }

    /// Returns how many more bytes fit: `capacity() - len()`.
    pub fn spare_capacity(&self) -> (r: usize)
        requires
            self.wf(),
        ensures
            r == self.cap() - self.used,
    {
        self.inner.len() - self.used
    }

    /// Marks the buffer as empty without touching the backing bytes.
    pub fn clear(&mut self)
        requires
            old(self).wf(),
        ensures
            final(self).wf(),
            final(self).used == 0,
            final(self).storage() == old(self).storage(),
            *final(final(self).inner.remaining) == *final(old(self).inner.remaining),
            final(*final(self).inner.remaining)@ == final(*old(self).inner.remaining)@,
    {
        self.used = 0;
    }

    /// Detaches the written prefix from the underlying arena and returns it;
    /// the arena keeps the bytes after it.
    pub fn into_written_slice(self) -> (r: &'b mut [u8])
        requires
            self.wf(),
        ensures
            r@ == self.staged(),
            (*final(self.inner.remaining))@ == self.storage().skip(self.used as int),
            final(*old(self.inner.remaining))@ == final(r)@ + final(*final(self.inner.remaining))@,
    {
        let used = self.used;
        self.inner.take_prefix(used)
    }
}

} // verus!
