use core::mem::MaybeUninit;
use vstd::prelude::*;

verus! {

/// A bump-style arena over caller-provided storage.
///
/// `PrefixArena` hands out slices from the front of the remaining buffer and
/// keeps the rest available for later use. It only manages buffer boundaries.
/// The slot type `T` is `u8` for initialized byte storage and
/// `MaybeUninit<u8>` for storage that may be uninitialized. The field is
/// public so that contracts can say where the storage's final bytes come from.
pub struct PrefixArena<'buf, T = u8> {
    pub remaining: &'buf mut [T],
}

/// A temporary view over the remaining slots of a [`PrefixArena`].
///
/// The view borrows the arena's remaining slice, so detaching a prefix through
/// the view shrinks the arena itself. The field is public so that contracts
/// can speak of the value the arena holds once the view is gone.
pub struct ArenaView<'arena, 'buf, T = u8> {
    pub remaining: &'arena mut &'buf mut [T],
}

/// Detaching loses and invents no slot: the detached prefix followed by what
/// remains is exactly what the arena held before.
pub proof fn lemma_detach_conserves<T>(contents: Seq<T>, n: int)
    requires
        0 <= n <= contents.len(),
    ensures
        contents.take(n) + contents.skip(n) == contents,
        contents.take(n).len() == n,
        contents.skip(n).len() == contents.len() - n,
{
    assert(contents.take(n) + contents.skip(n) =~= contents);
}

/// Detaching `a` slots and then `b` more detaches, in two pieces, the same
/// slots as detaching `a + b` at once, and leaves the same remainder.
pub proof fn lemma_detach_twice<T>(contents: Seq<T>, a: int, b: int)
    requires
        0 <= a,
        0 <= b,
        a + b <= contents.len(),
    ensures
        contents.take(a) + contents.skip(a).take(b) == contents.take(a + b),
        contents.skip(a).skip(b) == contents.skip(a + b),
{
    assert(contents.take(a) + contents.skip(a).take(b) =~= contents.take(a + b));
    assert(contents.skip(a).skip(b) =~= contents.skip(a + b));
}

impl<'buf> PrefixArena<'buf, u8> {
    /// Creates a prefix arena over initialized byte storage; its remaining
    /// capacity is `arena.len()`.
    #[must_use]
    pub fn new(arena: &'buf mut [u8]) -> (r: Self)
        ensures
            r.contents() == old(arena)@,
            final(arena)@ == final(r.remaining)@,
    {
        PrefixArena { remaining: arena }
    }
}

impl<'buf> PrefixArena<'buf, MaybeUninit<u8>> {
    /// Creates a prefix arena over possibly uninitialized byte storage; its
    /// remaining capacity is `arena.len()`.
    #[must_use]
    pub fn from_uninit(arena: &'buf mut [MaybeUninit<u8>]) -> (r: Self)
        ensures
            r.contents() == old(arena)@,
            final(arena)@ == final(r.remaining)@,
    {
        PrefixArena { remaining: arena }
    }
}

impl<'buf, T> PrefixArena<'buf, T> {
    /// The slots that have not been detached yet, front first.
    pub open spec fn contents(&self) -> Seq<T> {
        self.remaining@
    }

    /// Returns how many slots are still available in the arena.
    pub fn len(&self) -> (r: usize)
        ensures
            r == self.contents().len(),
    {
        self.remaining.len()
    }

    /// Reports whether the arena has no remaining slots.
    pub fn is_empty(&self) -> (r: bool)
        ensures
            r <==> self.contents().len() == 0,
    {
        self.len() == 0
    }

    /// Creates a temporary view over the arena's remaining slots. Whatever the
    /// view leaves behind when it ends is what the arena holds afterwards.
    #[must_use]
    pub fn view<'arena>(&'arena mut self) -> (r: ArenaView<'arena, 'buf, T>)
        ensures
            r.contents() == old(self).contents(),
            final(self).contents() == (*final(r.remaining))@,
            final(*r.remaining)@ == final(old(self).remaining)@,
            final(final(self).remaining)@ == final(*final(r.remaining))@,
    {
        ArenaView::new(&mut self.remaining)
    }

    /// Detaches the first `n` slots from the arena; `n` may not exceed the
    /// remaining length (asking for more would panic).
    pub fn take_prefix(&mut self, n: usize) -> (r: &'buf mut [T])
        requires
            n <= old(self).contents().len(),
        ensures
            r@ == old(self).contents().take(n as int),
            final(self).contents() == old(self).contents().skip(n as int),
            final(old(self).remaining)@ == final(r)@ + final(final(self).remaining)@,
    {
        let mut buffer: &'buf mut [T] = &mut [];
        core::mem::swap(&mut buffer, &mut self.remaining);
        let (used, rest) = buffer.split_at_mut(n);
        self.remaining = rest;
        used
    }

    /// Tries to detach the first `n` slots from the arena; returns `None` and
    /// leaves the arena unchanged when fewer than `n` slots remain.
    pub fn take_prefix_checked(&mut self, n: usize) -> (r: Option<&'buf mut [T]>)
        ensures
            match r {
                Some(p) => {
                    &&& n <= old(self).contents().len()
                    &&& p@ == old(self).contents().take(n as int)
                    &&& final(self).contents() == old(self).contents().skip(n as int)
                    &&& final(old(self).remaining)@ == final(p)@ + final(final(self).remaining)@
                },
                None => {
                    &&& n > old(self).contents().len()
                    &&& final(self).contents() == old(self).contents()
                    &&& final(final(self).remaining)@ == final(old(self).remaining)@
                },
            },
    {
        if n > self.remaining.len() {
            None
        } else {
            Some(self.take_prefix(n))
        }
    }

    /// Detaches the first `n` slots from the arena without a run-time bound
    /// check; the bound is a precondition.
    pub fn take_prefix_unchecked(&mut self, n: usize) -> (r: &'buf mut [T])
        requires
            n <= old(self).contents().len(),
        ensures
            r@ == old(self).contents().take(n as int),
            final(self).contents() == old(self).contents().skip(n as int),
            final(old(self).remaining)@ == final(r)@ + final(final(self).remaining)@,
    {
        self.take_prefix(n)
    }

    /// Returns all slots that still remain in the arena and consumes it.
    #[must_use]
    pub fn take_remaining(self) -> (r: &'buf mut [T])
        ensures
            r@ == self.contents(),
            final(self.remaining)@ == final(r)@,
    {
        self.remaining
    }

    /// Hands the full remaining storage to `f`, then detaches the prefix whose
    /// length `f` reports. `f` returning `Err(e)` gives `Err(e)`. `f` may not
    /// report more slots than the storage holds (that would panic).
    pub fn init_prefix_with<F, E>(self, f: F) -> (r: Result<&'buf mut [T], E>) where
        F: FnOnce(&mut [T]) -> Result<usize, E>,
        requires
            forall|b: &mut [T]| b@ == self.contents() ==> #[trigger] call_requires(f, (b,)),
            forall|b: &mut [T], res: Result<usize, E>|
                b@ == self.contents() && #[trigger] call_ensures(f, (b,), res)
                    ==> (res matches Ok(n) ==> n <= final(b)@.len()),
        ensures
            exists|b: &mut [T], res: Result<usize, E>|
                {
                    &&& #[trigger] call_ensures(f, (b,), res)
                    &&& b@ == self.contents()
                    &&& match res {
                        Ok(n) => r matches Ok(p) && p@ == final(b)@.take(n as int)
                            && final(self.remaining)@ == final(p)@ + final(b)@.skip(n as int),
                        Err(e) => r matches Err(e2) && e2 == e
                            && final(self.remaining)@ == final(b)@,
                    }
                },
    {
        let PrefixArena { remaining: buffer } = self;
        let res = f(buffer);
        match res {
            Ok(n) => {
                let (used, _rest) = buffer.split_at_mut(n);
                Ok(used)
            },
            Err(e) => Err(e),
        }
    }

    /// Like [`Self::init_prefix_with`], but a reported length beyond the
    /// storage gives `Ok(None)` instead of a panic.
    pub fn init_prefix_with_checked<F, E>(self, f: F) -> (r: Result<Option<&'buf mut [T]>, E>) where
        F: FnOnce(&mut [T]) -> Result<usize, E>,
        requires
            forall|b: &mut [T]| b@ == self.contents() ==> #[trigger] call_requires(f, (b,)),
        ensures
            exists|b: &mut [T], res: Result<usize, E>|
                {
                    &&& #[trigger] call_ensures(f, (b,), res)
                    &&& b@ == self.contents()
                    &&& match res {
                        Ok(n) => if n <= final(b)@.len() {
                            r matches Ok(Some(p)) && p@ == final(b)@.take(n as int)
                                && final(self.remaining)@ == final(p)@ + final(b)@.skip(n as int)
                        } else {
                            r matches Ok(None) && final(self.remaining)@ == final(b)@
                        },
                        Err(e) => r matches Err(e2) && e2 == e
                            && final(self.remaining)@ == final(b)@,
                    }
                },
    {
        let PrefixArena { remaining: buffer } = self;
        let res = f(buffer);
        match res {
            Ok(n) => {
                if n > buffer.len() {
                    return Ok(None);
                }
                let (used, _rest) = buffer.split_at_mut(n);
                Ok(Some(used))
            },
            Err(e) => Err(e),
        }
    }
}

impl<'arena, 'buf, T> ArenaView<'arena, 'buf, T> {
    /// The slots currently visible through this view, front first.
    pub open spec fn contents(&self) -> Seq<T> {
        (*self.remaining)@
    }

    fn new(remaining: &'arena mut &'buf mut [T]) -> (r: Self)
        ensures
            *r.remaining == *old(remaining),
            *final(r.remaining) == *final(remaining),
    {
        ArenaView { remaining }
    }

    /// Returns how many slots are currently visible through this view.
    pub fn len(&self) -> (r: usize)
        ensures
            r == self.contents().len(),
    {
        self.remaining.len()
    }

    /// Reports whether this view is empty.
    pub fn is_empty(&self) -> (r: bool)
        ensures
            r <==> self.contents().len() == 0,
    {
        self.len() == 0
    }

    /// Returns the visible slots as an immutable slice.
    pub fn as_slice(&self) -> (r: &[T])
        ensures
            r@ == self.contents(),
    {
        &**self.remaining
    }

    /// Returns the visible slots as a mutable slice; what the slice holds when
    /// it is released is what the view holds.
    pub fn as_slice_mut(&mut self) -> (r: &mut [T])
        ensures
            r@ == old(self).contents(),
            final(self).contents() == final(r)@,
            *final(final(self).remaining) == *final(old(self).remaining),
            final(*final(self).remaining)@ == final(*old(self).remaining)@,
    {
        &mut **self.remaining
    }

    /// Same as [`Self::as_slice`]: the visible slots as they are.
    pub fn as_uninit_slice(&self) -> (r: &[T])
        ensures
            r@ == self.contents(),
    {
        self.as_slice()
    }

    /// Same as [`Self::as_slice`]; over byte storage no initialization check
    /// is needed to read the slots.
    pub fn as_slice_unchecked(&self) -> (r: &[T])
        ensures
            r@ == self.contents(),
    {
        self.as_slice()
    }

    /// Same as [`Self::as_slice_mut`].
    pub fn as_uninit_slice_mut(&mut self) -> (r: &mut [T])
        ensures
            r@ == old(self).contents(),
            final(self).contents() == final(r)@,
            *final(final(self).remaining) == *final(old(self).remaining),
            final(*final(self).remaining)@ == final(*old(self).remaining)@,
    {
        self.as_slice_mut()
    }

    /// Same as [`Self::as_slice_mut`]; over byte storage no initialization
    /// check is needed to read the slots.
    pub fn as_slice_mut_unchecked(&mut self) -> (r: &mut [T])
        ensures
            r@ == old(self).contents(),
            final(self).contents() == final(r)@,
            *final(final(self).remaining) == *final(old(self).remaining),
            final(*final(self).remaining)@ == final(*old(self).remaining)@,
    {
        self.as_slice_mut()
    }

    /// Hands the visible storage to `f` and returns the prefix whose length
    /// `f` reports, without detaching it from the arena. `f` may not report
    /// more slots than the storage holds (that would panic).
    pub fn init_with<F, E>(&mut self, f: F) -> (r: Result<&mut [T], E>) where
        F: FnOnce(&mut [T]) -> Result<usize, E>,
        requires
            forall|b: &mut [T]| b@ == old(self).contents() ==> #[trigger] call_requires(f, (b,)),
            forall|b: &mut [T], res: Result<usize, E>|
                b@ == old(self).contents() && #[trigger] call_ensures(f, (b,), res)
                    ==> (res matches Ok(n) ==> n <= final(b)@.len()),
        ensures
            exists|b: &mut [T], res: Result<usize, E>|
                {
                    &&& #[trigger] call_ensures(f, (b,), res)
                    &&& b@ == old(self).contents()
                    &&& match res {
                        Ok(n) => r matches Ok(p) && p@ == final(b)@.take(n as int)
                            && final(self).contents() == final(p)@ + final(b)@.skip(n as int),
                        Err(e) => r matches Err(e2) && e2 == e
                            && final(self).contents() == final(b)@,
                    }
                },
            *final(final(self).remaining) == *final(old(self).remaining),
            final(*final(self).remaining)@ == final(*old(self).remaining)@,
    {
        let slice: &mut [T] = &mut **self.remaining;
        let res = f(slice);
        match res {
            Ok(n) => {
                let (used, _rest) = slice.split_at_mut(n);
                Ok(used)
            },
            Err(e) => Err(e),
        }
    }

    /// Like [`Self::init_with`], but a reported length beyond the storage
    /// gives `Ok(None)` instead of a panic.
    pub fn init_with_checked<F, E>(&mut self, f: F) -> (r: Result<Option<&mut [T]>, E>) where
        F: FnOnce(&mut [T]) -> Result<usize, E>,
        requires
            forall|b: &mut [T]| b@ == old(self).contents() ==> #[trigger] call_requires(f, (b,)),
        ensures
            exists|b: &mut [T], res: Result<usize, E>|
                {
                    &&& #[trigger] call_ensures(f, (b,), res)
                    &&& b@ == old(self).contents()
                    &&& match res {
                        Ok(n) => if n <= final(b)@.len() {
                            r matches Ok(Some(p)) && p@ == final(b)@.take(n as int)
                                && final(self).contents() == final(p)@ + final(b)@.skip(n as int)
                        } else {
                            r matches Ok(None) && final(self).contents() == final(b)@
                        },
                        Err(e) => r matches Err(e2) && e2 == e
                            && final(self).contents() == final(b)@,
                    }
                },
            *final(final(self).remaining) == *final(old(self).remaining),
            final(*final(self).remaining)@ == final(*old(self).remaining)@,
    {
        let slice: &mut [T] = &mut **self.remaining;
        let res = f(slice);
        match res {
            Ok(n) => {
                if n > slice.len() {
                    return Ok(None);
                }
                let (used, _rest) = slice.split_at_mut(n);
                Ok(Some(used))
            },
            Err(e) => Err(e),
        }
    }

    /// Hands the visible storage to `f`, then detaches the prefix whose length
    /// `f` reports from the underlying arena; on `Err` nothing is detached.
    /// `f` may not report more slots than the storage holds (that would
    /// panic).
    pub fn init_prefix_with<F, E>(self, f: F) -> (r: Result<&'buf mut [T], E>) where
        F: FnOnce(&mut [T]) -> Result<usize, E>,
        requires
            forall|b: &mut [T]| b@ == self.contents() ==> #[trigger] call_requires(f, (b,)),
            forall|b: &mut [T], res: Result<usize, E>|
                b@ == self.contents() && #[trigger] call_ensures(f, (b,), res)
                    ==> (res matches Ok(n) ==> n <= final(b)@.len()),
        ensures
            exists|b: &mut [T], res: Result<usize, E>|
                {
                    &&& #[trigger] call_ensures(f, (b,), res)
                    &&& b@ == self.contents()
                    &&& match res {
                        Ok(n) => r matches Ok(p) && p@ == final(b)@.take(n as int)
                            && (*final(self.remaining))@ == final(b)@.skip(n as int)
                            && final(*old(self.remaining))@ == final(p)@ + final(*final(self.remaining))@,
                        Err(e) => r matches Err(e2) && e2 == e
                            && (*final(self.remaining))@ == final(b)@
                            && final(*final(self.remaining))@ == final(*old(self.remaining))@,
                    }
                },
    {
        let mut buffer: &'buf mut [T] = &mut [];
        core::mem::swap(&mut buffer, self.remaining);
        let res = f(buffer);
        match res {
            Ok(n) => {
                let (used, rest) = buffer.split_at_mut(n);
                *self.remaining = rest;
                Ok(used)
            },
            Err(e) => {
                *self.remaining = buffer;
                Err(e)
            },
        }
    }

    /// Like [`Self::init_prefix_with`], but a reported length beyond the
    /// storage gives `Ok(None)` and detaches nothing instead of a panic.
    pub fn init_prefix_with_checked<F, E>(self, f: F) -> (r: Result<Option<&'buf mut [T]>, E>) where
        F: FnOnce(&mut [T]) -> Result<usize, E>,
        requires
            forall|b: &mut [T]| b@ == self.contents() ==> #[trigger] call_requires(f, (b,)),
        ensures
            exists|b: &mut [T], res: Result<usize, E>|
                {
                    &&& #[trigger] call_ensures(f, (b,), res)
                    &&& b@ == self.contents()
                    &&& match res {
                        Ok(n) => if n <= final(b)@.len() {
                            r matches Ok(Some(p)) && p@ == final(b)@.take(n as int)
                                && (*final(self.remaining))@ == final(b)@.skip(n as int)
                                && final(*old(self.remaining))@ == final(p)@ + final(*final(self.remaining))@
                        } else {
                            r matches Ok(None) && (*final(self.remaining))@ == final(b)@
                                && final(*final(self.remaining))@ == final(*old(self.remaining))@
                        },
                        Err(e) => r matches Err(e2) && e2 == e
                            && (*final(self.remaining))@ == final(b)@
                            && final(*final(self.remaining))@ == final(*old(self.remaining))@,
                    }
                },
    {
        let mut buffer: &'buf mut [T] = &mut [];
        core::mem::swap(&mut buffer, self.remaining);
        let res = f(buffer);
        match res {
            Ok(n) => {
                if n > buffer.len() {
                    *self.remaining = buffer;
                    return Ok(None);
                }
                let (used, rest) = buffer.split_at_mut(n);
                *self.remaining = rest;
                Ok(Some(used))
            },
            Err(e) => {
                *self.remaining = buffer;
                Err(e)
            },
        }
    }

    /// Detaches the first `n` slots from the underlying arena; `n` may not
    /// exceed the visible length (asking for more would panic).
    #[must_use]
    pub fn take_prefix(self, n: usize) -> (r: &'buf mut [T])
        requires
            n <= self.contents().len(),
        ensures
            r@ == self.contents().take(n as int),
            (*final(self.remaining))@ == self.contents().skip(n as int),
            final(*old(self.remaining))@ == final(r)@ + final(*final(self.remaining))@,
    {
        let mut buffer: &'buf mut [T] = &mut [];
        core::mem::swap(&mut buffer, self.remaining);
        let (used, rest) = buffer.split_at_mut(n);
        *self.remaining = rest;
        used
    }

    /// Detaches the first `n` slots from the underlying arena without a
    /// run-time bound check; the bound is a precondition.
    #[must_use]
    pub fn take_prefix_unchecked(self, n: usize) -> (r: &'buf mut [T])
        requires
            n <= self.contents().len(),
        ensures
            r@ == self.contents().take(n as int),
            (*final(self.remaining))@ == self.contents().skip(n as int),
            final(*old(self.remaining))@ == final(r)@ + final(*final(self.remaining))@,
    {
        self.take_prefix(n)
    }
}

// Each conversion below states its result in the `ensures` of its own `from`.
// The trait-level `from_spec` is switched off (`obeys_from_spec` is false):
// a spec function cannot restate the move of a mutable borrow into the arena.

impl<'buf> From<&'buf mut [u8]> for PrefixArena<'buf, u8> {
    fn from(buffer: &'buf mut [u8]) -> (r: Self)
        ensures
            r.contents() == old(buffer)@,
            final(buffer)@ == final(r.remaining)@,
    {
        PrefixArena { remaining: buffer }
    }
}

impl<'buf> vstd::std_specs::convert::FromSpecImpl<&'buf mut [u8]> for PrefixArena<'buf, u8> {
    open spec fn obeys_from_spec() -> bool {
        false
    }

    closed spec fn from_spec(buffer: &'buf mut [u8]) -> Self {
        arbitrary()
    }
}

impl<'buf, const N: usize> From<&'buf mut [u8; N]> for PrefixArena<'buf, u8> {
    fn from(buffer: &'buf mut [u8; N]) -> (r: Self)
        ensures
            r.contents() == old(buffer)@,
            final(buffer)@ == final(r.remaining)@,
    {
        let slice: &'buf mut [u8] = buffer;
        PrefixArena { remaining: slice }
    }
}

impl<'buf, const N: usize> vstd::std_specs::convert::FromSpecImpl<&'buf mut [u8; N]> for PrefixArena<'buf, u8> {
    open spec fn obeys_from_spec() -> bool {
        false
    }

    closed spec fn from_spec(buffer: &'buf mut [u8; N]) -> Self {
        arbitrary()
    }
}

impl<'buf> From<&'buf mut [MaybeUninit<u8>]> for PrefixArena<'buf, MaybeUninit<u8>> {
    fn from(buffer: &'buf mut [MaybeUninit<u8>]) -> (r: Self)
        ensures
            r.contents() == old(buffer)@,
            final(buffer)@ == final(r.remaining)@,
    {
        PrefixArena { remaining: buffer }
    }
}

impl<'buf> vstd::std_specs::convert::FromSpecImpl<&'buf mut [MaybeUninit<u8>]> for PrefixArena<'buf, MaybeUninit<u8>> {
    open spec fn obeys_from_spec() -> bool {
        false
    }

    closed spec fn from_spec(buffer: &'buf mut [MaybeUninit<u8>]) -> Self {
        arbitrary()
    }
}

impl<'buf, const N: usize> From<&'buf mut [MaybeUninit<u8>; N]> for PrefixArena<'buf, MaybeUninit<u8>> {
    fn from(buffer: &'buf mut [MaybeUninit<u8>; N]) -> (r: Self)
        ensures
            r.contents() == old(buffer)@,
            final(buffer)@ == final(r.remaining)@,
    {
        let slice: &'buf mut [MaybeUninit<u8>] = buffer;
        PrefixArena { remaining: slice }
    }
}

impl<'buf, const N: usize> vstd::std_specs::convert::FromSpecImpl<&'buf mut [MaybeUninit<u8>; N]> for PrefixArena<'buf, MaybeUninit<u8>> {
    open spec fn obeys_from_spec() -> bool {
        false
    }

    closed spec fn from_spec(buffer: &'buf mut [MaybeUninit<u8>; N]) -> Self {
        arbitrary()
    }
}

} // verus!
