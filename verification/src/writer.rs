//! The pool of DMA buffers and the i8080 bus that carries them to the panel.
//!
//! The writer owns two transmit buffers and the bus. While a transfer is in
//! flight the bus is lent to the transfer (the channel holds the transfer),
//! and the buffer being sent is out of the pool until the transfer completes.
//! The work on the hardware (waiting for a transfer, starting one) happens
//! outside; the writer decides what state the pool and the bus are in before
//! and after that work.
use vstd::multiset::Multiset;
use vstd::prelude::*;

verus! {

/// Number of buffers in the pool.
pub const POOL_SIZE: usize = 2;

/// Why a write to the panel failed.
#[derive(Debug)]
pub enum Error<D> {
    /// The DMA engine reported an error.
    Dma(D),
    /// No buffer was free, even after the pending transfer completed.
    OutOfBuffers,
    /// A buffer came back while every slot of the pool was full.
    TooManyBuffers,
    /// The bus was lent out and no transfer holds it.
    BusIsBusy,
}

/// Who holds the bus.
pub enum Channel<Bus, Fut> {
    /// The bus is idle and owned by the writer.
    Bus(Bus),
    /// A transfer is in flight; it owns the bus until it completes.
    Future(Fut),
    /// The bus has been taken out to start or finish a transfer.
    Taken,
}

/// A bag of the buffers held in a slot.
pub open spec fn slot_bag<B>(slot: Option<B>) -> Multiset<B> {
    match slot {
        Some(b) => Multiset::singleton(b),
        None => Multiset::empty(),
    }
}

/// The buffers held by a pool of slots, in no order.
pub open spec fn pool_contents<B>(slots: Seq<Option<B>>) -> Multiset<B> {
    slot_bag(slots[0]).add(slot_bag(slots[1]))
}

/// How many buffers a pool holds.
pub open spec fn pooled<B>(slots: Seq<Option<B>>) -> nat {
    (if slots[0] is Some { 1nat } else { 0nat }) + (if slots[1] is Some { 1nat } else { 0nat })
}

/// Taking a buffer: the first full slot is emptied and its buffer returned.
pub open spec fn take_slot<B>(slots: Seq<Option<B>>) -> (Option<B>, Seq<Option<B>>) {
    if slots[0] is Some {
        (slots[0], slots.update(0, None))
    } else if slots[1] is Some {
        (slots[1], slots.update(1, None))
    } else {
        (None, slots)
    }
}

/// Returning a buffer: it goes into the first empty slot; `None` when every
/// slot is full.
pub open spec fn put_slot<B>(slots: Seq<Option<B>>, buf: B) -> Option<Seq<Option<B>>> {
    if slots[0] is None {
        Some(slots.update(0, Some(buf)))
    } else if slots[1] is None {
        Some(slots.update(1, Some(buf)))
    } else {
        None
    }
}

/// Taking from the pool fails exactly when the pool is empty, and a taken
/// buffer leaves the pool with one buffer fewer: the buffer that came out.
pub proof fn lemma_take_slot<B>(slots: Seq<Option<B>>)
    requires
        slots.len() == POOL_SIZE,
    ensures
        take_slot(slots).0 is None <==> pooled(slots) == 0,
        take_slot(slots).1.len() == POOL_SIZE,
        take_slot(slots).0 matches Some(b) ==> pooled(take_slot(slots).1) + 1 == pooled(slots)
            && pool_contents(take_slot(slots).1).insert(b) =~= pool_contents(slots),
        take_slot(slots).0 is None ==> take_slot(slots).1 == slots,
        slots[0] is Some ==> take_slot(slots).0 == slots[0] && take_slot(slots).1[0] is None
            && take_slot(slots).1[1] == slots[1],
        slots[0] is None ==> take_slot(slots).0 == slots[1] && take_slot(slots).1[0] is None
            && take_slot(slots).1[1] is None,
{
}

/// Returning a buffer fails exactly when every slot is full; otherwise the
/// pool holds one buffer more: the one that was returned.
pub proof fn lemma_put_slot<B>(slots: Seq<Option<B>>, buf: B)
    requires
        slots.len() == POOL_SIZE,
    ensures
        put_slot(slots, buf) is None <==> pooled(slots) == POOL_SIZE,
        put_slot(slots, buf) matches Some(s) ==> s.len() == POOL_SIZE && pooled(s) == pooled(slots)
            + 1 && pool_contents(s) =~= pool_contents(slots).insert(buf),
        slots[0] is None ==> put_slot(slots, buf) == Some(seq![Some(buf), slots[1]]),
        slots[0] is Some && slots[1] is None ==> put_slot(slots, buf) == Some(
            seq![slots[0], Some(buf)],
        ),
{
    assert(slots.update(0, Some(buf)) =~= seq![Some(buf), slots[1]]);
    assert(slots.update(1, Some(buf)) =~= seq![slots[0], Some(buf)]);
}

/// A buffer taken from the pool can always be returned to it, and returning
/// it gives back the buffers the pool held before.
pub proof fn lemma_put_undoes_take<B>(slots: Seq<Option<B>>)
    requires
        slots.len() == POOL_SIZE,
        take_slot(slots).0 is Some,
    ensures
        put_slot(take_slot(slots).1, take_slot(slots).0->0) matches Some(s) && pool_contents(s)
            =~= pool_contents(slots),
{
    lemma_take_slot(slots);
    lemma_put_slot(take_slot(slots).1, take_slot(slots).0->0);
}

/// After a buffer has been returned, a buffer can always be taken again, and
/// the pool then holds as many buffers as before the return.
pub proof fn lemma_take_after_put<B>(slots: Seq<Option<B>>, buf: B)
    requires
        slots.len() == POOL_SIZE,
        put_slot(slots, buf) is Some,
    ensures
        take_slot(put_slot(slots, buf)->0).0 is Some,
        pooled(take_slot(put_slot(slots, buf)->0).1) == pooled(slots),
{
    lemma_put_slot(slots, buf);
    lemma_take_slot(put_slot(slots, buf)->0);
}

/// Writes to the panel through a pool of buffers and a bus that one transfer
/// at a time may hold.
pub struct Writer<Bus, Fut, Buf> {
    channel: Channel<Bus, Fut>,
    /// Pool of DMA buffers.
    buffers: [Option<Buf>; 2],
}

impl<Bus, Fut, Buf> Writer<Bus, Fut, Buf> {
    /// Who holds the bus.
    pub closed spec fn channel(&self) -> Channel<Bus, Fut> {
        self.channel
    }

    /// The slots of the pool.
    pub closed spec fn slots(&self) -> Seq<Option<Buf>> {
        self.buffers@
    }

    /// The pool always has exactly two slots.
    pub proof fn lemma_two_slots(&self)
        ensures
            self.slots().len() == POOL_SIZE,
    {
    }

    /// A writer that owns the idle bus and both buffers.
    pub fn new(bus: Bus, buf1: Buf, buf2: Buf) -> (w: Self)
        ensures
            w.channel() == Channel::<Bus, Fut>::Bus(bus),
            w.slots() == seq![Some(buf1), Some(buf2)],
    {
        let w = Writer { channel: Channel::Bus(bus), buffers: [Some(buf1), Some(buf2)] };
        assert(w.buffers@ =~= seq![Some(buf1), Some(buf2)]);
        w
    }

    /// Takes the first available buffer out of the pool, if there is one.
    pub fn try_take_buffer<D>(&mut self) -> (res: Result<Option<Buf>, Error<D>>)
        ensures
            (res matches Ok(got) && got == take_slot(old(self).slots()).0),
            final(self).slots() == take_slot(old(self).slots()).1,
            final(self).channel() == old(self).channel(),
    {
        let mut i: usize = 0;
        while i < POOL_SIZE
            invariant
                i <= POOL_SIZE,
                self.buffers == old(self).buffers,
                self.channel == old(self).channel,
                forall|j: int| 0 <= j < i ==> self.buffers@[j] is None,
            decreases POOL_SIZE - i,
        {
            if self.buffers[i].is_some() {
                let buf = self.buffers[i].take();
                assert(self.buffers@ =~= take_slot(old(self).buffers@).1);
                return Ok(buf);
            }
            i = i + 1;
        }
        Ok(None)
    }

    /// Returns a buffer to the first empty slot of the pool; fails with
    /// `TooManyBuffers` (and drops the buffer) when every slot is full.
    pub fn put_buffer<D>(&mut self, buf: Buf) -> (res: Result<(), Error<D>>)
        ensures
            put_slot(old(self).slots(), buf) matches Some(s) ==> res is Ok && final(self).slots()
                == s,
            put_slot(old(self).slots(), buf) is None ==> (res matches Err(Error::TooManyBuffers))
                && final(self).slots() == old(self).slots(),
            final(self).channel() == old(self).channel(),
    {
        let mut i: usize = 0;
        while i < POOL_SIZE
            invariant
                i <= POOL_SIZE,
                self.buffers == old(self).buffers,
                self.channel == old(self).channel,
                forall|j: int| 0 <= j < i ==> self.buffers@[j] is Some,
            decreases POOL_SIZE - i,
        {
            if self.buffers[i].is_none() {
                self.buffers[i] = Some(buf);
                assert(self.buffers@ =~= put_slot(old(self).buffers@, buf)->0);
                return Ok(());
            }
            i = i + 1;
        }
        Err(Error::TooManyBuffers)
    }

    /// Takes the channel out, leaving `Channel::Taken` in its place.
    fn take_channel(&mut self) -> (ch: Channel<Bus, Fut>)
        ensures
            ch == old(self).channel,
            final(self).channel is Taken,
            final(self).buffers == old(self).buffers,
    {
        let mut ch = Channel::Taken;
        core::mem::swap(&mut ch, &mut self.channel);
        ch
    }

    /// First half of waiting for the pending transfer. With a transfer in
    /// flight, hands it out to be awaited (the bus is then taken out until
    /// `finish_wait`); with an idle bus there is nothing to wait for; with the
    /// bus taken out, fails with `BusIsBusy`.
    pub fn begin_wait<D>(&mut self) -> (res: Result<Option<Fut>, Error<D>>)
        ensures
            final(self).slots() == old(self).slots(),
            match old(self).channel() {
                Channel::Future(f) => res == Ok::<Option<Fut>, Error<D>>(Some(f))
                    && final(self).channel() is Taken,
                Channel::Bus(b) => res == Ok::<Option<Fut>, Error<D>>(None)
                    && final(self).channel() == old(self).channel(),
                Channel::Taken => (res matches Err(Error::BusIsBusy)) && final(self).channel() is Taken,
            },
    {
        match self.take_channel() {
            Channel::Future(fut) => Ok(Some(fut)),
            Channel::Bus(bus) => {
                self.channel = Channel::Bus(bus);
                Ok(None)
            },
            Channel::Taken => Err(Error::BusIsBusy),
        }
    }

    /// Second half of waiting: the completed transfer gives back the bus and
    /// its buffer. The bus becomes idle again and the buffer returns to the
    /// pool. A full pool is reported first (`TooManyBuffers`), then an error
    /// of the transfer itself.
    pub fn finish_wait<D>(&mut self, outcome: Result<(), D>, bus: Bus, buf: Buf) -> (res: Result<
        (),
        Error<D>,
    >)
        ensures
            final(self).channel() == Channel::<Bus, Fut>::Bus(bus),
            put_slot(old(self).slots(), buf) matches Some(s) ==> final(self).slots() == s && (
            match outcome {
                Ok(()) => res is Ok,
                Err(e) => res == Err::<(), Error<D>>(Error::Dma(e)),
            }),
            put_slot(old(self).slots(), buf) is None ==> final(self).slots() == old(self).slots()
                && (res matches Err(Error::TooManyBuffers)),
    {
        self.channel = Channel::Bus(bus);
        self.put_buffer(buf)?;
        match outcome {
            Ok(()) => Ok(()),
            Err(e) => Err(Error::Dma(e)),
        }
    }

    /// Takes a buffer once the pending transfer has been waited for; fails
    /// with `OutOfBuffers` when the pool is still empty.
    pub fn take_after_wait<D>(&mut self) -> (res: Result<Buf, Error<D>>)
        ensures
            final(self).slots() == take_slot(old(self).slots()).1,
            final(self).channel() == old(self).channel(),
            match take_slot(old(self).slots()).0 {
                Some(b) => res == Ok::<Buf, Error<D>>(b),
                None => res matches Err(Error::OutOfBuffers),
            },
    {
        match self.try_take_buffer::<D>() {
            Ok(Some(buf)) => Ok(buf),
            _ => Err(Error::OutOfBuffers),
        }
    }

    /// Takes the idle bus out to start a transfer on it. Fails with
    /// `BusIsBusy` when the bus is not idle; either way the channel is left
    /// empty.
    pub fn take_bus<D>(&mut self) -> (res: Result<Bus, Error<D>>)
        ensures
            final(self).slots() == old(self).slots(),
            final(self).channel() is Taken,
            match old(self).channel() {
                Channel::Bus(b) => res == Ok::<Bus, Error<D>>(b),
                _ => res matches Err(Error::BusIsBusy),
            },
    {
        match self.take_channel() {
            Channel::Bus(bus) => Ok(bus),
            _ => Err(Error::BusIsBusy),
        }
    }

    /// The bus accepted the transfer: the transfer now holds the bus.
    pub fn transfer_started(&mut self, fut: Fut)
        ensures
            final(self).channel() == Channel::<Bus, Fut>::Future(fut),
            final(self).slots() == old(self).slots(),
    {
        self.channel = Channel::Future(fut);
    }

    /// The bus refused the transfer and gave back itself and the buffer: the
    /// bus is idle again, the buffer returns to the pool, and the error is
    /// reported (`TooManyBuffers` first, if the pool was full).
    pub fn transfer_refused<D>(&mut self, err: D, bus: Bus, buf: Buf) -> (res: Result<(), Error<D>>)
        ensures
            final(self).channel() == Channel::<Bus, Fut>::Bus(bus),
            put_slot(old(self).slots(), buf) matches Some(s) ==> final(self).slots() == s && res
                == Err::<(), Error<D>>(Error::Dma(err)),
            put_slot(old(self).slots(), buf) is None ==> final(self).slots() == old(self).slots()
                && (res matches Err(Error::TooManyBuffers)),
    {
        self.channel = Channel::Bus(bus);
        self.put_buffer(buf)?;
        Err(Error::Dma(err))
    }
}

} // verus!
