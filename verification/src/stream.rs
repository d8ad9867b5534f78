//! Packing a stream of colours into panel rows for a streamed fill.
//!
//! The packer takes at most a budget of colours. Every colour is written
//! `SCALE_X` times side by side (the logical pixel is two panel pixels wide);
//! the packer counts the copies still owed of the current colour. When the
//! first half of the buffer holds a full panel row,
//! the row is copied into the second half (the logical pixel is two panel
//! pixels tall) and the whole buffer is sent. Whatever is left at the end is
//! sent once, as it is.
use crate::color::{dump_color, panel_bytes, Rgb565};
use crate::commands::{RAMWR, RAMWRC};
use crate::display::SCALE_X;
use vstd::prelude::*;

verus! {

/// Rows concatenated in order.
pub open spec fn concat_rows(rows: Seq<Seq<u8>>) -> Seq<u8>
    decreases rows.len(),
{
    if rows.len() == 0 {
        seq![]
    } else {
        concat_rows(rows.drop_last()) + rows.last()
    }
}

/// `n` copies of `b`, one after the other.
pub open spec fn repeat_bytes(b: Seq<u8>, n: nat) -> Seq<u8>
    decreases n,
{
    if n == 0 {
        seq![]
    } else {
        b + repeat_bytes(b, (n - 1) as nat)
    }
}

/// The bytes of a stream of colours, each colour's panel bytes written
/// `SCALE_X` times.
pub open spec fn widened(colors: Seq<(u8, u8, u8)>) -> Seq<u8>
    decreases colors.len(),
{
    if colors.len() == 0 {
        seq![]
    } else {
        widened(colors.drop_last()) + repeat_bytes(panel_bytes(colors.last()), SCALE_X as nat)
    }
}

/// The command that starts a write: `RAMWR` for the first write of a fill,
/// `RAMWRC` for the ones that continue it.
pub open spec fn write_command(first: bool) -> u16 {
    if first {
        RAMWR as u16
    } else {
        RAMWRC as u16
    }
}

/// Packs pixel bytes into buffers of two panel rows.
pub struct RowPacker {
    /// Bytes of a full buffer: two panel rows.
    bytes_len: usize,
    /// Bytes of one panel row.
    half_len: usize,
    /// Bytes of the current row written so far.
    cursor: usize,
    /// No buffer has been sent yet.
    first: bool,
    /// The rows sent so far, each sent twice.
    rows: Ghost<Seq<Seq<u8>>>,
    /// The bytes of the row being filled.
    pending: Ghost<Seq<u8>>,
    /// Every byte pushed so far.
    pushed: Ghost<Seq<u8>>,
    /// Most colours the fill takes.
    budget: usize,
    /// Colours taken so far.
    taken: usize,
    /// Panel bytes of the current colour.
    current: [u8; 2],
    /// Copies of the current colour still to be written.
    owed: u8,
    /// Every colour taken so far.
    colors: Ghost<Seq<(u8, u8, u8)>>,
}

impl RowPacker {
    /// Bytes of one panel row.
    pub closed spec fn half(&self) -> nat {
        self.half_len as nat
    }

    /// The rows sent so far.
    pub closed spec fn rows(&self) -> Seq<Seq<u8>> {
        self.rows@
    }

    /// The bytes of the row being filled.
    pub closed spec fn pending(&self) -> Seq<u8> {
        self.pending@
    }

    /// Every byte pushed so far.
    pub closed spec fn pushed(&self) -> Seq<u8> {
        self.pushed@
    }

    /// Every colour taken so far.
    pub closed spec fn colors(&self) -> Seq<(u8, u8, u8)> {
        self.colors@
    }

    /// Copies of the current colour still to be written.
    pub closed spec fn owed(&self) -> nat {
        self.owed as nat
    }

    /// Most colours the fill takes.
    pub closed spec fn budget(&self) -> nat {
        self.budget as nat
    }

    /// The packer's internal consistency.
    pub closed spec fn wf(&self) -> bool {
        &&& self.bytes_len == 2 * self.half_len
        &&& self.half_len % 2 == 0
        &&& self.cursor % 2 == 0
        &&& self.cursor <= self.half_len
        &&& self.pending@.len() == self.cursor
        &&& forall|k: int| 0 <= k < self.rows@.len() ==> (#[trigger] self.rows@[k]).len() == self.half_len
        &&& self.first == (self.rows@.len() == 0)
        &&& concat_rows(self.rows@) + self.pending@ == self.pushed@
        &&& self.taken == self.colors@.len()
        &&& self.taken <= self.budget
        &&& self.owed <= SCALE_X
        &&& self.owed > 0 ==> self.colors@.len() > 0 && self.current@ == panel_bytes(
            self.colors@.last(),
        )
        &&& self.pushed@ + repeat_bytes(self.current@, self.owed as nat) == widened(self.colors@)
    }

    /// Nothing is lost or reordered: the rows sent so far, followed by the row
    /// being filled, are exactly the bytes pushed, in order; every row sent is
    /// one full panel row.
    pub proof fn lemma_stream_order(&self)
        requires
            self.wf(),
        ensures
            concat_rows(self.rows()) + self.pending() == self.pushed(),
            forall|k: int| 0 <= k < self.rows().len() ==> (#[trigger] self.rows()[k]).len() == self.half(),
            self.pending().len() <= self.half(),
            self.colors().len() <= self.budget(),
            self.owed() <= SCALE_X,
            self.owed() == 0 ==> self.pushed() == widened(self.colors()),
            self.owed() > 0 ==> self.colors().len() > 0 && self.pushed() + repeat_bytes(
                panel_bytes(self.colors().last()),
                self.owed(),
            ) == widened(self.colors()),
    {
        if self.owed == 0 {
            assert(self.pushed@ =~= self.pushed@ + repeat_bytes(self.current@, 0));
        }
    }

    /// A packer for a window `width` panel pixels wide that takes at most
    /// `budget` colours.
    pub fn new(width: u32, budget: usize) -> (p: Self)
        requires
            width * 4 <= u32::MAX,
        ensures
            p.wf(),
            p.half() == 2 * width,
            p.budget() == budget,
            p.colors() == Seq::<(u8, u8, u8)>::empty(),
            p.owed() == 0,
            p.rows() == Seq::<Seq<u8>>::empty(),
            p.pending() == Seq::<u8>::empty(),
            p.pushed() == Seq::<u8>::empty(),
    {
        let bytes_len = (width * 4) as usize;
        let p = RowPacker {
            bytes_len,
            half_len: bytes_len / 2,
            cursor: 0,
            first: true,
            rows: Ghost(Seq::empty()),
            pending: Ghost(Seq::empty()),
            pushed: Ghost(Seq::empty()),
            budget,
            taken: 0,
            current: [0, 0],
            owed: 0,
            colors: Ghost(Seq::empty()),
        };
        assert(concat_rows(p.rows@) + p.pending@ =~= p.pushed@);
        assert(p.pushed@ + repeat_bytes(p.current@, 0) =~= widened(p.colors@));
        p
    }

    /// Bytes of a full buffer: two panel rows.
    pub fn bytes_len(&self) -> (n: usize)
        requires
            self.wf(),
        ensures
            n == 2 * self.half(),
    {
        self.bytes_len
    }

    /// Whether the current row is complete and must be sent before another
    /// pixel is written.
    pub fn is_full(&self) -> (full: bool)
        requires
            self.wf(),
        ensures
            full == (self.pending().len() >= self.half()),
    {
        self.cursor >= self.half_len
    }

    /// Whether the fill takes another colour: the current colour is fully
    /// written and the budget is not used up.
    pub fn wants_color(&self) -> (wants: bool)
        requires
            self.wf(),
        ensures
            wants == (self.owed() == 0 && self.colors().len() < self.budget()),
    {
        self.owed == 0 && self.taken < self.budget
    }

    /// Takes the next colour; its panel bytes are now owed `SCALE_X` times.
    pub fn begin_color(&mut self, c: &Rgb565)
        requires
            old(self).wf(),
            old(self).owed() == 0,
            old(self).colors().len() < old(self).budget(),
        ensures
            final(self).wf(),
            final(self).half() == old(self).half(),
            final(self).budget() == old(self).budget(),
            final(self).rows() == old(self).rows(),
            final(self).pending() == old(self).pending(),
            final(self).pushed() == old(self).pushed(),
            final(self).colors() == old(self).colors().push(c@),
            final(self).owed() == SCALE_X,
    {
        let ghost old_colors = self.colors@;
        let ghost old_current = self.current@;
        self.current = dump_color(c);
        self.owed = SCALE_X;
        self.taken = self.taken + 1;
        self.colors = Ghost(self.colors@.push(c@));
        let ghost cur = self.current@;
        assert(self.colors@.drop_last() =~= old_colors);
        assert(repeat_bytes(old_current, 0) =~= seq![]);
        assert(self.pushed@ =~= widened(old_colors)) by {
            assert(self.pushed@ + repeat_bytes(old_current, 0) =~= self.pushed@);
        }
        assert(repeat_bytes(cur, 1) == cur + repeat_bytes(cur, 0));
        assert(repeat_bytes(cur, 2) == cur + repeat_bytes(cur, 1));
        assert(self.pushed@ + repeat_bytes(cur, 2) =~= widened(self.colors@));
    }

    /// Whether a copy of the current colour is still to be written.
    pub fn owes_pixel(&self) -> (owes: bool)
        requires
            self.wf(),
        ensures
            owes == (self.owed() > 0),
    {
        self.owed > 0
    }

    /// Writes one owed copy of the current colour into the current row.
    pub fn push_pixel(&mut self, bytes: &mut [u8])
        requires
            old(self).wf(),
            old(self).owed() > 0,
            old(self).pending().len() < old(self).half(),
            old(bytes)@.len() == 2 * old(self).half(),
            old(bytes)@.take(old(self).pending().len() as int) == old(self).pending(),
        ensures
            final(self).wf(),
            final(self).half() == old(self).half(),
            final(self).budget() == old(self).budget(),
            final(self).rows() == old(self).rows(),
            final(self).colors() == old(self).colors(),
            final(self).owed() + 1 == old(self).owed(),
            final(self).pending() == old(self).pending() + panel_bytes(old(self).colors().last()),
            final(self).pushed() == old(self).pushed() + panel_bytes(old(self).colors().last()),
            final(bytes)@.len() == old(bytes)@.len(),
            final(bytes)@.take(final(self).pending().len() as int) == final(self).pending(),
    {
        let raw = self.current;
        let c = self.cursor;
        bytes[c] = raw[0];
        bytes[c + 1] = raw[1];
        let ghost old_pending = self.pending@;
        let ghost old_pushed = self.pushed@;
        self.cursor = c + 2;
        self.owed = self.owed - 1;
        self.pending = Ghost(self.pending@ + raw@);
        self.pushed = Ghost(self.pushed@ + raw@);
        assert(raw@ =~= seq![raw[0], raw[1]]);
        assert(bytes@.take(self.cursor as int) =~= self.pending@) by {
            assert(old(bytes)@.take(c as int) =~= old_pending);
            assert forall|i: int| 0 <= i < c implies bytes@[i] == old_pending[i] by {
                assert(old(bytes)@.take(c as int)[i] == old(bytes)@[i]);
            }
        }
        assert(concat_rows(self.rows@) + self.pending@ =~= self.pushed@) by {
            assert(concat_rows(old(self).rows@) + old_pending =~= old_pushed);
        }
        assert(self.pushed@ + repeat_bytes(raw@, self.owed as nat) =~= old_pushed + repeat_bytes(
            raw@,
            old(self).owed as nat,
        ));
    }

    /// Completes the current row: copies it into the second half of the
    /// buffer, so that it is drawn on two panel rows. Returns the command that
    /// sends the buffer; the whole buffer is then to be sent.
    pub fn seal(&mut self, bytes: &mut [u8]) -> (cmd: u16)
        requires
            old(self).wf(),
            old(self).pending().len() >= old(self).half(),
            old(bytes)@.len() == 2 * old(self).half(),
            old(bytes)@.take(old(self).pending().len() as int) == old(self).pending(),
        ensures
            final(self).wf(),
            final(self).half() == old(self).half(),
            final(bytes)@ == old(self).pending() + old(self).pending(),
            final(self).rows() == old(self).rows().push(old(self).pending()),
            final(self).pending() == Seq::<u8>::empty(),
            final(self).pushed() == old(self).pushed(),
            cmd == write_command(old(self).rows().len() == 0),
    {
        let half = self.half_len;
        let ghost row = self.pending@;
        let mut i: usize = 0;
        while i < half
            invariant
                half == self.half_len,
                self.wf(),
                self.cursor == half,
                self.pending@ == row,
                row.len() == half,
                self.bytes_len == 2 * half,
                bytes@.len() == 2 * half,
                i <= half,
                forall|j: int| 0 <= j < half ==> #[trigger] bytes@[j] == row[j],
                forall|j: int| 0 <= j < i ==> #[trigger] bytes@[half + j] == row[j],
            decreases half - i,
        {
            let b = bytes[i];
            bytes[half + i] = b;
            i = i + 1;
        }
        assert forall|j: int| half <= j < 2 * half implies bytes@[j] == (row + row)[j] by {
            assert(bytes@[half + (j - half)] == row[j - half]);
        }
        assert(bytes@ =~= row + row);
        let cmd = if self.first {
            RAMWR as u16
        } else {
            RAMWRC as u16
        };
        let ghost old_rows = self.rows@;
        self.first = false;
        self.cursor = 0;
        self.rows = Ghost(self.rows@.push(row));
        self.pending = Ghost(Seq::empty());
        assert(self.rows@.drop_last() =~= old_rows);
        assert(concat_rows(self.rows@) + self.pending@ =~= self.pushed@);
        cmd
    }

    /// The last write of a fill: its command, and how many bytes of the
    /// current row it sends (the row is sent once, as it is).
    pub fn finish(&self) -> (res: (u16, usize))
        requires
            self.wf(),
        ensures
            res.0 == write_command(self.rows().len() == 0),
            res.1 == self.pending().len(),
    {
        let cmd = if self.first {
            RAMWR as u16
        } else {
            RAMWRC as u16
        };
        (cmd, self.cursor)
    }
}

} // verus!
