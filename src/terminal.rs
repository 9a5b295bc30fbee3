use vstd::prelude::*;
use vstd::string::*;
use crate::text::chars_of;

verus! {

/// The control sequences that clear the current line and move the cursor up
/// one line.
pub open spec fn erase_row() -> Seq<char> {
    seq!['\x1b', '[', '2', 'K', '\x1b', '[', 'F']
}

/// What rewinding over `n` rows emits.
pub open spec fn erase_rows(n: nat) -> Seq<char>
    decreases n,
{
    if n == 0 {
        Seq::empty()
    } else {
        erase_rows((n - 1) as nat) + erase_row()
    }
}

/// One more, stopping at the largest `usize`.
pub open spec fn bump(x: usize) -> usize {
    if x == usize::MAX {
        x
    } else {
        (x + 1) as usize
    }
}

/// Row bookkeeping for one written character: the row under the cursor is
/// registered with length 0 if it is new; a newline moves to the next row,
/// any other character lengthens the current one.
pub open spec fn write_step(rows: Seq<usize>, cursor: usize, c: char) -> (Seq<usize>, usize) {
    let r = if cursor >= rows.len() { rows.push(0usize) } else { rows };
    if c == '\n' {
        (r, bump(cursor))
    } else {
        (r.update(cursor as int, bump(r[cursor as int])), cursor)
    }
}

/// Row bookkeeping after writing `s` from the given rows and cursor.
pub open spec fn write_rows(rows: Seq<usize>, cursor: usize, s: Seq<char>) -> (Seq<usize>, usize)
    decreases s.len(),
{
    if s.len() == 0 {
        (rows, cursor)
    } else {
        let p = write_rows(rows, cursor, s.drop_last());
        write_step(p.0, p.1, s.last())
    }
}

/// A terminal that redraws a frame in place. It keeps the length of every row
/// written so far and the row being written, and collects the text to send to
/// the device until the caller takes it.
pub struct Terminal {
    next_write: usize,
    written_lines_lengths: Vec<usize>,
    output: String,
}

impl Terminal {
    /// Lengths of the rows tracked so far.
    pub closed spec fn rows(&self) -> Seq<usize> {
        self.written_lines_lengths@
    }

    /// Index of the row being written.
    pub closed spec fn cursor(&self) -> usize {
        self.next_write
    }

    /// Text emitted and not yet taken.
    pub closed spec fn pending(&self) -> Seq<char> {
        self.output@
    }

    pub open spec fn wf(&self) -> bool {
        self.cursor() <= self.rows().len()
    }

    pub fn new() -> (r: Terminal)
        ensures
            r.wf(),
            r.rows() == Seq::<usize>::empty(),
            r.cursor() == 0,
            r.pending() == Seq::<char>::empty(),
    {
        let r = Terminal { next_write: 0, written_lines_lengths: Vec::new(), output: String::new() };
        r
    }

    /// Rewinds over every tracked row so that the next frame overwrites the
    /// last one. Row lengths are kept.
    pub fn reset(&mut self)
        requires
            old(self).wf(),
        ensures
            final(self).wf(),
            final(self).rows() == old(self).rows(),
            final(self).pending() == old(self).pending() + erase_rows(old(self).rows().len()),
            final(self).cursor() == if old(self).rows().len() == 0 {
                old(self).cursor()
            } else {
                0
            },
    {
        let n = self.written_lines_lengths.len();
        if n == 0 {
            assert(self.output@ =~= self.output@ + erase_rows(0));
            return;
        }
        let ghost start = self.output@;
        let mut i: usize = 0;
        while i < n
            invariant
                i <= n,
                n == self.written_lines_lengths@.len(),
                self.written_lines_lengths@ == old(self).written_lines_lengths@,
                self.next_write == old(self).next_write,
                start == old(self).output@,
                self.output@ == start + erase_rows(i as nat),
            decreases n - i,
        {
            self.output.append("\x1b[2K\x1b[F");
            proof {
                reveal_strlit("\x1b[2K\x1b[F");
                assert("\x1b[2K\x1b[F"@ =~= erase_row());
                assert(self.output@ =~= start + erase_rows((i + 1) as nat));
            }
            i = i + 1;
        }
        self.next_write = 0;
    }

    /// Appends `s` to the frame and tracks its rows.
    pub fn write_str(&mut self, s: &str)
        requires
            old(self).wf(),
        ensures
            final(self).wf(),
            (final(self).rows(), final(self).cursor()) == write_rows(
                old(self).rows(),
                old(self).cursor(),
                s@,
            ),
            final(self).pending() == old(self).pending() + s@,
    {
        let cs = chars_of(s);
        let mut i: usize = 0;
        while i < cs.len()
            invariant
                cs@ == s@,
                i <= cs@.len(),
                self.next_write <= self.written_lines_lengths@.len(),
                self.output@ == old(self).output@,
                (self.written_lines_lengths@, self.next_write) == write_rows(
                    old(self).written_lines_lengths@,
                    old(self).next_write,
                    s@.subrange(0, i as int),
                ),
            decreases cs@.len() - i,
        {
            let c = cs[i];
            if self.written_lines_lengths.len() <= self.next_write {
                self.written_lines_lengths.push(0);
            }
            let cur = self.next_write;
            if c == '\n' {
                self.next_write = cur.saturating_add(1);
            } else {
                let v = self.written_lines_lengths[cur];
                self.written_lines_lengths[cur] = v.saturating_add(1);
            }
            proof {
                assert(s@.subrange(0, i as int + 1).drop_last() =~= s@.subrange(0, i as int));
            }
            i = i + 1;
        }
        assert(s@.subrange(0, i as int) =~= s@);
        self.output.append(s);
    }

    /// Number of rows tracked so far.
    pub fn tracked_rows(&self) -> (r: usize)
        ensures
            r == self.rows().len(),
    {
        self.written_lines_lengths.len()
    }

    /// Hands over the text emitted so far, leaving none pending.
    pub fn take_output(&mut self) -> (r: String)
        requires
            old(self).wf(),
        ensures
            final(self).wf(),
            r@ == old(self).pending(),
            final(self).pending() == Seq::<char>::empty(),
            final(self).rows() == old(self).rows(),
            final(self).cursor() == old(self).cursor(),
    {
        let r = self.output.clone();
        self.output = String::new();
        r
    }
}

} // verus!
