use vstd::prelude::*;
use vstd::string::*;
use crate::supervisor::{
    Capture, CommandDesc, DescView, after_check, after_start, details_text, summary_text,
};
use crate::terminal::{Terminal, erase_rows, write_rows};
use crate::text::{chars_of, push_char};

verus! {

/// Characters with the Unicode `White_Space` property.
pub open spec fn is_white(c: char) -> bool {
    ('\u{9}' <= c && c <= '\u{d}') || c == ' ' || c == '\u{85}' || c == '\u{a0}' || c
        == '\u{1680}' || ('\u{2000}' <= c && c <= '\u{200a}') || c == '\u{2028}' || c
        == '\u{2029}' || c == '\u{202f}' || c == '\u{205f}' || c == '\u{3000}'
}

fn white(c: char) -> (r: bool)
    ensures
        r == is_white(c),
{
    ('\u{9}' <= c && c <= '\u{d}') || c == ' ' || c == '\u{85}' || c == '\u{a0}' || c
        == '\u{1680}' || ('\u{2000}' <= c && c <= '\u{200a}') || c == '\u{2028}' || c
        == '\u{2029}' || c == '\u{202f}' || c == '\u{205f}' || c == '\u{3000}'
}

/// Words completed so far, and the word under way, after reading `s`.
pub open spec fn scan_words(s: Seq<char>) -> (Seq<Seq<char>>, Seq<char>)
    decreases s.len(),
{
    if s.len() == 0 {
        (Seq::empty(), Seq::empty())
    } else {
        let p = scan_words(s.drop_last());
        if is_white(s.last()) {
            if p.1.len() > 0 {
                (p.0.push(p.1), Seq::empty())
            } else {
                (p.0, Seq::empty())
            }
        } else {
            (p.0, p.1.push(s.last()))
        }
    }
}

/// The maximal runs of non-whitespace characters of `s`, in order.
pub open spec fn words_of(s: Seq<char>) -> Seq<Seq<char>> {
    let p = scan_words(s);
    if p.1.len() > 0 {
        p.0.push(p.1)
    } else {
        p.0
    }
}

/// What the caller observed of one command's process during a round.
pub enum Outcome {
    /// Nothing was attempted, or the process is still running.
    Nothing,
    /// The result of spawning the process.
    Spawn(Result<(), String>),
    /// The result of polling the process; see [`CommandDesc::check`].
    Poll(Result<Option<Option<i32>>, String>),
}

/// A command after one round: in the first round a spawn outcome starts it,
/// in later rounds a poll outcome checks it; anything else leaves it as it is.
pub open spec fn advance(d: DescView, first: bool, o: Outcome) -> DescView {
    match o {
        Outcome::Spawn(r) => if first {
            after_start(
                d,
                match r {
                    Ok(()) => Ok(()),
                    Err(m) => Err(m@),
                },
            )
        } else {
            d
        },
        Outcome::Poll(p) => if !first {
            after_check(
                d,
                match p {
                    Ok(x) => Ok(x),
                    Err(m) => Err(m@),
                },
            )
        } else {
            d
        },
        Outcome::Nothing => d,
    }
}

/// One dashboard frame: each command's summary followed by a newline.
pub open spec fn frame_text(ds: Seq<DescView>, tick: usize) -> Seq<char>
    decreases ds.len(),
{
    if ds.len() == 0 {
        Seq::empty()
    } else {
        frame_text(ds.drop_last(), tick) + summary_text(ds.last().argv, ds.last().status, tick)
            + seq!['\n']
    }
}

/// The final pass: each command's still summary and newline, then its
/// detail block from its captured streams.
pub open spec fn details_frame(ds: Seq<DescView>, caps: Seq<(Capture, Capture)>) -> Seq<char>
    decreases ds.len(),
{
    if ds.len() == 0 || caps.len() == 0 {
        Seq::empty()
    } else {
        details_frame(ds.drop_last(), caps.drop_last()) + summary_text(
            ds.last().argv,
            ds.last().status,
            0,
        ) + seq!['\n'] + details_text(ds.last(), caps.last().0.text(), caps.last().1.text())
    }
}

/// The counter after one round, wrapping to 0.
pub open spec fn next_tick(t: usize) -> usize {
    if t == usize::MAX {
        0
    } else {
        (t + 1) as usize
    }
}

/// The terminal's cursor after a reset: row 0, unless no row is tracked.
pub open spec fn rewound_cursor(t: Terminal) -> usize {
    if t.rows().len() == 0 {
        t.cursor()
    } else {
        0
    }
}

/// All commands, in input order, and the round counter.
pub struct Commands {
    pub commands: Vec<CommandDesc>,
    pub tick: usize,
}

impl Commands {
    pub open spec fn descs(&self) -> Seq<DescView> {
        self.commands@.map_values(|c: CommandDesc| c@)
    }

    /// Every command is valid.
    pub open spec fn wf(&self) -> bool {
        forall|i: int| 0 <= i < self.commands@.len() ==> (#[trigger] self.commands@[i])@.wf()
    }

    pub open spec fn spec_all_done(&self) -> bool {
        forall|i: int| 0 <= i < self.commands@.len() ==> (#[trigger] self.commands@[i])@.status.terminal()
    }

    pub fn new() -> (r: Commands)
        ensures
            r.commands@.len() == 0,
            r.tick == 0,
            r.wf(),
    {
        Commands { commands: Vec::new(), tick: 0 }
    }

    /// Splits a line at whitespace into an argument vector and appends a
    /// command for it.
    pub fn add_command(&mut self, text: String)
        ensures
            final(self).tick == old(self).tick,
            old(self).wf() ==> final(self).wf(),
            final(self).descs() == old(self).descs().push(
                DescView { argv: words_of(text@), started: false, status: crate::supervisor::StatusView::Unstarted },
            ),
    {
        let cs = chars_of(text.as_str());
        let mut words: Vec<String> = Vec::new();
        let mut cur = String::new();
        let mut i: usize = 0;
        while i < cs.len()
            invariant
                cs@ == text@,
                i <= cs@.len(),
                scan_words(text@.subrange(0, i as int)) == (words.deep_view(), cur@),
            decreases cs@.len() - i,
        {
            let c = cs[i];
            proof {
                assert(text@.subrange(0, i as int + 1).drop_last() =~= text@.subrange(0, i as int));
            }
            if white(c) {
                if cur.unicode_len() > 0 {
                    let ghost w0 = words.deep_view();
                    words.push(cur);
                    assert(words.deep_view() =~= w0.push(cur@));
                }
                cur = String::new();
            } else {
                push_char(&mut cur, c);
            }
            i = i + 1;
        }
        assert(text@.subrange(0, i as int) =~= text@);
        if cur.unicode_len() > 0 {
            let ghost w0 = words.deep_view();
            words.push(cur);
            assert(words.deep_view() =~= w0.push(cur@));
        }
        let d = CommandDesc::new(words);
        self.commands.push(d);
        assert(self.descs() =~= old(self).descs().push(d@));
        assert(self.commands@ =~= old(self).commands@.push(d));
    }

    /// Whether every command has reached a terminal status.
    pub fn all_done(&self) -> (r: bool)
        ensures
            r == self.spec_all_done(),
    {
        let mut i: usize = 0;
        while i < self.commands.len()
            invariant
                i <= self.commands@.len(),
                forall|j: int| 0 <= j < i ==> (#[trigger] self.commands@[j])@.status.terminal(),
            decreases self.commands@.len() - i,
        {
            if !self.commands[i].status.is_terminal_state() {
                return false;
            }
            i = i + 1;
        }
        true
    }

    /// Whether this round starts the commands rather than polling them.
    pub fn is_first_round(&self) -> (r: bool)
        ensures
            r == (self.tick == 0),
    {
        self.tick == 0
    }

    fn frame(&self) -> (r: String)
        ensures
            r@ == frame_text(self.descs(), self.tick),
    {
        let mut s = String::new();
        let mut i: usize = 0;
        while i < self.commands.len()
            invariant
                i <= self.commands@.len(),
                s@ == frame_text(self.descs().subrange(0, i as int), self.tick),
            decreases self.commands@.len() - i,
        {
            let line = self.commands[i].summary(self.tick);
            s.append(line.as_str());
            s.append("\n");
            proof {
                reveal_strlit("\n");
                let p = self.descs().subrange(0, i as int + 1);
                assert(p.drop_last() =~= self.descs().subrange(0, i as int));
                assert(s@ =~= frame_text(p, self.tick));
            }
            i = i + 1;
        }
        assert(self.descs().subrange(0, i as int) =~= self.descs());
        s
    }

    /// One round: rewinds the terminal, records what was observed of each
    /// command's process (spawns in the first round, polls later), draws a
    /// frame and advances the counter.
    pub fn summarize_all(&mut self, outcomes: Vec<Outcome>, out: &mut Terminal)
        requires
            outcomes@.len() == old(self).commands@.len(),
            old(out).wf(),
        ensures
            final(self).tick == next_tick(old(self).tick),
            old(self).wf() ==> final(self).wf(),
            final(self).descs().len() == old(self).descs().len(),
            forall|i: int|
                0 <= i < old(self).descs().len() ==> #[trigger] final(self).descs()[i] == advance(
                    old(self).descs()[i],
                    old(self).tick == 0,
                    outcomes@[i],
                ),
            final(out).wf(),
            final(out).pending() == old(out).pending() + erase_rows(old(out).rows().len())
                + frame_text(final(self).descs(), old(self).tick),
            (final(out).rows(), final(out).cursor()) == write_rows(
                old(out).rows(),
                rewound_cursor(*old(out)),
                frame_text(final(self).descs(), old(self).tick),
            ),
    {
        out.reset();
        let first = self.tick == 0;
        let mut i: usize = 0;
        while i < self.commands.len()
            invariant
                i <= self.commands@.len(),
                self.commands@.len() == old(self).commands@.len(),
                outcomes@.len() == self.commands@.len(),
                self.tick == old(self).tick,
                first == (self.tick == 0),
                forall|j: int|
                    0 <= j < i ==> (#[trigger] self.commands@[j])@ == advance(
                        old(self).commands@[j]@,
                        first,
                        outcomes@[j],
                    ),
                forall|j: int| i <= j < self.commands@.len() ==> #[trigger] self.commands@[j] == old(self).commands@[j],
            decreases self.commands@.len() - i,
        {
            let ghost prev = self.commands@;
            match &outcomes[i] {
                Outcome::Spawn(r) => {
                    if first {
                        let spawned = match r {
                            Ok(()) => Ok(()),
                            Err(m) => Err(m.clone()),
                        };
                        self.commands[i].start(spawned);
                    }
                },
                Outcome::Poll(p) => {
                    if !first {
                        let polled = match p {
                            Ok(x) => Ok(*x),
                            Err(m) => Err(m.clone()),
                        };
                        self.commands[i].check(polled);
                    }
                },
                Outcome::Nothing => {},
            }
            assert(self.commands@ == prev.update(i as int, self.commands@[i as int]));
            i = i + 1;
        }
        assert forall|j: int| 0 <= j < old(self).descs().len() implies #[trigger] self.descs()[j] == advance(
            old(self).descs()[j],
            old(self).tick == 0,
            outcomes@[j],
        ) by {
            assert(self.commands@[j]@ == self.descs()[j]);
        }
        proof {
            if old(self).wf() {
                assert forall|j: int| 0 <= j < self.commands@.len() implies (#[trigger] self.commands@[j])@.wf() by {
                    lemma_advance_keeps_wf(old(self).commands@[j]@, old(self).tick == 0, outcomes@[j]);
                }
            }
        }
        let s = self.frame();
        out.write_str(s.as_str());
        self.tick = self.tick.wrapping_add(1);
    }
    /// The final pass: rewinds the terminal, then writes each command's
    /// summary as of tick 0 and a newline, followed by its detail block drawn
    /// from the captured streams `captures[i]` (output, then errors).
    pub fn print_details(&self, captures: &Vec<(Capture, Capture)>, out: &mut Terminal)
        requires
            captures@.len() == self.commands@.len(),
            old(out).wf(),
        ensures
            final(out).wf(),
            final(out).pending() == old(out).pending() + erase_rows(old(out).rows().len())
                + details_frame(self.descs(), captures@),
            (final(out).rows(), final(out).cursor()) == write_rows(
                old(out).rows(),
                rewound_cursor(*old(out)),
                details_frame(self.descs(), captures@),
            ),
    {
        out.reset();
        let mut s = String::new();
        let mut i: usize = 0;
        while i < self.commands.len()
            invariant
                i <= self.commands@.len(),
                captures@.len() == self.commands@.len(),
                s@ == details_frame(self.descs().subrange(0, i as int), captures@.subrange(0, i as int)),
            decreases self.commands@.len() - i,
        {
            let d = &self.commands[i];
            let line = d.summary(0);
            s.append(line.as_str());
            s.append("\n");
            let block = d.details(&captures[i].0, &captures[i].1);
            s.append(block.as_str());
            proof {
                reveal_strlit("\n");
                let p = self.descs().subrange(0, i as int + 1);
                let q = captures@.subrange(0, i as int + 1);
                assert(p.drop_last() =~= self.descs().subrange(0, i as int));
                assert(q.drop_last() =~= captures@.subrange(0, i as int));
                assert(s@ =~= details_frame(p, q));
            }
            i = i + 1;
        }
        assert(self.descs().subrange(0, i as int) =~= self.descs());
        assert(captures@.subrange(0, i as int) =~= captures@);
        out.write_str(s.as_str());
    }
}

/// A round keeps a valid command valid, whatever the caller reports.
pub proof fn lemma_advance_keeps_wf(d: DescView, first: bool, o: Outcome)
    requires
        d.wf(),
    ensures
        advance(d, first, o).wf(),
{
}

/// Once every command is terminal, no later round changes any of them,
/// whatever the counter and whatever the caller reports.
pub proof fn lemma_done_is_stable(c: Commands, outcomes: Seq<Outcome>)
    requires
        c.spec_all_done(),
        outcomes.len() == c.commands@.len(),
    ensures
        forall|i: int, first: bool|
            0 <= i < c.descs().len() ==> #[trigger] advance(c.descs()[i], first, outcomes[i])
                == c.descs()[i],
{
    assert forall|i: int, first: bool| 0 <= i < c.descs().len() implies #[trigger] advance(
        c.descs()[i],
        first,
        outcomes[i],
    ) == c.descs()[i] by {
        assert(c.descs()[i] == c.commands@[i]@);
    }
}

} // verus!
