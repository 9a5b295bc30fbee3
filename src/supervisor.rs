use vstd::prelude::*;
use vstd::string::*;
use crate::color::{Color, colors_in, escape_of, quote_color, quote_color_of};
use crate::text::{chars_of, push_char};

verus! {

/// Where a command is in its life.
pub enum CommandStatus {
    Unstarted,
    Running,
    Finished(i32),
    Error(String),
}

/// The mathematical value of a [`CommandStatus`].
pub ghost enum StatusView {
    Unstarted,
    Running,
    Finished(i32),
    Error(Seq<char>),
}

impl View for CommandStatus {
    type V = StatusView;

    open spec fn view(&self) -> StatusView {
        match self {
            CommandStatus::Unstarted => StatusView::Unstarted,
            CommandStatus::Running => StatusView::Running,
            CommandStatus::Finished(c) => StatusView::Finished(*c),
            CommandStatus::Error(m) => StatusView::Error(m@),
        }
    }
}

impl StatusView {
    /// No transition leaves a terminal status.
    pub open spec fn terminal(self) -> bool {
        self is Finished || self is Error
    }

    /// A failure: an error, or an exit with a nonzero code.
    pub open spec fn failed(self) -> bool {
        match self {
            StatusView::Error(_) => true,
            StatusView::Finished(c) => c != 0,
            _ => false,
        }
    }
}

impl CommandStatus {
    pub fn is_terminal_state(&self) -> (r: bool)
        ensures
            r == self@.terminal(),
            r <==> (self is Finished || self is Error),
    {
        match self {
            CommandStatus::Unstarted | CommandStatus::Running => false,
            CommandStatus::Finished(_) | CommandStatus::Error(_) => true,
        }
    }

    pub fn is_error(&self) -> (r: bool)
        ensures
            r == self@.failed(),
            r <==> (self is Error || (self matches CommandStatus::Finished(c) && c != 0)),
    {
        match self {
            CommandStatus::Unstarted | CommandStatus::Running => false,
            CommandStatus::Finished(c) => *c != 0,
            CommandStatus::Error(_) => true,
        }
    }
}

/// Text of one read of a process's captured stream.
pub enum Capture {
    /// The stream was not there to read.
    Missing,
    /// The whole stream.
    Read(String),
    /// What was read before the read failed, and the failure's description.
    ReadFailed(String, String),
}

/// The glyph that a status shows at a tick.
pub open spec fn glyph_of(st: StatusView, tick: usize) -> Seq<char> {
    match st {
        StatusView::Unstarted => {
            let k = tick % 4;
            if k == 0 {
                "\u{b7}  "@
            } else if k == 1 {
                " \u{b7} "@
            } else if k == 2 {
                "  \u{b7}"@
            } else {
                " \u{b7} "@
            }
        },
        StatusView::Running => {
            let k = tick % 10;
            if k == 0 {
                "\u{280b}"@
            } else if k == 1 {
                "\u{2819}"@
            } else if k == 2 {
                "\u{2839}"@
            } else if k == 3 {
                "\u{2838}"@
            } else if k == 4 {
                "\u{283c}"@
            } else if k == 5 {
                "\u{2834}"@
            } else if k == 6 {
                "\u{2826}"@
            } else if k == 7 {
                "\u{2827}"@
            } else if k == 8 {
                "\u{2807}"@
            } else {
                "\u{280f}"@
            }
        },
        StatusView::Finished(c) => if c == 0 {
            "OK"@
        } else {
            "FAILED"@
        },
        StatusView::Error(_) => "FAILED"@,
    }
}

/// The colour of a status's glyph.
pub open spec fn glyph_color(st: StatusView) -> Color {
    match st {
        StatusView::Unstarted => Color::Gray,
        StatusView::Running => Color::Normal,
        StatusView::Finished(c) => if c == 0 {
            Color::Green
        } else {
            Color::Red
        },
        StatusView::Error(_) => Color::Red,
    }
}

/// Words joined by single spaces.
pub open spec fn join_words(ws: Seq<Seq<char>>) -> Seq<char>
    decreases ws.len(),
{
    if ws.len() == 0 {
        Seq::empty()
    } else if ws.len() == 1 {
        ws[0]
    } else {
        join_words(ws.drop_last()) + seq![' '] + ws.last()
    }
}

/// `<argv joined by spaces>: <colour><glyph><normal>`, without a newline.
pub open spec fn summary_text(argv: Seq<Seq<char>>, st: StatusView, tick: usize) -> Seq<char> {
    join_words(argv) + seq![':', ' '] + escape_of(glyph_color(st).spec_code() as int) + glyph_of(
        st,
        tick,
    ) + escape_of(0)
}

/// Pieces of `s` between newlines; an empty text is one empty piece.
pub open spec fn split_lines(s: Seq<char>) -> Seq<Seq<char>>
    decreases s.len(),
{
    if s.len() == 0 {
        seq![Seq::<char>::empty()]
    } else {
        let q = split_lines(s.drop_last());
        if s.last() == '\n' {
            q.push(Seq::empty())
        } else {
            q.update(q.len() - 1, q.last().push(s.last()))
        }
    }
}

/// One captured line quoted: a `│` in the line's quote colour, back to normal,
/// a space, the line as it was, a newline.
pub open spec fn quote_line(l: Seq<char>) -> Seq<char> {
    escape_of(quote_color_of(colors_in(l)).spec_code() as int) + seq!['\u{2502}'] + escape_of(0)
        + seq![' '] + l + seq!['\n']
}

pub open spec fn quote_lines(ls: Seq<Seq<char>>) -> Seq<char>
    decreases ls.len(),
{
    if ls.len() == 0 {
        Seq::empty()
    } else {
        quote_lines(ls.drop_last()) + quote_line(ls.last())
    }
}

/// A captured text quoted line by line; nothing for an empty text.
pub open spec fn quote_text(t: Seq<char>) -> Seq<char> {
    if t.len() == 0 {
        Seq::empty()
    } else {
        quote_lines(split_lines(t))
    }
}

/// The annotation that stands after what was read when a read fails.
pub open spec fn read_failure_text(partial: Seq<char>, err: Seq<char>) -> Seq<char> {
    partial + escape_of(31) + "Error reading stdout"@ + escape_of(0) + seq![':', ' '] + err
}

impl Capture {
    /// The text that a capture quotes, if it has one.
    pub open spec fn text(&self) -> Option<Seq<char>> {
        match self {
            Capture::Missing => None,
            Capture::Read(t) => Some(t@),
            Capture::ReadFailed(p, e) => Some(read_failure_text(p@, e@)),
        }
    }
}

/// What a capture adds to the detail block.
pub open spec fn capture_block(c: Option<Seq<char>>) -> Seq<char> {
    match c {
        None => Seq::empty(),
        Some(t) => quote_text(t),
    }
}

/// The notice of a process that never started, in red, on its own line.
pub open spec fn start_failure_text() -> Seq<char> {
    escape_of(31) + seq!['!'] + escape_of(0) + " Failed to start process"@ + seq!['\n']
}

/// The mathematical value of a [`CommandDesc`].
pub ghost struct DescView {
    pub argv: Seq<Seq<char>>,
    pub started: bool,
    pub status: StatusView,
}

impl DescView {
    /// A command has a process exactly when it was started: then it has a
    /// program name and has left `Unstarted`. Without one it is either
    /// `Unstarted` or holds the error of a failed spawn.
    pub open spec fn wf(self) -> bool {
        &&& self.started ==> self.argv.len() > 0 && !(self.status is Unstarted)
        &&& !self.started ==> (self.status is Unstarted || self.status is Error)
    }
}

/// The detail block of a command: nothing unless it failed; the start failure
/// notice if it has no process; else its quoted output, then its quoted errors.
pub open spec fn details_text(d: DescView, out: Option<Seq<char>>, err: Option<Seq<char>>) -> Seq<char> {
    if !d.status.failed() {
        Seq::empty()
    } else if !d.started {
        start_failure_text()
    } else {
        capture_block(out) + capture_block(err)
    }
}

/// A command after its start is attempted with outcome `spawned`: nothing
/// changes without a program name or once it has left `Unstarted`; otherwise
/// it runs, or holds the error.
pub open spec fn after_start(d: DescView, spawned: Result<(), Seq<char>>) -> DescView {
    if d.argv.len() == 0 || !(d.status is Unstarted) {
        d
    } else {
        match spawned {
            Ok(()) => DescView { started: true, status: StatusView::Running, ..d },
            Err(m) => DescView { started: false, status: StatusView::Error(m), ..d },
        }
    }
}

/// The message for a process that ended without an exit code.
pub open spec fn no_code_message() -> Seq<char> {
    "Error reading status code"@
}

/// A command after a poll of its process with outcome `polled`: `Ok(None)`
/// while it runs, `Ok(Some(code))` once it exited, `Err` when the poll failed.
/// Nothing changes once terminal or without a process.
pub open spec fn after_check(d: DescView, polled: Result<Option<Option<i32>>, Seq<char>>) -> DescView {
    if d.status.terminal() || !d.started {
        d
    } else {
        match polled {
            Ok(None) => d,
            Ok(Some(Some(c))) => DescView { status: StatusView::Finished(c), ..d },
            Ok(Some(None)) => DescView { status: StatusView::Error(no_code_message()), ..d },
            Err(m) => DescView { status: StatusView::Error(m), ..d },
        }
    }
}

/// One command: its argument vector, whether its process was started, and its
/// status. The process itself is held by the caller.
pub struct CommandDesc {
    pub command_strs: Vec<String>,
    pub started: bool,
    pub status: CommandStatus,
}

impl View for CommandDesc {
    type V = DescView;

    open spec fn view(&self) -> DescView {
        DescView { argv: self.command_strs.deep_view(), started: self.started, status: self.status@ }
    }
}

fn join_strings(ws: &Vec<String>) -> (r: String)
    ensures
        r@ == join_words(ws.deep_view()),
{
    let mut s = String::new();
    let mut i: usize = 0;
    while i < ws.len()
        invariant
            i <= ws@.len(),
            s@ == join_words(ws.deep_view().subrange(0, i as int)),
        decreases ws@.len() - i,
    {
        proof {
            let p = ws.deep_view().subrange(0, i as int + 1);
            assert(p.drop_last() =~= ws.deep_view().subrange(0, i as int));
            if i == 0 {
                assert(ws.deep_view().subrange(0, 0) =~= Seq::<Seq<char>>::empty());
            }
        }
        if i > 0 {
            s.append(" ");
        }
        s.append(ws[i].as_str());
        proof {
            reveal_strlit(" ");
            let p = ws.deep_view().subrange(0, i as int + 1);
            assert(s@ =~= join_words(p));
        }
        i = i + 1;
    }
    assert(ws.deep_view().subrange(0, i as int) =~= ws.deep_view());
    s
}

fn glyph(st: &CommandStatus, tick: usize) -> (r: &'static str)
    ensures
        r@ == glyph_of(st@, tick),
{
    match st {
        CommandStatus::Unstarted => {
            let k = tick % 4;
            if k == 0 {
                "\u{b7}  "
            } else if k == 1 {
                " \u{b7} "
            } else if k == 2 {
                "  \u{b7}"
            } else {
                " \u{b7} "
            }
        },
        CommandStatus::Running => {
            let k = tick % 10;
            if k == 0 {
                "\u{280b}"
            } else if k == 1 {
                "\u{2819}"
            } else if k == 2 {
                "\u{2839}"
            } else if k == 3 {
                "\u{2838}"
            } else if k == 4 {
                "\u{283c}"
            } else if k == 5 {
                "\u{2834}"
            } else if k == 6 {
                "\u{2826}"
            } else if k == 7 {
                "\u{2827}"
            } else if k == 8 {
                "\u{2807}"
            } else {
                "\u{280f}"
            }
        },
        CommandStatus::Finished(c) => if *c == 0 {
            "OK"
        } else {
            "FAILED"
        },
        CommandStatus::Error(_) => "FAILED",
    }
}

fn glyph_color_of(st: &CommandStatus) -> (r: Color)
    ensures
        r == glyph_color(st@),
{
    match st {
        CommandStatus::Unstarted => Color::Gray,
        CommandStatus::Running => Color::Normal,
        CommandStatus::Finished(c) => if *c == 0 {
            Color::Green
        } else {
            Color::Red
        },
        CommandStatus::Error(_) => Color::Red,
    }
}

fn quote_captured(t: &str) -> (r: String)
    ensures
        r@ == quote_text(t@),
{
    let cs = chars_of(t);
    if cs.len() == 0 {
        return String::new();
    }
    let mut r = String::new();
    let mut cur = String::new();
    let ghost mut done: Seq<Seq<char>> = Seq::empty();
    let mut i: usize = 0;
    while i < cs.len()
        invariant
            cs@ == t@,
            i <= cs@.len(),
            split_lines(t@.subrange(0, i as int)) == done.push(cur@),
            r@ == quote_lines(done),
        decreases cs@.len() - i,
    {
        let c = cs[i];
        proof {
            assert(t@.subrange(0, i as int + 1).drop_last() =~= t@.subrange(0, i as int));
        }
        if c == '\n' {
            let line = quote_one(cur.as_str());
            r.append(line.as_str());
            proof {
                assert(done.push(cur@).drop_last() =~= done);
                done = done.push(cur@);
            }
            cur = String::new();
        } else {
            let ghost old_cur = cur@;
            push_char(&mut cur, c);
            proof {
                assert(done.push(old_cur).update(done.len() as int, old_cur.push(c)) =~= done.push(cur@));
            }
        }
        i = i + 1;
    }
    let line = quote_one(cur.as_str());
    r.append(line.as_str());
    proof {
        assert(t@.subrange(0, i as int) =~= t@);
        assert(done.push(cur@).drop_last() =~= done);
    }
    r
}

fn quote_one(l: &str) -> (r: String)
    ensures
        r@ == quote_line(l@),
{
    let colors = Color::find_all(l);
    let q = quote_color(&colors);
    let mut r = q.render();
    r.append("\u{2502}");
    let n = Color::Normal.render();
    r.append(n.as_str());
    r.append(" ");
    r.append(l);
    r.append("\n");
    proof {
        reveal_strlit("\u{2502}");
        reveal_strlit(" ");
        reveal_strlit("\n");
        assert(r@ =~= quote_line(l@));
    }
    r
}

fn capture_text(c: &Capture) -> (r: Option<String>)
    ensures
        match r {
            None => c.text() is None,
            Some(t) => c.text() == Some(t@),
        },
{
    match c {
        Capture::Missing => None,
        Capture::Read(t) => Some(t.clone()),
        Capture::ReadFailed(p, e) => {
            let mut s = p.clone();
            let red = Color::Red.render();
            s.append(red.as_str());
            s.append("Error reading stdout");
            let n = Color::Normal.render();
            s.append(n.as_str());
            s.append(": ");
            s.append(e.as_str());
            proof {
                reveal_strlit(": ");
                assert(s@ =~= read_failure_text(p@, e@));
            }
            Some(s)
        },
    }
}

fn capture_quoted(c: &Capture) -> (r: String)
    ensures
        r@ == capture_block(c.text()),
{
    match capture_text(c) {
        None => String::new(),
        Some(t) => quote_captured(t.as_str()),
    }
}

impl CommandDesc {
    pub fn new(command: Vec<String>) -> (r: CommandDesc)
        ensures
            r@ == (DescView { argv: command.deep_view(), started: false, status: StatusView::Unstarted }),
            r@.wf(),
    {
        CommandDesc { command_strs: command, started: false, status: CommandStatus::Unstarted }
    }

    /// Whether a start would spawn a process: the argument vector names a
    /// program and the command has not been started yet.
    pub fn wants_spawn(&self) -> (r: bool)
        ensures
            r == (self@.argv.len() > 0 && self@.status is Unstarted),
    {
        self.command_strs.len() > 0 && matches!(self.status, CommandStatus::Unstarted)
    }

    /// Whether a poll would be recorded: the process was started and has not
    /// reached a terminal status.
    pub fn wants_poll(&self) -> (r: bool)
        ensures
            r == (self@.started && !self@.status.terminal()),
    {
        self.started && !self.status.is_terminal_state()
    }

    /// Whether the detail block quotes the process's streams: it was started
    /// and failed.
    pub fn wants_output(&self) -> (r: bool)
        ensures
            r == (self@.started && self@.status.failed()),
    {
        self.started && self.status.is_error()
    }

    /// Records the outcome of spawning the program: `Ok` once it runs, `Err`
    /// with the system's description when it could not be started.
    pub fn start(&mut self, spawned: Result<(), String>)
        ensures
            final(self)@ == after_start(
                old(self)@,
                match spawned {
                    Ok(()) => Ok(()),
                    Err(m) => Err(m@),
                },
            ),
            old(self)@.wf() ==> final(self)@.wf(),
    {
        if self.command_strs.len() == 0 || !matches!(self.status, CommandStatus::Unstarted) {
            return;
        }
        match spawned {
            Ok(()) => {
                self.started = true;
                self.status = CommandStatus::Running;
            },
            Err(m) => {
                self.started = false;
                self.status = CommandStatus::Error(m);
            },
        }
    }

    /// Records the outcome of a non-blocking poll of the process.
    pub fn check(&mut self, polled: Result<Option<Option<i32>>, String>)
        ensures
            final(self)@ == after_check(
                old(self)@,
                match polled {
                    Ok(x) => Ok(x),
                    Err(m) => Err(m@),
                },
            ),
            old(self)@.wf() ==> final(self)@.wf(),
    {
        if self.status.is_terminal_state() || !self.started {
            return;
        }
        match polled {
            Ok(None) => {},
            Ok(Some(Some(c))) => {
                self.status = CommandStatus::Finished(c);
            },
            Ok(Some(None)) => {
                self.status = CommandStatus::Error(String::from_str("Error reading status code"));
            },
            Err(m) => {
                self.status = CommandStatus::Error(m);
            },
        }
    }

    /// The one-line summary of the command at a tick.
    pub fn summary(&self, tick: usize) -> (r: String)
        ensures
            r@ == summary_text(self@.argv, self@.status, tick),
    {
        let mut s = join_strings(&self.command_strs);
        s.append(": ");
        let c = glyph_color_of(&self.status).render();
        s.append(c.as_str());
        s.append(glyph(&self.status, tick));
        let n = Color::Normal.render();
        s.append(n.as_str());
        proof {
            reveal_strlit(": ");
            assert(s@ =~= summary_text(self@.argv, self@.status, tick));
        }
        s
    }

    /// Writes the one-line summary, with no newline.
    pub fn print_summary(&self, tick: usize, out: &mut crate::terminal::Terminal)
        requires
            old(out).wf(),
        ensures
            final(out).wf(),
            final(out).pending() == old(out).pending() + summary_text(self@.argv, self@.status, tick),
            (final(out).rows(), final(out).cursor()) == crate::terminal::write_rows(
                old(out).rows(),
                old(out).cursor(),
                summary_text(self@.argv, self@.status, tick),
            ),
    {
        let s = self.summary(tick);
        out.write_str(s.as_str());
    }

    /// The detail block of the command, given what its process wrote to its
    /// output and error streams.
    pub fn details(&self, stdout: &Capture, stderr: &Capture) -> (r: String)
        ensures
            r@ == details_text(self@, stdout.text(), stderr.text()),
    {
        if !self.status.is_error() {
            return String::new();
        }
        if !self.started {
            let mut s = Color::Red.render();
            s.append("!");
            let n = Color::Normal.render();
            s.append(n.as_str());
            s.append(" Failed to start process");
            s.append("\n");
            proof {
                reveal_strlit("!");
                reveal_strlit("\n");
                assert(s@ =~= start_failure_text());
            }
            return s;
        }
        let mut s = capture_quoted(stdout);
        let e = capture_quoted(stderr);
        s.append(e.as_str());
        s
    }

    /// Writes the detail block of the command.
    pub fn print_details(&self, stdout: &Capture, stderr: &Capture, out: &mut crate::terminal::Terminal)
        requires
            old(out).wf(),
        ensures
            final(out).wf(),
            final(out).pending() == old(out).pending() + details_text(self@, stdout.text(), stderr.text()),
            (final(out).rows(), final(out).cursor()) == crate::terminal::write_rows(
                old(out).rows(),
                old(out).cursor(),
                details_text(self@, stdout.text(), stderr.text()),
            ),
    {
        let s = self.details(stdout, stderr);
        out.write_str(s.as_str());
    }
}

/// Neither a start nor a poll, whatever it reports, takes a valid command to
/// an invalid one.
pub proof fn lemma_transitions_keep_wf(
    d: DescView,
    spawned: Result<(), Seq<char>>,
    polled: Result<Option<Option<i32>>, Seq<char>>,
)
    requires
        d.wf(),
    ensures
        after_start(d, spawned).wf(),
        after_check(d, polled).wf(),
{
}

/// A valid command with an empty argument vector stays `Unstarted` whatever
/// a start or a poll reports, and has no detail block.
pub proof fn lemma_empty_command_inert(
    d: DescView,
    spawned: Result<(), Seq<char>>,
    polled: Result<Option<Option<i32>>, Seq<char>>,
    out: Option<Seq<char>>,
    err: Option<Seq<char>>,
)
    requires
        d.wf(),
        d.argv.len() == 0,
        d.status == StatusView::Unstarted,
    ensures
        after_start(d, spawned).status == StatusView::Unstarted,
        after_check(d, polled).status == StatusView::Unstarted,
        after_check(after_start(d, spawned), polled).status == StatusView::Unstarted,
        details_text(d, out, err) == Seq::<char>::empty(),
{
}

} // verus!
