//! The pseudo-terminal sessions as far as they can be decided without
//! touching the system: how a shell is started, the registry of live
//! children, and what the reader of a session does with each read.

use vstd::prelude::*;
use crate::text::{chars_of_str, push_chars};

verus! {

/// The terminal type that every child is told.
pub const TERM: &'static str = "xterm-256color";

/// The program name that every child is told.
pub const TERM_PROGRAM: &'static str = "Kova";

/// The shell that is started where the environment names none.
pub const DEFAULT_SHELL: &'static str = "/bin/zsh";

/// The window size of a pseudo-terminal, in cells and in pixels.
#[derive(Clone, Copy, Debug, PartialEq, Eq, Structural)]
pub struct Winsize {
    pub ws_row: u16,
    pub ws_col: u16,
    pub ws_xpixel: u16,
    pub ws_ypixel: u16,
}

/// The window size for a screen of `cols` by `rows` cells; the size in
/// pixels is left at zero.
pub fn window_size(cols: u16, rows: u16) -> (w: Winsize)
    ensures
        w == (Winsize { ws_row: rows, ws_col: cols, ws_xpixel: 0, ws_ypixel: 0 }),
{
    Winsize { ws_row: rows, ws_col: cols, ws_xpixel: 0, ws_ypixel: 0 }
}

/// The last component of a path, as `Path::file_name` gives it on a Unix
/// system, where `/` alone parts the components: none where the path ends in
/// `..` or has no component.
pub uninterp spec fn path_file_name(path: Seq<char>) -> Option<Seq<char>>;

/// `Path::file_name`, read as text. On a Unix system, which is all that this
/// library is for, the result depends on the text of the path alone.
#[verifier::external_body]
fn file_name(path: &str) -> (r: Option<String>)
    ensures
        r is Some <==> path_file_name(path@) is Some,
        r is Some ==> r->0@ == path_file_name(path@)->0,
{
    match std::path::Path::new(path).file_name() {
        Some(name) => name.to_str().map(String::from),
        None => None,
    }
}

/// The name a login shell goes by: a dash and the shell's file name, `zsh`
/// where it has none.
pub open spec fn login_name(file_name: Option<Seq<char>>) -> Seq<char> {
    match file_name {
        Some(name) => seq!['-'] + name,
        None => seq!['-'] + "zsh"@,
    }
}

/// The name a login shell goes by, from the file name of the shell.
pub fn arg0_for(file_name: Option<&str>) -> (r: String)
    ensures
        r@ == login_name(
            match file_name {
                Some(n) => Some(n@),
                None => None,
            },
        ),
{
    let name: &str = match file_name {
        Some(n) => n,
        None => "zsh",
    };
    let chars = chars_of_str(name);
    let mut out = String::new();
    out.push('-');
    push_chars(&mut out, &chars, 0, chars.len());
    assert(chars@.subrange(0, chars.len() as int) =~= chars@);
    assert(out@ =~= seq!['-'] + name@);
    out
}

/// The name that the shell at `shell` is started under as a login shell.
pub fn login_arg0(shell: &str) -> (r: String)
    ensures
        r@ == login_name(path_file_name(shell@)),
{
    match file_name(shell) {
        Some(name) => arg0_for(Some(name.as_str())),
        None => arg0_for(None),
    }
}

/// The shell to start: the one the environment names, else the default.
pub fn resolve_shell(shell_env: Option<String>) -> (r: String)
    ensures
        r@ == (match shell_env {
            Some(s) => s@,
            None => DEFAULT_SHELL@,
        }),
{
    match shell_env {
        Some(s) => s,
        None => DEFAULT_SHELL.to_owned(),
    }
}

/// The directory to start the shell in: the one asked for, else the home
/// directory, else the root.
pub fn start_dir(working_dir: Option<&str>, home: Option<String>) -> (r: String)
    ensures
        r@ == (match working_dir {
            Some(d) => d@,
            None => match home {
                Some(h) => h@,
                None => "/"@,
            },
        }),
{
    match working_dir {
        Some(d) => d.to_owned(),
        None => match home {
            Some(h) => h,
            None => "/".to_owned(),
        },
    }
}

/// Where a session stands.
#[derive(Clone, Copy, Debug, PartialEq, Eq, Structural)]
pub enum PaneState {
    /// The child has been started and has written nothing yet.
    Spawning,
    /// The child has written something.
    Running,
    /// The child's output has ended.
    Exited,
}

/// How a read from the child ended.
#[derive(Clone, Copy, Debug, PartialEq, Eq, Structural)]
pub enum ReadEvent {
    /// So many bytes arrived, at least one.
    Data(usize),
    /// The end of the output.
    Eof,
    /// A signal interrupted the read.
    Interrupted,
    /// The read failed.
    Failed,
}

/// What the reader does next.
#[derive(Clone, Copy, Debug, PartialEq, Eq, Structural)]
pub enum ReaderStep {
    /// Hand so many bytes to the interpreter, then read again.
    Feed(usize),
    /// Read again.
    Retry,
    /// Leave the loop.
    Stop,
}

/// The state after a read, and whether the reader goes on.
pub open spec fn state_after(state: PaneState, event: ReadEvent) -> PaneState {
    match state {
        PaneState::Exited => PaneState::Exited,
        _ => match event {
            ReadEvent::Data(n) => if n == 0 {
                PaneState::Exited
            } else {
                PaneState::Running
            },
            ReadEvent::Eof => PaneState::Exited,
            ReadEvent::Interrupted => state,
            ReadEvent::Failed => PaneState::Exited,
        },
    }
}

/// What the reader does after a read.
pub open spec fn step_after(state: PaneState, event: ReadEvent) -> ReaderStep {
    match state {
        PaneState::Exited => ReaderStep::Stop,
        _ => match event {
            ReadEvent::Data(n) => if n == 0 {
                ReaderStep::Stop
            } else {
                ReaderStep::Feed(n)
            },
            ReadEvent::Eof => ReaderStep::Stop,
            ReadEvent::Interrupted => ReaderStep::Retry,
            ReadEvent::Failed => ReaderStep::Stop,
        },
    }
}

impl PaneState {
    /// Whether the shell has shown a sign of life.
    pub fn is_ready(&self) -> (r: bool)
        ensures
            r == (*self != PaneState::Spawning),
    {
        match self {
            PaneState::Spawning => false,
            _ => true,
        }
    }

    /// Whether the shell is still there.
    pub fn is_alive(&self) -> (r: bool)
        ensures
            r == (*self != PaneState::Exited),
    {
        match self {
            PaneState::Exited => false,
            _ => true,
        }
    }

    /// Whether the reader reads once more: not after it was told to shut
    /// down, which leaves the state as it is, and not once the session has
    /// ended.
    pub fn should_read(&self, shutdown: bool) -> (r: bool)
        ensures
            r == (!shutdown && *self != PaneState::Exited),
    {
        !shutdown && self.is_alive()
    }

    /// Takes in how a read ended: data makes the session run, the end of the
    /// output or a failed read ends it, an interrupted read changes nothing.
    /// A session never leaves `Exited`.
    pub fn on_read(&mut self, event: ReadEvent) -> (step: ReaderStep)
        ensures
            *final(self) == state_after(*old(self), event),
            step == step_after(*old(self), event),
    {
        match *self {
            PaneState::Exited => ReaderStep::Stop,
            _ => match event {
                ReadEvent::Data(n) => {
                    if n == 0 {
                        *self = PaneState::Exited;
                        ReaderStep::Stop
                    } else {
                        *self = PaneState::Running;
                        ReaderStep::Feed(n)
                    }
                },
                ReadEvent::Eof => {
                    *self = PaneState::Exited;
                    ReaderStep::Stop
                },
                ReadEvent::Interrupted => ReaderStep::Retry,
                ReadEvent::Failed => {
                    *self = PaneState::Exited;
                    ReaderStep::Stop
                },
            },
        }
    }
}

/// A live child: its process id and whether it has been told to shut down.
#[derive(Clone, Copy, Debug, PartialEq, Eq, Structural)]
pub struct PtyEntry {
    pub pid: u32,
    pub shutdown: bool,
}

/// The children that are alive, in the order they were started.
pub struct PtyRegistry {
    pub entries: Vec<PtyEntry>,
}

/// The entries whose process id is not `pid`, in order.
pub open spec fn without(entries: Seq<PtyEntry>, pid: u32) -> Seq<PtyEntry> {
    entries.filter(|e: PtyEntry| e.pid != pid)
}

/// The entries, each told to shut down.
pub open spec fn all_flagged(entries: Seq<PtyEntry>) -> Seq<PtyEntry> {
    Seq::new(entries.len(), |i: int| PtyEntry { pid: entries[i].pid, shutdown: true })
}

/// The process ids of the entries, in order.
pub open spec fn pids(entries: Seq<PtyEntry>) -> Seq<u32> {
    Seq::new(entries.len(), |i: int| entries[i].pid)
}

/// Whether an entry for `pid` has been told to shut down.
pub open spec fn flagged(entries: Seq<PtyEntry>, pid: u32) -> bool {
    exists|i: int| 0 <= i < entries.len() && entries[i].pid == pid && entries[i].shutdown
}

/// Why a shell could not be started.
#[derive(Debug)]
pub struct SpawnError {
    pub message: String,
}

impl View for PtyRegistry {
    type V = Seq<PtyEntry>;

    open spec fn view(&self) -> Seq<PtyEntry> {
        self.entries@
    }
}

impl PtyRegistry {
    /// A registry without children.
    pub fn new() -> (r: PtyRegistry)
        ensures
            r@ == Seq::<PtyEntry>::empty(),
    {
        PtyRegistry { entries: Vec::new() }
    }

    /// The number of children registered.
    pub fn len(&self) -> (n: usize)
        ensures
            n == self@.len(),
    {
        self.entries.len()
    }

    /// Adds a child that has just been started.
    pub fn register(&mut self, pid: u32)
        ensures
            final(self)@ == old(self)@.push(PtyEntry { pid, shutdown: false }),
    {
        self.entries.push(PtyEntry { pid, shutdown: false });
    }

    /// Takes in how starting a shell ended: a child that was started is
    /// registered, a failure leaves the registry as it was and is handed on.
    pub fn complete_spawn(&mut self, started: Result<u32, SpawnError>) -> (r: Result<
        u32,
        SpawnError,
    >)
        ensures
            match started {
                Ok(pid) => r == Ok::<u32, SpawnError>(pid) && final(self)@ == old(self)@.push(
                    PtyEntry { pid, shutdown: false },
                ),
                Err(e) => r == Err::<u32, SpawnError>(e) && final(self)@ == old(self)@,
            },
    {
        match started {
            Ok(pid) => {
                self.register(pid);
                Ok(pid)
            },
            Err(e) => Err(e),
        }
    }

    /// Whether a child with this process id has been told to shut down.
    pub fn is_flagged(&self, pid: u32) -> (r: bool)
        ensures
            r == flagged(self@, pid),
    {
        let mut i: usize = 0;
        while i < self.entries.len()
            invariant
                i <= self.entries.len(),
                forall|j: int|
                    0 <= j < i ==> !(self.entries@[j].pid == pid && self.entries@[j].shutdown),
            decreases self.entries.len() - i,
        {
            if self.entries[i].pid == pid && self.entries[i].shutdown {
                return true;
            }
            i += 1;
        }
        false
    }

    /// Tells the child with this process id to shut down, if it is
    /// registered.
    pub fn flag(&mut self, pid: u32)
        ensures
            final(self)@.len() == old(self)@.len(),
            forall|i: int|
                0 <= i < old(self)@.len() ==> #[trigger] final(self)@[i] == (if old(self)@[i].pid
                    == pid {
                    PtyEntry { pid, shutdown: true }
                } else {
                    old(self)@[i]
                }),
    {
        let mut i: usize = 0;
        while i < self.entries.len()
            invariant
                i <= self.entries.len(),
                self.entries.len() == old(self).entries.len(),
                forall|j: int|
                    0 <= j < i ==> #[trigger] self.entries@[j] == (if old(self)@[j].pid == pid {
                        PtyEntry { pid, shutdown: true }
                    } else {
                        old(self)@[j]
                    }),
                forall|j: int| i <= j < self.entries.len() ==> self.entries@[j] == old(self)@[j],
            decreases self.entries.len() - i,
        {
            if self.entries[i].pid == pid {
                self.entries[i].shutdown = true;
            }
            i += 1;
        }
    }

    /// Tells every child to shut down and hands back their process ids, for
    /// the caller to hang up on each and, after a short while, to collect
    /// those that have gone without waiting for the others.
    pub fn shutdown_all(&mut self) -> (r: Vec<u32>)
        ensures
            final(self)@ == all_flagged(old(self)@),
            r@ == pids(old(self)@),
    {
        let mut out: Vec<u32> = Vec::new();
        let mut i: usize = 0;
        while i < self.entries.len()
            invariant
                i <= self.entries.len(),
                self.entries.len() == old(self).entries.len(),
                out@.len() == i,
                forall|j: int| 0 <= j < i ==> out@[j] == old(self)@[j].pid,
                forall|j: int|
                    0 <= j < i ==> self.entries@[j] == (PtyEntry {
                        pid: old(self)@[j].pid,
                        shutdown: true,
                    }),
                forall|j: int| i <= j < self.entries.len() ==> self.entries@[j] == old(self)@[j],
            decreases self.entries.len() - i,
        {
            self.entries[i].shutdown = true;
            out.push(self.entries[i].pid);
            i += 1;
        }
        assert(self@ =~= all_flagged(old(self)@));
        assert(out@ =~= pids(old(self)@));
        out
    }

    /// Takes the child with this process id off the registry. A child that
    /// is not registered changes nothing.
    pub fn remove(&mut self, pid: u32)
        ensures
            final(self)@ == without(old(self)@, pid),
    {
        let mut kept: Vec<PtyEntry> = Vec::new();
        let mut i: usize = 0;
        assert(old(self)@.take(0) =~= Seq::<PtyEntry>::empty());
        while i < self.entries.len()
            invariant
                i <= self.entries.len(),
                self.entries == old(self).entries,
                kept@ == without(old(self)@.take(i as int), pid),
            decreases self.entries.len() - i,
        {
            let e = self.entries[i];
            proof {
                let head = old(self)@.take(i as int);
                assert(old(self)@.take(i + 1) =~= head.push(e));
                lemma_filter_push(head, e, pid);
            }
            if e.pid != pid {
                kept.push(e);
            }
            i += 1;
        }
        assert(old(self)@.take(self.entries.len() as int) =~= old(self)@);
        self.entries = kept;
    }
}

proof fn lemma_filter_push(head: Seq<PtyEntry>, e: PtyEntry, pid: u32)
    ensures
        without(head.push(e), pid) == (if e.pid != pid {
            without(head, pid).push(e)
        } else {
            without(head, pid)
        }),
{
    reveal(Seq::filter);
    assert(head.push(e).drop_last() =~= head);
}

/// Telling every child to shut down twice is the same as telling it once.
pub proof fn lemma_shutdown_idempotent(entries: Seq<PtyEntry>)
    ensures
        all_flagged(all_flagged(entries)) == all_flagged(entries),
        pids(all_flagged(entries)) == pids(entries),
{
    assert(all_flagged(all_flagged(entries)) =~= all_flagged(entries));
    assert(pids(all_flagged(entries)) =~= pids(entries));
}

/// Taking a child off the registry twice is the same as taking it off once.
pub proof fn lemma_remove_idempotent(entries: Seq<PtyEntry>, pid: u32)
    ensures
        without(without(entries, pid), pid) == without(entries, pid),
    decreases entries.len(),
{
    reveal(Seq::filter);
    if entries.len() > 0 {
        let head = entries.drop_last();
        let e = entries.last();
        lemma_remove_idempotent(head, pid);
        assert(head.push(e) =~= entries);
        lemma_filter_push(head, e, pid);
        if e.pid != pid {
            lemma_filter_push(without(head, pid), e, pid);
        }
    }
}

} // verus!
