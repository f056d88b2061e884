use vstd::prelude::*;

use crate::command::{argv, command_for, run_command_if_required, views};
use crate::naming::{backup_target, backup_target_at, option_view};
use crate::timestamp::{append_decimal, decimal, local_now, LocalTimestamp};

verus! {

/// What happened to the paths of a change notification.
#[derive(Clone, Copy, Debug, PartialEq, Eq, Structural)]
pub enum EventKind {
    Created,
    Modified,
    Other,
}

/// A change notification: its kind and the paths it concerns, in the order
/// in which they are to be handled.
#[derive(Clone, Debug)]
pub struct ChangeEvent {
    pub kind: EventKind,
    pub paths: Vec<String>,
}

/// The two kinds of error that end a watch.
#[derive(Clone, Copy, Debug, PartialEq, Eq, Structural)]
pub enum ErrorKind {
    /// The backup path is not a directory, or the watch root cannot be watched.
    Configuration,
    /// A backup copy failed.
    Io,
}

/// An error that ends a watch, with the path or the cause it concerns.
#[derive(Clone, Debug)]
pub struct WatchError {
    pub kind: ErrorKind,
    pub detail: String,
}

impl View for WatchError {
    type V = (ErrorKind, Seq<char>);

    open spec fn view(&self) -> (ErrorKind, Seq<char>) {
        (self.kind, self.detail@)
    }
}

/// Where a watch stands.
#[derive(Clone, Copy, Debug, PartialEq, Eq, Structural)]
pub enum Phase {
    /// Waiting for the subscription to the watch root.
    Subscribing,
    /// Waiting to learn whether the backup path is a directory.
    CheckingDirectory,
    /// Waiting for the next change notification.
    Waiting,
    /// Waiting for a backup copy to finish.
    Copying,
    /// Waiting for a command to finish.
    Commanding,
    /// The watch has ended.
    Stopped,
}

/// Why a backup copy did not happen.
#[derive(Clone, Debug)]
pub enum CopyError {
    /// A file of the target's name exists already.
    TargetExists,
    /// Any other failure, with its cause.
    Failed(String),
}

/// What the caller reports to a watch: the outcome of the last action, a
/// notification, or a request to stop.
#[derive(Debug)]
pub enum Input {
    /// The outcome of subscribing to the watch root.
    Subscribed(Result<(), String>),
    /// The backup path was created where missing; whether it is now a directory.
    DirectoryChecked(bool),
    /// A change notification, or an error of the notification source.
    Notified(Result<ChangeEvent, String>),
    /// The outcome of a backup copy.
    Copied(Result<(), CopyError>),
    /// The outcome of a command.
    CommandFinished(Result<(), String>),
    /// The watch is to end once the event in hand is handled.
    Cancelled,
}

/// What a watch asks the caller to do next.
#[derive(Debug)]
pub enum Action {
    /// Subscribe to changes under this root, recursively.
    Subscribe(String),
    /// Create this directory and its missing ancestors, then report whether it is a directory.
    EnsureDirectory(String),
    /// Wait for the next change notification.
    AwaitEvent,
    /// Copy a file into a new file; never overwrite.
    Copy { from: String, to: String },
    /// Run this program with these arguments: the program is the first.
    RunCommand(Vec<String>),
    /// The request to stop is noted; the outcome of the last action is still awaited.
    CancelNoted,
    /// The input was not one this phase waits for; nothing changed.
    Ignore,
    /// The watch has ended: on this error, or on request.
    Stop(Option<WatchError>),
}

pub enum ActionModel {
    Subscribe(Seq<char>),
    EnsureDirectory(Seq<char>),
    AwaitEvent,
    Copy(Seq<char>, Seq<char>),
    RunCommand(Seq<Seq<char>>),
    CancelNoted,
    Ignore,
    Stop(Option<(ErrorKind, Seq<char>)>),
}

impl View for Action {
    type V = ActionModel;

    open spec fn view(&self) -> ActionModel {
        match self {
            Action::Subscribe(r) => ActionModel::Subscribe(r@),
            Action::EnsureDirectory(d) => ActionModel::EnsureDirectory(d@),
            Action::AwaitEvent => ActionModel::AwaitEvent,
            Action::Copy { from, to } => ActionModel::Copy(from@, to@),
            Action::RunCommand(a) => ActionModel::RunCommand(views(a@)),
            Action::CancelNoted => ActionModel::CancelNoted,
            Action::Ignore => ActionModel::Ignore,
            Action::Stop(e) => ActionModel::Stop(
                match e {
                    None => None,
                    Some(e) => Some(e@),
                },
            ),
        }
    }
}

/// The state of a watch: its configuration, its phase, the paths of the
/// current notification still to handle, the path in hand, the backup name
/// chosen for it with the number of names tried after it, the name now
/// tried, and whether a stop was requested.
#[verifier::ext_equal]
pub struct SessionModel {
    pub root: Seq<char>,
    pub backup_dir: Option<Seq<char>>,
    pub command: Option<Seq<char>>,
    pub phase: Phase,
    pub pending: Seq<Seq<char>>,
    pub current: Seq<char>,
    pub base: Seq<char>,
    pub attempt: nat,
    pub target: Option<Seq<char>>,
    pub cancelled: bool,
}

/// The largest number of names tried after a backup's own name.
pub const MAX_ATTEMPT: u32 = 0xffff_ffff;

/// The `k`-th name tried for a backup: its own name first, then that name
/// followed by `.1`, `.2` and so on.
pub open spec fn candidate(base: Seq<char>, k: nat) -> Seq<char> {
    if k == 0 {
        base
    } else {
        base + seq!['.'] + decimal(k)
    }
}

/// The state and first action of a new watch: subscribe to the root before
/// anything else.
pub open spec fn start(
    root: Seq<char>,
    backup_dir: Option<Seq<char>>,
    command: Option<Seq<char>>,
) -> (SessionModel, ActionModel) {
    (
        SessionModel {
            root,
            backup_dir,
            command,
            phase: Phase::Subscribing,
            pending: Seq::empty(),
            current: Seq::empty(),
            base: Seq::empty(),
            attempt: 0,
            target: None,
            cancelled: false,
        },
        ActionModel::Subscribe(root),
    )
}

pub open spec fn stopped(m: SessionModel, e: Option<(ErrorKind, Seq<char>)>) -> (
    SessionModel,
    ActionModel,
) {
    (SessionModel { phase: Phase::Stopped, ..m }, ActionModel::Stop(e))
}

/// Takes up the next pending path: copy it where it has a backup target,
/// else run the command for it where one is given, else pass over it. Once
/// no path is left, wait for the next notification, or stop where a stop was
/// requested.
pub open spec fn advance(m: SessionModel, at: LocalTimestamp) -> (SessionModel, ActionModel)
    decreases m.pending.len(),
{
    if m.pending.len() == 0 {
        if m.cancelled {
            stopped(m, None)
        } else {
            (SessionModel { phase: Phase::Waiting, ..m }, ActionModel::AwaitEvent)
        }
    } else {
        let p = m.pending[0];
        let rest = m.pending.skip(1);
        match backup_target(p, m.backup_dir, at) {
            Some(t) => (
                SessionModel {
                    phase: Phase::Copying,
                    pending: rest,
                    current: p,
                    base: t,
                    attempt: 0,
                    target: Some(t),
                    ..m
                },
                ActionModel::Copy(p, t),
            ),
            None => match command_for(p, None, m.command) {
                Some(a) => (
                    SessionModel {
                        phase: Phase::Commanding,
                        pending: rest,
                        current: p,
                        target: None,
                        ..m
                    },
                    ActionModel::RunCommand(a),
                ),
                None => advance(SessionModel { pending: rest, ..m }, at),
            },
        }
    }
}

pub open spec fn dir_of(m: SessionModel) -> Seq<char> {
    match m.backup_dir {
        Some(d) => d,
        None => Seq::empty(),
    }
}

/// The next state and action of a watch on an input, at the time `at`.
pub open spec fn next(m: SessionModel, input: Input, at: LocalTimestamp) -> (
    SessionModel,
    ActionModel,
) {
    if m.phase == Phase::Stopped {
        stopped(m, None)
    } else if input is Cancelled {
        if m.phase == Phase::Copying || m.phase == Phase::Commanding {
            (SessionModel { cancelled: true, ..m }, ActionModel::CancelNoted)
        } else {
            stopped(m, None)
        }
    } else {
        match (m.phase, input) {
            (Phase::Subscribing, Input::Subscribed(res)) => match res {
                Ok(_) => match m.backup_dir {
                    Some(d) => (
                        SessionModel { phase: Phase::CheckingDirectory, ..m },
                        ActionModel::EnsureDirectory(d),
                    ),
                    None => (SessionModel { phase: Phase::Waiting, ..m }, ActionModel::AwaitEvent),
                },
                Err(e) => stopped(m, Some((ErrorKind::Configuration, e@))),
            },
            (Phase::CheckingDirectory, Input::DirectoryChecked(is_dir)) => if is_dir {
                (SessionModel { phase: Phase::Waiting, ..m }, ActionModel::AwaitEvent)
            } else {
                stopped(m, Some((ErrorKind::Configuration, dir_of(m))))
            },
            (Phase::Waiting, Input::Notified(res)) => match res {
                Ok(ev) => if ev.kind == EventKind::Other {
                    (m, ActionModel::AwaitEvent)
                } else {
                    advance(SessionModel { pending: views(ev.paths@), ..m }, at)
                },
                Err(_) => (m, ActionModel::AwaitEvent),
            },
            (Phase::Copying, Input::Copied(res)) => match res {
                Ok(_) => match command_for(m.current, m.target, m.command) {
                    Some(a) => (
                        SessionModel { phase: Phase::Commanding, ..m },
                        ActionModel::RunCommand(a),
                    ),
                    None => advance(m, at),
                },
                Err(CopyError::TargetExists) => if m.attempt < MAX_ATTEMPT {
                    let t = candidate(m.base, m.attempt + 1);
                    (
                        SessionModel { attempt: m.attempt + 1, target: Some(t), ..m },
                        ActionModel::Copy(m.current, t),
                    )
                } else {
                    stopped(m, Some((ErrorKind::Io, m.base)))
                },
                Err(CopyError::Failed(e)) => stopped(m, Some((ErrorKind::Io, e@))),
            },
            (Phase::Commanding, Input::CommandFinished(_)) => advance(m, at),
            _ => (m, ActionModel::Ignore),
        }
    }
}

/// A watch of a directory tree, driven by its caller: each call to `step`
/// reports what happened and returns what to do next.
pub struct WatchSession {
    root: String,
    backup_dir: Option<String>,
    command: Option<String>,
    phase: Phase,
    pending: Vec<String>,
    current: String,
    base: String,
    attempt: u32,
    target: Option<String>,
    cancelled: bool,
}

impl View for WatchSession {
    type V = SessionModel;

    closed spec fn view(&self) -> SessionModel {
        SessionModel {
            root: self.root@,
            backup_dir: option_view(self.backup_dir),
            command: option_view(self.command),
            phase: self.phase,
            pending: views(self.pending@),
            current: self.current@,
            base: self.base@,
            attempt: self.attempt as nat,
            target: option_view(self.target),
            cancelled: self.cancelled,
        }
    }
}

/// Whether a backup path, once created where missing, may serve: it must be
/// a directory.
pub fn check_backup_directory(path: &str, is_directory: bool) -> (r: Result<(), WatchError>)
    ensures
        r is Ok <==> is_directory,
        r matches Err(e) ==> e@ == (ErrorKind::Configuration, path@),
{
    if is_directory {
        Ok(())
    } else {
        Err(WatchError { kind: ErrorKind::Configuration, detail: String::from_str(path) })
    }
}

fn clone_option(o: &Option<String>) -> (r: Option<String>)
    ensures
        option_view(r) == option_view(*o),
{
    match o {
        None => None,
        Some(s) => Some(s.clone()),
    }
}

/// The `k`-th name tried for the backup named `base`.
fn candidate_name(base: &str, k: u32) -> (r: String)
    ensures
        r@ == candidate(base@, k as nat),
{
    let mut r = String::from_str(base);
    if k > 0 {
        r.append(".");
        proof {
            reveal_strlit(".");
        }
        append_decimal(&mut r, k);
    }
    r
}

impl WatchSession {
    /// A watch of `root` that backs files up into `backup_dir` and runs
    /// `command`, where given, with its first action.
    pub fn new(root: String, backup_dir: Option<String>, command: Option<String>) -> (r: (
        WatchSession,
        Action,
    ))
        ensures
            (r.0@, r.1@) == start(root@, option_view(backup_dir), option_view(command)),
    {
        let first = Action::Subscribe(root.clone());
        let s = WatchSession {
            root,
            backup_dir,
            command,
            phase: Phase::Subscribing,
            pending: Vec::new(),
            current: String::new(),
            base: String::new(),
            attempt: 0,
            target: None,
            cancelled: false,
        };
        assert(s@ =~= start(s.root@, option_view(s.backup_dir), option_view(s.command)).0);
        (s, first)
    }

    /// The phase the watch is in.
    pub fn phase(&self) -> (r: Phase)
        ensures
            r == self@.phase,
    {
        self.phase
    }

    fn stop(&mut self, e: Option<WatchError>) -> (r: Action)
        ensures
            (final(self)@, r@) == stopped(
                old(self)@,
                match e {
                    None => None,
                    Some(e) => Some(e@),
                },
            ),
    {
        self.phase = Phase::Stopped;
        assert(self@ =~= stopped(old(self)@, None).0);
        Action::Stop(e)
    }

    fn advance(&mut self, at: &LocalTimestamp) -> (r: Action)
        ensures
            (final(self)@, r@) == advance(old(self)@, *at),
    {
        let ghost m0 = self@;
        loop
            invariant
                advance(self@, *at) == advance(m0, *at),
                m0 == old(self)@,
            decreases self.pending.len(),
        {
            if self.pending.len() == 0 {
                if self.cancelled {
                    return self.stop(None);
                }
                let ghost before = self@;
                self.phase = Phase::Waiting;
                assert(self@ =~= advance(before, *at).0);
                return Action::AwaitEvent;
            }
            let ghost before = self@;
            let p = self.pending.remove(0);
            assert(views(self.pending@) =~= before.pending.skip(1));
            assert(p@ == before.pending[0]);
            match backup_target_at(p.as_str(), &self.backup_dir, at) {
                Some(t) => {
                    self.phase = Phase::Copying;
                    self.current = p.clone();
                    self.base = t.clone();
                    self.attempt = 0;
                    self.target = Some(t.clone());
                    assert(self@ =~= advance(before, *at).0);
                    return Action::Copy { from: p, to: t };
                },
                None => match run_command_if_required(p.as_str(), &None, &self.command) {
                    Some(a) => {
                        self.phase = Phase::Commanding;
                        self.current = p;
                        self.target = None;
                        assert(self@ =~= advance(before, *at).0);
                        return Action::RunCommand(a);
                    },
                    None => {
                        assert(self@ =~= SessionModel { pending: before.pending.skip(1), ..before });
                    },
                },
            }
        }
    }

    /// Reports `input` to the watch at the time `at`; returns what to do next.
    pub fn step_at(&mut self, input: Input, at: &LocalTimestamp) -> (r: Action)
        ensures
            (final(self)@, r@) == next(old(self)@, input, *at),
    {
        if self.phase == Phase::Stopped {
            return self.stop(None);
        }
        let ghost m = self@;
        if matches!(input, Input::Cancelled) {
            if self.phase == Phase::Copying || self.phase == Phase::Commanding {
                self.cancelled = true;
                assert(self@ =~= SessionModel { cancelled: true, ..m });
                return Action::CancelNoted;
            }
            return self.stop(None);
        }
        match (self.phase, input) {
            (Phase::Subscribing, Input::Subscribed(res)) => match res {
                Ok(()) => match &self.backup_dir {
                    Some(d) => {
                        let d = d.clone();
                        self.phase = Phase::CheckingDirectory;
                        assert(self@ =~= SessionModel { phase: Phase::CheckingDirectory, ..m });
                        Action::EnsureDirectory(d)
                    },
                    None => {
                        self.phase = Phase::Waiting;
                        assert(self@ =~= SessionModel { phase: Phase::Waiting, ..m });
                        Action::AwaitEvent
                    },
                },
                Err(e) => self.stop(Some(WatchError { kind: ErrorKind::Configuration, detail: e })),
            },
            (Phase::CheckingDirectory, Input::DirectoryChecked(is_dir)) => {
                let dir = match &self.backup_dir {
                    Some(d) => d.clone(),
                    None => String::new(),
                };
                match check_backup_directory(dir.as_str(), is_dir) {
                    Ok(()) => {
                        self.phase = Phase::Waiting;
                        assert(self@ =~= SessionModel { phase: Phase::Waiting, ..m });
                        Action::AwaitEvent
                    },
                    Err(e) => self.stop(Some(e)),
                }
            },
            (Phase::Waiting, Input::Notified(res)) => match res {
                Ok(ev) => {
                    if ev.kind == EventKind::Other {
                        Action::AwaitEvent
                    } else {
                        self.pending = ev.paths;
                        assert(self@ =~= SessionModel { pending: views(ev.paths@), ..m });
                        self.advance(at)
                    }
                },
                Err(_) => Action::AwaitEvent,
            },
            (Phase::Copying, Input::Copied(res)) => match res {
                Ok(()) => {
                    let target = clone_option(&self.target);
                    match run_command_if_required(self.current.as_str(), &target, &self.command) {
                        Some(a) => {
                            self.phase = Phase::Commanding;
                            assert(self@ =~= SessionModel { phase: Phase::Commanding, ..m });
                            Action::RunCommand(a)
                        },
                        None => self.advance(at),
                    }
                },
                Err(CopyError::TargetExists) => {
                    if self.attempt < MAX_ATTEMPT {
                        let k = self.attempt + 1;
                        let t = candidate_name(self.base.as_str(), k);
                        self.attempt = k;
                        self.target = Some(t.clone());
                        assert(self@ =~= SessionModel {
                            attempt: m.attempt + 1,
                            target: Some(t@),
                            ..m
                        });
                        Action::Copy { from: self.current.clone(), to: t }
                    } else {
                        let detail = self.base.clone();
                        self.stop(Some(WatchError { kind: ErrorKind::Io, detail }))
                    }
                },
                Err(CopyError::Failed(e)) => self.stop(
                    Some(WatchError { kind: ErrorKind::Io, detail: e }),
                ),
            },
            (Phase::Commanding, Input::CommandFinished(_)) => self.advance(at),
            _ => Action::Ignore,
        }
    }

    /// Reports `input` to the watch at the current local time; returns what
    /// to do next.
    pub fn step(&mut self, input: Input) -> (r: Action)
        ensures
            exists|at: LocalTimestamp|
                at.in_range() && (final(self)@, r@) == next(old(self)@, input, at),
    {
        let now = local_now();
        self.step_at(input, &now)
    }
}

} // verus!

verus! {

/// The states a watch can be in: a backup directory is configured whenever
/// the watch checks one or copies into one; a copy goes to the name tried
/// now; and a stop is pending only while an event is in hand.
pub open spec fn well_formed(m: SessionModel) -> bool {
    &&& (m.phase == Phase::CheckingDirectory || m.phase == Phase::Copying) ==> m.backup_dir is Some
    &&& m.phase == Phase::Copying ==> m.target == Some(candidate(m.base, m.attempt))
    &&& m.cancelled ==> (m.phase == Phase::Copying || m.phase == Phase::Commanding || m.phase
        == Phase::Stopped)
}

pub open spec fn writes_files(a: ActionModel) -> bool {
    a is EnsureDirectory || a is Copy
}

pub open spec fn is_io_stop(a: ActionModel) -> bool {
    a matches ActionModel::Stop(Some(e)) && e.0 == ErrorKind::Io
}

proof fn lemma_advance(m: SessionModel, at: LocalTimestamp)
    requires
        well_formed(m),
        m.phase != Phase::Stopped,
    ensures
        ({
            let (m2, a) = advance(m, at);
            &&& well_formed(m2)
            &&& m2.root == m.root && m2.backup_dir == m.backup_dir && m2.command == m.command
            &&& !(a is EnsureDirectory) && !(a is Ignore) && !(a is CancelNoted)
            &&& a is Stop ==> a == ActionModel::Stop(None) && m.cancelled
            &&& m.cancelled ==> !(a is AwaitEvent)
            &&& m.backup_dir is None ==> !(a is Copy)
        }),
    decreases m.pending.len(),
{
    if m.pending.len() > 0 {
        let rest = SessionModel { pending: m.pending.skip(1), ..m };
        lemma_advance(rest, at);
    }
}

/// Every step keeps a watch well formed and keeps its configuration.
pub proof fn lemma_step_keeps_well_formed(m: SessionModel, input: Input, at: LocalTimestamp)
    requires
        well_formed(m),
    ensures
        well_formed(next(m, input, at).0),
        next(m, input, at).0.root == m.root,
        next(m, input, at).0.backup_dir == m.backup_dir,
        next(m, input, at).0.command == m.command,
{
    if m.phase != Phase::Stopped {
        lemma_advance(m, at);
        if let Input::Notified(Ok(ev)) = input {
            lemma_advance(SessionModel { pending: views(ev.paths@), ..m }, at);
        }
    }
}

/// A new watch is well formed, and its first action is to subscribe to the
/// root, whatever backup directory and command it has: nothing is created
/// before the root is known to be watchable.
pub proof fn lemma_start_subscribes_first(
    root: Seq<char>,
    backup_dir: Option<Seq<char>>,
    command: Option<Seq<char>>,
)
    ensures
        well_formed(start(root, backup_dir, command).0),
        start(root, backup_dir, command).0.phase == Phase::Subscribing,
        start(root, backup_dir, command).1 == ActionModel::Subscribe(root),
{
}

/// A root that cannot be watched ends the watch with a configuration error,
/// and a stopped watch asks for nothing more: no backup directory is made.
pub proof fn lemma_unwatchable_root_stops(
    m: SessionModel,
    e: String,
    input: Input,
    at: LocalTimestamp,
)
    requires
        m.phase == Phase::Subscribing,
    ensures
        next(m, Input::Subscribed(Err(e)), at).0.phase == Phase::Stopped,
        next(m, Input::Subscribed(Err(e)), at).1 == ActionModel::Stop(
            Some((ErrorKind::Configuration, e@)),
        ),
        next(next(m, Input::Subscribed(Err(e)), at).0, input, at).1 == ActionModel::Stop(None),
        next(next(m, Input::Subscribed(Err(e)), at).0, input, at).0.phase == Phase::Stopped,
{
}

/// Once the root is watched, a backup directory, where one is given, is
/// created and checked before any notification is awaited.
pub proof fn lemma_directory_checked_after_subscription(m: SessionModel, at: LocalTimestamp)
    requires
        m.phase == Phase::Subscribing,
        m.backup_dir is Some,
    ensures
        next(m, Input::Subscribed(Ok(())), at).1 == ActionModel::EnsureDirectory(
            m.backup_dir->Some_0,
        ),
        next(m, Input::Subscribed(Ok(())), at).0.phase == Phase::CheckingDirectory,
{
}

/// Without a backup directory no step asks for a directory to be created or
/// a file to be written, and no step ends the watch on a copy failure.
pub proof fn lemma_no_backup_dir_no_writes(m: SessionModel, input: Input, at: LocalTimestamp)
    requires
        well_formed(m),
        m.backup_dir is None,
    ensures
        !writes_files(next(m, input, at).1),
        !is_io_stop(next(m, input, at).1),
        next(m, input, at).0.backup_dir is None,
{
    lemma_step_keeps_well_formed(m, input, at);
    if m.phase != Phase::Stopped {
        lemma_advance(m, at);
        if let Input::Notified(Ok(ev)) = input {
            lemma_advance(SessionModel { pending: views(ev.paths@), ..m }, at);
        }
    }
}

/// After a backup copy, the command is run with the changed file's path for
/// `OLD_FILENAME` and the path of the copy just made for `NEW_FILENAME`.
pub proof fn lemma_command_after_copy(m: SessionModel, at: LocalTimestamp)
    requires
        well_formed(m),
        m.phase == Phase::Copying,
        m.command is Some,
    ensures
        next(m, Input::Copied(Ok(())), at).1 == ActionModel::RunCommand(
            argv(m.command->Some_0, m.current, candidate(m.base, m.attempt)),
        ),
{
}

/// The outcome of a command does not matter: a failed command leads where a
/// successful one does, and neither ends the watch unless a stop was requested.
pub proof fn lemma_command_failure_continues(m: SessionModel, e: String, at: LocalTimestamp)
    requires
        well_formed(m),
        m.phase == Phase::Commanding,
        !m.cancelled,
    ensures
        next(m, Input::CommandFinished(Err(e)), at) == next(
            m,
            Input::CommandFinished(Ok(())),
            at,
        ),
        !(next(m, Input::CommandFinished(Err(e)), at).1 is Stop),
{
    lemma_advance(m, at);
}

/// A failed copy ends the watch with an I/O error that carries its cause.
pub proof fn lemma_copy_failure_stops(m: SessionModel, e: String, at: LocalTimestamp)
    requires
        m.phase == Phase::Copying,
    ensures
        next(m, Input::Copied(Err(CopyError::Failed(e))), at).0.phase == Phase::Stopped,
        next(m, Input::Copied(Err(CopyError::Failed(e))), at).1 == ActionModel::Stop(
            Some((ErrorKind::Io, e@)),
        ),
{
}

/// A backup name that is taken already is not fatal: the copy is asked for
/// again under the next name.
pub proof fn lemma_taken_name_tries_next(m: SessionModel, at: LocalTimestamp)
    requires
        well_formed(m),
        m.phase == Phase::Copying,
        m.attempt < MAX_ATTEMPT,
    ensures
        next(m, Input::Copied(Err(CopyError::TargetExists)), at).1 == ActionModel::Copy(
            m.current,
            candidate(m.base, m.attempt + 1),
        ),
        next(m, Input::Copied(Err(CopyError::TargetExists)), at).0.phase == Phase::Copying,
{
}

/// A stop requested while an event is in hand is noted and changes nothing
/// else: the rest of the event's paths are still handled.
pub proof fn lemma_cancel_waits_for_event(m: SessionModel, at: LocalTimestamp)
    requires
        m.phase == Phase::Copying || m.phase == Phase::Commanding,
    ensures
        next(m, Input::Cancelled, at).0 == (SessionModel { cancelled: true, ..m }),
        next(m, Input::Cancelled, at).1 == ActionModel::CancelNoted,
{
}

/// Once a stop is requested, a watch never waits for another notification:
/// it stops when the event in hand is handled.
pub proof fn lemma_cancelled_never_waits(m: SessionModel, input: Input, at: LocalTimestamp)
    requires
        well_formed(m),
        m.cancelled,
    ensures
        !(next(m, input, at).1 is AwaitEvent),
{
    if m.phase != Phase::Stopped {
        lemma_advance(m, at);
    }
}

/// A backup path that is not a directory once created ends the watch with a
/// configuration error naming it.
pub proof fn lemma_backup_path_not_directory(m: SessionModel, at: LocalTimestamp)
    requires
        m.phase == Phase::CheckingDirectory,
        m.backup_dir is Some,
    ensures
        next(m, Input::DirectoryChecked(false), at).0.phase == Phase::Stopped,
        next(m, Input::DirectoryChecked(false), at).1 == ActionModel::Stop(
            Some((ErrorKind::Configuration, m.backup_dir->Some_0)),
        ),
{
}

} // verus!
