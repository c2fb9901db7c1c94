//! Life cycle of the hook on `Player.SetPosition`, and the buffer that it fills.
//!
//! The game calls the method for every object in every frame. The detour notes
//! the object and passes control on to the trampoline.
//!
//! The operating system and the hooking library are outside: a function here
//! says what to do next, and what came of it goes into the next function.
use vstd::prelude::*;

pub mod laws;

use crate::numeral;
use crate::scan;
use crate::scan::Outcome;
use crate::scan::Search;

verus! {

/// The first instructions of `SetPosition`: `add ecx, 0Ch`, `mov eax, ecx` and
/// `fld [esp+4]`.
pub const SIGNATURE: &'static str = "83 C1 0C 8B C1 D9 44 24 04";

/// Capacity of the object buffer. The method is called several times per frame
/// and object, so there is much more room than there are players.
pub const MAX_OBJECTS: usize = 256;

/// How many failures are tolerated before the attempts end.
///
/// Only outcomes that will not mend themselves count. That nothing was found
/// does not: before a level is entered the method has not been compiled.
pub const MAX_FAILURES: u32 = 5;

/// Of the attempts without a result, one in so many is logged.
pub const QUIET_ATTEMPT_LOG_EVERY: u32 = 10;

/// What the hooking library returns for success.
pub const HOOKED: i32 = 0;

/// How far the installation of the hook has come.
#[derive(Clone, Debug, PartialEq, Eq)]
pub enum Status {
    /// No search has been started.
    Idle,
    /// Memory is being searched.
    Scanning,
    /// The hook is active, and objects are collected.
    Installed,
    /// The signature was not found: the method has probably not been compiled.
    NotFound,
    /// The signature was found in several places, so no hook was set.
    Ambiguous(usize),
    /// The hooking library reported an error.
    Failed(String),
    /// There were too many failures.
    GaveUp,
}

/// A status in spec code.
#[verifier::ext_equal]
pub enum StatusFacts {
    Idle,
    Scanning,
    Installed,
    NotFound,
    Ambiguous(usize),
    Failed(Seq<char>),
    GaveUp,
}

impl View for Status {
    type V = StatusFacts;

    open spec fn view(&self) -> StatusFacts {
        match *self {
            Status::Idle => StatusFacts::Idle,
            Status::Scanning => StatusFacts::Scanning,
            Status::Installed => StatusFacts::Installed,
            Status::NotFound => StatusFacts::NotFound,
            Status::Ambiguous(count) => StatusFacts::Ambiguous(count),
            Status::Failed(reason) => StatusFacts::Failed(reason@),
            Status::GaveUp => StatusFacts::GaveUp,
        }
    }
}

/// The state of the hook.
pub struct Hook {
    installed: bool,
    scanning: bool,
    attempts: u32,
    failures: u32,
    status: Status,
    target: usize,
    original: usize,
}

/// The state of the hook in spec code.
#[verifier::ext_equal]
pub struct HookState {
    /// The detour is active.
    pub installed: bool,
    /// An attempt is under way.
    pub scanning: bool,
    /// Attempts so far. Only the log uses the number.
    pub attempts: u32,
    /// Failures that will not mend themselves.
    pub failures: u32,
    pub status: StatusFacts,
    /// Address of the hooked function.
    pub target: usize,
    /// Address of the trampoline, where the detour passes control to.
    pub original: usize,
}

impl View for Hook {
    type V = HookState;

    closed spec fn view(&self) -> HookState {
        HookState {
            installed: self.installed,
            scanning: self.scanning,
            attempts: self.attempts,
            failures: self.failures,
            status: self.status@,
            target: self.target,
            original: self.original,
        }
    }
}

/// What comes after the search.
#[derive(Clone, Copy, Debug, PartialEq, Eq, Structural)]
pub enum Verdict {
    /// Create a hook at the address.
    Create(usize),
    /// Nothing more to do.
    Stop,
}

/// What comes after a call of the hooking library.
#[derive(Clone, Copy, Debug, PartialEq, Eq, Structural)]
pub enum Next {
    /// Enable the hook that was created.
    Enable,
    /// Remove the hook that was created.
    Remove,
    /// Nothing more to do.
    Stop,
}

/// What is to be done to remove the hook.
#[derive(Clone, Copy, Debug, PartialEq, Eq, Structural)]
pub enum Removal {
    /// There is no hook: nothing is to be done.
    Nothing,
    /// No address is known: the hooking library is not called, but the hook is
    /// forgotten with [`Hook::hook_removed`].
    Forget,
    /// Disable and remove the hook at the address, and forget it with
    /// [`Hook::hook_removed`].
    Unhook(usize),
}

/// The number after `n`, beginning anew behind the last one.
pub open spec fn successor(n: u32) -> u32 {
    if n == u32::MAX {
        0
    } else {
        (n + 1) as u32
    }
}

impl HookState {
    /// The state before anything has happened.
    pub open spec fn start() -> HookState {
        HookState {
            installed: false,
            scanning: false,
            attempts: 0,
            failures: 0,
            status: StatusFacts::Idle,
            target: 0,
            original: 0,
        }
    }

    /// Another attempt makes sense.
    pub open spec fn retries(self) -> bool {
        !self.installed && self.failures < MAX_FAILURES
    }

    /// An attempt can begin now.
    pub open spec fn ready(self) -> bool {
        self.retries() && !self.scanning
    }

    /// After an attempt was asked for.
    pub open spec fn spawned(self) -> HookState {
        if self.installed {
            self
        } else if self.failures >= MAX_FAILURES {
            HookState { status: StatusFacts::GaveUp, ..self }
        } else {
            HookState { scanning: true, ..self }
        }
    }

    /// After an attempt has begun to search.
    pub open spec fn searching(self) -> HookState {
        HookState {
            attempts: successor(self.attempts),
            status: StatusFacts::Scanning,
            ..self
        }
    }

    /// After a failure that will not mend itself.
    pub open spec fn failed(self, status: StatusFacts) -> HookState {
        let failures = successor(self.failures);
        HookState {
            failures,
            status: if failures >= MAX_FAILURES {
                StatusFacts::GaveUp
            } else {
                status
            },
            ..self
        }
    }

    /// After the search. That nothing was found is no failure; that the signature
    /// is ambiguous is one.
    pub open spec fn searched(self, outcome: Outcome) -> HookState {
        match outcome {
            Outcome::NotFound => HookState { status: StatusFacts::NotFound, ..self },
            Outcome::Unique(_) => self,
            Outcome::Ambiguous(all) => self.failed(StatusFacts::Ambiguous(all@.len() as usize)),
        }
    }

    /// After the hook was created, or not.
    pub open spec fn created(self, status: i32, trampoline: usize) -> HookState {
        if status != HOOKED {
            self.failed(StatusFacts::Failed("MH_CreateHook: "@ + numeral::signed(status as int)))
        } else if trampoline == 0 {
            self.failed(StatusFacts::Failed("no trampoline"@))
        } else {
            HookState { original: trampoline, ..self }
        }
    }

    /// After the hook at `address` was enabled, or not.
    pub open spec fn enabled(self, address: usize, status: i32) -> HookState {
        if status != HOOKED {
            (HookState { original: 0, ..self }).failed(
                StatusFacts::Failed("MH_EnableHook: "@ + numeral::signed(status as int)),
            )
        } else {
            HookState { installed: true, status: StatusFacts::Installed, target: address, ..self }
        }
    }

    /// After the removal of the hook was decided.
    pub open spec fn leaving(self) -> HookState {
        if self.installed {
            HookState { installed: false, target: 0, ..self }
        } else {
            self
        }
    }

    /// What is to be done to remove the hook.
    pub open spec fn removal(self) -> Removal {
        if !self.installed {
            Removal::Nothing
        } else if self.target == 0 {
            Removal::Forget
        } else {
            Removal::Unhook(self.target)
        }
    }

    /// After the hook was removed.
    pub open spec fn left(self) -> HookState {
        HookState { original: 0, status: StatusFacts::Idle, ..self }
    }
}

/// A copy of a status.
fn copied(status: &Status) -> (copy: Status)
    ensures
        copy@ == status@,
{
    match status {
        Status::Idle => Status::Idle,
        Status::Scanning => Status::Scanning,
        Status::Installed => Status::Installed,
        Status::NotFound => Status::NotFound,
        Status::Ambiguous(count) => Status::Ambiguous(*count),
        Status::Failed(reason) => Status::Failed(reason.clone()),
        Status::GaveUp => Status::GaveUp,
    }
}

/// The status as far as it is known. `None` stands for a state that another
/// thread is busy with; the render thread never waits for it, and the status that
/// was read last stays.
pub fn status(hook: Option<&Hook>, last: &Status) -> (status: Status)
    ensures
        status@ == (match hook {
            Some(hook) => hook@.status,
            None => last@,
        }),
{
    match hook {
        Some(hook) => copied(&hook.status),
        None => copied(last),
    }
}

/// Whether the hook is active.
pub fn is_installed(hook: &Hook) -> (r: bool)
    ensures
        r == hook@.installed,
{
    hook.installed
}

/// Whether another attempt makes sense.
pub fn should_retry(hook: &Hook) -> (r: bool)
    ensures
        r == hook@.retries(),
{
    !hook.installed && hook.failures < MAX_FAILURES
}

/// Forgets the failures and asks for an attempt at once. The result says whether
/// the attempt is to be started.
pub fn force_retry(hook: &mut Hook) -> (start: bool)
    ensures
        ({
            let cleared = HookState { failures: 0, ..old(hook)@ };
            final(hook)@ == cleared.spawned() && start == cleared.ready()
        }),
{
    hook.failures = 0;
    spawn_install_attempt(hook)
}

/// Asks for an attempt. The result says whether it is to be started, in a thread
/// of its own: a search takes too long for the render thread.
pub fn spawn_install_attempt(hook: &mut Hook) -> (start: bool)
    ensures
        final(hook)@ == old(hook)@.spawned(),
        start == old(hook)@.ready(),
{
    if hook.installed {
        return false;
    }
    if hook.failures >= MAX_FAILURES {
        hook.status = Status::GaveUp;
        return false;
    }
    if hook.scanning {
        return false;
    }
    hook.scanning = true;
    true
}

fn successor_of(n: u32) -> (r: u32)
    ensures
        r == successor(n),
{
    if n == u32::MAX {
        0
    } else {
        n + 1
    }
}

impl Hook {
    /// The state before anything has happened.
    pub fn new() -> (hook: Hook)
        ensures
            hook@ == HookState::start(),
    {
        Hook {
            installed: false,
            scanning: false,
            attempts: 0,
            failures: 0,
            status: Status::Idle,
            target: 0,
            original: 0,
        }
    }

    /// Ends an attempt, however it went.
    pub fn attempt_ended(&mut self)
        ensures
            final(self)@ == (HookState { scanning: false, ..old(self)@ }),
    {
        self.scanning = false;
    }

    /// Counts a failure that will not mend itself.
    fn fail(&mut self, status: Status)
        ensures
            final(self)@ == old(self)@.failed(status@),
    {
        self.failures = successor_of(self.failures);
        if self.failures >= MAX_FAILURES {
            self.status = Status::GaveUp;
        } else {
            self.status = status;
        }
    }

    /// Begins an attempt: gives its number and the search to be carried out.
    pub fn install(&mut self) -> (r: (u32, Search))
        ensures
            final(self)@ == old(self)@.searching(),
            r.0 == final(self)@.attempts,
            scan::signature::parsed(SIGNATURE@) is Some,
            r.1@ == scan::SearchState::start(scan::signature::parsed(SIGNATURE@)->Some_0),
    {
        self.attempts = successor_of(self.attempts);
        self.status = Status::Scanning;
        proof {
            laws::law_signature();
        }
        let pattern = match scan::parse(SIGNATURE) {
            Some(pattern) => pattern,
            None => Vec::new(),
        };
        (self.attempts, Search::new(pattern))
    }

    /// Takes in the outcome of the search.
    pub fn search_ended(&mut self, outcome: &Outcome) -> (verdict: Verdict)
        ensures
            final(self)@ == old(self)@.searched(*outcome),
            verdict == (match *outcome {
                Outcome::Unique(address) => Verdict::Create(address),
                _ => Verdict::Stop,
            }),
    {
        match outcome {
            Outcome::Unique(address) => Verdict::Create(*address),
            Outcome::NotFound => {
                self.status = Status::NotFound;
                Verdict::Stop
            },
            Outcome::Ambiguous(all) => {
                self.fail(Status::Ambiguous(all.len()));
                Verdict::Stop
            },
        }
    }

    /// Takes in what `MH_CreateHook` returned. The trampoline is published before
    /// the hook is enabled: otherwise the detour could jump to address 0.
    pub fn hook_created(&mut self, status: i32, trampoline: usize) -> (next: Next)
        ensures
            final(self)@ == old(self)@.created(status, trampoline),
            next == (if status != HOOKED {
                Next::Stop
            } else if trampoline == 0 {
                Next::Remove
            } else {
                Next::Enable
            }),
    {
        if status != HOOKED {
            self.fail(Status::Failed(with_code("MH_CreateHook: ", status)));
            return Next::Stop;
        }
        if trampoline == 0 {
            self.fail(Status::Failed("no trampoline".to_owned()));
            return Next::Remove;
        }
        self.original = trampoline;
        Next::Enable
    }

    /// Takes in what `MH_EnableHook` returned.
    pub fn hook_enabled(&mut self, address: usize, status: i32) -> (next: Next)
        ensures
            final(self)@ == old(self)@.enabled(address, status),
            next == (if status != HOOKED {
                Next::Remove
            } else {
                Next::Stop
            }),
    {
        if status != HOOKED {
            self.original = 0;
            self.fail(Status::Failed(with_code("MH_EnableHook: ", status)));
            return Next::Remove;
        }
        self.target = address;
        self.installed = true;
        self.status = Status::Installed;
        Next::Stop
    }

    /// The address that the detour passes control to; 0 if there is none.
    pub fn trampoline(&self) -> (address: usize)
        ensures
            address == self@.original,
    {
        self.original
    }

    /// Finishes [`uninstall`] once the hook is gone. Only now nobody can be
    /// inside the detour any more, so only now the trampoline is forgotten and
    /// the buffer is emptied.
    pub fn hook_removed(&mut self, buffer: &mut ObjectBuffer)
        ensures
            final(self)@ == old(self)@.left(),
            final(buffer)@ == old(buffer)@.emptied(),
    {
        self.original = 0;
        self.status = Status::Idle;
        buffer.clear();
    }
}

/// A message with the code of an error.
fn with_code(message: &str, code: i32) -> (text: String)
    ensures
        text@ == message@ + numeral::signed(code as int),
{
    let mut text = message.to_owned();
    numeral::push_signed(&mut text, code as i64);
    text
}

/// Whether an attempt without a result is to be logged.
pub fn attempt_is_logged(attempt: u32) -> (r: bool)
    ensures
        r == (attempt % QUIET_ATTEMPT_LOG_EVERY == 1),
        r <==> attempt % 10 == 1,
{
    attempt % QUIET_ATTEMPT_LOG_EVERY == 1
}

/// Decides to remove the hook, and says what is to be done for it.
pub fn uninstall(hook: &mut Hook) -> (removal: Removal)
    ensures
        final(hook)@ == old(hook)@.leaving(),
        removal == old(hook)@.removal(),
{
    if !hook.installed {
        return Removal::Nothing;
    }
    hook.installed = false;
    let target: usize = hook.target;
    hook.target = 0;
    if target == 0 {
        Removal::Forget
    } else {
        Removal::Unhook(target)
    }
}

/// The buffer that the detour fills.
pub struct ObjectBuffer {
    slots: Vec<usize>,
    count: usize,
}

/// The buffer in spec code.
#[verifier::ext_equal]
pub struct BufferState {
    pub slots: Seq<usize>,
    /// Calls of the detour since the buffer was last emptied.
    pub count: usize,
}

impl View for ObjectBuffer {
    type V = BufferState;

    closed spec fn view(&self) -> BufferState {
        BufferState { slots: self.slots@, count: self.count }
    }
}

impl BufferState {
    /// After one more call of the detour. A call that finds the buffer full
    /// leaves no trace in it.
    pub open spec fn recorded(self, this: usize) -> BufferState {
        BufferState {
            slots: if self.count < self.slots.len() {
                self.slots.update(self.count as int, this)
            } else {
                self.slots
            },
            count: if self.count == usize::MAX {
                0
            } else {
                (self.count + 1) as usize
            },
        }
    }

    /// After the buffer was emptied. What stands in the slots does not matter any
    /// more.
    pub open spec fn emptied(self) -> BufferState {
        BufferState { count: 0, ..self }
    }

    /// The slots in use.
    pub open spec fn used(self) -> Seq<usize> {
        if self.count < self.slots.len() {
            self.slots.take(self.count as int)
        } else {
            self.slots
        }
    }

    /// The objects in the buffer, in the order of the calls.
    pub open spec fn objects(self) -> Seq<usize> {
        self.used().filter(|p: usize| p != 0)
    }
}

impl ObjectBuffer {
    /// An empty buffer.
    pub fn new() -> (buffer: ObjectBuffer)
        ensures
            buffer@ == (BufferState { slots: Seq::new(MAX_OBJECTS as nat, |i: int| 0usize), count: 0 }),
            buffer@.slots.len() == 256,
            buffer@.objects().len() == 0,
    {
        let mut slots: Vec<usize> = Vec::new();
        for i in 0..MAX_OBJECTS
            invariant
                slots@ == Seq::new(i as nat, |k: int| 0usize),
        {
            slots.push(0);
            assert(slots@ =~= Seq::new((i + 1) as nat, |k: int| 0usize));
        }
        let buffer = ObjectBuffer { slots, count: 0 };
        proof {
            laws::law_emptied_buffer_is_empty(buffer@);
            assert(buffer@ == buffer@.emptied());
        }
        buffer
    }

    /// A buffer with given slots and a given number of calls.
    pub fn from_parts(slots: Vec<usize>, count: usize) -> (buffer: ObjectBuffer)
        ensures
            buffer@ == (BufferState { slots: slots@, count }),
    {
        ObjectBuffer { slots, count }
    }

    /// Calls of the detour since the buffer was last emptied.
    pub fn count(&self) -> (count: usize)
        ensures
            count == self@.count,
    {
        self.count
    }

    /// Empties the buffer.
    pub fn clear(&mut self)
        ensures
            final(self)@ == old(self)@.emptied(),
    {
        self.count = 0;
    }

    /// What the detour does with the object that the method is called on.
    pub fn record(&mut self, this: usize)
        ensures
            final(self)@ == old(self)@.recorded(this),
    {
        let slot: usize = self.count;
        self.count = if slot == usize::MAX {
            0
        } else {
            slot + 1
        };
        if slot < self.slots.len() {
            self.slots.set(slot, this);
        }
    }
}

/// Moves the objects of the frame into `out` and empties the buffer. Without an
/// active hook there are none, and the buffer is left alone.
pub fn take_objects(buffer: &mut ObjectBuffer, installed: bool, out: &mut Vec<usize>)
    ensures
        final(buffer)@ == (if installed {
            old(buffer)@.emptied()
        } else {
            old(buffer)@
        }),
        final(out)@ == (if installed {
            old(buffer)@.objects()
        } else {
            seq![]
        }),
{
    out.clear();
    if !installed {
        return;
    }
    let count: usize = if buffer.count < buffer.slots.len() {
        buffer.count
    } else {
        buffer.slots.len()
    };
    let ghost used = buffer@.used();
    let ghost keep = |p: usize| p != 0;
    proof {
        assert(used =~= buffer.slots@.take(count as int));
        reveal(Seq::filter);
        assert(out@ =~= used.take(0).filter(keep));
    }
    for i in 0..count
        invariant
            buffer == old(buffer),
            count <= buffer.slots@.len(),
            used == buffer.slots@.take(count as int),
            keep == (|p: usize| p != 0),
            out@ == used.take(i as int).filter(keep),
    {
        let pointer: usize = buffer.slots[i];
        proof {
            reveal(Seq::filter);
            assert(used.take(i + 1).drop_last() =~= used.take(i as int));
            assert(used.take(i + 1).last() == pointer);
        }
        if pointer != 0 {
            out.push(pointer);
        }
    }
    assert(used.take(count as int) =~= used);
    buffer.clear();
}

} // verus!
