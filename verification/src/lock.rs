//! The singleton lock of the `daemon` feeds: one lock file per feed in
//! `/tmp`, named by the user's uid and the feed, and the protocol that
//! takes it, refuses a duplicate and takes over a stale one.
use vstd::prelude::*;

use crate::text::{
    all_digits, is_all_digits, parse_u32, str_contains, str_trim, trim_seq,
    u32_from_str_spec, contains_seq,
};

verus! {

/// Characters kept as they are in a lock file name.
pub open spec fn is_safe_char(c: char) -> bool {
    ||| '0' <= c <= '9'
    ||| 'a' <= c <= 'z'
    ||| 'A' <= c <= 'Z'
    ||| c == '-'
    ||| c == '_'
    ||| c == '.'
}

/// A character as it appears in a lock file name.
pub open spec fn safe_char(c: char) -> char {
    if is_safe_char(c) {
        c
    } else {
        '_'
    }
}

/// The feed key with every unsafe character replaced by `_`.
pub open spec fn sanitize_seq(key: Seq<char>) -> Seq<char> {
    key.map_values(|c: char| safe_char(c))
}

/// The key of a feed: the `--set` target when present, else the event name.
pub open spec fn lock_key_spec(event: Seq<char>, set: Option<Seq<char>>) -> Seq<char> {
    match set {
        Some(item) => "set-"@ + item,
        None => "event-"@ + event,
    }
}

/// The lock file of a feed for the user `uid`.
pub open spec fn lock_path_spec(event: Seq<char>, set: Option<Seq<char>>, uid: Seq<char>) -> Seq<
    char,
> {
    "/tmp/sketchybar-now-playing-"@ + uid + "."@ + sanitize_seq(lock_key_spec(event, set))
        + ".lock"@
}

fn safe_char_exec(c: char) -> (res: char)
    ensures
        res == safe_char(c),
{
    if ('0' <= c && c <= '9') || ('a' <= c && c <= 'z') || ('A' <= c && c <= 'Z') || c == '-'
        || c == '_' || c == '.' {
        c
    } else {
        '_'
    }
}

fn sanitize(key: &str) -> (res: String)
    ensures
        res@ == sanitize_seq(key@),
{
    let mut out = String::new();
    let n = key.unicode_len();
    let mut i: usize = 0;
    while i < n
        invariant
            n == key@.len(),
            0 <= i <= n,
            out@ == sanitize_seq(key@.take(i as int)),
        decreases n - i,
    {
        let c = key.get_char(i);
        if safe_char_exec(c) == c {
            out.append(key.substring_char(i, i + 1));
        } else {
            out.append("_");
        }
        proof {
            reveal_strlit("_");
            assert(key@.subrange(i as int, i + 1) =~= seq![c]);
        }
        assert(key@.take(i + 1) == key@.take(i as int).push(c));
        assert(sanitize_seq(key@.take(i + 1)) =~= sanitize_seq(key@.take(i as int)).push(
            safe_char(c),
        ));
        i = i + 1;
    }
    assert(key@.take(n as int) == key@);
    out
}

/// The lock file of the feed named by `set` (when present) or `event`,
/// for the user `uid`.
pub fn lock_path(event: &str, set: Option<&str>, uid: &str) -> (path: String)
    ensures
        path@ == lock_path_spec(
            event@,
            match set {
                Some(s) => Some(s@),
                None => None,
            },
            uid@,
        ),
{
    let mut key = String::new();
    match set {
        Some(item) => {
            key.append("set-");
            key.append(item);
        },
        None => {
            key.append("event-");
            key.append(event);
        },
    }
    let safe = sanitize(key.as_str());
    let mut path = String::from_str("/tmp/sketchybar-now-playing-");
    path.append(uid);
    path.append(".");
    path.append(safe.as_str());
    path.append(".lock");
    path
}


/// The uid a lock file is named by: the trimmed output of `id -u` when it
/// is a non-empty run of digits, else `unknown`.
pub open spec fn uid_spec(output: Option<Seq<char>>) -> Seq<char> {
    match output {
        Some(o) if trim_seq(o).len() > 0 && all_digits(trim_seq(o)) => trim_seq(o),
        _ => "unknown"@,
    }
}

/// The uid for lock names from the text `id -u` printed, if it ran.
pub fn uid_from_output(output: Option<&str>) -> (uid: String)
    ensures
        uid@ == uid_spec(
            match output {
                Some(o) => Some(o@),
                None => None,
            },
        ),
{
    if let Some(o) = output {
        let t = str_trim(o);
        if !t.is_empty() && is_all_digits(t) {
            return t.to_owned();
        }
    }
    String::from_str("unknown")
}

/// The pid written in a lock file's text, if it holds one.
pub fn owner_pid_from_text(text: &str) -> (pid: Option<u32>)
    ensures
        pid == u32_from_str_spec(trim_seq(text@)),
{
    parse_u32(str_trim(text))
}

/// The name of this program, as it appears in its command line.
pub open spec fn program_name() -> Seq<char> {
    "sketchybar-now-playing"@
}

/// Whether a process command line (when one could be read) is this
/// program's.
pub fn command_line_is_ours(command: Option<&str>) -> (res: bool)
    ensures
        res == match command {
            Some(c) => contains_seq(c@, program_name()),
            None => false,
        },
{
    match command {
        Some(c) => str_contains(c, "sketchybar-now-playing"),
        None => false,
    }
}

/// Held for the daemon's lifetime; its file is removed on release only
/// while it still names this process.
#[derive(Debug)]
pub struct DaemonLock {
    path: String,
    pid: u32,
}

impl DaemonLock {
    pub fn new(path: String, pid: u32) -> (lock: Self)
        ensures
            lock.path_view() == path@,
            lock.pid_view() == pid,
    {
        DaemonLock { path, pid }
    }

    pub closed spec fn path_view(&self) -> Seq<char> {
        self.path@
    }

    pub closed spec fn pid_view(&self) -> u32 {
        self.pid
    }

    pub fn path(&self) -> (res: &str)
        ensures
            res@ == self.path_view(),
    {
        self.path.as_str()
    }

    pub fn pid(&self) -> (res: u32)
        ensures
            res == self.pid_view(),
    {
        self.pid
    }

    /// Whether the lock file, whose owner reads as `owner`, may be removed
    /// on release: only when it still names this lock's process.
    pub fn owns_file(&self, owner: Option<u32>) -> (res: bool)
        ensures
            res == (owner == Some(self.pid_view())),
    {
        match owner {
            Some(p) => p == self.pid,
            None => false,
        }
    }
}

/// Where taking a feed's lock stands, and what to do next.
#[derive(Debug, Clone, Copy, PartialEq, Eq)]
pub enum LockStep {
    /// Create the lock file with our pid, failing if it exists.
    Create,
    /// Read the pid written in the existing lock file.
    ReadOwner,
    /// Ask whether this pid is a live process running this program.
    Probe(u32),
    /// Remove the stale lock file and create it again.
    TakeOver,
    /// The feed is ours.
    Acquired,
    /// A live daemon already owns the feed; exit cleanly.
    Duplicate,
    /// Creating the lock file failed for another reason than existence.
    Failed,
}

/// What came of the last thing done.
#[derive(Debug, Clone, Copy, PartialEq, Eq)]
pub enum LockEvent {
    Created,
    AlreadyExists,
    CreateError,
    Owner(Option<u32>),
    Probed(bool),
}

/// The first step of taking a lock.
pub open spec fn lock_start() -> LockStep {
    LockStep::Create
}

/// The lock protocol for the process `me`. An event that does not answer
/// the step leaves it as it is.
pub open spec fn next_lock_step_spec(step: LockStep, event: LockEvent, me: u32) -> LockStep {
    match (step, event) {
        (LockStep::Create, LockEvent::Created) => LockStep::Acquired,
        (LockStep::Create, LockEvent::AlreadyExists) => LockStep::ReadOwner,
        (LockStep::Create, LockEvent::CreateError) => LockStep::Failed,
        (LockStep::ReadOwner, LockEvent::Owner(None)) => LockStep::TakeOver,
        (LockStep::ReadOwner, LockEvent::Owner(Some(pid))) => if pid == me {
            LockStep::Duplicate
        } else {
            LockStep::Probe(pid)
        },
        (LockStep::Probe(_), LockEvent::Probed(live)) => if live {
            LockStep::Duplicate
        } else {
            LockStep::TakeOver
        },
        (LockStep::TakeOver, LockEvent::Created) => LockStep::Acquired,
        (LockStep::TakeOver, LockEvent::AlreadyExists) => LockStep::Duplicate,
        (LockStep::TakeOver, LockEvent::CreateError) => LockStep::Duplicate,
        _ => step,
    }
}

/// Whether the protocol has ended.
pub open spec fn is_final(step: LockStep) -> bool {
    step is Acquired || step is Duplicate || step is Failed
}

/// The next step of taking a feed's lock for the process `me`.
pub fn next_lock_step(step: LockStep, event: LockEvent, me: u32) -> (next: LockStep)
    ensures
        next == next_lock_step_spec(step, event, me),
{
    match (step, event) {
        (LockStep::Create, LockEvent::Created) => LockStep::Acquired,
        (LockStep::Create, LockEvent::AlreadyExists) => LockStep::ReadOwner,
        (LockStep::Create, LockEvent::CreateError) => LockStep::Failed,
        (LockStep::ReadOwner, LockEvent::Owner(None)) => LockStep::TakeOver,
        (LockStep::ReadOwner, LockEvent::Owner(Some(pid))) => if pid == me {
            LockStep::Duplicate
        } else {
            LockStep::Probe(pid)
        },
        (LockStep::Probe(_), LockEvent::Probed(live)) => if live {
            LockStep::Duplicate
        } else {
            LockStep::TakeOver
        },
        (LockStep::TakeOver, LockEvent::Created) => LockStep::Acquired,
        (LockStep::TakeOver, LockEvent::AlreadyExists) => LockStep::Duplicate,
        (LockStep::TakeOver, LockEvent::CreateError) => LockStep::Duplicate,
        _ => step,
    }
}


/// How many more steps the protocol can take from `step` at most.
pub open spec fn steps_left(step: LockStep) -> nat {
    match step {
        LockStep::Create => 4,
        LockStep::ReadOwner => 3,
        LockStep::Probe(_) => 2,
        LockStep::TakeOver => 1,
        _ => 0,
    }
}

/// Taking a lock always ends: every answered step brings the protocol
/// strictly closer to its end, an unanswered one leaves it where it is,
/// and a final step never moves; at most four steps are taken.
pub proof fn lock_protocol_terminates(step: LockStep, event: LockEvent, me: u32)
    ensures
        next_lock_step_spec(step, event, me) == step || steps_left(next_lock_step_spec(step, event, me))
            < steps_left(step),
        is_final(step) ==> next_lock_step_spec(step, event, me) == step,
        steps_left(lock_start()) == 4,
        steps_left(step) == 0 <==> is_final(step),
{
}

/// A process never takes its own live lock for a stale one: it never probes
/// its own pid, and a lock file naming it makes a second acquire a
/// duplicate.
pub proof fn own_lock_is_never_taken_over(step: LockStep, event: LockEvent, me: u32)
    ensures
        next_lock_step_spec(step, event, me) matches LockStep::Probe(pid) ==> pid != me || step
            == LockStep::Probe(pid),
        step == LockStep::ReadOwner && event == LockEvent::Owner(Some(me))
            ==> next_lock_step_spec(step, event, me) == LockStep::Duplicate,
{
}

/// A stale lock is taken over: one that names no pid, or whose pid is not
/// a live daemon, leads to removing it and creating it afresh.
pub proof fn stale_lock_is_taken_over(pid: u32, me: u32)
    ensures
        next_lock_step_spec(LockStep::ReadOwner, LockEvent::Owner(None), me) == LockStep::TakeOver,
        next_lock_step_spec(LockStep::Probe(pid), LockEvent::Probed(false), me)
            == LockStep::TakeOver,
        next_lock_step_spec(LockStep::TakeOver, LockEvent::Created, me) == LockStep::Acquired,
{
}

/// A `--set` feed and an event feed never share a lock file, whatever the
/// names involved.
pub proof fn set_and_event_feeds_are_independent(
    event_a: Seq<char>,
    item: Seq<char>,
    event_b: Seq<char>,
    uid: Seq<char>,
)
    ensures
        lock_path_spec(event_a, Some(item), uid) != lock_path_spec(event_b, None, uid),
{
    reveal_strlit("set-");
    reveal_strlit("event-");
    let prefix = "/tmp/sketchybar-now-playing-"@ + uid + "."@;
    let k = prefix.len() as int;
    let a = lock_path_spec(event_a, Some(item), uid);
    let b = lock_path_spec(event_b, None, uid);
    let ka = sanitize_seq("set-"@ + item);
    let kb = sanitize_seq("event-"@ + event_b);
    assert(a == prefix + ka + ".lock"@);
    assert(b == prefix + kb + ".lock"@);
    assert(("set-"@ + item)[0] == 's');
    assert(("event-"@ + event_b)[0] == 'e');
    assert(a[k] == ka[0]);
    assert(b[k] == kb[0]);
    assert(a[k] != b[k]);
}


/// No character of `s` is a path separator.
pub open spec fn has_no_slash(s: Seq<char>) -> bool {
    forall|i: int| 0 <= i < s.len() ==> s[i] != '/'
}

proof fn concat_has_no_slash(a: Seq<char>, b: Seq<char>)
    requires
        has_no_slash(a),
        has_no_slash(b),
    ensures
        has_no_slash(a + b),
{
    assert forall|i: int| 0 <= i < (a + b).len() implies (a + b)[i] != '/' by {
        if i >= a.len() {
            assert((a + b)[i] == b[i - a.len()]);
        }
    }
}

/// Whatever the feed is named and whatever `id -u` printed, its lock file
/// lies directly in `/tmp`: the rest of the path holds no separator.
pub proof fn lock_file_stays_in_tmp(
    event: Seq<char>,
    set: Option<Seq<char>>,
    id_output: Option<Seq<char>>,
)
    ensures
        ({
            let p = lock_path_spec(event, set, uid_spec(id_output));
            &&& p.subrange(0, 5) == "/tmp/"@
            &&& has_no_slash(p.subrange(5, p.len() as int))
        }),
{
    reveal_strlit("/tmp/sketchybar-now-playing-");
    reveal_strlit("/tmp/");
    reveal_strlit("sketchybar-now-playing-");
    reveal_strlit(".");
    reveal_strlit(".lock");
    reveal_strlit("unknown");
    let uid = uid_spec(id_output);
    let safe = sanitize_seq(lock_key_spec(event, set));
    let head = "sketchybar-now-playing-"@;
    assert("/tmp/sketchybar-now-playing-"@ =~= "/tmp/"@ + head);
    let rest = head + uid + "."@ + safe + ".lock"@;
    let p = lock_path_spec(event, set, uid);
    assert(p =~= "/tmp/"@ + rest);
    assert(p.subrange(0, 5) =~= "/tmp/"@);
    assert(p.subrange(5, p.len() as int) =~= rest);
    assert(has_no_slash(head));
    assert(has_no_slash(uid)) by {
        if uid != "unknown"@ {
            assert(all_digits(uid));
        }
    }
    assert(has_no_slash("."@));
    assert(has_no_slash(".lock"@));
    assert(has_no_slash(safe));
    concat_has_no_slash(head, uid);
    concat_has_no_slash(head + uid, "."@);
    concat_has_no_slash(head + uid + "."@, safe);
    concat_has_no_slash(head + uid + "."@ + safe, ".lock"@);
}


/// Sanitizing a feed key keeps every ASCII letter, ASCII digit, `-`, `_`
/// and `.` as it is and turns every other character into `_`, one for one.
pub proof fn sanitize_keeps_name_characters(key: Seq<char>)
    ensures
        sanitize_seq(key).len() == key.len(),
        forall|i: int|
            #![trigger sanitize_seq(key)[i]]
            0 <= i < key.len() ==> sanitize_seq(key)[i] == if ('0' <= key[i] <= '9') || ('a'
                <= key[i] <= 'z') || ('A' <= key[i] <= 'Z') || key[i] == '-' || key[i] == '_'
                || key[i] == '.' {
                key[i]
            } else {
                '_'
            },
{
}

/// Feeds whose names use only ASCII letters, digits, `-`, `_` and `.` get
/// distinct lock files whenever their names differ: two `--set` targets
/// share a lock only when they are the same target, and likewise two
/// events.
pub proof fn plain_feed_names_get_distinct_locks(
    event_a: Seq<char>,
    set_a: Option<Seq<char>>,
    event_b: Seq<char>,
    set_b: Option<Seq<char>>,
    uid: Seq<char>,
)
    requires
        forall|i: int|
            0 <= i < lock_key_spec(event_a, set_a).len() ==> {
                let c = #[trigger] lock_key_spec(event_a, set_a)[i];
                ('0' <= c <= '9') || ('a' <= c <= 'z') || ('A' <= c <= 'Z') || c == '-' || c
                    == '_' || c == '.'
            },
        forall|i: int|
            0 <= i < lock_key_spec(event_b, set_b).len() ==> {
                let c = #[trigger] lock_key_spec(event_b, set_b)[i];
                ('0' <= c <= '9') || ('a' <= c <= 'z') || ('A' <= c <= 'Z') || c == '-' || c
                    == '_' || c == '.'
            },
        lock_path_spec(event_a, set_a, uid) == lock_path_spec(event_b, set_b, uid),
    ensures
        lock_key_spec(event_a, set_a) == lock_key_spec(event_b, set_b),
        (set_a is Some && set_b is Some) ==> set_a->0 == set_b->0,
        set_a is None && set_b is None ==> event_a == event_b,
{
    let ka = lock_key_spec(event_a, set_a);
    let kb = lock_key_spec(event_b, set_b);
    sanitize_keeps_name_characters(ka);
    sanitize_keeps_name_characters(kb);
    assert(sanitize_seq(ka) =~= ka);
    assert(sanitize_seq(kb) =~= kb);
    let prefix = "/tmp/sketchybar-now-playing-"@ + uid + "."@;
    let pa = lock_path_spec(event_a, set_a, uid);
    let pb = lock_path_spec(event_b, set_b, uid);
    assert(pa == prefix + ka + ".lock"@);
    assert(pb == prefix + kb + ".lock"@);
    assert(pa.len() == prefix.len() + ka.len() + ".lock"@.len());
    assert(pb.len() == prefix.len() + kb.len() + ".lock"@.len());
    assert(ka.len() == kb.len());
    assert forall|i: int| 0 <= i < ka.len() implies ka[i] == kb[i] by {
        assert(pa[prefix.len() + i] == ka[i]);
        assert(pb[prefix.len() + i] == kb[i]);
    }
    assert(ka =~= kb);
    assert((set_a is Some && set_b is Some) ==> set_a->0 == set_b->0) by {
        if set_a is Some && set_b is Some {
        let a = set_a->0;
        let b = set_b->0;
        reveal_strlit("set-");
        assert(ka == "set-"@ + a);
        assert(kb == "set-"@ + b);
        assert(a =~= ka.subrange(4, ka.len() as int));
        assert(b =~= kb.subrange(4, kb.len() as int));
        assert(a == b);
        }
    }
    if set_a is None && set_b is None {
        reveal_strlit("event-");
        assert(ka == "event-"@ + event_a);
        assert(kb == "event-"@ + event_b);
        assert(event_a =~= ka.subrange(6, ka.len() as int));
        assert(event_b =~= kb.subrange(6, kb.len() as int));
    }
}

} // verus!
