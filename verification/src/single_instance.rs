//! Keeping one instance of a program per session: the names of the kernel
//! objects that the instances share, what a starting instance does when it
//! finds one already running, how the running instance reacts to what it
//! waits on, and how often a notification is retried.
use vstd::prelude::*;

use crate::wide_string::{law_decode_inverts_encode, lemma_utf16_concat, push_utf16, utf16_encode};

verus! {

/// A message that the running instance receives.
#[derive(Debug, Clone, Copy, PartialEq, Eq, Structural)]
pub enum SingleInstanceMessage {
    /// Another instance was started (and has quit).
    SecondInstanceStarted,
    /// Another program asked this instance to exit.
    ExitRequested,
}

/// The name of a session-local kernel object: `Local\`, the instance name
/// and the suffix, in UTF-16 with a terminating 0 unit.
pub open spec fn core_obj_name_of(name: Seq<char>, suffix: Seq<char>) -> Seq<u16> {
    utf16_encode("Local\\"@ + name + suffix).push(0u16)
}

/// The name of a session-local kernel object for instance `name`.
pub fn core_obj_name(name: &str, suffix: &str) -> (res: Vec<u16>)
    ensures
        res@ == core_obj_name_of(name@, suffix@),
{
    let mut out: Vec<u16> = Vec::new();
    push_utf16(&mut out, "Local\\");
    push_utf16(&mut out, name);
    push_utf16(&mut out, suffix);
    out.push(0);
    proof {
        lemma_utf16_concat("Local\\"@, name@);
        lemma_utf16_concat("Local\\"@ + name@, suffix@);
        assert(out@ =~= utf16_encode("Local\\"@ + name@ + suffix@).push(0u16));
    }
    out
}

/// The names of the objects that the instances of `name` share.
pub struct SingleInstanceNames {
    /// The mutex that the first instance owns.
    pub mutex: Vec<u16>,
    /// The event that a second instance sets.
    pub second_instance_started_event: Vec<u16>,
    /// The event that asks the running instance to exit.
    pub exit_requested_event: Vec<u16>,
}

impl SingleInstanceNames {
    /// The names for instance `name`: the bare name for the mutex, with
    /// `-second-instance-started` and `-exit-requested` for the events.
    pub fn for_instance(name: &str) -> (res: Self)
        ensures
            res.mutex@ == core_obj_name_of(name@, ""@),
            res.second_instance_started_event@ == core_obj_name_of(
                name@,
                "-second-instance-started"@,
            ),
            res.exit_requested_event@ == core_obj_name_of(name@, "-exit-requested"@),
    {
        SingleInstanceNames {
            mutex: core_obj_name(name, ""),
            second_instance_started_event: core_obj_name(name, "-second-instance-started"),
            exit_requested_event: core_obj_name(name, "-exit-requested"),
        }
    }
}

/// The name of the event that asks the running instance of `name` to exit.
pub fn exit_requested_event_name(name: &str) -> (res: Vec<u16>)
    ensures
        res@ == core_obj_name_of(name@, "-exit-requested"@),
{
    core_obj_name(name, "-exit-requested")
}

/// What a starting instance does once it has created (or opened) the
/// mutex.
#[derive(Debug, Clone, Copy, PartialEq, Eq, Structural)]
pub enum AcquireAction {
    /// Another instance owns the mutex: tell it that a second instance
    /// started, and quit.
    NotifyRunningInstance,
    /// This is the first instance: create the events and wait on them.
    BecomeFirstInstance,
}

/// What a starting instance does, given whether the mutex already existed.
pub fn acquire_action(mutex_already_existed: bool) -> (res: AcquireAction)
    ensures
        res == (if mutex_already_existed {
            AcquireAction::NotifyRunningInstance
        } else {
            AcquireAction::BecomeFirstInstance
        }),
{
    if mutex_already_existed {
        AcquireAction::NotifyRunningInstance
    } else {
        AcquireAction::BecomeFirstInstance
    }
}

/// What the running instance's waiting thread does after a wait returns.
pub struct WaitStep {
    /// The message to pass on, if any.
    pub message: Option<SingleInstanceMessage>,
    /// Whether to wait again.
    pub keep_waiting: bool,
}

/// After a wait that returned `wait_result` (the index of the event that
/// was set, or a failure code): stop when the instance is going away;
/// report a second instance and wait again for the first event; report an
/// exit request and stop for the second; stop on anything else.
pub fn wait_step(stopping: bool, wait_result: u32) -> (res: WaitStep)
    ensures
        stopping ==> res.message is None && !res.keep_waiting,
        !stopping && wait_result == 0 ==> res.message == Some(
            SingleInstanceMessage::SecondInstanceStarted,
        ) && res.keep_waiting,
        !stopping && wait_result == 1 ==> res.message == Some(SingleInstanceMessage::ExitRequested)
            && !res.keep_waiting,
        !stopping && wait_result != 0 && wait_result != 1 ==> res.message is None
            && !res.keep_waiting,
{
    if stopping {
        WaitStep { message: None, keep_waiting: false }
    } else if wait_result == 0 {
        WaitStep { message: Some(SingleInstanceMessage::SecondInstanceStarted), keep_waiting: true }
    } else if wait_result == 1 {
        WaitStep { message: Some(SingleInstanceMessage::ExitRequested), keep_waiting: false }
    } else {
        WaitStep { message: None, keep_waiting: false }
    }
}

/// How many times a notification is tried before giving up.
pub const NOTIFY_RETRY_ATTEMPTS: usize = 20;

/// Whether to try a notification again after `failed_attempts` failed
/// tries (each followed by a short delay).
pub fn should_retry_notify(failed_attempts: usize) -> (res: bool)
    ensures
        res == (failed_attempts < NOTIFY_RETRY_ATTEMPTS),
{
    failed_attempts < NOTIFY_RETRY_ATTEMPTS
}


/// Different suffixes give different object names: the encoding of a name
/// is decoded back to the name itself, so two names only share an encoding
/// when their texts are equal.
pub proof fn law_suffixes_give_distinct_names(name: Seq<char>, a: Seq<char>, b: Seq<char>)
    requires
        a != b,
    ensures
        core_obj_name_of(name, a) != core_obj_name_of(name, b),
{
    let ta = "Local\\"@ + name + a;
    let tb = "Local\\"@ + name + b;
    law_decode_inverts_encode(ta);
    law_decode_inverts_encode(tb);
    if core_obj_name_of(name, a) == core_obj_name_of(name, b) {
        assert(utf16_encode(ta) =~= core_obj_name_of(name, a).drop_last());
        assert(utf16_encode(tb) =~= core_obj_name_of(name, b).drop_last());
        assert(ta == tb);
        let k = ("Local\\"@ + name).len() as int;
        assert(ta.skip(k) =~= a);
        assert(tb.skip(k) =~= b);
    }
}

/// The mutex and the two events of an instance have three different names.
pub proof fn law_instance_objects_have_distinct_names(name: Seq<char>)
    ensures
        core_obj_name_of(name, ""@) != core_obj_name_of(name, "-second-instance-started"@),
        core_obj_name_of(name, ""@) != core_obj_name_of(name, "-exit-requested"@),
        core_obj_name_of(name, "-second-instance-started"@) != core_obj_name_of(name, "-exit-requested"@),
{
    reveal_strlit("");
    reveal_strlit("-second-instance-started");
    reveal_strlit("-exit-requested");
    assert(""@ != "-second-instance-started"@) by {
        assert(""@.len() != "-second-instance-started"@.len());
    }
    assert(""@ != "-exit-requested"@) by {
        assert(""@.len() != "-exit-requested"@.len());
    }
    assert("-second-instance-started"@ != "-exit-requested"@) by {
        assert("-second-instance-started"@.len() != "-exit-requested"@.len());
    }
    law_suffixes_give_distinct_names(name, ""@, "-second-instance-started"@);
    law_suffixes_give_distinct_names(name, ""@, "-exit-requested"@);
    law_suffixes_give_distinct_names(name, "-second-instance-started"@, "-exit-requested"@);
}

} // verus!
