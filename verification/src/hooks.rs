//! The registry behind window-destruction watching: each installed event
//! hook is recorded with the window it watches and the message to post to
//! its owner when that window is destroyed.
use vstd::prelude::*;

verus! {

/// The event that reports a destroyed object.
pub const EVENT_OBJECT_DESTROY: u32 = 0x8001;

/// What an installed hook watches, and whom it tells.
#[derive(Debug, Clone, Copy, PartialEq, Eq, Structural)]
pub struct HookContext {
    pub hook: isize,
    pub owner: isize,
    pub target: isize,
    pub msg: u32,
}

/// The installed hooks, in the order in which they were installed.
#[derive(Debug)]
pub struct HookRegistry {
    contexts: Vec<HookContext>,
}

impl View for HookRegistry {
    type V = Seq<HookContext>;

    closed spec fn view(&self) -> Seq<HookContext> {
        self.contexts@
    }
}

/// Whether a destruction watch gets installed: only for a valid target
/// window whose thread is known, and only when the system gave a hook.
pub fn should_register_hook(target_valid: bool, thread_id: u32, hook_valid: bool) -> (res: bool)
    ensures
        res == (target_valid && thread_id != 0 && hook_valid),
{
    target_valid && thread_id != 0 && hook_valid
}

/// The first context at or after `k` that `hook` installed for `hwnd`, or
/// `contexts.len()`.
pub open spec fn first_match(contexts: Seq<HookContext>, hook: isize, hwnd: isize, k: int) -> int
    decreases contexts.len() - k,
{
    if k < 0 || k >= contexts.len() {
        contexts.len() as int
    } else if contexts[k].hook == hook && contexts[k].target == hwnd {
        k
    } else {
        first_match(contexts, hook, hwnd, k + 1)
    }
}

/// The message to post, and to whom, when `hook` reports `event` for the
/// window `hwnd`: the first matching context's owner and message, for a
/// destruction event only.
pub open spec fn notification(contexts: Seq<HookContext>, hook: isize, event: u32, hwnd: isize) -> Option<
    (isize, u32),
> {
    if event != EVENT_OBJECT_DESTROY {
        None
    } else {
        let k = first_match(contexts, hook, hwnd, 0);
        if k < contexts.len() {
            Some((contexts[k].owner, contexts[k].msg))
        } else {
            None
        }
    }
}

proof fn lemma_first_match(contexts: Seq<HookContext>, hook: isize, hwnd: isize, k: int)
    requires
        0 <= k <= contexts.len(),
    ensures
        k <= first_match(contexts, hook, hwnd, k) <= contexts.len(),
        first_match(contexts, hook, hwnd, k) < contexts.len() ==> contexts[first_match(
            contexts,
            hook,
            hwnd,
            k,
        )].hook == hook && contexts[first_match(contexts, hook, hwnd, k)].target == hwnd,
        forall|i: int|
            k <= i < first_match(contexts, hook, hwnd, k) ==> !(contexts[i].hook == hook
                && contexts[i].target == hwnd),
    decreases contexts.len() - k,
{
    if k < contexts.len() && !(contexts[k].hook == hook && contexts[k].target == hwnd) {
        lemma_first_match(contexts, hook, hwnd, k + 1);
    }
}

impl HookRegistry {
    /// A registry without hooks.
    pub fn new() -> (res: Self)
        ensures
            res@ == Seq::<HookContext>::empty(),
    {
        HookRegistry { contexts: Vec::new() }
    }

    /// Records a newly installed hook.
    pub fn register(&mut self, context: HookContext)
        ensures
            final(self)@ == old(self)@.push(context),
    {
        self.contexts.push(context);
    }

    /// The message to post, and to whom, for an event that `hook` reports.
    pub fn notification_for(&self, hook: isize, event: u32, hwnd: isize) -> (res: Option<(isize, u32)>)
        ensures
            res == notification(self@, hook, event, hwnd),
    {
        if event != EVENT_OBJECT_DESTROY {
            return None;
        }
        let mut k: usize = 0;
        proof {
            lemma_first_match(self@, hook, hwnd, 0);
        }
        while k < self.contexts.len()
            invariant
                event == EVENT_OBJECT_DESTROY,
                k <= self@.len(),
                forall|i: int| 0 <= i < k ==> !(self@[i].hook == hook && self@[i].target == hwnd),
                k <= first_match(self@, hook, hwnd, 0) <= self@.len(),
                first_match(self@, hook, hwnd, 0) < self@.len() ==> self@[first_match(
                    self@,
                    hook,
                    hwnd,
                    0,
                )].hook == hook && self@[first_match(self@, hook, hwnd, 0)].target == hwnd,
                forall|i: int|
                    0 <= i < first_match(self@, hook, hwnd, 0) ==> !(self@[i].hook == hook
                        && self@[i].target == hwnd),
            decreases self@.len() - k,
        {
            let c = self.contexts[k];
            if c.hook == hook && c.target == hwnd {
                proof {
                    let fm = first_match(self@, hook, hwnd, 0);
                    if fm > k {
                        assert(!(self@[k as int].hook == hook && self@[k as int].target == hwnd));
                    }
                }
                return Some((c.owner, c.msg));
            }
            k += 1;
        }
        None
    }

    /// Forgets every context of `hook`, keeping the others in order.
    pub fn unregister(&mut self, hook: isize)
        ensures
            final(self)@ == old(self)@.filter(|c: HookContext| c.hook != hook),
    {
        let mut kept: Vec<HookContext> = Vec::new();
        let mut k: usize = 0;
        while k < self.contexts.len()
            invariant
                k <= self@.len(),
                self@ == old(self)@,
                kept@ == self@.take(k as int).filter(|c: HookContext| c.hook != hook),
            decreases self@.len() - k,
        {
            let c = self.contexts[k];
            proof {
                assert(self@.take(k + 1) =~= self@.take(k as int).push(c));
                self@.take(k as int).lemma_filter_push(c, |c: HookContext| c.hook != hook);
            }
            if c.hook != hook {
                kept.push(c);
            }
            k += 1;
        }
        assert(self@.take(self@.len() as int) =~= self@);
        self.contexts = kept;
    }
}

/// Once a hook is removed, none of its events is passed on, whatever else
/// is registered.
pub proof fn law_removed_hook_is_silent(contexts: Seq<HookContext>, hook: isize, event: u32, hwnd: isize)
    ensures
        notification(contexts.filter(|c: HookContext| c.hook != hook), hook, event, hwnd) is None,
{
    let f = contexts.filter(|c: HookContext| c.hook != hook);
    lemma_first_match(f, hook, hwnd, 0);
    let k = first_match(f, hook, hwnd, 0);
    if event == EVENT_OBJECT_DESTROY && k < f.len() {
        assert(f.contains(f[k]));
        contexts.lemma_filter_contains_rev(|c: HookContext| c.hook != hook, f[k]);
    }
}

/// A newly registered hook reports the destruction of its target to its
/// owner, unless an earlier registration of the same hook and target does.
pub proof fn law_registered_hook_notifies(contexts: Seq<HookContext>, c: HookContext)
    requires
        forall|i: int| 0 <= i < contexts.len() ==> !(contexts[i].hook == c.hook && contexts[i].target == c.target),
    ensures
        notification(contexts.push(c), c.hook, EVENT_OBJECT_DESTROY, c.target) == Some((c.owner, c.msg)),
{
    let s = contexts.push(c);
    lemma_first_match(s, c.hook, c.target, 0);
    let k = first_match(s, c.hook, c.target, 0);
    if k < contexts.len() {
        assert(s[k] == contexts[k]);
    }
    if k == s.len() {
        assert(!(s[contexts.len() as int].hook == c.hook && s[contexts.len() as int].target == c.target));
    }
}

} // verus!
