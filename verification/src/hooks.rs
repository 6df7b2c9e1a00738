//! The four hooks of a call, and which of them is told what.

use vstd::prelude::*;

use crate::call::Action;
use crate::info::{AfterAttemptInfo, BeforeAttemptInfo};

verus! {

/// Something that can be told about the progress of a call: any closure that
/// takes the information by reference, or [`NoHook`].
pub trait Hook<Info>: Sized {
    /// Whether the hook can be told this.
    spec fn can_hear(&self, info: &Info) -> bool;

    /// What is known of the hook once it has been told this.
    spec fn has_heard(&self, info: &Info) -> bool;

    /// Tells the hook.
    fn tell(&mut self, info: &Info)
        requires
            old(self).can_hear(info),
        ensures
            old(self).has_heard(info),
    ;
}

/// The hook that does nothing, which stands where none was registered.
#[derive(Debug)]
pub struct NoHook;

impl<Info> Hook<Info> for NoHook {
    open spec fn can_hear(&self, info: &Info) -> bool {
        true
    }

    open spec fn has_heard(&self, info: &Info) -> bool {
        true
    }

    fn tell(&mut self, info: &Info) {
    }
}

/// Any closure is a hook. Telling it is calling it with the information; how
/// often it is called, and what a call changes in what it has captured, is left
/// unsaid.
impl<Info, H: FnMut(&Info)> Hook<Info> for H {
    /// The precondition of the closure.
    open spec fn can_hear(&self, info: &Info) -> bool {
        call_requires(*self, (info,))
    }

    /// The closure has returned from a call with this information.
    open spec fn has_heard(&self, info: &Info) -> bool {
        call_ensures(*self, (info,), ())
    }

    fn tell(&mut self, info: &Info)
        ensures
            call_ensures(*old(self), (info,), ()),
    {
        self(info)
    }
}

/// The four hooks of a call.
pub struct Hooks<BeforeAll, AfterAll, BeforeAttempt, AfterAttempt> {
    /// Told once before the retry loop starts.
    pub before_all: BeforeAll,
    /// Told once after the retry loop ends, in success or failure.
    pub after_all: AfterAll,
    /// Told before each attempt.
    pub before_attempt: BeforeAttempt,
    /// Told after each attempt.
    pub after_attempt: AfterAttempt,
}

impl<BeforeAll, AfterAll, BeforeAttempt, AfterAttempt> Hooks<
    BeforeAll,
    AfterAll,
    BeforeAttempt,
    AfterAttempt,
> where
    BeforeAll: Hook<BeforeAttemptInfo>,
    AfterAll: Hook<AfterAttemptInfo>,
    BeforeAttempt: Hook<BeforeAttemptInfo>,
    AfterAttempt: Hook<AfterAttemptInfo>,
 {
    /// Whether the hook that the action is for, if any, can be told.
    pub open spec fn can_hear<T, E>(self, action: Action<T, E>) -> bool {
        match action {
            Action::BeforeAll(info) => self.before_all.can_hear(&info),
            Action::AfterAll(info) => self.after_all.can_hear(&info),
            Action::BeforeAttempt(info) => self.before_attempt.can_hear(&info),
            Action::AfterAttempt(info) => self.after_attempt.can_hear(&info),
            _ => true,
        }
    }

    /// The hook that the action is for, if any, has been told what the action
    /// carries.
    pub open spec fn has_heard<T, E>(self, action: Action<T, E>) -> bool {
        match action {
            Action::BeforeAll(info) => self.before_all.has_heard(&info),
            Action::AfterAll(info) => self.after_all.has_heard(&info),
            Action::BeforeAttempt(info) => self.before_attempt.has_heard(&info),
            Action::AfterAttempt(info) => self.after_attempt.has_heard(&info),
            _ => true,
        }
    }

    /// Performs the action if it is to tell a hook: tells that hook, and no
    /// other, what the action carries. Does nothing for any other action.
    pub fn notify<T, E>(&mut self, action: &Action<T, E>)
        requires
            *action matches Action::BeforeAll(info) ==> old(self).before_all.can_hear(&info),
            *action matches Action::AfterAll(info) ==> old(self).after_all.can_hear(&info),
            *action matches Action::BeforeAttempt(info) ==> old(self).before_attempt.can_hear(
                &info,
            ),
            *action matches Action::AfterAttempt(info) ==> old(self).after_attempt.can_hear(&info),
        ensures
            old(self).has_heard(*action),
            *action matches Action::BeforeAll(info) ==> old(self).before_all.has_heard(&info),
            *action matches Action::AfterAll(info) ==> old(self).after_all.has_heard(&info),
            *action matches Action::BeforeAttempt(info) ==> old(self).before_attempt.has_heard(
                &info,
            ),
            *action matches Action::AfterAttempt(info) ==> old(self).after_attempt.has_heard(&info),
            action !is BeforeAll ==> final(self).before_all == old(self).before_all,
            action !is AfterAll ==> final(self).after_all == old(self).after_all,
            action !is BeforeAttempt ==> final(self).before_attempt == old(self).before_attempt,
            action !is AfterAttempt ==> final(self).after_attempt == old(self).after_attempt,
    {
        match action {
            Action::BeforeAll(info) => self.before_all.tell(info),
            Action::AfterAll(info) => self.after_all.tell(info),
            Action::BeforeAttempt(info) => self.before_attempt.tell(info),
            Action::AfterAttempt(info) => self.after_attempt.tell(info),
            _ => {},
        }
    }
}

} // verus!
