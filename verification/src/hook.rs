//! State machine of one detour hook slot.
//!
//! A slot is bound to one intercepted native function. It is initialized
//! once with the target and replacement addresses, then enabled; disabling
//! happens only at shutdown. Installing the same slot twice, or enabling or
//! disabling a slot that was never initialized, is a state error. Enable and
//! disable are idempotent once the slot is initialized.

use vstd::prelude::*;

verus! {

/// Lifecycle of a hook slot.
#[derive(Clone, Copy, Debug, PartialEq, Eq, Structural)]
pub enum HookState {
    Idle,
    Initialized,
    Enabled,
    Disabled,
}

/// State error reported by a slot transition.
#[derive(Clone, Copy, Debug, PartialEq, Eq, Structural)]
pub enum HookError {
    AlreadyInitialized,
    NotInitialized,
}

/// One hook slot. The inline-detour mechanism backing the slot lives with
/// the caller; this type decides which transitions are legal.
pub struct Hook {
    state: HookState,
}

impl Hook {
    pub closed spec fn view(&self) -> HookState {
        self.state
    }

    pub fn new() -> (r: Hook)
        ensures
            r@ == HookState::Idle,
    {
        Hook { state: HookState::Idle }
    }

    pub fn state(&self) -> (r: HookState)
        ensures
            r == self@,
    {
        self.state
    }

    /// Binds the slot to its target; legal exactly once, from the idle state.
    pub fn initialize(&mut self) -> (r: Result<(), HookError>)
        ensures
            old(self)@ == HookState::Idle ==> r == Ok::<(), HookError>(())
                && final(self)@ == HookState::Initialized,
            old(self)@ != HookState::Idle ==> r == Err::<(), HookError>(
                HookError::AlreadyInitialized,
            ) && final(self)@ == old(self)@,
    {
        match self.state {
            HookState::Idle => {
                self.state = HookState::Initialized;
                Ok(())
            },
            _ => Err(HookError::AlreadyInitialized),
        }
    }

    /// Turns interception on; legal once the slot is initialized, and
    /// idempotent after that.
    pub fn enable(&mut self) -> (r: Result<(), HookError>)
        ensures
            old(self)@ == HookState::Idle ==> r == Err::<(), HookError>(HookError::NotInitialized)
                && final(self)@ == old(self)@,
            old(self)@ != HookState::Idle ==> r == Ok::<(), HookError>(())
                && final(self)@ == HookState::Enabled,
    {
        match self.state {
            HookState::Idle => Err(HookError::NotInitialized),
            _ => {
                self.state = HookState::Enabled;
                Ok(())
            },
        }
    }

    /// Turns interception off; legal once the slot is initialized, and
    /// idempotent after that.
    pub fn disable(&mut self) -> (r: Result<(), HookError>)
        ensures
            old(self)@ == HookState::Idle ==> r == Err::<(), HookError>(HookError::NotInitialized)
                && final(self)@ == old(self)@,
            old(self)@ != HookState::Idle ==> r == Ok::<(), HookError>(())
                && final(self)@ == HookState::Disabled,
    {
        match self.state {
            HookState::Idle => Err(HookError::NotInitialized),
            _ => {
                self.state = HookState::Disabled;
                Ok(())
            },
        }
    }
}

} // verus!
