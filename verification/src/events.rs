//! Compositor-event ingestion: each notification translates into exactly
//! one registry mutation; malformed or impossible events are dropped,
//! never propagated.

use crate::registry::WindowRegistry;
use crate::registry::has_handle;
use crate::registry::promote_found;
use crate::registry::spec_promote;
use crate::registry::spec_register;
use crate::registry::spec_unregister;
use vstd::prelude::*;

verus! {

/// One notification from the compositor's push-style event feed.
pub enum CompositorEvent {
    /// A window opened with this class, handle and title.
    WindowOpened { class: String, handle: u64, title: String },
    /// The window with this handle closed.
    WindowClosed { handle: u64 },
    /// Focus moved to the window with this handle of this class.
    ActiveChanged { class: String, handle: u64 },
}

impl WindowRegistry {
    /// Applies one notification: open registers (an already-known handle is
    /// dropped rather than registered twice), close unregisters, focus
    /// change promotes. Reports whether the registry changed; lookup misses
    /// are not errors.
    pub fn apply_event(&mut self, event: CompositorEvent) -> (applied: bool)
        requires
            old(self).wf(),
        ensures
            final(self).wf(),
            match event {
                CompositorEvent::WindowOpened { class, handle, title } => {
                    if has_handle(old(self)@, handle) {
                        final(self)@ == old(self)@ && !applied
                    } else {
                        final(self)@ == spec_register(old(self)@, class@, handle, title@)
                            && applied
                    }
                },
                CompositorEvent::WindowClosed { handle } => final(self)@ == spec_unregister(
                    old(self)@,
                    handle,
                ) && applied == has_handle(old(self)@, handle),
                CompositorEvent::ActiveChanged { class, handle } => final(self)@ == spec_promote(
                    old(self)@,
                    class@,
                    handle,
                ) && applied == promote_found(old(self)@, class@, handle),
            },
    {
        match event {
            CompositorEvent::WindowOpened { class, handle, title } => {
                if self.contains_handle(handle) {
                    false
                } else {
                    self.register(class, handle, title);
                    true
                }
            },
            CompositorEvent::WindowClosed { handle } => self.unregister(handle),
            CompositorEvent::ActiveChanged { class, handle } => self.promote(&class, handle),
        }
    }
}

} // verus!
