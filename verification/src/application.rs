//! Applications: a root supervisor under a name.

use vstd::prelude::*;

use crate::concurrent::ConcurrentRuntime;
use crate::context::{SpawnError, SpawnOptions};
use crate::local::LocalRuntime;
use crate::runtime::actor_state::ActorView;
use crate::types::ActorId;

verus! {

/// Handle returned after an application root supervisor is booted.
#[derive(Debug, Clone, Copy, PartialEq, Eq)]
pub struct ApplicationHandle {
    name: &'static str,
    root_supervisor: ActorId,
}

impl ApplicationHandle {
    /// The name of the application.
    pub closed spec fn spec_name(self) -> &'static str {
        self.name
    }

    /// The root supervisor of the application.
    pub closed spec fn spec_root(self) -> ActorId {
        self.root_supervisor
    }

    /// Creates a new application handle.
    pub fn new(name: &'static str, root_supervisor: ActorId) -> (handle: Self)
        ensures
            handle.spec_name() == name,
            handle.spec_root() == root_supervisor,
    {
        ApplicationHandle { name, root_supervisor }
    }

    /// Returns the application name.
    pub fn name(self) -> (name: &'static str)
        ensures
            name == self.spec_name(),
    {
        self.name
    }

    /// Returns the booted root supervisor actor id.
    pub fn root_supervisor(self) -> (root: ActorId)
        ensures
            root == self.spec_root(),
    {
        self.root_supervisor
    }
}

impl LocalRuntime {
    /// Enters the root supervisor of an application.
    pub fn boot_application(
        &mut self,
        application: &'static str,
        supervisor: &'static str,
        options: SpawnOptions,
    ) -> (outcome: Result<ApplicationHandle, SpawnError>)
        requires
            old(self).wf(),
        ensures
            final(self).wf(),
            final(self).config == old(self).config,
            ({
                let before = old(self)@;
                let id = old(self).ids.next_id();
                let actor = ActorView::fresh(
                    id,
                    supervisor,
                    options,
                    old(self).config,
                    0,
                ).marked();
                &&& outcome is Ok <==> before.state.has_room(old(self).config.max_actors)
                    && before.state.accepts_name(actor)
                &&& outcome matches Ok(handle) ==> {
                    &&& handle.spec_name() == application
                    &&& handle.spec_root() == id
                    &&& final(self)@ == before.with_state(before.state.admitted(actor)).queued(
                        id,
                        true,
                    )
                }
                &&& outcome matches Err(error) ==> final(self)@ == before
                    && before.state.refuses_with(old(self).config.max_actors, actor, error)
            }),
    {
        match self.spawn_with_options(supervisor, options) {
            Ok(root) => Ok(ApplicationHandle::new(application, root)),
            Err(error) => Err(error),
        }
    }
}

impl ConcurrentRuntime {
    /// Enters the root supervisor of an application.
    pub fn boot_application(
        &mut self,
        application: &'static str,
        supervisor: &'static str,
        options: SpawnOptions,
    ) -> (outcome: Result<ApplicationHandle, SpawnError>)
        requires
            old(self).wf(),
            old(self).next_local_id < u64::MAX,
        ensures
            final(self).wf(),
            final(self).config == old(self).config,
            final(self).next_local_id == old(self).next_local_id + 1,
            ({
                let before = old(self).state@;
                let config = old(self).config;
                let id = ActorId { local_id: old(self).next_local_id, generation: 0 };
                let actor = ActorView::fresh(
                    id,
                    supervisor,
                    options,
                    config,
                    crate::concurrent::state::scheduler_of(config, id),
                );
                &&& outcome is Ok <==> before.has_room(config.max_actors) && before.accepts_name(
                    actor,
                )
                &&& outcome matches Ok(handle) ==> {
                    &&& handle.spec_name() == application
                    &&& handle.spec_root() == id
                    &&& final(self).state@ == crate::concurrent::state::joined(
                        before,
                        actor,
                        options.link_to_parent,
                    )
                }
                &&& outcome matches Err(error) ==> final(self).state@ == before
                    && before.refuses_with(config.max_actors, actor, error)
            }),
    {
        match self.spawn_with_options(supervisor, options) {
            Ok(root) => Ok(ApplicationHandle::new(application, root)),
            Err(error) => Err(error),
        }
    }
}

} // verus!
