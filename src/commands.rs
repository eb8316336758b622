use vstd::prelude::*;

use crate::app::{add_call, call_view, delete_call, update_call, App, AppView, CallView, RemoteCall};

verus! {

/// The command line: a single command to run instead of the interactive loop.
pub struct Cli {
    pub command: Option<Commands>,
}

/// The commands that the command line accepts.
pub enum Commands {
    /// Adds a new task.
    Add { title: String },
    /// Sets an existing task's title and completion flag.
    Update { id: usize, title: String, checked: bool },
    /// Deletes a task.
    Delete { id: usize },
}

/// The remote call that a command needs against the given registry.
pub open spec fn command_call(app: AppView, command: Commands) -> Option<CallView> {
    match command {
        Commands::Add { title } => add_call(title@),
        Commands::Update { id, title, checked } => update_call(app, id as nat, title@, checked),
        Commands::Delete { id } => delete_call(app, id as nat),
    }
}

/// Turns a command into the remote call it needs; the outcome of that call
/// then goes to the matching completion on [`App`]. Blank titles and unknown
/// ids need no call.
pub fn process_command(app: &App, command: &Commands) -> (r: Option<RemoteCall>)
    requires
        app@.wf(),
    ensures
        call_view(r) == command_call(app@, *command),
{
    match command {
        Commands::Add { title } => app.request_add(title.as_str()),
        Commands::Update { id, title, checked } => app.request_update(*id, title.as_str(), *checked),
        Commands::Delete { id } => app.request_delete(*id),
    }
}

} // verus!
