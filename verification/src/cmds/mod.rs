//! The commands of the program, and what each of them decides.

pub mod clean;
pub mod list;

use crate::cmds::clean::Clean;
use crate::cmds::list::List;
use crate::error::{RunError, RunErrorView};
use crate::sts::assume_role::AssumeRole;
use crate::sts::config::suffix_message;
use crate::sts::session_token::SessionToken;
use vstd::prelude::*;

verus! {

/// What the program was asked to do.
#[derive(Debug, Clone)]
pub enum SubCommand {
    /// Get temporary credentials for an assumed role.
    AssumeRole(AssumeRole),
    /// Get temporary credentials for the long-term user.
    GetSessionToken(SessionToken),
    /// Remove the short-term profiles from the credentials file.
    Clean(Clean),
    /// List the profiles of the credentials file.
    List(List),
}

impl SubCommand {
    /// Whether the command's settings are acceptable. Only the commands that
    /// issue credentials have settings to check.
    pub open spec fn valid(&self) -> bool {
        match self {
            SubCommand::AssumeRole(cmd) => cmd.config.valid(),
            SubCommand::GetSessionToken(cmd) => cmd.config.valid(),
            SubCommand::Clean(_) => true,
            SubCommand::List(_) => true,
        }
    }

    /// Checks the command's settings, which is the first thing that every
    /// command does.
    pub fn init(&mut self) -> (checked: Result<(), RunError>)
        ensures
            *final(self) == *old(self),
            checked is Ok <==> old(self).valid(),
            checked matches Err(error) ==> error@ == RunErrorView::ConfigValidationError(
                suffix_message(),
            ),
    {
        match self {
            SubCommand::AssumeRole(cmd) => cmd.config.validate_profile_name(),
            SubCommand::GetSessionToken(cmd) => cmd.config.validate_profile_name(),
            SubCommand::Clean(_) => Ok(()),
            SubCommand::List(_) => Ok(()),
        }
    }
}

} // verus!
