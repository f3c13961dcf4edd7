//! Listing the profiles of the credentials file.

use crate::creds::CredentialsHandler;
use crate::store::has_name;
use crate::text::{decimal, decimal_string, texts};
use vstd::prelude::*;

verus! {

/// The command that lists the profiles of the credentials file.
#[derive(Debug, Default, Clone)]
pub struct List;

/// The line that announces a list of `count` profiles.
pub open spec fn headline_text(count: nat) -> Seq<char> {
    if count == 0 {
        "No AWS credential profiles found"@
    } else if count == 1 {
        "Found 1 AWS credential profile:"@
    } else {
        "Found "@ + decimal(count) + " AWS credential profiles:"@
    }
}

impl List {
    /// The line that announces a list of `count` profiles.
    pub fn headline(count: usize) -> (line: String)
        ensures
            line@ == headline_text(count as nat),
    {
        if count == 0 {
            String::from_str("No AWS credential profiles found")
        } else if count == 1 {
            String::from_str("Found 1 AWS credential profile:")
        } else {
            let mut line = String::from_str("Found ");
            line.append(decimal_string(count as u64).as_str());
            line.append(" AWS credential profiles:");
            line
        }
    }

    /// The names of the profiles in the store, each once, and the line that
    /// announces them. The general section bears no name and is no profile.
    pub fn exec(&self, handler: &CredentialsHandler) -> (listed: (String, Vec<String>))
        ensures
            listed.0@ == headline_text(listed.1@.len()),
            texts(listed.1@).no_duplicates(),
            forall|name: Seq<char>|
                texts(listed.1@).contains(name) <==> has_name(handler@, Some(name)),
    {
        let profiles = handler.profiles();
        (List::headline(profiles.len()), profiles)
    }
}

} // verus!
