//! Removing the short-term profiles from the credentials file.

use crate::creds::{CredentialsHandler, stored};
use crate::error::{RunError, RunErrorView};
use crate::store::{
    Sections, has_name, lemma_named_without_names, lemma_without_names_agree, named,
    without_names,
};
use crate::text::{
    ends_with, is_suffix, lemma_not_seen_before, lemma_push_contains, lemma_push_no_duplicates,
    texts,
};
use vstd::prelude::*;

verus! {

/// The command that removes the short-term profiles.
#[derive(Debug, Default, Clone)]
pub struct Clean {
    /// What marks the name of a short-term profile.
    pub short_term_suffix: String,
}

/// The names that end with `suffix`.
pub open spec fn short_term_names(suffix: Seq<char>) -> Set<Seq<char>> {
    Set::new(|name: Seq<char>| is_suffix(suffix, name))
}

/// `sections` without the short-term profiles: every section whose name
/// ends with `suffix` is gone, the others stay as they are.
pub open spec fn cleaned(sections: Sections, suffix: Seq<char>) -> Sections {
    without_names(sections, short_term_names(suffix))
}

/// Whether `profiles` names the short-term profiles of `sections`, each
/// once.
pub open spec fn short_term_profiles(
    profiles: Seq<Seq<char>>,
    sections: Sections,
    suffix: Seq<char>,
) -> bool {
    &&& profiles.no_duplicates()
    &&& forall|name: Seq<char>|
        profiles.contains(name) <==> has_name(sections, Some(name)) && is_suffix(suffix, name)
}

/// Where a clean-up stands.
#[derive(Debug, Clone)]
pub enum CleanState {
    /// Nothing has been done yet.
    Start,
    /// The user is asked whether to delete `profiles`.
    AwaitingConfirmation { profiles: Vec<String> },
    /// The profiles are gone from the store; its writing is awaited.
    AwaitingPersist,
    /// The clean-up has ended well.
    Done,
    /// The clean-up has failed.
    Failed,
}

/// What has happened outside since the last step of a clean-up.
#[derive(Debug, Clone)]
pub enum CleanEvent {
    /// The clean-up begins.
    Begin,
    /// The user has answered: `true` to delete.
    Answered(bool),
    /// The credentials file was written.
    Persisted,
    /// The credentials file could not be written.
    PersistFailed(String),
}

/// How a clean-up ended well.
#[derive(Debug, Clone, Copy, PartialEq, Eq)]
pub enum CleanOutcome {
    /// The store holds no short-term profile.
    NothingFound,
    /// The short-term profiles were deleted.
    Deleted,
    /// The user chose to keep the profiles.
    Aborted,
}

/// What is to be done outside before the next step of a clean-up.
#[derive(Debug, Clone)]
pub enum CleanAction {
    /// Show these profiles and ask whether to delete them.
    Confirm(Vec<String>),
    /// Write these bytes to the credentials file, in one piece.
    Persist(Vec<u8>),
    /// Report the good end of the clean-up.
    Finish(CleanOutcome),
    /// Report the failure of the clean-up.
    Fail(RunError),
}

/// Whether `event` is one that a clean-up in `state` waits for.
pub open spec fn clean_awaited(state: CleanState, event: CleanEvent) -> bool {
    match state {
        CleanState::Start => event is Begin,
        CleanState::AwaitingConfirmation { .. } => event is Answered,
        CleanState::AwaitingPersist => event is Persisted || event is PersistFailed,
        CleanState::Done => false,
        CleanState::Failed => false,
    }
}

impl CleanState {
    /// Whether `event` is one that a clean-up in this state waits for.
    pub fn awaits(&self, event: &CleanEvent) -> (r: bool)
        ensures
            r == clean_awaited(*self, *event),
    {
        match self {
            CleanState::Start => matches!(event, CleanEvent::Begin),
            CleanState::AwaitingConfirmation { .. } => matches!(event, CleanEvent::Answered(_)),
            CleanState::AwaitingPersist => matches!(
                event,
                CleanEvent::Persisted | CleanEvent::PersistFailed(_)
            ),
            CleanState::Done => false,
            CleanState::Failed => false,
        }
    }
}

/// One step of a clean-up with the suffix `suffix`: from `state` and the
/// awaited `event` to the state `next` and the `action` to take, with the
/// store going from `store` to `store_after`. Only a confirmed deletion
/// changes the store.
pub open spec fn clean_transition(
    suffix: Seq<char>,
    store: Sections,
    state: CleanState,
    event: CleanEvent,
    next: CleanState,
    action: CleanAction,
    store_after: Sections,
) -> bool {
    match (state, event) {
        (CleanState::Start, CleanEvent::Begin) => {
            &&& store_after == store
            &&& {
                ||| {
                    &&& next is Done
                    &&& action == CleanAction::Finish(CleanOutcome::NothingFound)
                    &&& short_term_profiles(Seq::empty(), store, suffix)
                }
                ||| {
                    &&& next is AwaitingConfirmation
                    &&& action is Confirm
                    &&& texts(action->Confirm_0@) == texts(next->profiles@)
                    &&& texts(next->profiles@).len() > 0
                    &&& short_term_profiles(texts(next->profiles@), store, suffix)
                }
            }
        },
        (CleanState::AwaitingConfirmation { profiles }, CleanEvent::Answered(delete)) => {
            if delete {
                &&& store_after == without_names(store, texts(profiles@).to_set())
                &&& {
                    ||| {
                        &&& next is AwaitingPersist
                        &&& action is Persist
                        &&& stored(action->Persist_0@) == Some(store_after)
                    }
                    ||| next is Failed && action is Fail && action->Fail_0@ is StoreIoError
                }
            } else {
                &&& store_after == store
                &&& next is Done
                &&& action == CleanAction::Finish(CleanOutcome::Aborted)
            }
        },
        (CleanState::AwaitingPersist, CleanEvent::Persisted) => {
            &&& store_after == store
            &&& next is Done
            &&& action == CleanAction::Finish(CleanOutcome::Deleted)
        },
        (CleanState::AwaitingPersist, CleanEvent::PersistFailed(message)) => {
            &&& store_after == store
            &&& next is Failed
            &&& action is Fail
            &&& action->Fail_0@ == RunErrorView::StoreIoError(message@)
        },
        _ => false,
    }
}

impl Clean {
    /// The short-term profiles of the store: the names of its sections that
    /// end with the suffix, each once.
    pub fn profiles(&self, handler: &CredentialsHandler) -> (found: Vec<String>)
        ensures
            short_term_profiles(texts(found@), handler@, self.short_term_suffix@),
    {
        let names = handler.profiles();
        let mut found: Vec<String> = Vec::new();
        let mut i: usize = 0;
        while i < names.len()
            invariant
                i <= names.len(),
                texts(names@).no_duplicates(),
                forall|name: Seq<char>|
                    texts(names@).contains(name) <==> has_name(handler@, Some(name)),
                texts(found@).no_duplicates(),
                forall|name: Seq<char>|
                    texts(found@).contains(name) <==> texts(names@).take(i as int).contains(name)
                        && is_suffix(self.short_term_suffix@, name),
            decreases names.len() - i,
        {
            let ghost before = texts(found@);
            let ghost seen = texts(names@).take(i as int);
            let ghost next = names@[i as int]@;
            proof {
                assert(texts(names@)[i as int] == next);
                lemma_not_seen_before(texts(names@), i as int);
                assert forall|name: Seq<char>|
                    seen.push(next).contains(name) <==> seen.contains(name) || name == next by {
                    lemma_push_contains(seen, next, name);
                }
            }
            if ends_with(names[i].as_str(), self.short_term_suffix.as_str()) {
                found.push(names[i].clone());
                proof {
                    assert(texts(found@) =~= before.push(next));
                    lemma_push_no_duplicates(before, next);
                    assert forall|name: Seq<char>|
                        texts(found@).contains(name) <==> before.contains(name) || name
                            == next by {
                        lemma_push_contains(before, next, name);
                    }
                }
            }
            proof {
                assert forall|name: Seq<char>|
                    texts(found@).contains(name) <==> texts(names@).take(i + 1).contains(name)
                        && is_suffix(self.short_term_suffix@, name) by {
                    lemma_push_contains(seen, next, name);
                    if is_suffix(self.short_term_suffix@, next) {
                        lemma_push_contains(before, next, name);
                    }
                }
            }
            i += 1;
        }
        proof {
            assert(texts(names@).take(i as int) =~= texts(names@));
        }
        found
    }

    /// Takes one step of a clean-up: given where it stands and what has
    /// happened outside, says where it stands now and what is to be done
    /// outside next. A clean-up starts in `CleanState::Start` with
    /// `CleanEvent::Begin` and has ended when it stands in `CleanState::Done`
    /// or `CleanState::Failed`.
    pub fn exec(
        &self,
        handler: &mut CredentialsHandler,
        state: CleanState,
        event: CleanEvent,
    ) -> (step: (CleanState, CleanAction))
        requires
            clean_awaited(state, event),
        ensures
            clean_transition(
                self.short_term_suffix@,
                old(handler)@,
                state,
                event,
                step.0,
                step.1,
                final(handler)@,
            ),
    {
        match (state, event) {
            (CleanState::Start, CleanEvent::Begin) => {
                let profiles = self.profiles(handler);
                if profiles.len() == 0 {
                    proof {
                        assert(texts(profiles@) =~= Seq::empty());
                    }
                    (CleanState::Done, CleanAction::Finish(CleanOutcome::NothingFound))
                } else {
                    let shown = profiles.clone();
                    (CleanState::AwaitingConfirmation { profiles }, CleanAction::Confirm(shown))
                }
            },
            (CleanState::AwaitingConfirmation { profiles }, CleanEvent::Answered(delete)) => {
                if delete {
                    handler.delete_profiles(&profiles);
                    match handler.serialize() {
                        Ok(bytes) => (CleanState::AwaitingPersist, CleanAction::Persist(bytes)),
                        Err(error) => (CleanState::Failed, CleanAction::Fail(error)),
                    }
                } else {
                    (CleanState::Done, CleanAction::Finish(CleanOutcome::Aborted))
                }
            },
            (CleanState::AwaitingPersist, CleanEvent::Persisted) => {
                (CleanState::Done, CleanAction::Finish(CleanOutcome::Deleted))
            },
            (CleanState::AwaitingPersist, CleanEvent::PersistFailed(message)) => {
                (CleanState::Failed, CleanAction::Fail(RunError::StoreIoError(message)))
            },
            _ => vstd::pervasive::unreached(),
        }
    }
}

/// Deleting the profiles that the first step of a clean-up finds removes
/// the short-term profiles of the store, all of them and nothing else: of a
/// name that ends with the suffix no section is left, and the sections of
/// every other name stay as they were.
pub proof fn lemma_clean_removes_short_term(
    profiles: Seq<Seq<char>>,
    sections: Sections,
    suffix: Seq<char>,
    name: Seq<char>,
)
    requires
        short_term_profiles(profiles, sections, suffix),
    ensures
        without_names(sections, profiles.to_set()) == cleaned(sections, suffix),
        named(cleaned(sections, suffix), name) == if is_suffix(suffix, name) {
            Seq::empty()
        } else {
            named(sections, name)
        },
{
    lemma_without_names_agree(sections, profiles.to_set(), short_term_names(suffix));
    lemma_named_without_names(sections, short_term_names(suffix), name);
}

} // verus!
