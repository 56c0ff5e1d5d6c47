//! From a plan of device commands for one package to the commands that are
//! sent, and from their outcomes to events for the controller.

use vstd::prelude::*;
use crate::list::List;
use crate::message::{CommandType, Effect, Message, PackageInfo};
use crate::package::{Settings, UadListState};

verus! {

/// One step of a plan: a device command, and the user whose table it is
/// about where that is not the active one.
#[derive(Debug, Clone)]
pub struct PlannedCommand {
    pub target_user: Option<usize>,
    pub command: String,
}

/// A command that is to be sent, with what its outcome carries back, and
/// whether that outcome may change the table.
#[derive(Debug, Clone)]
pub struct Dispatch {
    pub command: String,
    pub info: PackageInfo,
    pub authoritative: bool,
}

/// The command at place `k` of the plan for `target`, ready to be sent:
/// only the first of a plan is authoritative.
pub open spec fn dispatched(target: PackageInfo, step: PlannedCommand, k: int) -> Dispatch {
    Dispatch {
        command: step.command,
        info: PackageInfo {
            i_user: step.target_user,
            index: target.index,
            removal: target.removal,
            generation: target.generation,
        },
        authoritative: k == 0,
    }
}

/// Turns the plan for one package into the commands to send, in the order
/// of the plan. Each carries the row and the load cycle of `target` and the
/// user of its own step.
pub fn dispatch_plan(target: &PackageInfo, plan: &Vec<PlannedCommand>) -> (sent: Vec<Dispatch>)
    ensures
        sent@.len() == plan@.len(),
        forall|k: int| 0 <= k < plan@.len() ==> #[trigger] sent@[k] == dispatched(*target, plan@[k], k),
{
    let mut sent: Vec<Dispatch> = Vec::new();
    let mut k: usize = 0;
    while k < plan.len()
        invariant
            k <= plan@.len(),
            sent@.len() == k,
            forall|j: int| 0 <= j < k ==> #[trigger] sent@[j] == dispatched(*target, plan@[j], j),
        decreases plan.len() - k,
    {
        sent.push(
            Dispatch {
                command: plan[k].command.clone(),
                info: PackageInfo {
                    i_user: plan[k].target_user,
                    index: target.index,
                    removal: target.removal.clone(),
                    generation: target.generation,
                },
                authoritative: k == 0,
            },
        );
        k = k + 1;
    }
    sent
}

/// The event that the outcome of a sent command becomes: that of an
/// authoritative command is folded into the table, any other is dropped.
pub open spec fn spec_outcome_message(authoritative: bool, result: Result<CommandType, ()>) -> Message {
    if authoritative {
        Message::ChangePackageState(result)
    } else {
        Message::Nothing
    }
}

/// Wraps the outcome of a sent command into the event for the controller.
pub fn outcome_message(authoritative: bool, result: Result<CommandType, ()>) -> (message: Message)
    ensures
        message == spec_outcome_message(authoritative, result),
{
    if authoritative {
        Message::ChangePackageState(result)
    } else {
        Message::Nothing
    }
}

/// Of the commands sent for one package, only the first can change the
/// controller: the outcome of any later one, success or failure, leaves
/// every table, the selection and the catalog state as they were.
pub proof fn lemma_only_first_outcome_counts(
    target: PackageInfo,
    plan: Seq<PlannedCommand>,
    k: int,
    result: Result<CommandType, ()>,
    pre: List,
    post: List,
    settings: Settings,
    state_before: UadListState,
    state_after: UadListState,
    effect: Effect,
)
    requires
        1 <= k < plan.len(),
        List::update_result(
            pre,
            post,
            settings,
            state_before,
            state_after,
            spec_outcome_message(dispatched(target, plan[k], k).authoritative, result),
            effect,
        ),
    ensures
        post == pre,
        state_after == state_before,
{
}

} // verus!
