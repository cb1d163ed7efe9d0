//! Tasks and the scores earned with them.

use vstd::prelude::*;
use crate::entity::{DecodeError, Entity, FromInput};
use crate::graph::GraphNode;
use crate::timestamp::Timestamp;
use crate::util::{bool_or, get_bool, get_string, get_u16, text_or, u16_or};

verus! {

/// A chore that earns points.
#[derive(Debug)]
pub struct Task {
    pub id: Option<u32>,
    pub name: String,
    pub points: u16,
    pub enabled: bool,
}

impl Clone for Task {
    fn clone(&self) -> (r: Task)
        ensures
            r == *self,
    {
        Task { id: self.id, name: self.name.clone(), points: self.points, enabled: self.enabled }
    }
}

impl Entity for Task {
    open spec fn tag() -> Seq<char> {
        "Task"@
    }

    open spec fn id(&self) -> Option<u32> {
        self.id
    }

    /// A task's name defaults to `N/A`, its points to 0, and it is disabled
    /// unless the node says otherwise.
    open spec fn decoded(node: &GraphNode, now: Timestamp, entity: &Task) -> bool {
        &&& entity.name@ == text_or(&node.properties, "name"@, "N/A"@)
        &&& entity.points == u16_or(&node.properties, "points"@, 0)
        &&& entity.enabled == bool_or(&node.properties, "enabled"@, false)
    }

    open spec fn composed(
        nodes: Seq<GraphNode>,
        own: &GraphNode,
        now: Timestamp,
        entity: &Task,
    ) -> bool {
        Self::decoded(own, now, entity)
    }

    fn get_id(&self) -> (r: &Option<u32>) {
        &self.id
    }

    fn get_node_label() -> (r: &'static str) {
        "Task"
    }

    fn from_node(node: &GraphNode, now: Timestamp) -> (r: Task) {
        #[verifier::truncate]
        let id = node.identity as u32;
        let name = get_string(&node.properties, "name", "N/A");
        let points = get_u16(&node.properties, "points", 0);
        let enabled = get_bool(&node.properties, "enabled", false);
        Task { id: Some(id), name, points, enabled }
    }

    fn try_from_input(input: &FromInput, now: Timestamp) -> (r: Result<Task, DecodeError>) {
        let own = input.nodes_labelled(Task::get_node_label());
        if own.len() == 0 {
            Err(DecodeError::NoNodes)
        } else if own.len() != 1 {
            Err(DecodeError::UnusualNumberOfNodes(own.len()))
        } else {
            Ok(Task::from_node(own[0], now))
        }
    }
}

/// A task as it was when it was scored, the points it earned and the moment.
#[derive(Debug)]
pub struct Score {
    pub task: Task,
    pub points: u16,
    pub scored_at: Timestamp,
}

impl Score {
    /// Records that `task` was scored at `scored_at`, for the points the task
    /// is worth.
    pub fn new(task: Task, scored_at: Timestamp) -> (r: Score)
        ensures
            r.task == task,
            r.points == task.points,
            r.scored_at == scored_at,
    {
        let points = task.points;
        Score { task, points, scored_at }
    }
}

impl Clone for Score {
    fn clone(&self) -> (r: Score)
        ensures
            r == *self,
    {
        Score { task: self.task.clone(), points: self.points, scored_at: self.scored_at }
    }
}

} // verus!
