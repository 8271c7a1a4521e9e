//! Tasks: the typed steps of automation around a deployment.

use vstd::prelude::*;
use crate::deployment::Deployment;
use crate::service::Service;
use crate::timestamp::Timestamp;

verus! {

/// What a task does.
#[derive(Debug, Clone, Copy, PartialEq, Eq, Structural)]
pub enum Type {
    NoOp,
    PurgeLocalStorage,
    DeleteLocalStorage,
    StopIfTrue,
    GetResults,
}

/// A step of automation tied to a deployment.
#[derive(Debug)]
pub struct Task {
    pub deployment: Option<Deployment>,
    pub service: Option<Service>,
    pub task_type: Type,
    pub parameters: String,
    pub start: Option<Timestamp>,
    pub end: Option<Timestamp>,
    pub during_deployment: bool,
}

/// What was read of a persisted task: how many columns the row has, and
/// the columns from the fourth on, each `None` where it could not be read
/// as its type.
#[derive(Debug)]
pub struct TaskColumns {
    pub column_count: usize,
    pub task_type: Option<usize>,
    pub parameters: Option<String>,
    pub during_deployment: Option<bool>,
    pub start: Option<Option<Timestamp>>,
    pub end: Option<Option<Timestamp>>,
}

/// The kind of task that a persisted code stands for: `NoOp` for 0 and for
/// every code that stands for no other kind.
pub open spec fn type_of_code(code: int) -> Type {
    if code == 1 {
        Type::PurgeLocalStorage
    } else if code == 2 {
        Type::DeleteLocalStorage
    } else if code == 3 {
        Type::StopIfTrue
    } else if code == 4 {
        Type::GetResults
    } else {
        Type::NoOp
    }
}

impl Type {
    /// The code under which a kind of task is persisted.
    pub open spec fn spec_code(self) -> int {
        match self {
            Type::NoOp => 0,
            Type::PurgeLocalStorage => 1,
            Type::DeleteLocalStorage => 2,
            Type::StopIfTrue => 3,
            Type::GetResults => 4,
        }
    }

    /// The code under which the kind of task is persisted.
    pub fn code(&self) -> (r: usize)
        ensures
            r == self.spec_code(),
    {
        match self {
            Type::NoOp => 0,
            Type::PurgeLocalStorage => 1,
            Type::DeleteLocalStorage => 2,
            Type::StopIfTrue => 3,
            Type::GetResults => 4,
        }
    }
}

/// Decoding the code of a kind of task gives that kind back.
pub proof fn lemma_code_round_trip(kind: Type)
    ensures
        type_of_code(kind.spec_code()) == kind,
        0 <= kind.spec_code() <= 4,
{
}

/// The kind of task that a persisted code stands for.
pub fn from_db_to_type(id: usize) -> (r: Type)
    ensures
        r == type_of_code(id as int),
{
    if id == 1 {
        Type::PurgeLocalStorage
    } else if id == 2 {
        Type::DeleteLocalStorage
    } else if id == 3 {
        Type::StopIfTrue
    } else if id == 4 {
        Type::GetResults
    } else {
        Type::NoOp
    }
}

/// Whether `task` is what the row `row` holds, for the given deployment
/// and service.
pub open spec fn is_task_of_row(
    task: Task,
    deployment: Deployment,
    service: Option<Service>,
    row: TaskColumns,
) -> bool {
    &&& task.deployment == Some(deployment)
    &&& task.service == service
    &&& task.task_type == match row.task_type {
        Some(code) => type_of_code(code as int),
        None => Type::NoOp,
    }
    &&& task.parameters@ == match row.parameters {
        Some(text) => text@,
        None => Seq::<char>::empty(),
    }
    &&& task.during_deployment == match row.during_deployment {
        Some(flag) => flag,
        None => false,
    }
    &&& task.start == match row.start {
        Some(instant) => instant,
        None => None,
    }
    &&& task.end == match row.end {
        Some(instant) => instant,
        None => None,
    }
}

impl Task {
    /// A task that has not run yet.
    pub fn new(
        deployment: Option<Deployment>,
        service: Option<Service>,
        task_type: Type,
        parameters: String,
        during_deployment: bool,
    ) -> (r: Task)
        ensures
            r.deployment == deployment,
            r.service == service,
            r.task_type == task_type,
            r.parameters == parameters,
            r.during_deployment == during_deployment,
            r.start is None,
            r.end is None,
    {
        Task { deployment, service, task_type, parameters, during_deployment, start: None, end: None }
    }

    /// The task that a persisted row holds. A row of fewer than 7 columns
    /// holds none. A column that could not be read counts as `NoOp`, as no
    /// parameters, as "after the deployment", as no instant.
    pub fn from_row(deployment: Deployment, service: Option<Service>, row: &TaskColumns) -> (r:
        Option<Task>)
        ensures
            r is Some <==> row.column_count >= 7,
            r is Some ==> is_task_of_row(r.unwrap(), deployment, service, *row),
    {
        if row.column_count >= 7 {
            let task_type = match row.task_type {
                Some(code) => from_db_to_type(code),
                None => Type::NoOp,
            };
            let parameters = match &row.parameters {
                Some(text) => text.clone(),
                None => String::new(),
            };
            let during_deployment = match row.during_deployment {
                Some(flag) => flag,
                None => false,
            };
            let start = match row.start {
                Some(instant) => instant,
                None => None,
            };
            let end = match row.end {
                Some(instant) => instant,
                None => None,
            };
            return Some(
                Task {
                    deployment: Some(deployment),
                    service,
                    task_type,
                    parameters,
                    during_deployment,
                    start,
                    end,
                },
            );
        }
        None
    }
}

} // verus!
