//! Deployments: named aggregates of services and tasks.

use vstd::prelude::*;
use crate::document::{text_or_empty, Document, Entry};
use crate::service::{is_specified_by, Service};
use crate::task::{Task, Type};
use crate::timestamp::Timestamp;

verus! {

/// A named aggregate of services and lifecycle tasks.
#[derive(Debug)]
pub struct Deployment {
    pub id: Option<i64>,
    pub name: String,
    pub services: Vec<Service>,
    pub owner: String,
    pub start: Timestamp,
    pub end: Option<Timestamp>,
    pub tasks: Vec<Task>,
}

/// What was read of each of the five columns of a persisted deployment:
/// `None` where the column could not be read as its type.
#[derive(Debug)]
pub struct DeploymentColumns {
    pub id: Option<Option<i64>>,
    pub name: Option<String>,
    pub owner: Option<String>,
    pub start: Option<Timestamp>,
    pub end: Option<Option<Timestamp>>,
}

/// The owner of every deployment that is not read from a row.
pub open spec fn default_owner() -> Seq<char> {
    "aresch"@
}

/// The JSON text of the pair of a message and an occurrence, as serde_json
/// writes it; nothing where serde_json fails.
pub uninterp spec fn stop_parameters_json(message: Seq<char>, occurrence: int) -> Option<Seq<char>>;

/// Calls serde_json's `to_string` on the pair of the message and the
/// occurrence. The contract only names the text: it is a function of the
/// two values.
#[verifier::external_body]
fn encode_stop_parameters(message: &str, occurrence: i64) -> (r: Option<String>)
    ensures
        r is Some <==> stop_parameters_json(message@, occurrence as int) is Some,
        r is Some ==> stop_parameters_json(message@, occurrence as int) == Some(r.unwrap()@),
{
    serde_json::to_string(&(message, occurrence)).ok()
}

/// The parameters of a task that stops a deployment on a logged message:
/// the JSON text of the pair, empty where there is none.
pub open spec fn stop_parameters(message: Seq<char>, occurrence: int) -> Seq<char> {
    match stop_parameters_json(message, occurrence) {
        Some(text) => text,
        None => Seq::empty(),
    }
}

/// Whether `task` is the task that the item `item` of a `stop.log` list
/// describes: it stops the deployment once the item's message (empty by
/// default) has been logged as often as its occurrence (0 by default) says,
/// runs during the deployment, and is tied to nothing yet.
pub open spec fn is_stop_task(task: Task, item: Document) -> bool {
    &&& task.deployment is None
    &&& task.service is None
    &&& task.task_type == Type::StopIfTrue
    &&& task.parameters@ == stop_parameters(
        text_or_empty(item.spec_field("message"@)),
        match item.spec_field("occurrence"@) {
            Some(d) => d.spec_integer_or_zero() as int,
            None => 0,
        },
    )
    &&& task.during_deployment
    &&& task.start is None
    &&& task.end is None
}

/// The pairs of the `services` section that describe a service: those
/// whose value is a mapping, in their order.
pub open spec fn service_entries(document: Document) -> Seq<Entry> {
    match document.spec_field("services"@) {
        Some(Document::Mapping(entries)) => entries@.filter(|e: Entry| e.value is Mapping),
        _ => Seq::empty(),
    }
}

/// The items of the list under `stop.log`: none where there is no such
/// list.
pub open spec fn stop_items(document: Document) -> Seq<Document> {
    match document.spec_field("stop"@) {
        Some(stop) => match stop.spec_field("log"@) {
            Some(Document::Sequence(items)) => items@,
            _ => Seq::empty(),
        },
        None => Seq::empty(),
    }
}

/// Whether `services` are the services that the pairs `entries` describe,
/// one for one: each under its pair's key as its name (empty where the key
/// is not text), with its own hostname where none is specified, and its own
/// start.
pub open spec fn are_specified_by(services: Seq<Service>, entries: Seq<Entry>) -> bool {
    &&& services.len() == entries.len()
    &&& forall|i: int|
        0 <= i < services.len() ==> is_specified_by(
            #[trigger] services[i],
            entries[i].key.spec_text_or_empty(),
            entries[i].value->Mapping_0@,
            services[i].hostname@,
            services[i].start,
        )
}

/// Whether `tasks` are the stop tasks of the items `items`, one for one.
pub open spec fn are_stop_tasks(tasks: Seq<Task>, items: Seq<Document>) -> bool {
    &&& tasks.len() == items.len()
    &&& forall|i: int| 0 <= i < tasks.len() ==> is_stop_task(#[trigger] tasks[i], items[i])
}

/// The task that an item of a `stop.log` list describes.
pub fn stop_task(item: &Document) -> (r: Task)
    ensures
        is_stop_task(r, *item),
{
    let message = match item.field("message") {
        Some(d) => d.text_or_empty(),
        None => String::new(),
    };
    let occurrence: i64 = match item.field("occurrence") {
        Some(d) => d.integer_or_zero(),
        None => 0,
    };
    let parameters = match encode_stop_parameters(message.as_str(), occurrence) {
        Some(text) => text,
        None => String::new(),
    };
    Task::new(None, None, Type::StopIfTrue, parameters, true)
}

/// The services that the `services` section of a document describes.
pub fn specified_services(document: &Document) -> (r: Vec<Service>)
    ensures
        are_specified_by(r@, service_entries(*document)),
{
    let mut services: Vec<Service> = Vec::new();
    if let Some(Document::Mapping(entries)) = document.field("services") {
        let ghost keep = |e: Entry| e.value is Mapping;
        let mut i: usize = 0;
        while i < entries.len()
            invariant
                i <= entries@.len(),
                keep == |e: Entry| e.value is Mapping,
                are_specified_by(services@, entries@.take(i as int).filter(keep)),
            decreases entries@.len() - i,
        {
            let ghost before = entries@.take(i as int).filter(keep);
            let ghost after = entries@.take(i + 1).filter(keep);
            let ghost earlier = services@;
            proof {
                reveal(Seq::filter);
                assert(entries@.take(i + 1).drop_last() =~= entries@.take(i as int));
                assert(entries@.take(i + 1).last() == entries@[i as int]);
                assert(after == if keep(entries@[i as int]) {
                    before.push(entries@[i as int])
                } else {
                    before
                });
            }
            if let Document::Mapping(h) = &entries[i].value {
                let name = entries[i].key.text_or_empty();
                services.push(Service::from_yaml(name.as_str(), h));
                proof {
                    assert forall|k: int| 0 <= k < services@.len() implies is_specified_by(
                        #[trigger] services@[k],
                        after[k].key.spec_text_or_empty(),
                        after[k].value->Mapping_0@,
                        services@[k].hostname@,
                        services@[k].start,
                    ) by {
                        if k < earlier.len() {
                            assert(services@[k] == earlier[k]);
                            assert(after[k] == before[k]);
                        }
                    }
                }
            }
            i += 1;
        }
        proof {
            assert(entries@.take(i as int) =~= entries@);
        }
    }
    services
}

/// The tasks that the `stop.log` section of a document describes.
pub fn specified_tasks(document: &Document) -> (r: Vec<Task>)
    ensures
        are_stop_tasks(r@, stop_items(*document)),
{
    let mut tasks: Vec<Task> = Vec::new();
    if let Some(stop) = document.field("stop") {
        if let Some(Document::Sequence(items)) = stop.field("log") {
            let mut i: usize = 0;
            while i < items.len()
                invariant
                    i <= items@.len(),
                    are_stop_tasks(tasks@, items@.take(i as int)),
                decreases items@.len() - i,
            {
                tasks.push(stop_task(&items[i]));
                i += 1;
            }
            proof {
                assert(items@.take(i as int) =~= items@);
            }
        }
    }
    tasks
}

impl Deployment {
    /// An empty deployment of the given owner that starts at `start`.
    pub fn started_at(name: &str, owner: &str, start: Timestamp) -> (r: Deployment)
        ensures
            r.id is None,
            r.name@ == name@,
            r.services@.len() == 0,
            r.owner@ == owner@,
            r.start == start,
            r.end is None,
            r.tasks@.len() == 0,
    {
        Deployment {
            id: None,
            name: name.to_owned(),
            services: Vec::new(),
            owner: owner.to_owned(),
            start,
            end: None,
            tasks: Vec::new(),
        }
    }

    /// An empty deployment of the default owner that starts now, whatever
    /// the clock says.
    pub fn new(name: &str) -> (r: Deployment)
        ensures
            r.id is None,
            r.name@ == name@,
            r.services@.len() == 0,
            r.owner@ == default_owner(),
            r.end is None,
            r.tasks@.len() == 0,
    {
        Deployment::started_at(name, "aresch", Timestamp::now())
    }

    /// The deployment that a document describes: its services come from the
    /// `services` section, its tasks from the list under `stop.log`. It
    /// starts now, whatever the clock says.
    pub fn from_yaml(name: &str, yaml: &Document) -> (r: Deployment)
        ensures
            r.id is None,
            r.name@ == name@,
            are_specified_by(r.services@, service_entries(*yaml)),
            r.owner@ == default_owner(),
            r.end is None,
            are_stop_tasks(r.tasks@, stop_items(*yaml)),
    {
        let services = specified_services(yaml);
        let tasks = specified_tasks(yaml);
        Deployment {
            id: None,
            name: name.to_owned(),
            services,
            owner: "aresch".to_owned(),
            start: Timestamp::now(),
            end: None,
            tasks,
        }
    }

    /// Whether `deployment` is what the row `row` holds, with `now` as
    /// the start where the row's could not be read.
    pub open spec fn is_read_from(deployment: Deployment, row: DeploymentColumns, now: Timestamp) -> bool {
        &&& deployment.id == match row.id {
            Some(id) => id,
            None => None,
        }
        &&& deployment.name@ == match row.name {
            Some(text) => text@,
            None => Seq::<char>::empty(),
        }
        &&& deployment.services@.len() == 0
        &&& deployment.owner@ == match row.owner {
            Some(text) => text@,
            None => Seq::<char>::empty(),
        }
        &&& deployment.start == match row.start {
            Some(instant) => instant,
            None => now,
        }
        &&& deployment.end == match row.end {
            Some(instant) => instant,
            None => None,
        }
        &&& deployment.tasks@.len() == 0
    }

    /// The deployment that a persisted row holds, without services and
    /// tasks. A column that could not be read counts as absent or empty;
    /// the start then is `now`.
    pub fn from_row_with(row: &DeploymentColumns, now: Timestamp) -> (r: Deployment)
        ensures
            Deployment::is_read_from(r, *row, now),
    {
        Deployment {
            id: match row.id {
                Some(id) => id,
                None => None,
            },
            name: match &row.name {
                Some(text) => text.clone(),
                None => String::new(),
            },
            services: Vec::new(),
            owner: match &row.owner {
                Some(text) => text.clone(),
                None => String::new(),
            },
            start: match row.start {
                Some(instant) => instant,
                None => now,
            },
            end: match row.end {
                Some(instant) => instant,
                None => None,
            },
            tasks: Vec::new(),
        }
    }

    /// The deployment that a persisted row holds, with the clock's reading
    /// as the start where the row's could not be read.
    pub fn from_row(row: &DeploymentColumns) -> (r: Deployment)
        ensures
            Deployment::is_read_from(r, *row, r.start),
    {
        match row.start {
            Some(start) => Deployment::from_row_with(row, start),
            None => Deployment::from_row_with(row, Timestamp::now()),
        }
    }

    /// A copy of the deployment's services.
    pub fn get_services(&self) -> (r: Vec<Service>)
        ensures
            r@ == self.services@,
    {
        let mut copy: Vec<Service> = Vec::new();
        let mut i: usize = 0;
        while i < self.services.len()
            invariant
                i <= self.services@.len(),
                copy@ == self.services@.take(i as int),
            decreases self.services@.len() - i,
        {
            let replicas = self.services[i].replicas;
            copy.push(self.services[i].with_replicas(replicas));
            proof {
                assert(copy@ =~= self.services@.take(i + 1));
            }
            i += 1;
        }
        proof {
            assert(self.services@.take(i as int) =~= self.services@);
        }
        copy
    }
}

} // verus!
