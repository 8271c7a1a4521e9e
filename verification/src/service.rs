//! Services: the units of deployable work, and their grouping into
//! replicas.

use vstd::prelude::*;
use vstd::string::*;
use crate::architecture::Architecture;
use crate::decimal::{decimal, integer_text};
use crate::document::{find, find_text, lookup, text_or_empty, Document, Entry};
use crate::timestamp::Timestamp;
use crate::utils::get_random_name;

verus! {

/// A unit of deployable work.
#[derive(Debug, Clone)]
pub struct Service {
    pub id: Option<i64>,
    pub name: String,
    pub image: String,
    pub hostname: String,
    pub replicas: i64,
    pub deployment: Option<i64>,
    pub ipv4_address: Option<String>,
    pub preferred_node: Option<String>,
    pub start: Timestamp,
    pub end: Option<Timestamp>,
    pub node: Option<String>,
    pub architecture: Option<Architecture>,
}

/// What was read of each of the ten columns of a persisted service: `None`
/// where the column could not be read as its type.
#[derive(Debug)]
pub struct ServiceColumns {
    pub id: Option<Option<i64>>,
    pub name: Option<String>,
    pub image: Option<String>,
    pub deployment: Option<Option<i64>>,
    pub node: Option<Option<String>>,
    pub start: Option<Timestamp>,
    pub end: Option<Option<Timestamp>>,
    pub ipv4_address: Option<Option<String>>,
    pub hostname: Option<String>,
    pub architecture: Option<String>,
}

/// The text of a column, empty where it could not be read.
pub open spec fn column_text(column: Option<String>) -> Seq<char> {
    match column {
        Some(text) => text@,
        None => Seq::empty(),
    }
}

/// The value of a column that may be empty, absent where it could not be
/// read.
pub open spec fn column_value<T>(column: Option<Option<T>>) -> Option<T> {
    match column {
        Some(value) => value,
        None => None,
    }
}

/// Whether `service` is what the row `row` holds, with `now` as the start
/// where the row's could not be read.
pub open spec fn is_read_from(service: Service, row: ServiceColumns, now: Timestamp) -> bool {
    &&& service.id == match row.id {
        Some(id) => id,
        None => Some(0i64),
    }
    &&& service.name@ == column_text(row.name)
    &&& service.image@ == column_text(row.image)
    &&& service.hostname@ == column_text(row.hostname)
    &&& service.replicas == 1
    &&& service.deployment == column_value(row.deployment)
    &&& service.ipv4_address == column_value(row.ipv4_address)
    &&& service.preferred_node is None
    &&& service.start == match row.start {
        Some(instant) => instant,
        None => now,
    }
    &&& service.end == column_value(row.end)
    &&& service.node == column_value(row.node)
    &&& service.architecture == Some(
        Architecture::spec_parse_or_default(
            match row.architecture {
                Some(text) => text@,
                None => "unknown"@,
            },
        ),
    )
}

/// A copy of a column's text, empty where it could not be read.
pub fn text_of_column(column: &Option<String>) -> (r: String)
    ensures
        r@ == column_text(*column),
{
    match column {
        Some(text) => text.clone(),
        None => String::new(),
    }
}

/// A copy of the text of a column that may be empty.
pub fn value_of_column(column: &Option<Option<String>>) -> (r: Option<String>)
    ensures
        r == column_value(*column),
{
    match column {
        Some(value) => duplicate_text(value),
        None => None,
    }
}

/// A copy of an optional text.
pub fn duplicate_text(text: &Option<String>) -> (r: Option<String>)
    ensures
        r == *text,
{
    match text {
        Some(s) => Some(s.clone()),
        None => None,
    }
}

/// The deployment that a service is grouped under: its own, or 1 where it
/// has none.
pub open spec fn group_deployment(service: Service) -> int {
    match service.deployment {
        Some(d) => d as int,
        None => 1,
    }
}

/// The key that services are grouped by: the image, a hyphen, and the
/// deployment in decimal notation.
pub open spec fn group_key(service: Service) -> Seq<char> {
    service.image@ + seq!['-'] + decimal(group_deployment(service))
}

/// Whether the service at `index` is the first of the list with its key.
pub open spec fn is_first_of_group(services: Seq<Service>, index: int) -> bool {
    none_before(services, index, index)
}

/// Whether none of the first `upto` services has the key of the service at
/// `index`.
pub open spec fn none_before(services: Seq<Service>, index: int, upto: int) -> bool {
    forall|j: int| 0 <= j < upto ==> group_key(#[trigger] services[j]) != group_key(services[index])
}

/// How many of the first `upto` services have the key `key`.
pub open spec fn member_count(services: Seq<Service>, key: Seq<char>, upto: nat) -> nat
    decreases upto,
{
    if upto == 0 {
        0
    } else {
        member_count(services, key, (upto - 1) as nat) + if group_key(services[upto - 1]) == key {
            1nat
        } else {
            0nat
        }
    }
}

/// A member count as a replica count: the count itself, or 1 where the
/// count is beyond the integer's range.
pub open spec fn replicas_of(count: nat) -> i64 {
    if count <= i64::MAX {
        count as i64
    } else {
        1
    }
}

/// The service that stands for its group: the service itself with the
/// group's member count as its replicas.
pub open spec fn representative(services: Seq<Service>, index: int) -> Service {
    Service {
        replicas: replicas_of(member_count(services, group_key(services[index]), services.len())),
        ..services[index]
    }
}

/// The representatives of the groups that start among the first `upto`
/// services, in the order in which the groups start.
pub open spec fn representatives(services: Seq<Service>, upto: nat) -> Seq<Service>
    decreases upto,
{
    if upto == 0 {
        Seq::empty()
    } else if is_first_of_group(services, upto - 1) {
        representatives(services, (upto - 1) as nat).push(representative(services, upto - 1))
    } else {
        representatives(services, (upto - 1) as nat)
    }
}

/// The grouped view of a list of services: one representative for each key,
/// in the order in which the keys first occur.
pub open spec fn grouped(services: Seq<Service>) -> Seq<Service> {
    representatives(services, services.len())
}

/// The replica count that a description asks for: the whole number under
/// `replicas` where it is at least 1, and 1 otherwise.
pub open spec fn specified_replicas(node: Option<Document>) -> i64 {
    match node {
        Some(Document::Integer(n)) => if n >= 1 {
            n
        } else {
            1
        },
        _ => 1,
    }
}

/// The hostname that a description asks for: the text under `hostname`,
/// and `generated` where there is none.
pub open spec fn specified_hostname(node: Option<Document>, generated: Seq<char>) -> Seq<char> {
    match node {
        Some(Document::Text(text)) => text@,
        _ => generated,
    }
}

/// Whether an optional text is what an optional node reads as: absent with
/// the node, and else the node's text, empty where the node is not text.
pub open spec fn reads_as(text: Option<String>, node: Option<Document>) -> bool {
    match (text, node) {
        (Some(t), Some(d)) => t@ == d.spec_text_or_empty(),
        (None, None) => true,
        _ => false,
    }
}

/// Whether `service` is what the mapping `entries` describes under
/// the name `name`, given the hostname to use where none is specified and
/// the instant at which the service starts.
pub open spec fn is_specified_by(
    service: Service,
    name: Seq<char>,
    entries: Seq<Entry>,
    generated: Seq<char>,
    start: Timestamp,
) -> bool {
    &&& service.id is None
    &&& service.name@ == name
    &&& service.image@ == text_or_empty(lookup(entries, "image"@))
    &&& service.hostname@ == specified_hostname(lookup(entries, "hostname"@), generated)
    &&& service.replicas == specified_replicas(lookup(entries, "replicas"@))
    &&& service.deployment is None
    &&& reads_as(service.ipv4_address, lookup(entries, "ipv4-address"@))
    &&& reads_as(service.preferred_node, lookup(entries, "node"@))
    &&& service.start == start
    &&& service.end is None
    &&& service.node is None
    &&& service.architecture is None
}

/// The text under `key`, if the mapping has such a pair.
pub fn find_optional_text(entries: &Vec<Entry>, key: &str) -> (r: Option<String>)
    ensures
        reads_as(r, lookup(entries@, key@)),
{
    match find(entries, key) {
        Some(d) => Some(d.text_or_empty()),
        None => None,
    }
}

impl Service {
    /// The service that a mapping describes: `generated` is its hostname
    /// where the mapping gives none, `start` its start.
    pub fn from_yaml_with(name: &str, hash: &Vec<Entry>, generated: String, start: Timestamp) -> (r:
        Service)
        ensures
            is_specified_by(r, name@, hash@, generated@, start),
    {
        let hostname = match find(hash, "hostname") {
            Some(Document::Text(text)) => text.clone(),
            _ => generated,
        };
        let replicas: i64 = match find(hash, "replicas") {
            Some(Document::Integer(n)) => if *n >= 1 {
                *n
            } else {
                1
            },
            _ => 1,
        };
        Service {
            id: None,
            name: name.to_owned(),
            image: find_text(hash, "image"),
            hostname,
            replicas,
            deployment: None,
            ipv4_address: find_optional_text(hash, "ipv4-address"),
            preferred_node: find_optional_text(hash, "node"),
            start,
            end: None,
            node: None,
            architecture: None,
        }
    }

    /// The service that a mapping describes, starting now. Where the
    /// mapping gives no hostname, a random name is generated: the
    /// contract then leaves the hostname open, as it does the start.
    pub fn from_yaml(name: &str, hash: &Vec<Entry>) -> (r: Service)
        ensures
            is_specified_by(r, name@, hash@, r.hostname@, r.start),
    {
        let generated = match find(hash, "hostname") {
            Some(Document::Text(_)) => String::new(),
            _ => get_random_name(),
        };
        Service::from_yaml_with(name, hash, generated, Timestamp::now())
    }

    /// A service that starts at `start`: one replica, nothing else known.
    pub fn started_at(name: &str, image: &str, hostname: &str, start: Timestamp) -> (r: Service)
        ensures
            r.id is None,
            r.name@ == name@,
            r.image@ == image@,
            r.hostname@ == hostname@,
            r.replicas == 1,
            r.deployment is None,
            r.ipv4_address is None,
            r.preferred_node is None,
            r.start == start,
            r.end is None,
            r.node is None,
            r.architecture is None,
    {
        Service {
            id: None,
            name: name.to_owned(),
            image: image.to_owned(),
            hostname: hostname.to_owned(),
            replicas: 1,
            deployment: None,
            ipv4_address: None,
            preferred_node: None,
            start,
            end: None,
            node: None,
            architecture: None,
        }
    }

    /// A service that starts now: one replica, nothing else known. The
    /// start is whatever the clock says.
    pub fn new(name: &str, image: &str, hostname: &str) -> (r: Service)
        ensures
            r.id is None,
            r.name@ == name@,
            r.image@ == image@,
            r.hostname@ == hostname@,
            r.replicas == 1,
            r.deployment is None,
            r.ipv4_address is None,
            r.preferred_node is None,
            r.end is None,
            r.node is None,
            r.architecture is None,
    {
        Service::started_at(name, image, hostname, Timestamp::now())
    }

    /// The service that a persisted row holds: one replica, no preferred
    /// node. A column that could not be read counts as absent or empty, the
    /// id then is 0, the start `now`, and the architecture ARM64, as it is
    /// for a name that is not known.
    pub fn from_row_with(row: &ServiceColumns, now: Timestamp) -> (r: Service)
        ensures
            is_read_from(r, *row, now),
    {
        let architecture = match &row.architecture {
            Some(text) => Architecture::parse_or_default(text.as_str()),
            None => Architecture::parse_or_default("unknown"),
        };
        Service {
            id: match row.id {
                Some(id) => id,
                None => Some(0),
            },
            name: text_of_column(&row.name),
            image: text_of_column(&row.image),
            hostname: text_of_column(&row.hostname),
            replicas: 1,
            deployment: match row.deployment {
                Some(deployment) => deployment,
                None => None,
            },
            ipv4_address: value_of_column(&row.ipv4_address),
            preferred_node: None,
            start: match row.start {
                Some(instant) => instant,
                None => now,
            },
            end: match row.end {
                Some(instant) => instant,
                None => None,
            },
            node: value_of_column(&row.node),
            architecture: Some(architecture),
        }
    }

    /// The service that a persisted row holds, with the clock's reading as
    /// the start where the row's could not be read.
    pub fn from_row(row: &ServiceColumns) -> (r: Service)
        ensures
            is_read_from(r, *row, r.start),
    {
        match row.start {
            Some(start) => Service::from_row_with(row, start),
            None => Service::from_row_with(row, Timestamp::now()),
        }
    }

    /// A copy of the service with another replica count.
    pub fn with_replicas(&self, replicas: i64) -> (r: Service)
        ensures
            r == (Service { replicas: replicas, ..*self }),
    {
        Service {
            id: self.id,
            name: self.name.clone(),
            image: self.image.clone(),
            hostname: self.hostname.clone(),
            replicas,
            deployment: self.deployment,
            ipv4_address: duplicate_text(&self.ipv4_address),
            preferred_node: duplicate_text(&self.preferred_node),
            start: self.start,
            end: self.end,
            node: duplicate_text(&self.node),
            architecture: self.architecture,
        }
    }

    /// The key that the service is grouped by.
    pub fn group_key(&self) -> (r: String)
        ensures
            r@ == group_key(*self),
    {
        let deployment: i64 = match self.deployment {
            Some(d) => d,
            None => 1,
        };
        let mut key = self.image.clone();
        key.append("-");
        let number = integer_text(deployment);
        key.append(number.as_str());
        proof {
            reveal_strlit("-");
            assert("-"@ =~= seq!['-']);
            assert(key@ =~= group_key(*self));
        }
        key
    }

    /// Collapses the services that share a key into one entry each: the
    /// first service with that key, with the number of services that have
    /// the key as its replicas. The entries come in the order in which
    /// their keys first occur.
    pub fn group_services(services: Vec<Service>) -> (r: Vec<Service>)
        ensures
            r@ == grouped(services@),
    {
        let n = services.len();
        let mut keys: Vec<String> = Vec::new();
        let mut k: usize = 0;
        while k < n
            invariant
                n == services@.len(),
                k <= n,
                keys@.len() == k,
                forall|j: int| 0 <= j < k ==> (#[trigger] keys@[j])@ == group_key(services@[j]),
            decreases n - k,
        {
            keys.push(services[k].group_key());
            k += 1;
        }
        let mut out: Vec<Service> = Vec::new();
        let mut i: usize = 0;
        while i < n
            invariant
                n == services@.len(),
                i <= n,
                keys@.len() == n,
                forall|j: int| 0 <= j < n ==> (#[trigger] keys@[j])@ == group_key(services@[j]),
                out@ == representatives(services@, i as nat),
            decreases n - i,
        {
            let mut first = true;
            let mut j: usize = 0;
            while j < i
                invariant
                    n == services@.len(),
                    i < n,
                    j <= i,
                    keys@.len() == n,
                    forall|j: int| 0 <= j < n ==> (#[trigger] keys@[j])@ == group_key(services@[j]),
                    first == none_before(services@, i as int, j as int),
                decreases i - j,
            {
                if keys[j] == keys[i] {
                    first = false;
                }
                j += 1;
            }
            if first {
                let mut count: usize = 0;
                let mut m: usize = 0;
                while m < n
                    invariant
                        n == services@.len(),
                        i < n,
                        m <= n,
                        keys@.len() == n,
                        forall|j: int| 0 <= j < n ==> (#[trigger] keys@[j])@ == group_key(services@[j]),
                        count == member_count(services@, group_key(services@[i as int]), m as nat),
                        count <= m,
                    decreases n - m,
                {
                    if keys[m] == keys[i] {
                        count += 1;
                    }
                    m += 1;
                }
                let replicas: i64 = if count as u64 <= 0x7fff_ffff_ffff_ffffu64 {
                    count as i64
                } else {
                    1
                };
                out.push(services[i].with_replicas(replicas));
            }
            i += 1;
        }
        out
    }
}

/// Whether no two services of the list share a key.
pub open spec fn keys_distinct(services: Seq<Service>) -> bool {
    forall|i: int, j: int|
        0 <= i < j < services.len() ==> group_key(#[trigger] services[i]) != group_key(
            #[trigger] services[j],
        )
}

/// In a list without a shared key, the service at `index` is the only
/// member of its group: among the first `upto` services its key occurs once
/// if `index` is among them, and not at all if it is not.
pub proof fn lemma_member_count_distinct(services: Seq<Service>, index: int, upto: nat)
    requires
        keys_distinct(services),
        0 <= index < services.len(),
        upto <= services.len(),
    ensures
        member_count(services, group_key(services[index]), upto) == if index < upto {
            1nat
        } else {
            0nat
        },
    decreases upto,
{
    if upto > 0 {
        lemma_member_count_distinct(services, index, (upto - 1) as nat);
    }
}

/// The services of a list, each with one replica.
pub open spec fn with_one_replica(services: Seq<Service>) -> Seq<Service> {
    Seq::new(services.len(), |i: int| Service { replicas: 1, ..services[i] })
}

/// The first `upto` representatives of a list without a shared key are its
/// first `upto` services, each with one replica.
pub proof fn lemma_representatives_of_distinct(services: Seq<Service>, upto: nat)
    requires
        keys_distinct(services),
        upto <= services.len(),
    ensures
        representatives(services, upto) == with_one_replica(services).take(upto as int),
    decreases upto,
{
    if upto == 0 {
        assert(with_one_replica(services).take(0) =~= Seq::<Service>::empty());
    } else {
        let last = upto - 1;
        lemma_representatives_of_distinct(services, last as nat);
        lemma_member_count_distinct(services, last, services.len());
        assert(is_first_of_group(services, last));
        assert(representative(services, last) == with_one_replica(services)[last]);
        assert(with_one_replica(services).take(upto as int) =~= with_one_replica(services).take(
            last,
        ).push(with_one_replica(services)[last]));
    }
}

/// Grouping a list without a shared key keeps its services and their
/// order, and gives each one replica.
pub proof fn lemma_grouping_of_distinct(services: Seq<Service>)
    requires
        keys_distinct(services),
    ensures
        grouped(services) == with_one_replica(services),
{
    lemma_representatives_of_distinct(services, services.len());
    assert(with_one_replica(services).take(services.len() as int) =~= with_one_replica(services));
}

/// Grouping leaves a list unchanged in which no two services share a key
/// and every service has one replica.
pub proof fn lemma_grouping_is_idempotent(services: Seq<Service>)
    requires
        keys_distinct(services),
        forall|i: int| 0 <= i < services.len() ==> (#[trigger] services[i]).replicas == 1,
    ensures
        grouped(services) == services,
{
    lemma_grouping_of_distinct(services);
    assert(with_one_replica(services) =~= services);
}

/// Grouping a grouped view again keeps its entries and their order, and
/// gives each one replica.
pub proof fn lemma_grouping_twice(services: Seq<Service>)
    ensures
        grouped(grouped(services)) == with_one_replica(grouped(services)),
{
    lemma_grouped_keys_distinct(services);
    lemma_grouping_of_distinct(grouped(services));
}

/// A service without a deployment and one of deployment 1 have the same
/// key where their images agree.
pub proof fn lemma_no_deployment_groups_with_first(a: Service, b: Service)
    requires
        a.image@ == b.image@,
        a.deployment is None,
        b.deployment == Some(1i64),
    ensures
        group_key(a) == group_key(b),
{
}

/// The position in the list of the service that the entry `entry` of the
/// first `upto` representatives stands for.
pub open spec fn origin(services: Seq<Service>, upto: nat, entry: int) -> int
    decreases upto,
{
    if upto == 0 {
        0
    } else if is_first_of_group(services, upto - 1) && entry == representatives(
        services,
        (upto - 1) as nat,
    ).len() {
        upto - 1
    } else {
        origin(services, (upto - 1) as nat, entry)
    }
}

/// Every entry of the grouped view stands for a service that is the first
/// of the list with its key, and is that service with its group's member
/// count as replicas.
pub proof fn lemma_entry_is_representative(services: Seq<Service>, upto: nat, entry: int)
    requires
        upto <= services.len(),
        0 <= entry < representatives(services, upto).len(),
    ensures
        0 <= origin(services, upto, entry) < upto,
        is_first_of_group(services, origin(services, upto, entry)),
        representatives(services, upto)[entry] == representative(
            services,
            origin(services, upto, entry),
        ),
        group_key(representatives(services, upto)[entry]) == group_key(
            services[origin(services, upto, entry)],
        ),
    decreases upto,
{
    if upto > 0 {
        let earlier = representatives(services, (upto - 1) as nat);
        if entry < earlier.len() {
            lemma_entry_is_representative(services, (upto - 1) as nat, entry);
        }
    }
}

/// The entries of the grouped view stand for services in the order of the
/// list.
pub proof fn lemma_entries_keep_order(services: Seq<Service>, upto: nat, first: int, second: int)
    requires
        upto <= services.len(),
        0 <= first < second < representatives(services, upto).len(),
    ensures
        origin(services, upto, first) < origin(services, upto, second),
    decreases upto,
{
    if upto > 0 {
        let earlier = representatives(services, (upto - 1) as nat);
        if second < earlier.len() {
            lemma_entries_keep_order(services, (upto - 1) as nat, first, second);
        } else {
            lemma_entry_is_representative(services, (upto - 1) as nat, first);
        }
    }
}

/// No two entries of the grouped view share a key.
pub proof fn lemma_grouped_keys_distinct(services: Seq<Service>)
    ensures
        keys_distinct(grouped(services)),
{
    let n = services.len();
    let view = grouped(services);
    assert forall|i: int, j: int| 0 <= i < j < view.len() implies group_key(#[trigger] view[i])
        != group_key(#[trigger] view[j]) by {
        lemma_entry_is_representative(services, n, i);
        lemma_entry_is_representative(services, n, j);
        lemma_entries_keep_order(services, n, i, j);
        let a = origin(services, n, i);
        let b = origin(services, n, j);
        assert(none_before(services, b, b));
        assert(group_key(services[a]) != group_key(services[b]));
    }
}

/// The key of each of the first `upto` services is the key of one of the
/// first `upto` representatives.
pub proof fn lemma_representatives_cover(services: Seq<Service>, upto: nat, index: int)
    requires
        upto <= services.len(),
        0 <= index < upto,
    ensures
        exists|entry: int|
            0 <= entry < representatives(services, upto).len() && group_key(
                #[trigger] representatives(services, upto)[entry],
            ) == group_key(services[index]),
    decreases upto,
{
    let now = representatives(services, upto);
    let earlier = representatives(services, (upto - 1) as nat);
    if index < upto - 1 {
        lemma_representatives_cover(services, (upto - 1) as nat, index);
        let entry = choose|entry: int|
            0 <= entry < earlier.len() && group_key(#[trigger] earlier[entry]) == group_key(
                services[index],
            );
        assert(now[entry] == earlier[entry]);
    } else if is_first_of_group(services, index) {
        assert(group_key(now[earlier.len() as int]) == group_key(services[index]));
    } else {
        let before = choose|j: int|
            0 <= j < index && group_key(#[trigger] services[j]) == group_key(services[index]);
        lemma_representatives_cover(services, (upto - 1) as nat, before);
        let entry = choose|entry: int|
            0 <= entry < earlier.len() && group_key(#[trigger] earlier[entry]) == group_key(
                services[before],
            );
        assert(now[entry] == earlier[entry]);
    }
}

/// Every service of a list has its key in the grouped view.
pub proof fn lemma_grouped_covers(services: Seq<Service>, index: int)
    requires
        0 <= index < services.len(),
    ensures
        exists|entry: int|
            0 <= entry < grouped(services).len() && group_key(#[trigger] grouped(services)[entry])
                == group_key(services[index]),
{
    lemma_representatives_cover(services, services.len(), index);
    let view = representatives(services, services.len());
    let entry = choose|entry: int|
        0 <= entry < view.len() && group_key(#[trigger] view[entry]) == group_key(services[index]);
    assert(grouped(services)[entry] == view[entry]);
}

} // verus!
