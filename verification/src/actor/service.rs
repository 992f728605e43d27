use vstd::prelude::*;

verus! {

#[verifier::external_type_specification]
#[verifier::external_body]
pub struct ExSystemTime(std::time::SystemTime);

/// `Clone` of `std::time::SystemTime`: the type is `Copy`, so the clone is the same instant.
pub assume_specification[ <std::time::SystemTime as Clone>::clone ](t: &std::time::SystemTime) -> (r: std::time::SystemTime)
    ensures
        r == *t,
;

/// Reads the wall clock through `std::time::SystemTime::now`.
/// The instant depends on the machine's clock, so nothing is stated of it.
#[verifier::external_body]
fn system_time_now() -> std::time::SystemTime {
    std::time::SystemTime::now()
}

/// The lifecycle status of a service.
#[derive(Clone, Copy, Debug, PartialEq, Eq, Structural)]
pub enum ServiceStatus {
    /// Early bootup
    Starting,
    /// Late bootup
    Initializing,
    /// The service is operational but one or more services failed (Degraded or Maintenance) or in process of being
    /// fully operational while startup.
    Degraded,
    /// The service is fully operational.
    Running,
    /// The service is shutting down, should be handled accordingly by active dependent services
    Stopping,
    /// The service is maintenance mode, should be handled accordingly by active dependent services
    Maintenance,
    /// The service is not running, should be handled accordingly by active dependent services
    Stopped,
}

/// The inner services of a service, keyed by their names; no name occurs twice.
#[derive(Debug)]
pub struct Microservices {
    entries: Vec<(String, Service)>,
}

/// A service's status, name, uptime bookkeeping and inner services.
#[derive(Debug)]
pub struct Service {
    /// The status of the service
    pub status: ServiceStatus,
    /// Service name (ie app name or microservice name)
    pub name: String,
    /// Timestamp since the service is up
    pub up_since: std::time::SystemTime,
    /// Total milliseconds when the app service has been offline since up_since
    pub downtime_ms: u64,
    /// inner services similar
    pub microservices: Microservices,
    /// Optional log file path
    pub log_path: Option<String>,
}

/// No two entries carry the same name.
pub open spec fn names_distinct(entries: Seq<(String, Service)>) -> bool {
    forall|i: int, j: int|
        0 <= i < entries.len() && 0 <= j < entries.len() && i != j ==> #[trigger] entries[i].0@
            != #[trigger] entries[j].0@
}

/// Some entry carries the name `name`.
pub open spec fn has_name(entries: Seq<(String, Service)>, name: Seq<char>) -> bool {
    exists|i: int| 0 <= i < entries.len() && #[trigger] entries[i].0@ == name
}

/// The map from names to services that a list of entries stands for.
pub open spec fn entries_map(entries: Seq<(String, Service)>) -> Map<Seq<char>, Service> {
    Map::new(
        |name: Seq<char>| has_name(entries, name),
        |name: Seq<char>|
            entries[choose|i: int| 0 <= i < entries.len() && #[trigger] entries[i].0@ == name].1,
    )
}

proof fn lemma_entries_map_at(entries: Seq<(String, Service)>, i: int)
    requires
        names_distinct(entries),
        0 <= i < entries.len(),
    ensures
        entries_map(entries).contains_key(entries[i].0@),
        entries_map(entries)[entries[i].0@] == entries[i].1,
{
    let name = entries[i].0@;
    assert(has_name(entries, name));
    let j = choose|j: int| 0 <= j < entries.len() && #[trigger] entries[j].0@ == name;
    assert(j == i);
}

proof fn lemma_replace_entry(
    before: Seq<(String, Service)>,
    after: Seq<(String, Service)>,
    i: int,
)
    requires
        names_distinct(before),
        0 <= i < before.len(),
        after.len() == before.len(),
        after[i].0@ == before[i].0@,
        forall|j: int| 0 <= j < before.len() && j != i ==> after[j] == before[j],
    ensures
        names_distinct(after),
        entries_map(after) == entries_map(before).insert(before[i].0@, after[i].1),
{
    let key = before[i].0@;
    let m = entries_map(before).insert(key, after[i].1);
    assert(names_distinct(after)) by {
        assert forall|a: int, b: int|
            0 <= a < after.len() && 0 <= b < after.len() && a != b implies #[trigger] after[a].0@
            != #[trigger] after[b].0@ by {
            assert(before[a].0@ != before[b].0@);
        }
    }
    assert forall|k: Seq<char>| #[trigger] m.contains_key(k) <==> has_name(after, k) by {
        if has_name(before, k) {
            let j = choose|j: int| 0 <= j < before.len() && #[trigger] before[j].0@ == k;
            assert(after[j].0@ == k);
        }
        if has_name(after, k) {
            let j = choose|j: int| 0 <= j < after.len() && #[trigger] after[j].0@ == k;
            assert(before[j].0@ == k);
        }
    }
    assert forall|j: int| 0 <= j < after.len() implies m[#[trigger] after[j].0@] == after[j].1 by {
        if j != i {
            lemma_entries_map_at(before, j);
        }
    }
    lemma_entries_map_ext(after, m);
}

proof fn lemma_push_entry(before: Seq<(String, Service)>, after: Seq<(String, Service)>)
    requires
        names_distinct(before),
        after.len() == before.len() + 1,
        !has_name(before, after.last().0@),
        forall|j: int| 0 <= j < before.len() ==> after[j] == before[j],
    ensures
        names_distinct(after),
        entries_map(after) == entries_map(before).insert(after.last().0@, after.last().1),
{
    let key = after.last().0@;
    let n = before.len() as int;
    let m = entries_map(before).insert(key, after.last().1);
    assert(names_distinct(after)) by {
        assert forall|a: int, b: int|
            0 <= a < after.len() && 0 <= b < after.len() && a != b implies #[trigger] after[a].0@
            != #[trigger] after[b].0@ by {
            if a == n {
                assert(before[b].0@ != key);
            } else if b == n {
                assert(before[a].0@ != key);
            } else {
                assert(before[a].0@ != before[b].0@);
            }
        }
    }
    assert forall|k: Seq<char>| #[trigger] m.contains_key(k) <==> has_name(after, k) by {
        if has_name(before, k) {
            let j = choose|j: int| 0 <= j < before.len() && #[trigger] before[j].0@ == k;
            assert(after[j].0@ == k);
        }
        if k == key {
            assert(after[n].0@ == k);
        }
        if has_name(after, k) && k != key {
            let j = choose|j: int| 0 <= j < after.len() && #[trigger] after[j].0@ == k;
            assert(before[j].0@ == k);
        }
    }
    assert forall|j: int| 0 <= j < after.len() implies m[#[trigger] after[j].0@] == after[j].1 by {
        if j < n {
            lemma_entries_map_at(before, j);
        }
    }
    lemma_entries_map_ext(after, m);
}

proof fn lemma_remove_entry(before: Seq<(String, Service)>, i: int)
    requires
        names_distinct(before),
        0 <= i < before.len(),
    ensures
        names_distinct(before.remove(i)),
        entries_map(before.remove(i)) == entries_map(before).remove(before[i].0@),
{
    let after = before.remove(i);
    let key = before[i].0@;
    let m = entries_map(before).remove(key);
    assert(forall|j: int| 0 <= j < after.len() ==> #[trigger] after[j] == before[if j < i { j } else { j + 1 }]);
    assert(names_distinct(after)) by {
        assert forall|a: int, b: int|
            0 <= a < after.len() && 0 <= b < after.len() && a != b implies #[trigger] after[a].0@
            != #[trigger] after[b].0@ by {
            let a2 = if a < i { a } else { a + 1 };
            let b2 = if b < i { b } else { b + 1 };
            assert(before[a2].0@ != before[b2].0@);
        }
    }
    assert forall|k: Seq<char>| #[trigger] m.contains_key(k) <==> has_name(after, k) by {
        if has_name(before, k) && k != key {
            let j = choose|j: int| 0 <= j < before.len() && #[trigger] before[j].0@ == k;
            assert(j != i);
            if j < i {
                assert(after[j].0@ == k);
            } else {
                assert(after[j - 1].0@ == k);
            }
        }
        if has_name(after, k) {
            let j = choose|j: int| 0 <= j < after.len() && #[trigger] after[j].0@ == k;
            let j2 = if j < i { j } else { j + 1 };
            assert(before[j2].0@ == k);
            assert(j2 != i);
        }
    }
    assert forall|j: int| 0 <= j < after.len() implies m[#[trigger] after[j].0@] == after[j].1 by {
        let j2 = if j < i { j } else { j + 1 };
        lemma_entries_map_at(before, j2);
        assert(before[j2].0@ != key);
    }
    lemma_entries_map_ext(after, m);
}

proof fn lemma_entries_map_ext(entries: Seq<(String, Service)>, m: Map<Seq<char>, Service>)
    requires
        names_distinct(entries),
        forall|name: Seq<char>| #[trigger] m.contains_key(name) <==> has_name(entries, name),
        forall|i: int| 0 <= i < entries.len() ==> m[#[trigger] entries[i].0@] == entries[i].1,
    ensures
        entries_map(entries) == m,
{
    assert forall|name: Seq<char>| #[trigger] m.contains_key(name) implies entries_map(entries)[name]
        == m[name] by {
        let i = choose|i: int| 0 <= i < entries.len() && #[trigger] entries[i].0@ == name;
        lemma_entries_map_at(entries, i);
    }
    assert(entries_map(entries) =~= m);
}

/// The text of an optional string.
pub open spec fn opt_string_view(s: Option<String>) -> Option<Seq<char>> {
    match s {
        Some(t) => Some(t@),
        None => None,
    }
}

/// `a` is a copy of `b`: the same fields, and inner services that are copies of each other
/// under the same names, in the same order.
pub closed spec fn same_service(a: Service, b: Service) -> bool
    decreases b,
{
    &&& a.status == b.status
    &&& a.name@ == b.name@
    &&& a.up_since == b.up_since
    &&& a.downtime_ms == b.downtime_ms
    &&& opt_string_view(a.log_path) == opt_string_view(b.log_path)
    &&& a.microservices.entries@.len() == b.microservices.entries@.len()
    &&& forall|i: int|
        0 <= i < b.microservices.entries@.len() ==> {
            &&& #[trigger] a.microservices.entries@[i].0@ == b.microservices.entries@[i].0@
            &&& same_service(a.microservices.entries@[i].1, b.microservices.entries@[i].1)
        }
}

proof fn lemma_copy_of_service(a: Service, b: Service)
    requires
        same_service(a, b),
        names_distinct(a.microservices.entries@),
        names_distinct(b.microservices.entries@),
    ensures
        a.status == b.status,
        a.name@ == b.name@,
        a.up_since == b.up_since,
        a.downtime_ms == b.downtime_ms,
        opt_string_view(a.log_path) == opt_string_view(b.log_path),
        a.microservices@.dom() == b.microservices@.dom(),
        forall|name: Seq<char>| #[trigger] b.microservices@.contains_key(name) ==> same_service(
            a.microservices@[name],
            b.microservices@[name],
        ),
{
    let ea = a.microservices.entries@;
    let eb = b.microservices.entries@;
    assert forall|name: Seq<char>| has_name(ea, name) <==> has_name(eb, name) by {
        if has_name(ea, name) {
            let i = choose|i: int| 0 <= i < ea.len() && #[trigger] ea[i].0@ == name;
            assert(eb[i].0@ == name);
        }
        if has_name(eb, name) {
            let i = choose|i: int| 0 <= i < eb.len() && #[trigger] eb[i].0@ == name;
            assert(ea[i].0@ == name);
        }
    }
    assert(a.microservices@.dom() =~= b.microservices@.dom());
    assert forall|name: Seq<char>| #[trigger] b.microservices@.contains_key(name) implies same_service(
        a.microservices@[name],
        b.microservices@[name],
    ) by {
        let i = choose|i: int| 0 <= i < eb.len() && #[trigger] eb[i].0@ == name;
        lemma_entries_map_at(eb, i);
        assert(ea[i].0@ == name);
        lemma_entries_map_at(ea, i);
    }
}

impl Clone for Service {
    /// A copy: the same status, name, start instant, downtime and log path, and inner services
    /// under the same names, each a copy of the original one.
    fn clone(&self) -> (r: Self)
        ensures
            same_service(r, *self),
            r.status == self.status,
            r.name@ == self.name@,
            r.up_since == self.up_since,
            r.downtime_ms == self.downtime_ms,
            opt_string_view(r.log_path) == opt_string_view(self.log_path),
            r.microservices@.dom() == self.microservices@.dom(),
            forall|name: Seq<char>| #[trigger] self.microservices@.contains_key(name) ==> same_service(
                r.microservices@[name],
                self.microservices@[name],
            ),
        decreases self,
    {
        proof {
            use_type_invariant(&self.microservices);
        }
        let log_path = match &self.log_path {
            Some(p) => Some(p.clone()),
            None => None,
        };
        let microservices = self.microservices.clone_entries();
        let r = Service {
            status: self.status,
            name: self.name.clone(),
            up_since: self.up_since.clone(),
            downtime_ms: self.downtime_ms,
            microservices,
            log_path,
        };
        assert(forall|i: int|
            0 <= i < self.microservices.entries@.len() ==> {
                &&& #[trigger] r.microservices.entries@[i].0@ == self.microservices.entries@[i].0@
                &&& same_service(r.microservices.entries@[i].1, self.microservices.entries@[i].1)
            });
        proof {
            use_type_invariant(&r.microservices);
            lemma_copy_of_service(r, *self);
        }
        r
    }
}

impl Service {
    /// This service with its status replaced by `status`.
    pub open spec fn with_status(self, status: ServiceStatus) -> Service {
        Service { status, ..self }
    }

    /// The fields other than the inner services are those of `other`.
    pub open spec fn same_fields_but_microservices(self, other: Service) -> bool {
        &&& self.status == other.status
        &&& self.name == other.name
        &&& self.up_since == other.up_since
        &&& self.downtime_ms == other.downtime_ms
        &&& self.log_path == other.log_path
    }

    /// A service that is starting, with an empty name, no downtime, no inner services and no log
    /// path, up since the current instant.
    pub fn new() -> (r: Self)
        ensures
            r.status == ServiceStatus::Starting,
            r.name@ == Seq::<char>::empty(),
            r.downtime_ms == 0,
            r.microservices@ == Map::<Seq<char>, Service>::empty(),
            r.log_path is None,
    {
        Self::new_at(system_time_now())
    }

    /// A service that is starting, with an empty name, no downtime, no inner services and no log
    /// path, up since `up_since`.
    pub fn new_at(up_since: std::time::SystemTime) -> (r: Self)
        ensures
            r.status == ServiceStatus::Starting,
            r.name@ == Seq::<char>::empty(),
            r.up_since == up_since,
            r.downtime_ms == 0,
            r.microservices@ == Map::<Seq<char>, Service>::empty(),
            r.log_path is None,
    {
        Service {
            status: ServiceStatus::Starting,
            name: String::new(),
            up_since,
            downtime_ms: 0,
            microservices: Microservices::new(),
            log_path: None,
        }
    }

    /// This service with the status `service_status`.
    pub fn set_status(self, service_status: ServiceStatus) -> (r: Self)
        ensures
            r.status == service_status,
            r.same_fields_but_microservices(self.with_status(service_status)),
            r.microservices == self.microservices,
    {
        let mut s = self;
        s.status = service_status;
        s
    }

    /// Sets the status to `service_status`.
    pub fn update_status(&mut self, service_status: ServiceStatus)
        ensures
            final(self).same_fields_but_microservices(old(self).with_status(service_status)),
            final(self).microservices == old(self).microservices,
    {
        self.status = service_status;
    }

    /// This service named `name`.
    pub fn set_name(self, name: String) -> (r: Self)
        ensures
            r.same_fields_but_microservices(Service { name, ..self }),
            r.microservices == self.microservices,
    {
        let mut s = self;
        s.name = name;
        s
    }

    /// Renames the service to `name`.
    pub fn update_name(&mut self, name: String)
        ensures
            final(self).same_fields_but_microservices(Service { name, ..*old(self) }),
            final(self).microservices == old(self).microservices,
    {
        self.name = name;
    }

    /// A copy of the service's name.
    pub fn get_name(&self) -> (r: String)
        ensures
            r@ == self.name@,
    {
        self.name.clone()
    }

    /// This service with `downtime_ms` milliseconds of downtime.
    pub fn set_downtime_ms(self, downtime_ms: u64) -> (r: Self)
        ensures
            r.same_fields_but_microservices(Service { downtime_ms, ..self }),
            r.microservices == self.microservices,
    {
        let mut s = self;
        s.downtime_ms = downtime_ms;
        s
    }

    /// This service logging to `log_path`.
    pub fn set_log(self, log_path: String) -> (r: Self)
        ensures
            r.same_fields_but_microservices(Service { log_path: Some(log_path), ..self }),
            r.microservices == self.microservices,
    {
        let mut s = self;
        s.log_path = Some(log_path);
        s
    }

    /// Records `microservice` as the inner service named `service_name`, replacing any earlier one.
    pub fn update_microservice(&mut self, service_name: String, microservice: Self)
        ensures
            final(self).same_fields_but_microservices(*old(self)),
            final(self).microservices@ == old(self).microservices@.insert(service_name@, microservice),
    {
        self.microservices.insert(service_name, microservice);
    }

    /// Sets the status of the inner service named `service_name`.
    pub fn update_microservice_status(&mut self, service_name: &str, status: ServiceStatus)
        requires
            old(self).microservices@.contains_key(service_name@),
        ensures
            final(self).same_fields_but_microservices(*old(self)),
            final(self).microservices@ == old(self).microservices@.insert(
                service_name@,
                old(self).microservices@[service_name@].with_status(status),
            ),
    {
        let name = service_name.to_owned();
        self.microservices.set_status(&name, status);
    }

    /// Forgets the inner service named `service_name`, if there is one.
    pub fn delete_microservice(&mut self, service_name: &str)
        ensures
            final(self).same_fields_but_microservices(*old(self)),
            final(self).microservices@ == old(self).microservices@.remove(service_name@),
    {
        let name = service_name.to_owned();
        self.microservices.remove(&name);
    }

    /// The service is stopping.
    pub fn is_stopping(&self) -> (r: bool)
        ensures
            r == (self.status == ServiceStatus::Stopping),
    {
        self.status == ServiceStatus::Stopping
    }

    /// The service is stopped.
    pub fn is_stopped(&self) -> (r: bool)
        ensures
            r == (self.status == ServiceStatus::Stopped),
    {
        self.status == ServiceStatus::Stopped
    }

    /// The service is running.
    pub fn is_running(&self) -> (r: bool)
        ensures
            r == (self.status == ServiceStatus::Running),
    {
        self.status == ServiceStatus::Running
    }

    /// The service is initializing.
    pub fn is_initializing(&self) -> (r: bool)
        ensures
            r == (self.status == ServiceStatus::Initializing),
    {
        self.status == ServiceStatus::Initializing
    }

    /// The service is in maintenance.
    pub fn is_maintenance(&self) -> (r: bool)
        ensures
            r == (self.status == ServiceStatus::Maintenance),
    {
        self.status == ServiceStatus::Maintenance
    }

    /// The service is degraded.
    pub fn is_degraded(&self) -> (r: bool)
        ensures
            r == (self.status == ServiceStatus::Degraded),
    {
        self.status == ServiceStatus::Degraded
    }

    /// The service's status.
    pub fn service_status(&self) -> (r: &ServiceStatus)
        ensures
            *r == self.status,
    {
        &self.status
    }
}

impl Default for Service {
    fn default() -> (r: Self)
        ensures
            r.status == ServiceStatus::Starting,
            r.name@ == Seq::<char>::empty(),
            r.downtime_ms == 0,
            r.microservices@ == Map::<Seq<char>, Service>::empty(),
            r.log_path is None,
    {
        Self::new()
    }
}

impl View for Microservices {
    type V = Map<Seq<char>, Service>;

    closed spec fn view(&self) -> Map<Seq<char>, Service> {
        entries_map(self.entries@)
    }
}

impl Microservices {
    #[verifier::type_invariant]
    spec fn inv(&self) -> bool {
        names_distinct(self.entries@)
    }

    /// No inner services.
    pub fn new() -> (r: Self)
        ensures
            r@ == Map::<Seq<char>, Service>::empty(),
    {
        let r = Microservices { entries: Vec::new() };
        assert(r@ =~= Map::<Seq<char>, Service>::empty());
        r
    }

    /// The number of inner services.
    pub fn len(&self) -> (n: usize)
        ensures
            self@.dom().finite(),
            n == self@.len(),
            self.well_listed(),
    {
        proof {
            use_type_invariant(self);
            self.lemma_len();
        }
        self.entries.len()
    }

    proof fn lemma_len(&self)
        requires
            names_distinct(self.entries@),
        ensures
            self@.dom().finite(),
            self@.len() == self.entries@.len(),
    {
        let s = self.entries@.map_values(|e: (String, Service)| e.0@);
        assert(s.no_duplicates()) by {
            assert forall|i: int, j: int| 0 <= i < s.len() && 0 <= j < s.len() && i != j implies s[i]
                != s[j] by {
                assert(self.entries@[i].0@ != self.entries@[j].0@);
            }
        }
        assert(self@.dom() =~= s.to_set()) by {
            assert forall|name: Seq<char>| self@.dom().contains(name) implies s.to_set().contains(name) by {
                let i = choose|i: int| 0 <= i < self.entries@.len() && #[trigger] self.entries@[i].0@ == name;
                assert(s[i] == name);
            }
            assert forall|name: Seq<char>| s.to_set().contains(name) implies self@.dom().contains(name) by {
                let i = choose|i: int| 0 <= i < s.len() && s[i] == name;
                assert(self.entries@[i].0@ == name);
            }
        }
        s.unique_seq_to_set();
    }

    fn clone_entries(&self) -> (r: Self)
        ensures
            r.entries@.len() == self.entries@.len(),
            forall|i: int|
                0 <= i < self.entries@.len() ==> {
                    &&& #[trigger] r.entries@[i].0@ == self.entries@[i].0@
                    &&& same_service(r.entries@[i].1, self.entries@[i].1)
                },
        decreases self,
    {
        proof {
            use_type_invariant(self);
        }
        let mut entries: Vec<(String, Service)> = Vec::new();
        let mut i: usize = 0;
        while i < self.entries.len()
            invariant
                i <= self.entries.len(),
                names_distinct(self.entries@),
                entries@.len() == i,
                forall|j: int|
                    0 <= j < i ==> {
                        &&& #[trigger] entries@[j].0@ == self.entries@[j].0@
                        &&& same_service(entries@[j].1, self.entries@[j].1)
                    },
            decreases self.entries.len() - i,
        {
            proof {
                assert(decreases_to!(self => self.entries));
                assert(decreases_to!(self.entries => self.entries@));
                assert(decreases_to!(self.entries@ => self.entries@[i as int]));
                assert(decreases_to!(self.entries@[i as int] => self.entries@[i as int].1));
            }
            let name = self.entries[i].0.clone();
            let inner = self.entries[i].1.clone();
            entries.push((name, inner));
            i = i + 1;
        }
        Microservices { entries }
    }

    /// The name listed at position `i`.
    pub closed spec fn name_at(&self, i: int) -> Seq<char> {
        self.entries@[i].0@
    }

    /// The service listed at position `i`.
    pub closed spec fn service_at(&self, i: int) -> Service {
        self.entries@[i].1
    }

    /// The list is well formed: no name is listed twice.
    pub closed spec fn well_listed(&self) -> bool {
        names_distinct(self.entries@)
    }

    /// Listing the positions `0` to `len - 1` lists every inner service exactly once: distinct
    /// positions carry distinct names, each listed name maps to the service listed with it, and
    /// every name of the map is listed at some position.
    pub proof fn lemma_listing(&self)
        requires
            self.well_listed(),
        ensures
            self@.dom().finite(),
            forall|i: int, j: int|
                0 <= i < self@.len() && 0 <= j < self@.len() && i != j ==> #[trigger] self.name_at(i)
                    != #[trigger] self.name_at(j),
            forall|i: int|
                0 <= i < self@.len() ==> self@.contains_key(#[trigger] self.name_at(i)) && self@[self.name_at(i)]
                    == self.service_at(i),
            forall|name: Seq<char>|
                #[trigger] self@.contains_key(name) ==> exists|i: int| 0 <= i < self@.len() && #[trigger] self.name_at(i) == name,
    {
        self.lemma_len();
        assert forall|i: int| 0 <= i < self@.len() implies self@.contains_key(#[trigger] self.name_at(i))
            && self@[self.name_at(i)] == self.service_at(i) by {
            lemma_entries_map_at(self.entries@, i);
        }
        assert forall|name: Seq<char>| #[trigger] self@.contains_key(name) implies exists|i: int|
            0 <= i < self@.len() && #[trigger] self.name_at(i) == name by {
            let i = choose|i: int| 0 <= i < self.entries@.len() && #[trigger] self.entries@[i].0@ == name;
            assert(self.name_at(i) == name);
        }
    }

    /// The inner service at position `i` of the list, with its name; every inner service has
    /// one position below [`Self::len`] (see [`Self::lemma_listing`]).
    pub fn entry_at(&self, i: usize) -> (r: (&String, &Service))
        requires
            i < self@.len(),
        ensures
            self@.contains_key(r.0@),
            self@[r.0@] == *r.1,
            r.0@ == self.name_at(i as int),
            *r.1 == self.service_at(i as int),
            self.well_listed(),
    {
        proof {
            use_type_invariant(self);
            self.lemma_len();
            lemma_entries_map_at(self.entries@, i as int);
        }
        (&self.entries[i].0, &self.entries[i].1)
    }

    /// Finds the position of the entry named `name`.
    fn position(entries: &Vec<(String, Service)>, name: &String) -> (r: Option<usize>)
        ensures
            match r {
                Some(i) => i < entries.len() && entries@[i as int].0@ == name@,
                None => !has_name(entries@, name@),
            },
    {
        let mut i: usize = 0;
        while i < entries.len()
            invariant
                i <= entries.len(),
                forall|j: int| 0 <= j < i ==> #[trigger] entries@[j].0@ != name@,
            decreases entries.len() - i,
        {
            if entries[i].0 == *name {
                return Some(i);
            }
            i = i + 1;
        }
        None
    }

    /// The inner service named `name`, if there is one.
    pub fn get(&self, name: &String) -> (r: Option<&Service>)
        ensures
            match r {
                Some(s) => self@.contains_key(name@) && *s == self@[name@],
                None => !self@.contains_key(name@),
            },
    {
        proof {
            use_type_invariant(self);
        }
        match Self::position(&self.entries, name) {
            Some(i) => {
                proof {
                    lemma_entries_map_at(self.entries@, i as int);
                }
                Some(&self.entries[i].1)
            },
            None => None,
        }
    }

    /// Adds the inner service `service` under `name`, replacing any that had that name.
    pub fn insert(&mut self, name: String, service: Service)
        ensures
            final(self)@ == old(self)@.insert(name@, service),
    {
        proof {
            use_type_invariant(&*self);
        }
        let ghost before = self.entries@;
        let mut entries: Vec<(String, Service)> = Vec::new();
        std::mem::swap(&mut entries, &mut self.entries);
        assert(entries@ == before);
        match Self::position(&entries, &name) {
            Some(i) => {
                entries.set(i, (name, service));
                proof {
                    lemma_replace_entry(before, entries@, i as int);
                }
            },
            None => {
                entries.push((name, service));
                proof {
                    lemma_push_entry(before, entries@);
                }
            },
        }
        self.entries = entries;
    }

    /// Sets the status of the inner service named `name`.
    pub fn set_status(&mut self, name: &String, status: ServiceStatus)
        requires
            old(self)@.contains_key(name@),
        ensures
            final(self)@ == old(self)@.insert(name@, old(self)@[name@].with_status(status)),
    {
        proof {
            use_type_invariant(&*self);
        }
        let ghost before = self.entries@;
        let mut entries: Vec<(String, Service)> = Vec::new();
        std::mem::swap(&mut entries, &mut self.entries);
        match Self::position(&entries, name) {
            Some(i) => {
                let mut entry = entries.remove(i);
                entry.1.status = status;
                entries.insert(i, entry);
                proof {
                    lemma_entries_map_at(before, i as int);
                    lemma_replace_entry(before, entries@, i as int);
                }
            },
            None => {},
        }
        self.entries = entries;
    }

    /// Removes the inner service named `name`, if there is one.
    pub fn remove(&mut self, name: &String)
        ensures
            final(self)@ == old(self)@.remove(name@),
    {
        proof {
            use_type_invariant(&*self);
        }
        let ghost before = self.entries@;
        let mut entries: Vec<(String, Service)> = Vec::new();
        std::mem::swap(&mut entries, &mut self.entries);
        match Self::position(&entries, name) {
            Some(i) => {
                entries.remove(i);
                proof {
                    lemma_remove_entry(before, i as int);
                }
            },
            None => {
                proof {
                    assert(entries_map(before) =~= entries_map(before).remove(name@));
                }
            },
        }
        self.entries = entries;
    }
}

} // verus!
