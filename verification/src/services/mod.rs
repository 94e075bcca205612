pub mod deployment;
pub mod kernel;
use vstd::prelude::*;

use crate::dependency::State;
use dashmap::DashMap;
use deployment::Deployments;
use kernel::Kernel;

verus! {

#[verifier::external_type_specification]
#[verifier::external_body]
#[verifier::reject_recursive_types(K)]
#[verifier::reject_recursive_types(V)]
#[verifier::reject_recursive_types(S)]
pub struct ExDashMap<K, V, S>(DashMap<K, V, S>);

/// What the nucleus records of one service.
#[derive(Debug, Clone)]
pub struct ServiceStatus {
    pub componentName: &'static str,
    pub version: &'static str,
    pub fleetConfigArns: Vec<String>,
    /// The details of the status, written as JSON.
    pub statusDetails: String,
    pub isRoot: bool,
    pub status: State,
}

/// The part of a `ServiceStatus` that the library reasons about.
pub struct ServiceStatusView {
    pub component_name: Seq<char>,
    pub version: Seq<char>,
    pub fleet_config_arns: Seq<Seq<char>>,
    pub status_details: Seq<char>,
    pub is_root: bool,
    pub status: State,
}

impl View for ServiceStatus {
    type V = ServiceStatusView;

    open spec fn view(&self) -> ServiceStatusView {
        ServiceStatusView {
            component_name: self.componentName@,
            version: self.version@,
            fleet_config_arns: self.fleetConfigArns@.map_values(|s: String| s@),
            status_details: self.statusDetails@,
            is_root: self.isRoot,
            status: self.status,
        }
    }
}

/// The status a freshly registered service starts with.
pub open spec fn fresh_status(name: Seq<char>, ver: Seq<char>) -> ServiceStatusView {
    ServiceStatusView {
        component_name: name,
        version: ver,
        fleet_config_arns: Seq::empty(),
        status_details: "null"@,
        is_root: false,
        status: State::FINISHED,
    }
}

/// A registry content with no service in it.
pub open spec fn no_services() -> Map<Seq<char>, ServiceStatusView> {
    Map::empty()
}

/// The map in which the registry keeps its services.
pub type ServiceMap = DashMap<String, ServiceStatus>;

/// What a `DashMap` of services holds, keyed by the view of each name.
pub uninterp spec fn service_map_contents(m: ServiceMap) -> Map<Seq<char>, ServiceStatusView>;

/// `DashMap::new`: a map that holds nothing.
#[verifier::external_body]
fn service_map_new() -> (m: ServiceMap)
    ensures
        service_map_contents(m) == no_services(),
{
    DashMap::new()
}

/// `DashMap::insert`: the key now maps to the value; the value that the key
/// held before, if any, is handed back.
#[verifier::external_body]
fn service_map_insert(m: &mut ServiceMap, key: String, value: ServiceStatus) -> (r: Option<ServiceStatus>)
    ensures
        service_map_contents(*final(m)) == service_map_contents(*old(m)).insert(key@, value@),
        r is Some <==> service_map_contents(*old(m)).contains_key(key@),
        r is Some ==> r->0@ == service_map_contents(*old(m))[key@],
{
    m.insert(key, value)
}

/// `DashMap::get`, with the entry that it finds copied out of the guard.
#[verifier::external_body]
fn service_map_get(m: &ServiceMap, key: &str) -> (r: Option<ServiceStatus>)
    ensures
        r is Some <==> service_map_contents(*m).contains_key(key@),
        r is Some ==> r->0@ == service_map_contents(*m)[key@],
{
    m.get(key).map(|entry| entry.value().clone())
}

/// `DashMap::len`: the number of entries.
#[verifier::external_body]
fn service_map_len(m: &ServiceMap) -> (n: usize)
    ensures
        n == service_map_contents(*m).len(),
{
    m.len()
}

/// The services that the nucleus knows, by component name.
pub struct ServiceRegistry {
    services: ServiceMap,
}

impl View for ServiceRegistry {
    type V = Map<Seq<char>, ServiceStatusView>;

    closed spec fn view(&self) -> Map<Seq<char>, ServiceStatusView> {
        service_map_contents(self.services)
    }
}

impl ServiceRegistry {
    /// A registry holds finitely many services.
    #[verifier::type_invariant]
    spec fn finitely_many(self) -> bool {
        service_map_contents(self.services).dom().finite()
    }

    /// A registry that holds no service.
    pub fn new() -> (r: ServiceRegistry)
        ensures
            r@ == no_services(),
    {
        ServiceRegistry { services: service_map_new() }
    }

    /// Records `status` under `name`, replacing what was recorded there.
    pub fn insert(&mut self, name: String, status: ServiceStatus) -> (r: Option<ServiceStatus>)
        ensures
            old(self)@.dom().finite(),
            final(self)@.dom().finite(),
            final(self)@ == old(self)@.insert(name@, status@),
            r is Some <==> old(self)@.contains_key(name@),
            r is Some ==> r->0@ == old(self)@[name@],
    {
        proof {
            use_type_invariant(&*self);
        }
        let mut services = service_map_new();
        std::mem::swap(&mut services, &mut self.services);
        let r = service_map_insert(&mut services, name, status);
        self.services = services;
        r
    }

    /// The status recorded under `name`, if any.
    pub fn get(&self, name: &str) -> (r: Option<ServiceStatus>)
        ensures
            r is Some <==> self@.contains_key(name@),
            r is Some ==> r->0@ == self@[name@],
    {
        service_map_get(&self.services, name)
    }

    /// The number of services recorded.
    pub fn len(&self) -> (n: usize)
        ensures
            self@.dom().finite(),
            n == self@.len(),
    {
        proof {
            use_type_invariant(self);
        }
        service_map_len(&self.services)
    }
}

/// A service that the nucleus can register.
pub trait Service {
    /// The status of a service named `name` at version `ver` when it is
    /// first registered: no fleet configuration, details JSON `null`, not the
    /// root component, finished.
    fn new(name: &'static str, ver: &'static str) -> (r: ServiceStatus)
        ensures
            r@ == fresh_status(name@, ver@),
    {
        let arns: Vec<String> = Vec::new();
        assert(arns@.map_values(|s: String| s@) =~= Seq::<Seq<char>>::empty());
        ServiceStatus {
            componentName: name,
            version: ver,
            fleetConfigArns: arns,
            statusDetails: String::from_str("null"),
            isRoot: false,
            status: State::FINISHED,
        }
    }

    /// Registers the service.
    fn enable(services: &mut ServiceRegistry);
}

/// What `start_services` makes of the registry `services`.
pub open spec fn started_services(services: Map<Seq<char>, ServiceStatusView>) -> Map<Seq<char>, ServiceStatusView> {
    services.insert(kernel::NUCLEUS_COMPONENT_NAME@, fresh_status(""@, ""@)).insert(
        deployment::NAME@,
        fresh_status(deployment::NAME@, deployment::VERSION@),
    )
}

/// Registers the services of the nucleus: the nucleus itself, then the
/// deployment service.
pub fn start_services(services: &mut ServiceRegistry)
    ensures
        final(services)@ == started_services(old(services)@),
        final(services)@.len() >= old(services)@.len(),
{
    proof {
        use_type_invariant(&*services);
        lemma_started_services_len(old(services)@);
    }
    Kernel::enable(services);
    Deployments::enable(services);
}

/// Starting the services removes no entry: a registry of finitely many
/// services keeps at least as many, and gains at most the two it registers.
pub proof fn lemma_started_services_len(services: Map<Seq<char>, ServiceStatusView>)
    requires
        services.dom().finite(),
    ensures
        started_services(services).dom().finite(),
        services.len() <= started_services(services).len() <= services.len() + 2,
        services.dom().subset_of(started_services(services).dom()),
{
    let once = services.insert(kernel::NUCLEUS_COMPONENT_NAME@, fresh_status(""@, ""@));
    assert(once.dom() =~= services.dom().insert(kernel::NUCLEUS_COMPONENT_NAME@));
    let twice = started_services(services);
    assert(twice.dom() =~= once.dom().insert(deployment::NAME@));
}

/// Starting the services a second time changes nothing.
pub proof fn lemma_start_services_idempotent(services: Map<Seq<char>, ServiceStatusView>)
    ensures
        started_services(started_services(services)) == started_services(services),
{
    assert(started_services(started_services(services)) =~= started_services(services));
}

/// After the services are started, the nucleus and the deployment service
/// are registered, each with the status it was given, and every other
/// entry is as it was.
pub proof fn lemma_started_services_registered(services: Map<Seq<char>, ServiceStatusView>, name: Seq<char>)
    ensures
        started_services(services).contains_key(kernel::NUCLEUS_COMPONENT_NAME@),
        started_services(services).contains_key(deployment::NAME@),
        started_services(services)[deployment::NAME@] == fresh_status(deployment::NAME@, deployment::VERSION@),
        name != kernel::NUCLEUS_COMPONENT_NAME@ && name != deployment::NAME@ ==> (
        started_services(services).contains_key(name) == services.contains_key(name)
            && started_services(services)[name] == services[name]),
{
}

/// A read of the registry gives back what the last write under that name
/// wrote, and a write under one name leaves every other name as it was.
pub proof fn lemma_registry_read_after_write(
    services: Map<Seq<char>, ServiceStatusView>,
    name: Seq<char>,
    status: ServiceStatusView,
    other: Seq<char>,
)
    ensures
        services.insert(name, status).contains_key(name),
        services.insert(name, status)[name] == status,
        other != name ==> services.insert(name, status).contains_key(other) == services.contains_key(other),
        other != name ==> services.insert(name, status)[other] == services[other],
{
}

/// After the services are started, the nucleus is registered with no
/// component name, no version, no fleet configuration, details JSON `null`,
/// not as the root component, finished; and the deployment service under
/// its name, at version 2.5.6, likewise fresh.
pub proof fn lemma_started_services_entries(services: Map<Seq<char>, ServiceStatusView>)
    ensures
        started_services(services)[kernel::NUCLEUS_COMPONENT_NAME@] == (ServiceStatusView {
            component_name: ""@,
            version: ""@,
            fleet_config_arns: Seq::empty(),
            status_details: "null"@,
            is_root: false,
            status: State::FINISHED,
        }),
        started_services(services)[deployment::NAME@] == (ServiceStatusView {
            component_name: "DeploymentService"@,
            version: "2.5.6"@,
            fleet_config_arns: Seq::empty(),
            status_details: "null"@,
            is_root: false,
            status: State::FINISHED,
        }),
{
    reveal_strlit("aws.greengrass.Nucleus");
    reveal_strlit("DeploymentService");
    assert(kernel::NUCLEUS_COMPONENT_NAME@.len() != deployment::NAME@.len());
}

} // verus!
