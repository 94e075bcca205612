use greengrass::dependency::State;
use greengrass::services::deployment::{Deployments, NAME, VERSION};
use greengrass::services::kernel::Kernel;
use greengrass::services::{start_services, Service, ServiceRegistry};

#[test]
fn it_works() {
    let result = 2 + 2;
    assert_eq!(result, 4);
}

#[test]
fn services_test() {
    let mut services = ServiceRegistry::new();
    Kernel::enable(&mut services);
    assert_eq!(
        services
            .get("aws.greengrass.Nucleus")
            .unwrap()
            .componentName,
        ""
    );
    assert_eq!(services.get("aws.greengrass.Nucleus").unwrap().version, "");
    assert_eq!(
        services.get("aws.greengrass.Nucleus").unwrap().isRoot,
        false
    );
    assert_eq!(
        services.get("aws.greengrass.Nucleus").unwrap().status,
        State::FINISHED
    );
}

#[test]
fn new_status_is_fresh() {
    let status = Kernel::new("aws.greengrass.Cli", "2.9.0");
    assert_eq!(status.componentName, "aws.greengrass.Cli");
    assert_eq!(status.version, "2.9.0");
    assert!(status.fleetConfigArns.is_empty());
    assert_eq!(status.statusDetails, "null");
    assert!(!status.isRoot);
    assert_eq!(status.status, State::FINISHED);
}

#[test]
fn deployments_enable_registers_deployment_service() {
    let mut services = ServiceRegistry::new();
    Deployments::enable(&mut services);
    let status = services.get("DeploymentService").unwrap();
    assert_eq!(status.componentName, "DeploymentService");
    assert_eq!(status.version, "2.5.6");
    assert_eq!(status.status, State::FINISHED);
    assert_eq!(status.statusDetails, "null");
    assert!(status.fleetConfigArns.is_empty());
    assert_eq!(services.len(), 1);
    assert_eq!(NAME, "DeploymentService");
    assert_eq!(VERSION, "2.5.6");
}

#[test]
fn start_services_registers_nucleus_and_deployments() {
    let mut services = ServiceRegistry::new();
    start_services(&mut services);
    assert_eq!(services.len(), 2);
    assert!(services.get("aws.greengrass.Nucleus").is_some());
    assert_eq!(services.get("DeploymentService").unwrap().version, "2.5.6");
    assert!(services.get("aws.greengrass.Cli").is_none());
}

#[test]
fn start_services_twice_changes_nothing() {
    let mut services = ServiceRegistry::new();
    start_services(&mut services);
    start_services(&mut services);
    assert_eq!(services.len(), 2);
    assert_eq!(services.get("aws.greengrass.Nucleus").unwrap().componentName, "");
    assert_eq!(services.get("DeploymentService").unwrap().componentName, "DeploymentService");
    assert_eq!(services.get("aws.greengrass.Nucleus").unwrap().statusDetails, "null");
}

#[test]
fn start_services_keeps_other_entries() {
    let mut services = ServiceRegistry::new();
    let mut other = Kernel::new("other", "1.0");
    other.statusDetails = "{\"detailedStatus\":\"SUCCESSFUL\"}".to_string();
    other.fleetConfigArns.push("arn:x".to_string());
    services.insert("other".to_string(), other);
    start_services(&mut services);
    assert_eq!(services.len(), 3);
    let kept = services.get("other").unwrap();
    assert_eq!(kept.statusDetails, "{\"detailedStatus\":\"SUCCESSFUL\"}");
    assert_eq!(kept.fleetConfigArns, vec!["arn:x".to_string()]);
}

#[test]
fn registry_read_after_write() {
    let mut services = ServiceRegistry::new();
    assert!(services.get("a").is_none());
    let first = services.insert("a".to_string(), Kernel::new("one", "1"));
    assert!(first.is_none());
    let second = services.insert("a".to_string(), Kernel::new("two", "2"));
    assert_eq!(second.unwrap().componentName, "one");
    assert_eq!(services.get("a").unwrap().componentName, "two");
    services.insert("b".to_string(), Kernel::new("three", "3"));
    assert_eq!(services.get("a").unwrap().componentName, "two");
    assert_eq!(services.len(), 2);
}
