use greengrass::services::deployment::{
    assemble_payload, delta_is_acceptable, is_valid_thing_name, plan_shadow_delta,
    read_shadow_delta, shadow_subscription_topic, split_configuration_arn, ComponentRequest,
    DeployStates, ShadowDelta, States, DEPLOYMENT_SHADOW_NAME,
};

fn delta(version: &str, arn: &str, components: Option<Vec<ComponentRequest>>) -> ShadowDelta {
    ShadowDelta {
        shadow_version: version.to_string(),
        configuration_arn: arn.to_string(),
        components_text: "{\"com.example.Hello\":{\"version\":\"1.0.0\"}}".to_string(),
        components,
    }
}

fn hello() -> Vec<ComponentRequest> {
    vec![ComponentRequest {
        name: "com.example.Hello".to_string(),
        version: Some("\"1.0.0\"".to_string()),
    }]
}

const ARN: &str = "arn:aws:greengrass:us-east-1:123456789012:configuration:thing/MyThing:7";

#[test]
fn deploy_states_advance() {
    let mut states = DeployStates::new();
    assert_eq!(states.get(), States::Deployment);
    states.next();
    assert_eq!(states.get(), States::Inprogress);
    states.next();
    assert_eq!(states.get(), States::Succeed);
    states.reset();
    assert_eq!(states.get(), States::Deployment);
}

#[test]
fn deploy_states_reset() {
    let mut states = DeployStates::new();
    states.next();
    states.next();
    states.reset();
    assert_eq!(states.get(), States::Deployment);
}

#[test]
fn assemble_payload_in_progress() {
    let r = assemble_payload("MyThing", ARN, "12", true);
    assert_eq!(r.shadowName, "AWSManagedGreengrassV2Deployment");
    assert_eq!(r.thingName, "MyThing");
    assert_eq!(r.ggcVersion, "2.5.6");
    assert_eq!(r.fleetConfigurationArnForStatus, ARN);
    assert_eq!(r.detailedStatus, None);
    assert_eq!(r.status, "IN_PROGRESS");
    assert_eq!(r.version, 12);
}

#[test]
fn assemble_payload_succeeded() {
    let r = assemble_payload("MyThing", ARN, "255", false);
    assert_eq!(r.detailedStatus, Some("SUCCESSFUL".to_string()));
    assert_eq!(r.status, "SUCCEEDED");
    assert_eq!(r.version, 255);
}

#[test]
fn split_arn() {
    let (thing, version) = split_configuration_arn(ARN).unwrap();
    assert_eq!(thing, "MyThing");
    assert_eq!(version, "7");
    assert!(split_configuration_arn("no-colon-here").is_none());
    assert!(split_configuration_arn("no:slash").is_none());
    let (thing, version) = split_configuration_arn("a/b/c:d:e").unwrap();
    assert_eq!(thing, "c:d");
    assert_eq!(version, "e");
}

#[test]
fn thing_names() {
    assert!(is_valid_thing_name("-_09AZaz:"));
    assert!(!is_valid_thing_name(""));
    assert!(!is_valid_thing_name("has space"));
    assert!(!is_valid_thing_name("a/b"));
    assert!(is_valid_thing_name(&"x".repeat(127)));
    assert!(!is_valid_thing_name(&"x".repeat(128)));
}

#[test]
fn subscription_topic() {
    assert_eq!(
        shadow_subscription_topic("MyThing"),
        "$aws/things/MyThing/shadow/name/AWSManagedGreengrassV2Deployment/#"
    );
    assert_eq!(DEPLOYMENT_SHADOW_NAME, "AWSManagedGreengrassV2Deployment");
}

#[test]
fn deployment_round() {
    let mut states = DeployStates::new();
    let d = delta("3", ARN, Some(hello()));
    assert!(delta_is_acceptable(&states, &d));
    let first = plan_shadow_delta(&mut states, &d);
    assert!(!first.halt);
    let publish = first.publish.unwrap();
    assert_eq!(
        publish.topic,
        "$aws/things/MyThing/shadow/name/AWSManagedGreengrassV2Deployment/update"
    );
    assert_eq!(publish.report.status, "IN_PROGRESS");
    assert_eq!(publish.report.version, 3);
    let deploy = first.deploy.unwrap();
    assert_eq!(deploy.name, "com.example.Hello");
    assert_eq!(deploy.version, "\"1.0.0\"");
    assert_eq!(states.get(), States::Inprogress);

    let d = delta("4", ARN, None);
    assert!(delta_is_acceptable(&states, &d));
    let second = plan_shadow_delta(&mut states, &d);
    assert!(!second.halt);
    let publish = second.publish.unwrap();
    assert_eq!(publish.report.status, "SUCCEEDED");
    assert_eq!(publish.report.detailedStatus, Some("SUCCESSFUL".to_string()));
    assert_eq!(publish.report.version, 4);
    assert!(second.deploy.is_none());
    assert_eq!(states.get(), States::Succeed);

    // after success no delta can be handled until a reset
    assert!(!delta_is_acceptable(&states, &delta("5", ARN, Some(hello()))));
    states.reset();
    assert!(delta_is_acceptable(&states, &delta("5", ARN, Some(hello()))));
}

#[test]
fn deployment_with_no_components_deploys_nothing() {
    let mut states = DeployStates::new();
    let d = delta("1", ARN, Some(vec![]));
    assert!(delta_is_acceptable(&states, &d));
    let action = plan_shadow_delta(&mut states, &d);
    assert!(action.publish.is_some());
    assert!(!action.halt);
    assert!(action.deploy.is_none());
    assert_eq!(states.get(), States::Inprogress);
}

#[test]
fn undeployable_components_halt_after_report() {
    let mut states = DeployStates::new();
    let d = delta("1", ARN, None);
    assert!(delta_is_acceptable(&states, &d));
    let action = plan_shadow_delta(&mut states, &d);
    assert_eq!(action.publish.unwrap().report.status, "IN_PROGRESS");
    assert!(action.halt);
    assert!(action.deploy.is_none());
    assert_eq!(states.get(), States::Deployment);

    let no_version = vec![ComponentRequest { name: "x".to_string(), version: None }];
    let action = plan_shadow_delta(&mut states, &delta("1", ARN, Some(no_version)));
    assert!(action.halt);
    assert_eq!(states.get(), States::Deployment);
}

#[test]
fn unacceptable_deltas() {
    let states = DeployStates::new();
    // the shadow version does not fit in a u8
    assert!(!delta_is_acceptable(&states, &delta("256", ARN, Some(hello()))));
    // the ARN names no thing
    assert!(!delta_is_acceptable(&states, &delta("1", "arn-without-colon", Some(hello()))));
    // the thing name is not valid
    assert!(!delta_is_acceptable(
        &states,
        &delta("1", "arn:x:configuration:thing/bad name:1", Some(hello()))
    ));
    // the components are written without a colon
    let mut d = delta("1", ARN, Some(hello()));
    d.components_text = "null".to_string();
    assert!(!delta_is_acceptable(&states, &d));
}

const PAYLOAD: &str = r#"{"version":5,"state":{"fleetConfig":"{\"configurationArn\":\"arn:aws:greengrass:us-east-1:123456789012:configuration:thing/MyThing:3\",\"components\":{\"com.example.Hello\":{\"version\":\"1.0.0\"}}}"}}"#;

#[test]
fn read_delta_from_payload() {
    let d = read_shadow_delta(PAYLOAD.as_bytes()).unwrap();
    assert_eq!(d.shadow_version, "5");
    assert_eq!(
        d.configuration_arn,
        "arn:aws:greengrass:us-east-1:123456789012:configuration:thing/MyThing:3"
    );
    assert_eq!(d.components_text, r#"{"com.example.Hello":{"version":"1.0.0"}}"#);
    let cs = d.components.unwrap();
    assert_eq!(cs.len(), 1);
    assert_eq!(cs[0].name, "com.example.Hello");
    assert_eq!(cs[0].version, Some("\"1.0.0\"".to_string()));
}

#[test]
fn read_delta_components_walk() {
    let payload = r#"{"version":1,"state":{"fleetConfig":"{\"configurationArn\":\"a:b/c:1\",\"components\":{\"A\":{\"version\":\"1\"},\"B\":{},\"C\":{\"version\":null}}}"}}"#;
    let d = read_shadow_delta(payload.as_bytes()).unwrap();
    let mut cs: Vec<(String, Option<String>)> = d
        .components
        .unwrap()
        .into_iter()
        .map(|c| (c.name, c.version))
        .collect();
    cs.sort();
    assert_eq!(
        cs,
        vec![
            ("A".to_string(), Some("\"1\"".to_string())),
            ("B".to_string(), None),
            ("C".to_string(), Some("null".to_string())),
        ]
    );
}

#[test]
fn read_delta_missing_parts() {
    // not JSON
    assert!(read_shadow_delta(b"not json").is_none());
    // no fleet configuration: its text is null, and null has no configurationArn
    assert!(read_shadow_delta(br#"{"version":1}"#).is_none());
    // the configuration ARN is not a string
    let payload = r#"{"version":1,"state":{"fleetConfig":"{\"configurationArn\":7}"}}"#;
    assert!(read_shadow_delta(payload.as_bytes()).is_none());
    // no version and no components: both read as null
    let payload = r#"{"state":{"fleetConfig":"{\"configurationArn\":\"a:b/c:1\"}"}}"#;
    let d = read_shadow_delta(payload.as_bytes()).unwrap();
    assert_eq!(d.shadow_version, "null");
    assert_eq!(d.components_text, "null");
    assert!(d.components.is_none());
}

#[test]
fn read_then_plan() {
    let mut states = DeployStates::new();
    let d = read_shadow_delta(PAYLOAD.as_bytes()).unwrap();
    assert!(delta_is_acceptable(&states, &d));
    let action = plan_shadow_delta(&mut states, &d);
    let publish = action.publish.unwrap();
    assert_eq!(publish.report.thingName, "MyThing");
    assert_eq!(publish.report.version, 5);
    assert_eq!(action.deploy.unwrap().version, "\"1.0.0\"");
}
