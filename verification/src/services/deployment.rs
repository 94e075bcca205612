use vstd::prelude::*;
use vstd::utf8::encode_utf8;

use crate::services::{fresh_status, Service, ServiceRegistry, ServiceStatus};
use crate::json::{
    component_names, json_components_at_exec, json_object_of_objects_keys_at, json_parses,
    json_str_at, json_str_at_exec, json_text_at, json_text_at_exec, path_view, version_entry_read,
};
use crate::util::{
    lemma_rsplit_once, lemma_rsplit_once_of_parts, pair_view, parse_u8, parse_u8_spec, remove_all, rsplit_once_char,
    rsplit_once_spec, trim_matches_spec, unescape_fleet_config,
};

verus! {

pub const CONFIGURATION_ARN_LOG_KEY_NAME: &'static str = "CONFIGURATION_ARN";
pub const DESIRED_STATUS_KEY: &'static str = "desiredStatus";
pub const FLEET_CONFIG_KEY: &'static str = "fleetConfig";
pub const GGC_VERSION_KEY: &'static str = "ggcVersion";
pub const DESIRED_STATUS_CANCELED: &'static str = "CANCELED";
pub const DEPLOYMENT_SHADOW_NAME: &'static str = "AWSManagedGreengrassV2Deployment";
pub const DEVICE_OFFLINE_MESSAGE: &'static str = "Device not configured to talk to AWS Iot cloud. ";
pub const SUBSCRIBING_TO_SHADOW_TOPICS_MESSAGE: &'static str = "Subscribing to Iot Shadow topics";

pub const VERSION: &'static str = "2.5.6";
pub const NAME: &'static str = "DeploymentService";

/// The deployment service.
pub struct Deployments {}

impl Service for Deployments {
    /// Registers the deployment service under its name, at its version.
    fn enable(services: &mut ServiceRegistry)
        ensures
            final(services)@ == old(services)@.insert(NAME@, fresh_status(NAME@, VERSION@)),
    {
        let name = String::from_str(NAME);
        let status: ServiceStatus = Self::new(NAME, VERSION);
        services.insert(name, status);
    }
}

/// Where the handling of deployment shadow deltas stands.
#[derive(Debug, Copy, Clone, PartialEq, Eq, Structural)]
pub enum States {
    Deployment,
    Inprogress,
    Succeed,
}

/// The state that follows `s`: a deployment goes in progress, then
/// succeeds, then the next one can start.
pub open spec fn next_state(s: States) -> States {
    match s {
        States::Deployment => States::Inprogress,
        States::Inprogress => States::Succeed,
        States::Succeed => States::Deployment,
    }
}

/// The state of deployment handling.
pub struct DeployStates {
    state: States,
}

impl View for DeployStates {
    type V = States;

    closed spec fn view(&self) -> States {
        self.state
    }
}

impl DeployStates {
    /// Handling that waits for a deployment.
    pub fn new() -> (d: DeployStates)
        ensures
            d@ == States::Deployment,
    {
        DeployStates { state: States::Deployment }
    }

    /// The current state.
    pub fn get(&self) -> (s: States)
        ensures
            s == self@,
    {
        self.state
    }

    /// Back to waiting for a deployment.
    pub fn reset(&mut self)
        ensures
            final(self)@ == States::Deployment,
    {
        self.state = States::Deployment;
    }

    /// On to the next state. After success the state does not move on: the
    /// service holds this state under a lock, and moving on from success
    /// would take that lock a second time, which does not return; only
    /// `reset` leaves success.
    pub fn next(&mut self)
        requires
            old(self)@ != States::Succeed,
        ensures
            final(self)@ == next_state(old(self)@),
    {
        match self.state {
            States::Deployment => self.state = States::Inprogress,
            States::Inprogress => self.state = States::Succeed,
            States::Succeed => self.reset(),
        }
    }
}

/// The error of the AWS IoT device SDK.
#[verifier::external_type_specification]
#[verifier::external_body]
pub struct ExIotSdkError(aws_iot_device_sdk::Error);

/// Whether `c` may stand in a thing name or a shadow name.
pub open spec fn is_name_char(c: char) -> bool {
    c == '-' || c == '_' || c == ':' || ('0' <= c && c <= '9') || ('A' <= c && c <= 'Z') || ('a' <= c
        && c <= 'z')
}

/// Whether `s` is a name of fewer than `max_len` characters, none of them
/// outside the name characters.
pub open spec fn valid_iot_name(s: Seq<char>, max_len: int) -> bool {
    0 < s.len() < max_len && forall|i: int| 0 <= i < s.len() ==> is_name_char(#[trigger] s[i])
}

/// Whether `s` is a valid thing name: 1 to 127 name characters.
pub open spec fn valid_thing_name(s: Seq<char>) -> bool {
    valid_iot_name(s, 128)
}

/// Whether `s` is a valid shadow name: 1 to 63 name characters.
pub open spec fn valid_shadow_name(s: Seq<char>) -> bool {
    valid_iot_name(s, 64)
}

/// The MQTT topic on which an update of the shadow of thing `thing`
/// (the classic one, or the one named `shadow`) is published.
pub open spec fn shadow_update_topic(thing: Seq<char>, shadow: Option<Seq<char>>) -> Seq<char> {
    match shadow {
        None => "$aws/things/"@ + thing + "/shadow/"@ + "update"@,
        Some(name) => "$aws/things/"@ + thing + "/shadow/name/"@ + name + "/"@ + "update"@,
    }
}

/// What assembling a topic gives: the topic, or the SDK's error.
pub type TopicResult = Result<String, aws_iot_device_sdk::Error>;

/// The view of an optional string.
pub open spec fn str_option_view(s: Option<&str>) -> Option<Seq<char>> {
    match s {
        Some(n) => Some(n@),
        None => None,
    }
}

/// Whether the shadow name, if any, is valid.
pub open spec fn shadow_name_ok(shadow_name: Option<&str>) -> bool {
    match shadow_name {
        Some(n) => valid_shadow_name(n@),
        None => true,
    }
}

/// `aws_iot_device_sdk::shadow::assemble_topic` for `Topic::Update`: it
/// succeeds exactly when the thing name and the shadow name, if given, are
/// valid, and then gives the update topic of that shadow.
#[verifier::external_body]
fn assemble_update_topic(thing_name: &str, shadow_name: Option<&str>) -> (r: TopicResult)
    ensures
        r is Ok <==> (valid_thing_name(thing_name@) && shadow_name_ok(shadow_name)),
        r matches Ok(t) ==> t@ == shadow_update_topic(thing_name@, str_option_view(shadow_name)),
{
    aws_iot_device_sdk::shadow::assemble_topic(aws_iot_device_sdk::shadow::Topic::Update, thing_name, shadow_name).map(|t| t.to_string())
}

/// The name of the deployment shadow is a valid shadow name.
pub proof fn lemma_deployment_shadow_name_valid()
    ensures
        valid_shadow_name(DEPLOYMENT_SHADOW_NAME@),
{
    reveal_strlit("AWSManagedGreengrassV2Deployment");
    assert(DEPLOYMENT_SHADOW_NAME@.len() == 32);
    assert forall|i: int| 0 <= i < DEPLOYMENT_SHADOW_NAME@.len() implies is_name_char(#[trigger] DEPLOYMENT_SHADOW_NAME@[i]) by {
        assert(0 <= i < 32);
    }
}

/// The topic filter under which every message of the deployment shadow of
/// thing `thing` falls.
pub open spec fn shadow_subscription_spec(thing: Seq<char>) -> Seq<char> {
    "$aws/things/"@ + thing + "/shadow/name/"@ + DEPLOYMENT_SHADOW_NAME@ + "/#"@
}

/// The topic filter that `connect_shadow` subscribes to and
/// `disconnect_shadow` unsubscribes from.
pub fn shadow_subscription_topic(thing_name: &str) -> (topic: String)
    ensures
        topic@ == shadow_subscription_spec(thing_name@),
{
    let mut topic = String::from_str("$aws/things/");
    topic.append(thing_name);
    topic.append("/shadow/name/");
    topic.append(DEPLOYMENT_SHADOW_NAME);
    topic.append("/#");
    topic
}

/// The update topic of the deployment shadow of a thing falls under the
/// topic filter that is subscribed to for that thing.
pub proof fn lemma_update_topic_under_subscription(thing: Seq<char>)
    ensures
        ({
            let filter = shadow_subscription_spec(thing);
            let topic = shadow_update_topic(thing, Some(DEPLOYMENT_SHADOW_NAME@));
            &&& filter.last() == '#'
            &&& filter.drop_last().is_prefix_of(topic)
        }),
{
    reveal_strlit("/#");
    reveal_strlit("/");
    let filter = shadow_subscription_spec(thing);
    let base = "$aws/things/"@ + thing + "/shadow/name/"@ + DEPLOYMENT_SHADOW_NAME@;
    assert(filter =~= base + seq!['/', '#']);
    assert(filter.drop_last() =~= base + seq!['/']);
    let topic = shadow_update_topic(thing, Some(DEPLOYMENT_SHADOW_NAME@));
    assert(topic =~= base + "/"@ + "update"@);
    assert(filter.drop_last() =~= topic.subrange(0, filter.drop_last().len() as int));
}

/// The thing name and the version that a configuration ARN of the form
/// `arn:aws:greengrass:<region>:<account>:configuration:thing/<name>:<version>`
/// names: what follows the last `/` before the last `:`, and what follows
/// that `:`.
pub open spec fn split_configuration_arn_spec(arn: Seq<char>) -> Option<(Seq<char>, Seq<char>)> {
    match rsplit_once_spec(arn, ':') {
        None => None,
        Some((other, version)) => match rsplit_once_spec(other, '/') {
            None => None,
            Some((_head, thing)) => Some((thing, version)),
        },
    }
}

/// Reads the thing name and the version out of a configuration ARN; `None`
/// where the ARN has no `:`, or no `/` before its last `:`.
pub fn split_configuration_arn(arn: &str) -> (r: Option<(String, String)>)
    ensures
        pair_view(r) == split_configuration_arn_spec(arn@),
        r matches Some((thing, version)) ==> exists|head: Seq<char>|
            arn@ == head + seq!['/'] + thing@ + seq![':'] + version@ && !thing@.contains('/')
                && !version@.contains(':'),
{
    proof {
        lemma_rsplit_once(arn@, ':');
    }
    match rsplit_once_char(arn, ':') {
        None => None,
        Some((other, version)) => {
            proof {
                lemma_rsplit_once(other@, '/');
            }
            match rsplit_once_char(other.as_str(), '/') {
                None => None,
                Some((head, thing)) => {
                    assert(arn@ =~= head@ + seq!['/'] + thing@ + seq![':'] + version@);
                    Some((thing, version))
                },
            }
        },
    }
}

/// Whether `thing_name` is a valid thing name.
pub fn is_valid_thing_name(thing_name: &str) -> (b: bool)
    ensures
        b == valid_thing_name(thing_name@),
{
    let n = thing_name.unicode_len();
    if n == 0 || n >= 128 {
        return false;
    }
    let mut i: usize = 0;
    while i < n
        invariant
            i <= n,
            n == thing_name@.len(),
            forall|j: int| 0 <= j < i ==> is_name_char(#[trigger] thing_name@[j]),
        decreases n - i,
    {
        let c = thing_name.get_char(i);
        if !(c == '-' || c == '_' || c == ':' || ('0' <= c && c <= '9') || ('A' <= c && c <= 'Z') || ('a'
            <= c && c <= 'z')) {
            assert(!is_name_char(thing_name@[i as int]));
            return false;
        }
        i = i + 1;
    }
    true
}

/// The state that a deployment shadow update reports: in the shadow
/// document it stands as
/// `{"shadowName", "thingName", "state": {"reported": {"ggcVersion",
/// "fleetConfigurationArnForStatus", "statusDetails": {"detailedStatus"?},
/// "status"}}, "version"}`.
#[derive(Debug)]
pub struct ShadowReport {
    pub shadowName: String,
    pub thingName: String,
    pub ggcVersion: String,
    pub fleetConfigurationArnForStatus: String,
    pub detailedStatus: Option<String>,
    pub status: String,
    pub version: u8,
}

pub struct ShadowReportView {
    pub shadow_name: Seq<char>,
    pub thing_name: Seq<char>,
    pub ggc_version: Seq<char>,
    pub configuration_arn: Seq<char>,
    pub detailed_status: Option<Seq<char>>,
    pub status: Seq<char>,
    pub version: u8,
}

impl View for ShadowReport {
    type V = ShadowReportView;

    open spec fn view(&self) -> ShadowReportView {
        ShadowReportView {
            shadow_name: self.shadowName@,
            thing_name: self.thingName@,
            ggc_version: self.ggcVersion@,
            configuration_arn: self.fleetConfigurationArnForStatus@,
            detailed_status: match self.detailedStatus {
                Some(d) => Some(d@),
                None => None,
            },
            status: self.status@,
            version: self.version,
        }
    }
}

/// The report for the deployment `arn` of thing `thing` at shadow version
/// `version`: in progress when `next`, else succeeded.
pub open spec fn report_spec(thing: Seq<char>, arn: Seq<char>, version: u8, next: bool) -> ShadowReportView {
    ShadowReportView {
        shadow_name: DEPLOYMENT_SHADOW_NAME@,
        thing_name: thing,
        ggc_version: VERSION@,
        configuration_arn: arn,
        detailed_status: if next {
            None
        } else {
            Some("SUCCESSFUL"@)
        },
        status: if next {
            "IN_PROGRESS"@
        } else {
            "SUCCEEDED"@
        },
        version: version,
    }
}

/// The report of the deployment `arn` of thing `thing_name`, at the shadow
/// version that `version` writes in decimal: in progress when `next`, else
/// succeeded.
pub fn assemble_payload(thing_name: &str, arn: &str, version: &str, next: bool) -> (r: ShadowReport)
    requires
        parse_u8_spec(version@) is Some,
    ensures
        r@ == report_spec(thing_name@, arn@, parse_u8_spec(version@)->0, next),
{
    let version = match parse_u8(version) {
        Some(v) => v,
        None => 0,
    };
    if next {
        ShadowReport {
            shadowName: String::from_str(DEPLOYMENT_SHADOW_NAME),
            thingName: String::from_str(thing_name),
            ggcVersion: String::from_str(VERSION),
            fleetConfigurationArnForStatus: String::from_str(arn),
            detailedStatus: None,
            status: String::from_str("IN_PROGRESS"),
            version: version,
        }
    } else {
        ShadowReport {
            shadowName: String::from_str(DEPLOYMENT_SHADOW_NAME),
            thingName: String::from_str(thing_name),
            ggcVersion: String::from_str(VERSION),
            fleetConfigurationArnForStatus: String::from_str(arn),
            detailedStatus: Some(String::from_str("SUCCESSFUL")),
            status: String::from_str("SUCCEEDED"),
            version: version,
        }
    }
}

/// A component that a fleet configuration asks for: its name, and its
/// `version` entry written as JSON, if it has one.
#[derive(Debug)]
pub struct ComponentRequest {
    pub name: String,
    pub version: Option<String>,
}

pub struct ComponentRequestView {
    pub name: Seq<char>,
    pub version: Option<Seq<char>>,
}

impl View for ComponentRequest {
    type V = ComponentRequestView;

    open spec fn view(&self) -> ComponentRequestView {
        ComponentRequestView {
            name: self.name@,
            version: match self.version {
                Some(v) => Some(v@),
                None => None,
            },
        }
    }
}

/// What a delta of the deployment shadow carries, as plain values.
#[derive(Debug)]
pub struct ShadowDelta {
    /// The delta's `version`, written as JSON.
    pub shadow_version: String,
    /// The `configurationArn` of its fleet configuration.
    pub configuration_arn: String,
    /// The `components` of its fleet configuration, written as JSON.
    pub components_text: String,
    /// Those components in the order in which they were walked; `None` when
    /// `components` is not an object of objects.
    pub components: Option<Vec<ComponentRequest>>,
}

pub struct ShadowDeltaView {
    pub shadow_version: Seq<char>,
    pub configuration_arn: Seq<char>,
    pub components_text: Seq<char>,
    pub components: Option<Seq<ComponentRequestView>>,
}

impl View for ShadowDelta {
    type V = ShadowDeltaView;

    open spec fn view(&self) -> ShadowDeltaView {
        ShadowDeltaView {
            shadow_version: self.shadow_version@,
            configuration_arn: self.configuration_arn@,
            components_text: self.components_text@,
            components: match self.components {
                Some(cs) => Some(cs@.map_values(|c: ComponentRequest| c@)),
                None => None,
            },
        }
    }
}

/// A shadow update to publish.
#[derive(Debug)]
pub struct ShadowPublish {
    pub topic: String,
    pub report: ShadowReport,
}

/// A component to deploy, by name and version.
#[derive(Debug)]
pub struct ComponentDeploy {
    pub name: String,
    pub version: String,
}

/// What handling one delta of the deployment shadow calls for: an update to
/// publish, then either a halt (the delta's components cannot be deployed)
/// or a component to deploy.
#[derive(Debug)]
pub struct DeltaAction {
    pub publish: Option<ShadowPublish>,
    pub halt: bool,
    pub deploy: Option<ComponentDeploy>,
}

pub struct DeltaActionView {
    pub publish: Option<(Seq<char>, ShadowReportView)>,
    pub halt: bool,
    pub deploy: Option<(Seq<char>, Seq<char>)>,
}

impl View for DeltaAction {
    type V = DeltaActionView;

    open spec fn view(&self) -> DeltaActionView {
        DeltaActionView {
            publish: match self.publish {
                Some(p) => Some((p.topic@, p.report@)),
                None => None,
            },
            halt: self.halt,
            deploy: match self.deploy {
                Some(d) => Some((d.name@, d.version@)),
                None => None,
            },
        }
    }
}

/// Whether a delta can be handled in state `state`: handling has not
/// succeeded already, the delta's configuration ARN names a valid thing,
/// its components are written with a `:`, and its shadow version is a `u8`.
pub open spec fn delta_acceptable(state: States, d: ShadowDeltaView) -> bool {
    &&& state != States::Succeed
    &&& split_configuration_arn_spec(d.configuration_arn) matches Some((thing, _v)) && valid_thing_name(
        thing,
    )
    &&& d.components_text.contains(':')
    &&& parse_u8_spec(d.shadow_version) is Some
}

/// Whether the components of `d` can be deployed: they are an object of
/// objects, the first of which in the walk has a version.
pub open spec fn components_deployable(d: ShadowDeltaView) -> bool {
    d.components matches Some(cs) && (cs.len() > 0 ==> cs[0].version is Some)
}

/// What handling delta `d` in state `state` calls for. Waiting for a
/// deployment, it reports the deployment in progress, then deploys the first
/// component asked for, or halts where the components cannot be deployed;
/// in progress, it reports success.
pub open spec fn delta_action_spec(state: States, d: ShadowDeltaView) -> DeltaActionView {
    let parts = split_configuration_arn_spec(d.configuration_arn)->0;
    let thing = parts.0;
    let topic = shadow_update_topic(thing, Some(DEPLOYMENT_SHADOW_NAME@));
    let version = parse_u8_spec(d.shadow_version)->0;
    match state {
        States::Deployment => DeltaActionView {
            publish: Some((topic, report_spec(thing, d.configuration_arn, version, true))),
            halt: !components_deployable(d),
            deploy: if components_deployable(d) && d.components->0.len() > 0 {
                Some((d.components->0[0].name, d.components->0[0].version->0))
            } else {
                None
            },
        },
        States::Inprogress => DeltaActionView {
            publish: Some((topic, report_spec(thing, d.configuration_arn, version, false))),
            halt: false,
            deploy: None,
        },
        States::Succeed => DeltaActionView { publish: None, halt: false, deploy: None },
    }
}

/// The state in which handling delta `d` in state `state` leaves deployment
/// handling: the next one, unless it halts.
pub open spec fn state_after_delta(state: States, d: ShadowDeltaView) -> States {
    if delta_action_spec(state, d).halt {
        state
    } else {
        next_state(state)
    }
}

/// Whether `delta` can be handled in the current state of `states`.
pub fn delta_is_acceptable(states: &DeployStates, delta: &ShadowDelta) -> (b: bool)
    ensures
        b == delta_acceptable(states@, delta@),
{
    if states.get() == States::Succeed {
        return false;
    }
    let thing_ok = match split_configuration_arn(delta.configuration_arn.as_str()) {
        Some((thing, _version)) => is_valid_thing_name(thing.as_str()),
        None => false,
    };
    if !thing_ok {
        return false;
    }
    proof {
        lemma_rsplit_once(delta.components_text@, ':');
    }
    if rsplit_once_char(delta.components_text.as_str(), ':').is_none() {
        return false;
    }
    parse_u8(delta.shadow_version.as_str()).is_some()
}

/// Handles one delta of the deployment shadow: says what to publish, whether
/// to halt and what to deploy, and moves deployment handling on to its next
/// state unless it halts.
pub fn plan_shadow_delta(states: &mut DeployStates, delta: &ShadowDelta) -> (action: DeltaAction)
    requires
        delta_acceptable(old(states)@, delta@),
    ensures
        action@ == delta_action_spec(old(states)@, delta@),
        final(states)@ == state_after_delta(old(states)@, delta@),
{
    let thing_name = match split_configuration_arn(delta.configuration_arn.as_str()) {
        Some((thing, _version)) => thing,
        None => String::new(),
    };
    proof {
        lemma_deployment_shadow_name_valid();
    }
    let topic = match assemble_update_topic(thing_name.as_str(), Some(DEPLOYMENT_SHADOW_NAME)) {
        Ok(t) => t,
        Err(_) => String::new(),
    };
    let state = states.get();
    let next = state == States::Deployment;
    let report = assemble_payload(
        thing_name.as_str(),
        delta.configuration_arn.as_str(),
        delta.shadow_version.as_str(),
        next,
    );
    let publish = Some(ShadowPublish { topic: topic, report: report });
    if !next {
        states.next();
        return DeltaAction { publish: publish, halt: false, deploy: None };
    }
    match &delta.components {
        None => DeltaAction { publish: publish, halt: true, deploy: None },
        Some(cs) => {
            if cs.len() == 0 {
                states.next();
                DeltaAction { publish: publish, halt: false, deploy: None }
            } else {
                match &cs[0].version {
                    None => DeltaAction { publish: publish, halt: true, deploy: None },
                    Some(v) => {
                        states.next();
                        let deploy = ComponentDeploy { name: cs[0].name.clone(), version: v.clone() };
                        DeltaAction { publish: publish, halt: false, deploy: Some(deploy) }
                    },
                }
            }
        },
    }
}

/// A deployment round: from waiting for a deployment, a delta whose
/// components can be deployed reports the deployment in progress and moves
/// handling on; the next delta reports success and moves handling to
/// success, from which only a reset leads on. Both reports go to the update
/// topic of the deployment shadow of the thing that the configuration ARN
/// names.
pub proof fn lemma_deployment_round(d1: ShadowDeltaView, d2: ShadowDeltaView)
    requires
        delta_acceptable(States::Deployment, d1),
        components_deployable(d1),
        delta_acceptable(States::Inprogress, d2),
    ensures
        state_after_delta(States::Deployment, d1) == States::Inprogress,
        state_after_delta(States::Inprogress, d2) == States::Succeed,
        !delta_acceptable(States::Succeed, d2),
        delta_action_spec(States::Deployment, d1).publish matches Some((topic, r)) && topic
            == shadow_update_topic(r.thing_name, Some(DEPLOYMENT_SHADOW_NAME@)) && r.status
            == "IN_PROGRESS"@ && r.detailed_status is None && r.configuration_arn == d1.configuration_arn,
        !delta_action_spec(States::Deployment, d1).halt,
        delta_action_spec(States::Inprogress, d2).publish matches Some((topic, r)) && topic
            == shadow_update_topic(r.thing_name, Some(DEPLOYMENT_SHADOW_NAME@)) && r.status
            == "SUCCEEDED"@ && r.detailed_status == Some("SUCCESSFUL"@) && r.configuration_arn
            == d2.configuration_arn,
        delta_action_spec(States::Inprogress, d2).deploy is None,
        !delta_action_spec(States::Inprogress, d2).halt,
{
}

/// A delta whose components cannot be deployed, arriving while handling
/// waits for a deployment, still reports the deployment in progress, then
/// halts, deploys nothing and leaves handling waiting.
pub proof fn lemma_undeployable_delta_halts(d: ShadowDeltaView)
    requires
        delta_acceptable(States::Deployment, d),
        !components_deployable(d),
    ensures
        delta_action_spec(States::Deployment, d).publish is Some,
        delta_action_spec(States::Deployment, d).halt,
        delta_action_spec(States::Deployment, d).deploy is None,
        state_after_delta(States::Deployment, d) == States::Deployment,
{
}

/// The path of the shadow version in a delta document.
pub open spec fn version_path() -> Seq<Seq<char>> {
    seq!["version"@]
}

/// The path of the fleet configuration in a delta document.
pub open spec fn fleet_config_path() -> Seq<Seq<char>> {
    seq!["state"@, "fleetConfig"@]
}

/// The path of the configuration ARN in a fleet configuration.
pub open spec fn configuration_arn_path() -> Seq<Seq<char>> {
    seq!["configurationArn"@]
}

/// The path of the components in a fleet configuration.
pub open spec fn components_path() -> Seq<Seq<char>> {
    seq!["components"@]
}

/// The fleet configuration document that a delta document carries: the
/// JSON text of its `state.fleetConfig`, unescaped, as UTF-8.
pub open spec fn fleet_config_doc(payload: Seq<u8>) -> Seq<u8> {
    encode_utf8(remove_all(trim_matches_spec(json_text_at(payload, fleet_config_path())->0, '"'), '\\'))
}

/// Whether a delta can be read out of `payload`: it is a JSON document, and
/// its fleet configuration is a JSON document whose `configurationArn` is a
/// string.
pub open spec fn delta_readable(payload: Seq<u8>) -> bool {
    json_parses(payload) && json_str_at(fleet_config_doc(payload), configuration_arn_path()) is Some
}

/// Whether `d` is what is read out of the delta document `payload`: its
/// shadow version is the JSON text of `version`; its configuration ARN the
/// `configurationArn` string of the fleet configuration; its components text
/// the JSON text of the fleet configuration's `components`; and its
/// components, where they are an object of objects, that object's keys,
/// each once, with the JSON text of their `version` entries.
pub open spec fn delta_read_from(payload: Seq<u8>, d: ShadowDelta) -> bool {
    let fleet = fleet_config_doc(payload);
    &&& json_text_at(payload, version_path()) == Some(d.shadow_version@)
    &&& json_str_at(fleet, configuration_arn_path()) == Some(d.configuration_arn@)
    &&& json_text_at(fleet, components_path()) == Some(d.components_text@)
    &&& (d.components is Some <==> json_object_of_objects_keys_at(fleet, components_path()) is Some)
    &&& (d.components matches Some(cs) ==> {
        &&& component_names(cs@).no_duplicates()
        &&& component_names(cs@).to_set() == json_object_of_objects_keys_at(fleet, components_path())->0
        &&& forall|i: int|
            0 <= i < cs@.len() ==> version_entry_read(fleet, components_path(), #[trigger] cs@[i])
    })
}

fn path_of(keys: &[&str]) -> (path: Vec<String>)
    ensures
        path_view(path@) == keys@.map_values(|k: &str| k@),
{
    let mut path: Vec<String> = Vec::new();
    let mut i: usize = 0;
    while i < keys.len()
        invariant
            i <= keys@.len(),
            path_view(path@) == keys@.take(i as int).map_values(|k: &str| k@),
        decreases keys@.len() - i,
    {
        let ghost before = path@;
        let key = String::from_str(keys[i]);
        path.push(key);
        assert(path_view(path@) =~= path_view(before).push(keys@[i as int]@));
        assert(keys@.take(i + 1) =~= keys@.take(i as int).push(keys@[i as int]));
        assert(path_view(path@) =~= keys@.take(i + 1).map_values(|k: &str| k@));
        i = i + 1;
    }
    assert(keys@.take(keys@.len() as int) =~= keys@);
    path
}

/// Reads a delta of the deployment shadow out of its MQTT payload; `None`
/// where the payload or its fleet configuration is not JSON, or the
/// configuration ARN is not a string.
pub fn read_shadow_delta(payload: &[u8]) -> (r: Option<ShadowDelta>)
    ensures
        r is Some <==> delta_readable(payload@),
        r matches Some(d) ==> delta_read_from(payload@, d),
{
    let version_keys = ["version"];
    let version_keys_path = path_of(&version_keys);
    assert(version_keys@.map_values(|k: &str| k@) =~= version_path());
    let fleet_keys = ["state", "fleetConfig"];
    let fleet_keys_path = path_of(&fleet_keys);
    assert(fleet_keys@.map_values(|k: &str| k@) =~= fleet_config_path());
    let arn_keys = ["configurationArn"];
    let arn_keys_path = path_of(&arn_keys);
    assert(arn_keys@.map_values(|k: &str| k@) =~= configuration_arn_path());
    let components_keys = ["components"];
    let components_keys_path = path_of(&components_keys);
    assert(components_keys@.map_values(|k: &str| k@) =~= components_path());

    let shadow_version = match json_text_at_exec(payload, &version_keys_path) {
        Some(t) => t,
        None => return None,
    };
    let raw_fleet = match json_text_at_exec(payload, &fleet_keys_path) {
        Some(t) => t,
        None => return None,
    };
    let fleet = unescape_fleet_config(raw_fleet.as_str());
    let fleet_bytes = fleet.as_str().as_bytes();
    assert(fleet_bytes@ == fleet_config_doc(payload@));
    let configuration_arn = match json_str_at_exec(fleet_bytes, &arn_keys_path) {
        Some(t) => t,
        None => return None,
    };
    let components_text = match json_text_at_exec(fleet_bytes, &components_keys_path) {
        Some(t) => t,
        None => return None,
    };
    let components = json_components_at_exec(fleet_bytes, &components_keys_path);
    Some(ShadowDelta { shadow_version, configuration_arn, components_text, components })
}

/// A configuration ARN made of a head, `/`, a thing name without `/`, `:`
/// and a version without `:` names exactly that thing and that version.
pub proof fn lemma_split_configuration_arn_of_parts(
    arn: Seq<char>,
    head: Seq<char>,
    thing: Seq<char>,
    version: Seq<char>,
)
    requires
        arn == head + seq!['/'] + thing + seq![':'] + version,
        !thing.contains('/'),
        !version.contains(':'),
    ensures
        split_configuration_arn_spec(arn) == Some((thing, version)),
{
    let other = head + seq!['/'] + thing;
    assert(arn =~= other + seq![':'] + version);
    lemma_rsplit_once_of_parts(arn, ':', other, version);
    lemma_rsplit_once_of_parts(other, '/', head, thing);
}

/// Whether `c` is a letter, a digit, `-`, `_` or `:`.
pub open spec fn thing_name_char(c: char) -> bool {
    ||| c == '-'
    ||| c == '_'
    ||| c == ':'
    ||| ('0' <= c && c <= '9')
    ||| ('A' <= c && c <= 'Z')
    ||| ('a' <= c && c <= 'z')
}

/// Every report that a delta calls for names the thing that the delta's
/// configuration ARN names, carries that ARN and the delta's shadow
/// version, and goes to the update topic of that thing's deployment
/// shadow; waiting for a deployment it reports the deployment in progress,
/// in progress it reports success.
pub proof fn lemma_reports_name_the_arn_thing(
    state: States,
    d: ShadowDeltaView,
    head: Seq<char>,
    thing: Seq<char>,
    version: Seq<char>,
)
    requires
        delta_acceptable(state, d),
        d.configuration_arn == head + seq!['/'] + thing + seq![':'] + version,
        !thing.contains('/'),
        !version.contains(':'),
    ensures
        delta_action_spec(state, d).publish matches Some((topic, r)) && {
            &&& r.thing_name == thing
            &&& r.configuration_arn == d.configuration_arn
            &&& Some(r.version) == parse_u8_spec(d.shadow_version)
            &&& r.shadow_name == DEPLOYMENT_SHADOW_NAME@
            &&& topic == "$aws/things/"@ + thing + "/shadow/name/"@ + DEPLOYMENT_SHADOW_NAME@ + "/update"@
            &&& state == States::Deployment ==> r.status == "IN_PROGRESS"@
            &&& state == States::Inprogress ==> r.status == "SUCCEEDED"@
        },
{
    lemma_split_configuration_arn_of_parts(d.configuration_arn, head, thing, version);
    reveal_strlit("/");
    reveal_strlit("update");
    reveal_strlit("/update");
    assert("/"@ + "update"@ =~= "/update"@);
    let base = "$aws/things/"@ + thing + "/shadow/name/"@ + DEPLOYMENT_SHADOW_NAME@;
    assert(base + "/"@ + "update"@ =~= base + "/update"@);
}

/// Every report that `assemble_payload` builds is for the deployment
/// shadow, at this nucleus version, names the given thing, ARN and shadow
/// version, and reports the deployment in progress when `next`, else
/// succeeded with the detailed status `SUCCESSFUL`.
pub proof fn lemma_report_fields(thing: Seq<char>, arn: Seq<char>, version: u8, next: bool)
    ensures
        report_spec(thing, arn, version, next).shadow_name == DEPLOYMENT_SHADOW_NAME@,
        report_spec(thing, arn, version, next).ggc_version == VERSION@,
        report_spec(thing, arn, version, next).thing_name == thing,
        report_spec(thing, arn, version, next).configuration_arn == arn,
        report_spec(thing, arn, version, next).version == version,
        next ==> report_spec(thing, arn, version, next).status == "IN_PROGRESS"@,
        next ==> report_spec(thing, arn, version, next).detailed_status is None,
        !next ==> report_spec(thing, arn, version, next).status == "SUCCEEDED"@,
        !next ==> report_spec(thing, arn, version, next).detailed_status == Some("SUCCESSFUL"@),
{
}

/// Waiting for a deployment, a delta whose components are an object of
/// objects deploys the first component of the walk when there is one and
/// it has a version, and moves handling on; with no component it deploys
/// nothing and moves on; where the components are not an object of objects,
/// or the first one has no version, it deploys nothing, halts and leaves
/// handling waiting.
pub proof fn lemma_deployment_deploys_first_component(d: ShadowDeltaView)
    requires
        delta_acceptable(States::Deployment, d),
    ensures
        d.components is Some && d.components->0.len() > 0 && d.components->0[0].version is Some ==> {
            &&& !delta_action_spec(States::Deployment, d).halt
            &&& delta_action_spec(States::Deployment, d).deploy == Some(
                (d.components->0[0].name, d.components->0[0].version->0),
            )
            &&& state_after_delta(States::Deployment, d) == States::Inprogress
        },
        d.components is Some && d.components->0.len() == 0 ==> {
            &&& !delta_action_spec(States::Deployment, d).halt
            &&& delta_action_spec(States::Deployment, d).deploy is None
            &&& state_after_delta(States::Deployment, d) == States::Inprogress
        },
        (d.components is None || (d.components->0.len() > 0 && d.components->0[0].version is None)) ==> {
            &&& delta_action_spec(States::Deployment, d).halt
            &&& delta_action_spec(States::Deployment, d).deploy is None
            &&& state_after_delta(States::Deployment, d) == States::Deployment
        },
        delta_action_spec(States::Deployment, d).publish is Some,
{
}

/// A delta can be handled exactly when handling has not succeeded, its
/// shadow version is a `u8`, its components are written with a `:`, and its
/// configuration ARN is a head, `/`, a thing name of 1 to 127 letters,
/// digits, `-`, `_` and `:`, then `:` and a version without `:`.
pub proof fn lemma_delta_acceptance(
    state: States,
    d: ShadowDeltaView,
    head: Seq<char>,
    thing: Seq<char>,
    version: Seq<char>,
)
    requires
        d.configuration_arn == head + seq!['/'] + thing + seq![':'] + version,
        !thing.contains('/'),
        !version.contains(':'),
    ensures
        delta_acceptable(state, d) <==> {
            &&& state != States::Succeed
            &&& parse_u8_spec(d.shadow_version) is Some
            &&& d.components_text.contains(':')
            &&& 0 < thing.len() < 128
            &&& forall|i: int| 0 <= i < thing.len() ==> thing_name_char(#[trigger] thing[i])
        },
{
    lemma_split_configuration_arn_of_parts(d.configuration_arn, head, thing, version);
}

/// A configuration ARN without the shape of a head, `/`, a thing name
/// without `/`, `:` and a version without `:` makes no delta acceptable.
pub proof fn lemma_delta_acceptance_needs_arn_thing(state: States, d: ShadowDeltaView)
    requires
        delta_acceptable(state, d),
    ensures
        exists|head: Seq<char>, thing: Seq<char>, version: Seq<char>|
            d.configuration_arn == head + seq!['/'] + thing + seq![':'] + version && !thing.contains('/')
                && !version.contains(':') && 0 < thing.len() < 128,
{
    let arn = d.configuration_arn;
    lemma_rsplit_once(arn, ':');
    let (other, version) = rsplit_once_spec(arn, ':')->0;
    lemma_rsplit_once(other, '/');
    let (head, thing) = rsplit_once_spec(other, '/')->0;
    assert(arn =~= head + seq!['/'] + thing + seq![':'] + version);
}

} // verus!
