# greengrass

Core logic of a Greengrass-style IoT nucleus, verified with Verus.

- `src/services/` — the service registry (`ServiceRegistry`, kept in a
  `dashmap::DashMap`), the `Service` trait, the nucleus (`kernel`) and the
  deployment service (`deployment`): the deployment state machine, the
  deployment shadow topics, the shadow reports and the planning of what a
  deployment shadow delta calls for.
- `src/util.rs` — text helpers with exact specifications (splitting at the
  last separator, unescaping the fleet configuration, reading a `u8`).
- `src/json.rs` — the reading of JSON documents through `serde_json`,
  behind trusted wrappers whose results are named.
- `src/easysetup.rs` — the device file locations of the nucleus.
- `app/` — MQTT, HTTP, file and AWS SDK plumbing around the library.
