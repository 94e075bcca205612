use greengrass::easysetup::updateKernelConfigWithIotConfiguration;
use greengrass::util::{parse_u8, rsplit_once_char, unescape_fleet_config};

#[test]
fn parse_u8_reads_decimal() {
    assert_eq!(parse_u8("0"), Some(0));
    assert_eq!(parse_u8("42"), Some(42));
    assert_eq!(parse_u8("+7"), Some(7));
    assert_eq!(parse_u8("007"), Some(7));
    assert_eq!(parse_u8("255"), Some(255));
    assert_eq!(parse_u8("256"), None);
    assert_eq!(parse_u8("99999999999"), None);
    assert_eq!(parse_u8(""), None);
    assert_eq!(parse_u8("+"), None);
    assert_eq!(parse_u8("-1"), None);
    assert_eq!(parse_u8("1a"), None);
    assert_eq!(parse_u8("\"5\""), None);
    for s in ["0", "12", "+3", "255", "256", "", "x", "-0", "+", "1 "] {
        assert_eq!(parse_u8(s), s.parse::<u8>().ok(), "{}", s);
    }
}

#[test]
fn rsplit_once_matches_std() {
    for s in ["a:b:c", ":", "abc", "", "x:", ":y", "é:ü:ß"] {
        let ours = rsplit_once_char(s, ':');
        let std = s.rsplit_once(':').map(|(a, b)| (a.to_string(), b.to_string()));
        assert_eq!(ours, std, "{}", s);
    }
}

#[test]
fn unescape_fleet_config_text() {
    let raw = "\"{\\\"configurationArn\\\":\\\"arn:x\\\"}\"";
    assert_eq!(unescape_fleet_config(raw), "{\"configurationArn\":\"arn:x\"}");
    assert_eq!(unescape_fleet_config("\"\"\"\""), "");
    assert_eq!(unescape_fleet_config("abc"), "abc");
    assert_eq!(unescape_fleet_config("a\\\\b"), "ab");
    for s in ["\"x\"", "\"\\\"x\"", "q\"q", "\"", ""] {
        assert_eq!(unescape_fleet_config(s), s.trim_matches('"').replace("\\", ""), "{}", s);
    }
}

#[test]
fn kernel_config_paths() {
    let paths = updateKernelConfigWithIotConfiguration();
    assert_eq!(paths.caFilePath, "/greengrass/v2/rootCA.pem");
    assert_eq!(paths.privKeyFilePath, "/greengrass/v2/privKey.key");
    assert_eq!(paths.certFilePath, "/greengrass/v2/thingCert.crt");
}
