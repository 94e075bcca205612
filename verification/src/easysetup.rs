use vstd::prelude::*;

verus! {

pub const GG_TOKEN_EXCHANGE_ROLE_ACCESS_POLICY_SUFFIX: &'static str = "Access";
pub const GG_TOKEN_EXCHANGE_ROLE_ACCESS_POLICY_DOCUMENT: &'static str = r#"{
        "Version": "2012-10-17",
        "Statement": [
            {
                "Effect": "Allow",
                "Action": [
                    "logs:CreateLogGroup",
                    "logs:CreateLogStream",
                    "logs:PutLogEvents",
                    "logs:DescribeLogStreams",
                    "s3:GetBucketLocation"
                ],
                "Resource": "*"
            }
        ]
    }"#;
pub const ROOT_CA_URL: &'static str = "https://www.amazontrust.com/repository/AmazonRootCA1.pem";
pub const IOT_ROLE_POLICY_NAME_PREFIX: &'static str = "GreengrassTESCertificatePolicy";
pub const GREENGRASS_CLI_COMPONENT_NAME: &'static str = "aws.greengrass.Cli";
pub const INITIAL_DEPLOYMENT_NAME_FORMAT: &'static str = "Deployment for %s";
pub const IAM_POLICY_ARN_FORMAT: &'static str = "arn:%s:iam::%s:policy/%s";
pub const MANAGED_IAM_POLICY_ARN_FORMAT: &'static str = "arn:%s:iam::aws:policy/%s";
pub const E2E_TESTS_POLICY_NAME_PREFIX: &'static str = "E2ETestsIotPolicy";
pub const E2E_TESTS_THING_NAME_PREFIX: &'static str = "E2ETestsIotThing";

/// The root directory of the nucleus.
pub const ROOT_DIR: &'static str = "/greengrass/v2";

/// Where the nucleus keeps the files that let it talk to AWS IoT.
#[derive(Debug)]
pub struct IotFilePaths {
    pub caFilePath: String,
    pub privKeyFilePath: String,
    pub certFilePath: String,
}

/// `file` in the nucleus root directory.
pub open spec fn in_root_dir(file: Seq<char>) -> Seq<char> {
    ROOT_DIR@ + "/"@ + file
}

fn root_dir_file(file: &str) -> (path: String)
    ensures
        path@ == in_root_dir(file@),
{
    let mut path = String::from_str(ROOT_DIR);
    path.append("/");
    path.append(file);
    path
}

/// The paths of the root CA, of the private key and of the thing
/// certificate in the nucleus root directory.
pub fn updateKernelConfigWithIotConfiguration() -> (paths: IotFilePaths)
    ensures
        paths.caFilePath@ == in_root_dir("rootCA.pem"@),
        paths.privKeyFilePath@ == in_root_dir("privKey.key"@),
        paths.certFilePath@ == in_root_dir("thingCert.crt"@),
{
    IotFilePaths {
        caFilePath: root_dir_file("rootCA.pem"),
        privKeyFilePath: root_dir_file("privKey.key"),
        certFilePath: root_dir_file("thingCert.crt"),
    }
}

} // verus!
