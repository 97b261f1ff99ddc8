//! The configuration surface: the four values the write endpoint needs,
//! each required, and the write request built from them. A missing value
//! is reported by the environment variable that should have held it.

use vstd::prelude::*;
use vstd::string::StringExecFns;

use crate::line::append_bytes;

verus! {

/// Which required configuration value is absent.
#[derive(PartialEq, Eq, Structural, Clone, Copy, Debug)]
pub enum ConfigError {
    MissingUrl,
    MissingOrg,
    MissingToken,
    MissingBucket,
}

impl ConfigError {
    /// The name of the environment variable whose absence it reports.
    pub fn variable(&self) -> (r: String)
        ensures
            *self == ConfigError::MissingUrl ==> r@ == "INFLUX_URL"@,
            *self == ConfigError::MissingOrg ==> r@ == "INFLUX_ORG"@,
            *self == ConfigError::MissingToken ==> r@ == "INFLUX_AUTH_TOKEN"@,
            *self == ConfigError::MissingBucket ==> r@ == "INFLUX_BUCKET"@,
    {
        match self {
            ConfigError::MissingUrl => String::from_str("INFLUX_URL"),
            ConfigError::MissingOrg => String::from_str("INFLUX_ORG"),
            ConfigError::MissingToken => String::from_str("INFLUX_AUTH_TOKEN"),
            ConfigError::MissingBucket => String::from_str("INFLUX_BUCKET"),
        }
    }
}

/// The resolved configuration: endpoint base URL, organization,
/// authentication token and bucket, all present.
#[derive(Debug)]
pub struct Config {
    pub base_url: Vec<u8>,
    pub org: Vec<u8>,
    pub token: Vec<u8>,
    pub bucket: Vec<u8>,
}

impl Config {
    /// Resolves the configuration from the optional values the process
    /// environment yielded. It succeeds exactly when all four are
    /// present; otherwise it reports the first absent one, in the order
    /// URL, organization, token, bucket, before anything else runs.
    pub fn from_parts(
        base_url: Option<Vec<u8>>,
        org: Option<Vec<u8>>,
        token: Option<Vec<u8>>,
        bucket: Option<Vec<u8>>,
    ) -> (r: Result<Config, ConfigError>)
        ensures
            r is Ok <==> (base_url is Some && org is Some && token is Some && bucket is Some),
            r matches Ok(c) ==> {
                &&& c.base_url@ == base_url.unwrap()@
                &&& c.org@ == org.unwrap()@
                &&& c.token@ == token.unwrap()@
                &&& c.bucket@ == bucket.unwrap()@
            },
            base_url is None ==> r == Result::<Config, ConfigError>::Err(ConfigError::MissingUrl),
            base_url is Some && org is None ==> r == Result::<Config, ConfigError>::Err(
                ConfigError::MissingOrg,
            ),
            base_url is Some && org is Some && token is None ==> r == Result::<
                Config,
                ConfigError,
            >::Err(ConfigError::MissingToken),
            base_url is Some && org is Some && token is Some && bucket is None ==> r == Result::<
                Config,
                ConfigError,
            >::Err(ConfigError::MissingBucket),
    {
        let base_url = match base_url {
            Some(v) => v,
            None => {
                return Err(ConfigError::MissingUrl);
            },
        };
        let org = match org {
            Some(v) => v,
            None => {
                return Err(ConfigError::MissingOrg);
            },
        };
        let token = match token {
            Some(v) => v,
            None => {
                return Err(ConfigError::MissingToken);
            },
        };
        let bucket = match bucket {
            Some(v) => v,
            None => {
                return Err(ConfigError::MissingBucket);
            },
        };
        Ok(Config { base_url, org, token, bucket })
    }
}

/// The bytes of "/api/v2/write?org=".
pub open spec fn spec_api_path() -> Seq<u8> {
    seq![
        47u8, 97u8, 112u8, 105u8, 47u8, 118u8, 50u8, 47u8, 119u8, 114u8, 105u8, 116u8, 101u8, 63u8,
        111u8, 114u8, 103u8, 61u8,
    ]
}

/// The bytes of "&bucket=".
pub open spec fn spec_bucket_param() -> Seq<u8> {
    seq![38u8, 98u8, 117u8, 99u8, 107u8, 101u8, 116u8, 61u8]
}

/// The write endpoint: the base URL, the fixed API path, and the
/// organization and bucket as query parameters.
pub open spec fn spec_write_url(c: Config) -> Seq<u8> {
    c.base_url@ + spec_api_path() + c.org@ + spec_bucket_param() + c.bucket@
}

/// Builds the write endpoint URL for this configuration.
pub fn write_url(c: &Config) -> (r: Vec<u8>)
    ensures
        r@ == spec_write_url(*c),
{
    let mut out: Vec<u8> = Vec::new();
    append_bytes(&mut out, &c.base_url);
    let path: Vec<u8> = vec![
        47u8, 97u8, 112u8, 105u8, 47u8, 118u8, 50u8, 47u8, 119u8, 114u8, 105u8, 116u8, 101u8, 63u8,
        111u8, 114u8, 103u8, 61u8,
    ];
    proof {
        assert(path@ =~= spec_api_path());
    }
    append_bytes(&mut out, &path);
    append_bytes(&mut out, &c.org);
    let param: Vec<u8> = vec![38u8, 98u8, 117u8, 99u8, 107u8, 101u8, 116u8, 61u8];
    proof {
        assert(param@ =~= spec_bucket_param());
    }
    append_bytes(&mut out, &param);
    append_bytes(&mut out, &c.bucket);
    proof {
        assert(out@ =~= spec_write_url(*c));
    }
    out
}

/// One HTTP write, fully determined: the URL to post to, the bearer
/// token for the authorization header, and the line-format body, which
/// travels with content type `text/plain`.
#[derive(Debug)]
pub struct WriteRequest {
    pub url: Vec<u8>,
    pub token: Vec<u8>,
    pub body: Vec<u8>,
}

impl WriteRequest {
    /// Assembles the one request a round of measurements gives rise to.
    pub fn assemble(c: &Config, body: Vec<u8>) -> (r: WriteRequest)
        ensures
            r.url@ == spec_write_url(*c),
            r.token@ == c.token@,
            r.body@ == body@,
    {
        let mut token: Vec<u8> = Vec::new();
        append_bytes(&mut token, &c.token);
        WriteRequest { url: write_url(c), token, body }
    }
}

} // verus!
