//! The configuration snapshot. A snapshot is never changed once it is
//! made: each reload makes a new one.

use vstd::prelude::*;
use vstd::string::*;

verus! {

/// The run mode where the environment names none.
pub open spec fn default_run_mode() -> Seq<char> {
    "development"@
}

/// The run mode: the one that the environment names, `development`
/// without one.
pub fn run_mode(from_env: Option<String>) -> (mode: String)
    ensures
        mode@ == match from_env {
            Some(named) => named@,
            None => default_run_mode(),
        },
{
    match from_env {
        Some(named) => named,
        None => String::from_str("development"),
    }
}

/// A directory of the project: the one that the platform assigns, the
/// relative directory `fallback` where it assigns none.
pub fn project_dir(assigned: Option<String>, fallback: &str) -> (dir: String)
    ensures
        dir@ == match assigned {
            Some(found) => found@,
            None => fallback@,
        },
{
    match assigned {
        Some(found) => found,
        None => String::from_str(fallback),
    }
}

/// The name of the log file of the application `appname`.
pub fn log_file_name(appname: &str) -> (name: String)
    ensures
        name@ == appname@ + ".log"@,
{
    String::from_str(appname).concat(".log")
}

/// The configuration files of a run, in the order in which they are read,
/// each later one overriding the earlier: the defaults, the file of the
/// run mode, and the local file.
pub open spec fn config_files_spec(config_dir: Seq<char>, run_mode: Seq<char>) -> Seq<Seq<char>> {
    seq![
        config_dir + "/default.toml"@,
        config_dir + "/"@ + run_mode + ".toml"@,
        config_dir + "/local.toml"@,
    ]
}

/// The configuration files of a run. See `config_files_spec`.
pub fn config_files(config_dir: &str, run_mode: &str) -> (files: Vec<String>)
    ensures
        files@.len() == 3,
        forall|i: int| 0 <= i < 3 ==> (#[trigger] files@[i])@ == config_files_spec(
            config_dir@,
            run_mode@,
        )[i],
{
    let mut files: Vec<String> = Vec::new();
    files.push(String::from_str(config_dir).concat("/default.toml"));
    files.push(String::from_str(config_dir).concat("/").concat(run_mode).concat(".toml"));
    files.push(String::from_str(config_dir).concat("/local.toml"));
    files
}

#[derive(Debug)]
pub struct Global {
    pub config_dir: String,
    pub data_dir: String,
    pub log_file: String,
    pub run_mode: String,
}

#[derive(Debug)]
pub struct Mud {
    pub hostname: String,
    pub bind_ip: String,
    pub port: u16,
    pub name: String,
    pub wizlocked: bool,
    pub wizlock_reason: String,
    pub aws_region: String,
    pub aws_profile: String,
}

#[derive(Debug)]
pub struct DynamoDb {
    pub endpoint: String,
    pub use_ssl: bool,
}

#[derive(Debug)]
pub struct Redis {
    pub host: String,
    pub port: u16,
}

#[derive(Debug)]
pub struct Encryption {
    pub endpoint: String,
    pub use_ssl: bool,
}

#[derive(Debug)]
pub struct Email {
    pub mocked: bool,
    pub domain: String,
    pub admin: String,
    pub endpoint: String,
    pub use_ssl: bool,
}

#[derive(Debug)]
pub struct Settings {
    pub debug: bool,
    pub global: Global,
    pub mud: Mud,
    pub dynamodb: DynamoDb,
    pub redis: Redis,
    pub encryption: Encryption,
    pub email: Email,
}

impl Clone for Global {
    fn clone(&self) -> (copy: Global)
        ensures
            copy == *self,
    {
        Global {
            config_dir: self.config_dir.clone(),
            data_dir: self.data_dir.clone(),
            log_file: self.log_file.clone(),
            run_mode: self.run_mode.clone(),
        }
    }
}

impl Clone for Mud {
    fn clone(&self) -> (copy: Mud)
        ensures
            copy == *self,
    {
        Mud {
            hostname: self.hostname.clone(),
            bind_ip: self.bind_ip.clone(),
            port: self.port,
            name: self.name.clone(),
            wizlocked: self.wizlocked,
            wizlock_reason: self.wizlock_reason.clone(),
            aws_region: self.aws_region.clone(),
            aws_profile: self.aws_profile.clone(),
        }
    }
}

impl Clone for DynamoDb {
    fn clone(&self) -> (copy: DynamoDb)
        ensures
            copy == *self,
    {
        DynamoDb { endpoint: self.endpoint.clone(), use_ssl: self.use_ssl }
    }
}

impl Clone for Redis {
    fn clone(&self) -> (copy: Redis)
        ensures
            copy == *self,
    {
        Redis { host: self.host.clone(), port: self.port }
    }
}

impl Clone for Encryption {
    fn clone(&self) -> (copy: Encryption)
        ensures
            copy == *self,
    {
        Encryption { endpoint: self.endpoint.clone(), use_ssl: self.use_ssl }
    }
}

impl Clone for Email {
    fn clone(&self) -> (copy: Email)
        ensures
            copy == *self,
    {
        Email {
            mocked: self.mocked,
            domain: self.domain.clone(),
            admin: self.admin.clone(),
            endpoint: self.endpoint.clone(),
            use_ssl: self.use_ssl,
        }
    }
}

impl Clone for Settings {
    fn clone(&self) -> (copy: Settings)
        ensures
            copy == *self,
    {
        Settings {
            debug: self.debug,
            global: self.global.clone(),
            mud: self.mud.clone(),
            dynamodb: self.dynamodb.clone(),
            redis: self.redis.clone(),
            encryption: self.encryption.clone(),
            email: self.email.clone(),
        }
    }
}

impl Settings {
    /// Whether a listener made for `self` serves `bind_ip` and `port` as
    /// well: whether these are the address and port that `self` binds.
    pub open spec fn binds(&self, bind_ip: Seq<char>, port: u16) -> bool {
        self.mud.bind_ip@ == bind_ip && self.mud.port == port
    }

    /// Whether `self` binds the address `bind_ip` and the port `port`.
    pub fn listens_on(&self, bind_ip: &String, port: u16) -> (same: bool)
        ensures
            same == self.binds(bind_ip@, port),
    {
        self.mud.bind_ip == *bind_ip && self.mud.port == port
    }
}

} // verus!
