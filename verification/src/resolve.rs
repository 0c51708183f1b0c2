use vstd::prelude::*;
use vstd::string::*;
use crate::config::{ConfigFile, spec_parse_config, spec_lookup};
use crate::destination::{is_destination_url, spec_is_destination_url};
use crate::error::Error;
use crate::pid::{parse_pid, spec_pid_ok, spec_pid_value};

verus! {

/// A fully resolved run configuration, built once per run and immutable
/// afterwards.
pub struct Configuration {
    pub webhook_url: String,
    pub pid: i32,
    pub interval_seconds: u64,
}

/// Turns the raw command-line tokens into a configuration. The pid token is
/// parsed first; then the destination token is taken literally when it is a
/// webhook URL, and otherwise looked up in the config file, whose text is
/// handed in when it was readable.
pub fn resolve_configuration(pid_token: &str, dest_token: &str, config_text: Option<&str>) -> (r:
    Result<Configuration, Error>)
    ensures
        !spec_pid_ok(pid_token@) ==> r == Err::<Configuration, Error>(Error::Argument),
        spec_pid_ok(pid_token@) && spec_is_destination_url(dest_token@) ==> (r matches Ok(c)
            && c.webhook_url@ == dest_token@ && c.pid == spec_pid_value(pid_token@)
            && c.interval_seconds == 60),
        spec_pid_ok(pid_token@) && !spec_is_destination_url(dest_token@) && config_text is None
            ==> r == Err::<Configuration, Error>(Error::ConfigRead),
        spec_pid_ok(pid_token@) && !spec_is_destination_url(dest_token@) ==> (config_text matches
            Some(t) ==> (spec_parse_config(t@) is None ==> r == Err::<Configuration, Error>(
            Error::ConfigParse,
        ))),
        spec_pid_ok(pid_token@) && !spec_is_destination_url(dest_token@) ==> (config_text matches
            Some(t) ==> (spec_parse_config(t@) matches Some(pairs) ==> (match spec_lookup(
            pairs,
            dest_token@,
        ) {
            None => r == Err::<Configuration, Error>(Error::ConfigLookup),
            Some(url) => r matches Ok(c) && c.webhook_url@ == url && c.pid == spec_pid_value(
                pid_token@,
            ) && c.interval_seconds == 60,
        }))),
{
    let pid = match parse_pid(pid_token) {
        Ok(p) => p,
        Err(e) => {
            return Err(e);
        },
    };
    let url: String;
    if is_destination_url(dest_token) {
        url = String::from_str(dest_token);
    } else {
        let text = match config_text {
            Some(t) => t,
            None => {
                return Err(Error::ConfigRead);
            },
        };
        let config = match ConfigFile::parse(text) {
            Ok(cf) => cf,
            Err(e) => {
                return Err(e);
            },
        };
        url = match config.lookup(dest_token) {
            Some(u) => u,
            None => {
                return Err(Error::ConfigLookup);
            },
        };
    }
    Ok(Configuration { webhook_url: url, pid, interval_seconds: 60 })
}

} // verus!
