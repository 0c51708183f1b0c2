use vstd::prelude::*;
use vstd::string::*;
use crate::numbers::{spec_uint_str, u64_to_string};

verus! {

/// The tool's directory under the user's home directory.
pub fn get_config_dir(home: &str) -> (r: String)
    ensures
        r@ == home@ + "/.config/pesn"@,
{
    let mut s = String::from_str(home);
    s.append("/.config/pesn");
    s
}

/// The tool's config file path under the user's home directory.
pub fn get_config_file(home: &str) -> (r: String)
    ensures
        r@ == home@ + "/.config/pesn/config.yml"@,
{
    let mut s = get_config_dir(home);
    s.append("/config.yml");
    proof {
        reveal_strlit("/.config/pesn");
        reveal_strlit("/config.yml");
        reveal_strlit("/.config/pesn/config.yml");
        assert(s@ =~= home@ + "/.config/pesn/config.yml"@);
    }
    s
}

/// The directory that holds one record file per watched pid.
pub fn get_pid_json_dir(home: &str) -> (r: String)
    ensures
        r@ == home@ + "/.config/pesn/pids"@,
{
    let mut s = get_config_dir(home);
    s.append("/pids");
    proof {
        reveal_strlit("/.config/pesn");
        reveal_strlit("/pids");
        reveal_strlit("/.config/pesn/pids");
        assert(s@ =~= home@ + "/.config/pesn/pids"@);
    }
    s
}

/// The record file path for one watched pid.
pub fn get_pid_json_file(home: &str, pid: u32) -> (r: String)
    ensures
        r@ == home@ + "/.config/pesn/pids/"@ + spec_uint_str(pid as int) + ".json"@,
{
    let mut s = get_pid_json_dir(home);
    s.push('/');
    let num = u64_to_string(pid as u64);
    s.append(num.as_str());
    s.append(".json");
    proof {
        reveal_strlit("/.config/pesn/pids");
        reveal_strlit("/.config/pesn/pids/");
        assert(s@ =~= home@ + "/.config/pesn/pids/"@ + spec_uint_str(pid as int) + ".json"@);
    }
    s
}

} // verus!
