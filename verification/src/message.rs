use vstd::prelude::*;
use vstd::string::*;
use crate::numbers::{spec_int_str, i32_to_string};
use crate::datetime::{
    spec_format_timestamp,
    spec_duration_str,
    format_timestamp,
    format_duration,
};

verus! {

/// The notification text for a monitored process: a start message when `end`
/// is absent, an end message with a duration line when it is present.
pub open spec fn spec_message(pid: int, cmd: Seq<char>, start: int, end: Option<int>) -> Seq<char> {
    (if end is Some {
        "End (Monitoring) Process"@
    } else {
        "Start (Monitoring) Process"@
    }) + seq!['\n'] + "- Pid: `"@ + spec_int_str(pid) + seq!['`', '\n'] + "- Cmd: `"@ + cmd + seq![
        '`',
        '\n',
    ] + "- Start: `"@ + spec_format_timestamp(start) + seq!['`'] + (match end {
        Some(e) => seq!['\n'] + "- End: `"@ + spec_format_timestamp(e) + seq!['`', '\n']
            + "- Duration: `"@ + spec_duration_str(e - start) + seq!['`'],
        None => Seq::empty(),
    })
}

/// Renders the start or end notification. The produced string is a function
/// of the arguments alone, so repeated calls on the same inputs yield
/// byte-identical messages.
pub fn create_message(pid: i32, cmd: &str, start: i64, end: Option<i64>) -> (r: String)
    requires
        0 <= start,
        end matches Some(e) ==> start <= e,
    ensures
        end is None ==> r@ == spec_message(pid as int, cmd@, start as int, None),
        end matches Some(e) ==> r@ == spec_message(pid as int, cmd@, start as int, Some(e as int)),
{
    let mut s = if end.is_some() {
        String::from_str("End (Monitoring) Process")
    } else {
        String::from_str("Start (Monitoring) Process")
    };
    s.push('\n');
    s.append("- Pid: `");
    let pid_str = i32_to_string(pid);
    s.append(pid_str.as_str());
    s.push('`');
    s.push('\n');
    s.append("- Cmd: `");
    s.append(cmd);
    s.push('`');
    s.push('\n');
    s.append("- Start: `");
    let start_str = format_timestamp(start);
    s.append(start_str.as_str());
    s.push('`');
    match end {
        None => {
            proof {
                assert(s@ =~= spec_message(pid as int, cmd@, start as int, None));
            }
        },
        Some(e) => {
            s.push('\n');
            s.append("- End: `");
            let end_str = format_timestamp(e);
            s.append(end_str.as_str());
            s.push('`');
            s.push('\n');
            s.append("- Duration: `");
            let dur_str = format_duration(e - start);
            s.append(dur_str.as_str());
            s.push('`');
            proof {
                assert(s@ =~= spec_message(pid as int, cmd@, start as int, Some(e as int)));
            }
        },
    }
    s
}

} // verus!
