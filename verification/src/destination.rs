use vstd::prelude::*;
use vstd::string::*;

verus! {

/// The literal prefix that marks a destination as a webhook URL.
pub open spec fn webhook_prefix() -> Seq<char> {
    "https://hooks.slack.com/services"@
}

/// A destination string is taken as a literal webhook URL exactly when it is
/// at least 32 characters long and its first 32 characters are the prefix.
pub open spec fn spec_is_destination_url(s: Seq<char>) -> bool {
    s.len() >= 32 && s.subrange(0, 32) == webhook_prefix()
}

/// Decides whether the destination token is a literal webhook URL or a key to
/// look up in the config file.
pub fn is_destination_url(dest: &str) -> (r: bool)
    ensures
        r == spec_is_destination_url(dest@),
{
    proof {
        reveal_strlit("https://hooks.slack.com/services");
    }
    let prefix: &str = "https://hooks.slack.com/services";
    let len = dest.unicode_len();
    if len < 32 {
        return false;
    }
    let mut i: usize = 0;
    while i < 32
        invariant
            i <= 32,
            32 <= dest@.len(),
            prefix@ == webhook_prefix(),
            prefix@.len() == 32,
            forall|j: int| 0 <= j < i ==> dest@[j] == webhook_prefix()[j],
        decreases 32 - i,
    {
        if dest.get_char(i) != prefix.get_char(i) {
            proof {
                assert(dest@.subrange(0, 32)[i as int] != webhook_prefix()[i as int]);
            }
            return false;
        }
        i += 1;
    }
    proof {
        assert(dest@.subrange(0, 32) =~= webhook_prefix());
    }
    true
}

} // verus!
