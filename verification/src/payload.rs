use vstd::prelude::*;
use vstd::string::*;
use crate::error::Error;
use crate::numbers::digit_char;

verus! {

/// Lowercase hexadecimal digit character for `d`, meaningful for 0 <= d <= 15.
pub open spec fn hex_digit(d: int) -> char {
    if d < 10 {
        digit_char(d)
    } else {
        ((87 + d) as u8) as char
    }
}

/// How one character is written inside a JSON string: quote and backslash get
/// a backslash escape, the named control characters their short escapes, the
/// remaining control characters a `\u00xx` escape, and everything else stands
/// as itself.
pub open spec fn json_escape_char(c: char) -> Seq<char> {
    if c == '"' {
        seq!['\\', '"']
    } else if c == '\\' {
        seq!['\\', '\\']
    } else if c == '\u{8}' {
        seq!['\\', 'b']
    } else if c == '\t' {
        seq!['\\', 't']
    } else if c == '\n' {
        seq!['\\', 'n']
    } else if c == '\u{c}' {
        seq!['\\', 'f']
    } else if c == '\r' {
        seq!['\\', 'r']
    } else if (c as u32) < 32 {
        seq!['\\', 'u', '0', '0', hex_digit((c as int) / 16), hex_digit((c as int) % 16)]
    } else {
        seq![c]
    }
}

/// A whole string with every character escaped as JSON demands.
pub open spec fn json_escape(s: Seq<char>) -> Seq<char>
    decreases s.len(),
{
    if s.len() == 0 {
        Seq::empty()
    } else {
        json_escape(s.drop_last()) + json_escape_char(s.last())
    }
}

/// The webhook wire format: a JSON object with the single field `text`.
pub open spec fn spec_payload(text: Seq<char>) -> Seq<char> {
    "{\"text\":\""@ + json_escape(text) + "\"}"@
}

fn hex_digit_x(d: u8) -> (c: char)
    requires
        d < 16,
    ensures
        c == hex_digit(d as int),
{
    if d < 10 {
        (48 + d) as char
    } else {
        (87 + d) as char
    }
}

fn push_json_escaped(src: &str, out: &mut String)
    ensures
        final(out)@ == old(out)@ + json_escape(src@),
{
    let n = src.unicode_len();
    let mut i: usize = 0;
    while i < n
        invariant
            i <= n,
            n == src@.len(),
            out@ == old(out)@ + json_escape(src@.subrange(0, i as int)),
        decreases n - i,
    {
        let c = src.get_char(i);
        if c == '"' {
            out.push('\\');
            out.push('"');
        } else if c == '\\' {
            out.push('\\');
            out.push('\\');
        } else if c == '\u{8}' {
            out.push('\\');
            out.push('b');
        } else if c == '\t' {
            out.push('\\');
            out.push('t');
        } else if c == '\n' {
            out.push('\\');
            out.push('n');
        } else if c == '\u{c}' {
            out.push('\\');
            out.push('f');
        } else if c == '\r' {
            out.push('\\');
            out.push('r');
        } else {
            let v = c as u32;
            if v < 32 {
                out.push('\\');
                out.push('u');
                out.push('0');
                out.push('0');
                let hi = hex_digit_x((v / 16) as u8);
                out.push(hi);
                let lo = hex_digit_x((v % 16) as u8);
                out.push(lo);
            } else {
                out.push(c);
            }
        }
        proof {
            let pre = src@.subrange(0, i as int);
            let cur = src@.subrange(0, i + 1 as int);
            assert(cur.drop_last() =~= pre);
            assert(cur.last() == src@[i as int]);
            assert(out@ =~= old(out)@ + json_escape(cur));
        }
        i += 1;
    }
    proof {
        assert(src@.subrange(0, n as int) =~= src@);
    }
}

/// The webhook payload: the message wrapped into the object the endpoint
/// accepts, `{"text": ...}`.
pub struct WebhookPayload {
    text: String,
}

impl WebhookPayload {
    /// Serializes the message into the webhook wire format. Encoding a
    /// well-formed string cannot fail, so the result is always `Ok`.
    pub fn create(message: &str) -> (r: Result<String, Error>)
        ensures
            r matches Ok(t) && t@ == spec_payload(message@),
    {
        let p = WebhookPayload { text: String::from_str(message) };
        Ok(p.encode())
    }

    fn encode(&self) -> (r: String)
        ensures
            r@ == spec_payload(self.text@),
    {
        let mut out = String::from_str("{\"text\":\"");
        push_json_escaped(self.text.as_str(), &mut out);
        out.append("\"}");
        proof {
            assert(out@ =~= spec_payload(self.text@));
        }
        out
    }
}

} // verus!
