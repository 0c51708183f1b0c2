use vstd::prelude::*;
use vstd::string::*;
use crate::error::Error;

verus! {

/// Relies on std's char::from_u32: yields the character with scalar value `v`
/// when `v` is a valid Unicode scalar value, and `None` for surrogate values
/// and values above the Unicode range.
pub assume_specification[ char::from_u32 ](v: u32) -> (r: Option<char>)
    ensures
        r is None <==> (0xD800 <= v < 0xE000 || v > 0x10FFFF),
        r matches Some(c) ==> c as u32 == v && c == v as char,
;

pub open spec fn is_ws(c: char) -> bool {
    c == ' ' || c == '\t' || c == '\n' || c == '\r'
}

/// First position at or after `i` that does not hold whitespace.
pub open spec fn skip_ws(s: Seq<char>, i: int) -> int
    decreases s.len() - i,
{
    if 0 <= i < s.len() && is_ws(s[i]) {
        skip_ws(s, i + 1)
    } else {
        i
    }
}

/// The character a single-character escape stands for, if the escape exists.
pub open spec fn short_escape(e: char) -> Option<char> {
    if e == '"' {
        Some('"')
    } else if e == '\\' {
        Some('\\')
    } else if e == '/' {
        Some('/')
    } else if e == 'b' {
        Some('\u{8}')
    } else if e == 'f' {
        Some('\u{c}')
    } else if e == 'n' {
        Some('\n')
    } else if e == 'r' {
        Some('\r')
    } else if e == 't' {
        Some('\t')
    } else {
        None
    }
}

pub open spec fn is_hex(c: char) -> bool {
    48 <= (c as int) <= 57 || 97 <= (c as int) <= 102 || 65 <= (c as int) <= 70
}

pub open spec fn hex_val(c: char) -> int {
    if 48 <= (c as int) <= 57 {
        (c as int) - 48
    } else if 97 <= (c as int) <= 102 {
        (c as int) - 87
    } else {
        (c as int) - 55
    }
}

/// Parses the remainder of a JSON string whose opening quote stands just
/// before `i`: yields the decoded content and the position after the closing
/// quote. `\uXXXX` escapes for surrogate values are rejected.
pub open spec fn parse_string_body(s: Seq<char>, i: int) -> Option<(Seq<char>, int)>
    decreases s.len() - i,
{
    if !(0 <= i < s.len()) {
        None
    } else if s[i] == '"' {
        Some((Seq::empty(), i + 1))
    } else if s[i] == '\\' {
        if i + 1 >= s.len() {
            None
        } else if s[i + 1] == 'u' {
            if i + 6 <= s.len() && is_hex(s[i + 2]) && is_hex(s[i + 3]) && is_hex(s[i + 4])
                && is_hex(s[i + 5]) {
                let v = hex_val(s[i + 2]) * 4096 + hex_val(s[i + 3]) * 256 + hex_val(s[i + 4]) * 16
                    + hex_val(s[i + 5]);
                if 0xD800 <= v < 0xE000 {
                    None
                } else {
                    match parse_string_body(s, i + 6) {
                        Some((rest, j)) => Some((seq![v as char] + rest, j)),
                        None => None,
                    }
                }
            } else {
                None
            }
        } else {
            match short_escape(s[i + 1]) {
                Some(c) => match parse_string_body(s, i + 2) {
                    Some((rest, j)) => Some((seq![c] + rest, j)),
                    None => None,
                },
                None => None,
            }
        }
    } else if (s[i] as int) < 32 {
        None
    } else {
        match parse_string_body(s, i + 1) {
            Some((rest, j)) => Some((seq![s[i]] + rest, j)),
            None => None,
        }
    }
}

proof fn lemma_skip_ws_bounds(s: Seq<char>, i: int)
    requires
        0 <= i <= s.len(),
    ensures
        i <= skip_ws(s, i) <= s.len(),
    decreases s.len() - i,
{
    if i < s.len() && is_ws(s[i]) {
        lemma_skip_ws_bounds(s, i + 1);
    }
}

proof fn lemma_parse_string_body_advances(s: Seq<char>, i: int)
    requires
        0 <= i,
    ensures
        parse_string_body(s, i) matches Some(cj) ==> i < cj.1 <= s.len(),
    decreases s.len() - i,
{
    if 0 <= i < s.len() {
        if s[i] == '\\' {
            if i + 1 < s.len() {
                if s[i + 1] == 'u' {
                    if i + 6 <= s.len() {
                        lemma_parse_string_body_advances(s, i + 6);
                    }
                } else {
                    lemma_parse_string_body_advances(s, i + 2);
                }
            }
        } else {
            lemma_parse_string_body_advances(s, i + 1);
        }
    }
}

/// Parses one `"key": "value"` member and all that follow it, up to and
/// including the object's closing brace.
pub open spec fn parse_members(s: Seq<char>, i: int) -> Option<
    (Seq<(Seq<char>, Seq<char>)>, int),
>
    decreases s.len() - i,
    when 0 <= i <= s.len()
    via parse_members_dec
{
    let j = skip_ws(s, i);
    if j < s.len() && s[j] == '"' {
        match parse_string_body(s, j + 1) {
            Some((key, j2)) => {
                let j3 = skip_ws(s, j2);
                if j3 < s.len() && s[j3] == ':' {
                    let j4 = skip_ws(s, j3 + 1);
                    if j4 < s.len() && s[j4] == '"' {
                        match parse_string_body(s, j4 + 1) {
                            Some((val, j5)) => {
                                let j6 = skip_ws(s, j5);
                                if j6 < s.len() && s[j6] == ',' {
                                    match parse_members(s, j6 + 1) {
                                        Some((rest, j7)) => Some(
                                            (seq![(key, val)] + rest, j7),
                                        ),
                                        None => None,
                                    }
                                } else if j6 < s.len() && s[j6] == '}' {
                                    Some((seq![(key, val)], j6 + 1))
                                } else {
                                    None
                                }
                            },
                            None => None,
                        }
                    } else {
                        None
                    }
                } else {
                    None
                }
            },
            None => None,
        }
    } else {
        None
    }
}

#[via_fn]
proof fn parse_members_dec(s: Seq<char>, i: int) {
    lemma_skip_ws_bounds(s, i);
    let j = skip_ws(s, i);
    if j < s.len() && s[j] == '"' {
        lemma_parse_string_body_advances(s, j + 1);
        match parse_string_body(s, j + 1) {
            Some((key, j2)) => {
                lemma_skip_ws_bounds(s, j2);
                let j3 = skip_ws(s, j2);
                if j3 < s.len() && s[j3] == ':' {
                    lemma_skip_ws_bounds(s, j3 + 1);
                    let j4 = skip_ws(s, j3 + 1);
                    if j4 < s.len() && s[j4] == '"' {
                        lemma_parse_string_body_advances(s, j4 + 1);
                        match parse_string_body(s, j4 + 1) {
                            Some((val, j5)) => {
                                lemma_skip_ws_bounds(s, j5);
                            },
                            None => {},
                        }
                    }
                }
            },
            None => {},
        }
    }
}

/// The members of the `webhook_urls` object, which may be empty, up to and
/// including its closing brace.
pub open spec fn parse_members_start(s: Seq<char>, i: int) -> Option<
    (Seq<(Seq<char>, Seq<char>)>, int),
> {
    let j = skip_ws(s, i);
    if j < s.len() && s[j] == '}' {
        Some((Seq::empty(), j + 1))
    } else {
        parse_members(s, i)
    }
}

/// The whole config file: a JSON object holding the single field
/// `webhook_urls`, whose value is an object of string-to-string members.
/// Yields the members in file order, or `None` when the text is malformed.
pub open spec fn spec_parse_config(s: Seq<char>) -> Option<Seq<(Seq<char>, Seq<char>)>> {
    let i = skip_ws(s, 0);
    if i < s.len() && s[i] == '{' {
        let j = skip_ws(s, i + 1);
        if j < s.len() && s[j] == '"' {
            match parse_string_body(s, j + 1) {
                Some((key, j2)) => {
                    if key == "webhook_urls"@ {
                        let j3 = skip_ws(s, j2);
                        if j3 < s.len() && s[j3] == ':' {
                            let j4 = skip_ws(s, j3 + 1);
                            if j4 < s.len() && s[j4] == '{' {
                                match parse_members_start(s, j4 + 1) {
                                    Some((pairs, j5)) => {
                                        let j6 = skip_ws(s, j5);
                                        if j6 < s.len() && s[j6] == '}' {
                                            if skip_ws(s, j6 + 1) == s.len() {
                                                Some(pairs)
                                            } else {
                                                None
                                            }
                                        } else {
                                            None
                                        }
                                    },
                                    None => None,
                                }
                            } else {
                                None
                            }
                        } else {
                            None
                        }
                    } else {
                        None
                    }
                },
                None => None,
            }
        } else {
            None
        }
    } else {
        None
    }
}

/// The URL stored under `key`, with a later member overriding an earlier one
/// that carries the same key.
pub open spec fn spec_lookup(pairs: Seq<(Seq<char>, Seq<char>)>, key: Seq<char>) -> Option<
    Seq<char>,
>
    decreases pairs.len(),
{
    if pairs.len() == 0 {
        None
    } else if pairs.last().0 == key {
        Some(pairs.last().1)
    } else {
        spec_lookup(pairs.drop_last(), key)
    }
}

/// The view of the stored pair list as a sequence of character sequences.
pub open spec fn pairs_view(v: Seq<(String, String)>) -> Seq<(Seq<char>, Seq<char>)> {
    v.map_values(|p: (String, String)| (p.0@, p.1@))
}

fn skip_ws_x(s: &str, i: usize) -> (r: usize)
    requires
        i <= s@.len(),
    ensures
        r as int == skip_ws(s@, i as int),
        i <= r <= s@.len(),
{
    let n = s.unicode_len();
    let mut j = i;
    loop
        invariant
            i <= j <= n,
            n == s@.len(),
            skip_ws(s@, i as int) == skip_ws(s@, j as int),
        ensures
            i <= j <= n,
            skip_ws(s@, i as int) == j as int,
        decreases n - j,
    {
        if j == n {
            break;
        }
        let c = s.get_char(j);
        if !(c == ' ' || c == '\t' || c == '\n' || c == '\r') {
            break;
        }
        j += 1;
    }
    j
}

fn hex_val_x(c: char) -> (r: u32)
    requires
        is_hex(c),
    ensures
        r == hex_val(c),
        r < 16,
{
    let v = c as u32;
    if v >= 97 {
        v - 87
    } else if v >= 65 {
        v - 55
    } else {
        v - 48
    }
}

/// Decodes the remainder of a JSON string starting at `i` (just past the
/// opening quote), appending the content to `out`; yields the position after
/// the closing quote.
fn parse_string_body_x(s: &str, i: usize, out: &mut String) -> (r: Option<usize>)
    requires
        i <= s@.len(),
    ensures
        parse_string_body(s@, i as int) is None ==> r is None,
        parse_string_body(s@, i as int) matches Some(cj) ==> r matches Some(j) && j as int == cj.1
            && i < j <= s@.len() && final(out)@ == old(out)@ + cj.0,
    decreases s@.len() - i,
{
    let n = s.unicode_len();
    if i >= n {
        return None;
    }
    let c = s.get_char(i);
    if c == '"' {
        proof {
            assert(old(out)@ + Seq::<char>::empty() =~= old(out)@);
        }
        return Some(i + 1);
    }
    if c == '\\' {
        if i + 1 >= n {
            return None;
        }
        let e = s.get_char(i + 1);
        if e == 'u' {
            if n - i < 6 {
                return None;
            }
            let h1 = s.get_char(i + 2);
            let h2 = s.get_char(i + 3);
            let h3 = s.get_char(i + 4);
            let h4 = s.get_char(i + 5);
            let hex_ok = {
                let a = h1 as u32;
                let b = h2 as u32;
                let cc = h3 as u32;
                let d = h4 as u32;
                (48 <= a && a <= 57 || 97 <= a && a <= 102 || 65 <= a && a <= 70) && (48 <= b && b
                    <= 57 || 97 <= b && b <= 102 || 65 <= b && b <= 70) && (48 <= cc && cc <= 57
                    || 97 <= cc && cc <= 102 || 65 <= cc && cc <= 70) && (48 <= d && d <= 57 || 97
                    <= d && d <= 102 || 65 <= d && d <= 70)
            };
            if !hex_ok {
                return None;
            }
            let v: u32 = hex_val_x(h1) * 4096 + hex_val_x(h2) * 256 + hex_val_x(h3) * 16
                + hex_val_x(h4);
            if 0xD800 <= v && v < 0xE000 {
                return None;
            }
            let decoded = match char::from_u32(v) {
                Some(d) => d,
                None => {
                    return None;
                },
            };
            out.push(decoded);
            let rest = parse_string_body_x(s, i + 6, out);
            match rest {
                Some(j) => {
                    proof {
                        let cj = parse_string_body(s@, i as int).unwrap();
                        assert(final(out)@ =~= old(out)@ + cj.0);
                    }
                    Some(j)
                },
                None => None,
            }
        } else {
            let decoded = if e == '"' {
                '"'
            } else if e == '\\' {
                '\\'
            } else if e == '/' {
                '/'
            } else if e == 'b' {
                '\u{8}'
            } else if e == 'f' {
                '\u{c}'
            } else if e == 'n' {
                '\n'
            } else if e == 'r' {
                '\r'
            } else if e == 't' {
                '\t'
            } else {
                return None;
            };
            out.push(decoded);
            let rest = parse_string_body_x(s, i + 2, out);
            match rest {
                Some(j) => {
                    proof {
                        let cj = parse_string_body(s@, i as int).unwrap();
                        assert(final(out)@ =~= old(out)@ + cj.0);
                    }
                    Some(j)
                },
                None => None,
            }
        }
    } else {
        let v = c as u32;
        if v < 32 {
            return None;
        }
        out.push(c);
        let rest = parse_string_body_x(s, i + 1, out);
        match rest {
            Some(j) => {
                proof {
                    let cj = parse_string_body(s@, i as int).unwrap();
                    assert(final(out)@ =~= old(out)@ + cj.0);
                }
                Some(j)
            },
            None => None,
        }
    }
}

fn parse_members_x(s: &str, i: usize, acc: &mut Vec<(String, String)>) -> (r: Option<usize>)
    requires
        i <= s@.len(),
    ensures
        parse_members(s@, i as int) is None ==> r is None,
        parse_members(s@, i as int) matches Some(pj) ==> r matches Some(j) && j as int == pj.1 && j
            <= s@.len() && pairs_view(final(acc)@) == pairs_view(old(acc)@) + pj.0,
    decreases s@.len() - i,
{
    let n = s.unicode_len();
    let j = skip_ws_x(s, i);
    if j >= n {
        return None;
    }
    if s.get_char(j) != '"' {
        return None;
    }
    let mut key = String::new();
    let j2 = match parse_string_body_x(s, j + 1, &mut key) {
        Some(j2) => j2,
        None => {
            return None;
        },
    };
    let j3 = skip_ws_x(s, j2);
    if j3 >= n {
        return None;
    }
    if s.get_char(j3) != ':' {
        return None;
    }
    let j4 = skip_ws_x(s, j3 + 1);
    if j4 >= n {
        return None;
    }
    if s.get_char(j4) != '"' {
        return None;
    }
    let mut val = String::new();
    let j5 = match parse_string_body_x(s, j4 + 1, &mut val) {
        Some(j5) => j5,
        None => {
            return None;
        },
    };
    let j6 = skip_ws_x(s, j5);
    let ghost spec_pair = (key@, val@);
    if j6 < n && s.get_char(j6) == ',' {
        acc.push((key, val));
        proof {
            assert(pairs_view(acc@) =~= pairs_view(old(acc)@).push(spec_pair));
        }
        let r = parse_members_x(s, j6 + 1, acc);
        match r {
            Some(j7) => {
                proof {
                    let pj = parse_members(s@, i as int).unwrap();
                    assert(pairs_view(final(acc)@) =~= pairs_view(old(acc)@) + pj.0);
                }
                Some(j7)
            },
            None => None,
        }
    } else if j6 < n && s.get_char(j6) == '}' {
        acc.push((key, val));
        proof {
            let pj = parse_members(s@, i as int).unwrap();
            assert(pairs_view(acc@) =~= pairs_view(old(acc)@) + pj.0);
        }
        Some(j6 + 1)
    } else {
        None
    }
}

/// The lookup table loaded from the user's config file: labels mapped to
/// webhook URLs, in file order.
pub struct ConfigFile {
    pub webhook_urls: Vec<(String, String)>,
}

impl ConfigFile {
    /// The table as a sequence of decoded key/value pairs.
    pub open spec fn pairs(&self) -> Seq<(Seq<char>, Seq<char>)> {
        pairs_view(self.webhook_urls@)
    }

    /// Parses the config file text. Succeeds exactly on text of the shape
    /// `{ "webhook_urls": { "label": "url", ... } }`.
    pub fn parse(text: &str) -> (r: Result<ConfigFile, Error>)
        ensures
            spec_parse_config(text@) is None ==> r == Err::<ConfigFile, Error>(Error::ConfigParse),
            spec_parse_config(text@) matches Some(pairs) ==> r matches Ok(cf) && cf.pairs()
                == pairs,
    {
        let n = text.unicode_len();
        let i = skip_ws_x(text, 0);
        if i >= n || text.get_char(i) != '{' {
            return Err(Error::ConfigParse);
        }
        let j = skip_ws_x(text, i + 1);
        if j >= n || text.get_char(j) != '"' {
            return Err(Error::ConfigParse);
        }
        let mut key = String::new();
        let j2 = match parse_string_body_x(text, j + 1, &mut key) {
            Some(j2) => j2,
            None => {
                return Err(Error::ConfigParse);
            },
        };
        let expected = String::from_str("webhook_urls");
        if !(key == expected) {
            return Err(Error::ConfigParse);
        }
        let j3 = skip_ws_x(text, j2);
        if j3 >= n || text.get_char(j3) != ':' {
            return Err(Error::ConfigParse);
        }
        let j4 = skip_ws_x(text, j3 + 1);
        if j4 >= n || text.get_char(j4) != '{' {
            return Err(Error::ConfigParse);
        }
        let mut urls: Vec<(String, String)> = Vec::new();
        let jin = skip_ws_x(text, j4 + 1);
        let j5: usize;
        if jin < n && text.get_char(jin) == '}' {
            j5 = jin + 1;
            proof {
                assert(pairs_view(urls@) =~= Seq::<(Seq<char>, Seq<char>)>::empty());
            }
        } else {
            j5 = match parse_members_x(text, j4 + 1, &mut urls) {
                Some(j5) => j5,
                None => {
                    return Err(Error::ConfigParse);
                },
            };
        }
        let j6 = skip_ws_x(text, j5);
        if j6 >= n || text.get_char(j6) != '}' {
            return Err(Error::ConfigParse);
        }
        if skip_ws_x(text, j6 + 1) != n {
            return Err(Error::ConfigParse);
        }
        Ok(ConfigFile { webhook_urls: urls })
    }

    /// Looks the destination key up in the table; a later member with the
    /// same key wins, as a map built from the members in order would give.
    pub fn lookup(&self, key: &str) -> (r: Option<String>)
        ensures
            spec_lookup(self.pairs(), key@) is None ==> r is None,
            spec_lookup(self.pairs(), key@) matches Some(v) ==> r matches Some(u) && u@ == v,
    {
        let k = String::from_str(key);
        let mut idx = self.webhook_urls.len();
        proof {
            assert(self.pairs().subrange(0, idx as int) =~= self.pairs());
        }
        while idx > 0
            invariant
                idx <= self.webhook_urls.len(),
                spec_lookup(self.pairs(), key@) == spec_lookup(
                    self.pairs().subrange(0, idx as int),
                    key@,
                ),
                k@ == key@,
            decreases idx,
        {
            let entry_key = &self.webhook_urls[idx - 1].0;
            if *entry_key == k {
                proof {
                    let taken = self.pairs().subrange(0, idx as int);
                    assert(taken.last() == self.pairs()[idx - 1]);
                }
                return Some(self.webhook_urls[idx - 1].1.clone());
            }
            proof {
                let taken = self.pairs().subrange(0, idx as int);
                assert(taken.drop_last() =~= self.pairs().subrange(0, idx - 1));
                assert(taken.last() == self.pairs()[idx - 1]);
            }
            idx -= 1;
        }
        proof {
            assert(self.pairs().subrange(0, 0) =~= Seq::<(Seq<char>, Seq<char>)>::empty());
        }
        None
    }
}

} // verus!
