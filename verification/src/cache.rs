//! The cache blob: a JSON object carrying the access token, the validity
//! window in seconds, the RFC 3339 expiry, the nullable refresh token and the
//! space-joined scope string. String values are escaped as JSON demands, so
//! every token string can be written. Writing and reading are verified
//! against one spec of the rendering, and reading back a written token
//! recovers it.
use vstd::prelude::*;
use vstd::string::StrSliceExecFns;
use vstd::string::StringExecFns;

use crate::ClientError;
use crate::ClientResult;
use crate::clock::MAX_CACHED_INSTANT;
use crate::clock::MIN_CACHED_INSTANT;
use crate::clock::format_rfc3339;
use crate::clock::parse_rfc3339;
use crate::clock::spec_parse_rfc3339;
use crate::clock::spec_rfc3339;
use crate::text::eat_lit;
use crate::text::char_from_u32;
use crate::text::hex_str;
use crate::text::hex_val;
use crate::text::lemma_hex_char_val;
use crate::text::spec_hex_char;
use crate::text::spec_hex_val;
use crate::text::spec_is_hex_digit;
use crate::text::string_from_chars;
use crate::text::parse_u64;
use crate::text::spec_digits;
use crate::text::spec_digit_run_end;
use crate::text::spec_digits_val;
use crate::text::spec_has_at;
use crate::text::spec_is_digit;
use crate::text::spec_join;
use crate::text::spec_json_safe_char;
use crate::text::spec_parse_u64;
use crate::text::spec_split;
use crate::text::u64_to_string;
use crate::text::lemma_digits_roundtrip;
use crate::text::lemma_digit_run_unique;
use crate::token::Token;

verus! {

/// The rendering of one character inside a JSON string: itself when it
/// needs no escape, and the six-character `\u00..` escape otherwise — the
/// characters needing one (quote, backslash, controls) all lie below 0x100.
pub open spec fn spec_escape_char(c: char) -> Seq<char> {
    if spec_json_safe_char(c) {
        seq![c]
    } else {
        seq!['\\', 'u', '0', '0', spec_hex_char(((c as u32) / 16) as int), spec_hex_char(
            ((c as u32) % 16) as int,
        )]
    }
}

/// The escaped rendering of a string value.
pub open spec fn spec_escape(s: Seq<char>) -> Seq<char>
    decreases s.len(),
{
    if s.len() == 0 {
        Seq::empty()
    } else {
        spec_escape_char(s[0]) + spec_escape(s.drop_first())
    }
}

/// Escapes a string value for the blob, matching [`spec_escape`].
pub fn escape_str(s: &str) -> (r: String)
    ensures
        r@ == spec_escape(s@),
{
    proof {
        reveal_strlit("\\u00");
    }
    let len = s.unicode_len();
    let mut r = String::new();
    let mut i: usize = 0;
    proof {
        assert(s@.skip(0) =~= s@);
        assert(r@ + spec_escape(s@) =~= spec_escape(s@));
    }
    while i < len
        invariant
            0 <= i <= len,
            len == s@.len(),
            spec_escape(s@) =~= r@ + spec_escape(s@.skip(i as int)),
        decreases len - i,
    {
        let ghost tail = s@.skip(i as int);
        proof {
            assert(tail[0] == s@[i as int]);
            assert(tail.drop_first() =~= s@.skip(i + 1));
        }
        let ghost pre = r@;
        let c = s.get_char(i);
        if c == '"' || c == '\\' || (c as u32) < 0x20 {
            proof {
                reveal_strlit("\\u00");
            }
            let cu = c as u32;
            r.append("\\u00");
            r.append(hex_str(cu / 16));
            r.append(hex_str(cu % 16));
            proof {
                assert("\\u00"@ =~= seq!['\\', 'u', '0', '0']);
                assert(r@ =~= pre + spec_escape_char(c));
            }
        } else {
            r.append(s.substring_char(i, i + 1));
            proof {
                assert(s@.subrange(i as int, i + 1) =~= seq![s@[i as int]]);
                assert(spec_escape_char(c) =~= seq![c]);
                assert(r@ =~= pre + spec_escape_char(c));
            }
        }
        proof {
            assert(spec_escape(tail) =~= spec_escape_char(tail[0]) + spec_escape(
                tail.drop_first(),
            ));
            assert(spec_escape(s@) =~= r@ + spec_escape(s@.skip(i + 1)));
        }
        i += 1;
    }
    proof {
        assert(s@.skip(len as int) =~= Seq::<char>::empty());
        assert(spec_escape(Seq::<char>::empty()) =~= Seq::<char>::empty());
        assert(r@ + Seq::<char>::empty() =~= r@);
    }
    r
}

/// A string value as it stands in the blob: quoted and escaped, or the
/// keyword `null`.
pub open spec fn spec_quoted(v: Option<Seq<char>>) -> Seq<char> {
    match v {
        Some(w) => seq!['"'] + (spec_escape(w) + seq!['"']),
        None => "null"@,
    }
}

/// The canonical rendering of a signed decimal.
pub open spec fn spec_int_digits(n: int) -> Seq<char> {
    if n < 0 {
        seq!['-'] + spec_digits((-n) as nat)
    } else {
        spec_digits(n as nat)
    }
}

/// The rendering of the cache blob from its five parts; `at_iso` is the
/// RFC 3339 rendering of the expiry, if there is one; the string parts
/// stand escaped.
pub open spec fn spec_cache_json(
    access: Seq<char>,
    ein: int,
    at_iso: Option<Seq<char>>,
    refresh: Option<Seq<char>>,
    scope_raw: Seq<char>,
) -> Seq<char> {
    "{\"access_token\":\""@ + (spec_escape(access) + ("\",\"expires_in\":"@ + (spec_int_digits(
        ein,
    ) + (",\"expires_at\":"@ + (spec_quoted(at_iso) + (",\"refresh_token\":"@ + (spec_quoted(
        refresh,
    ) + (",\"scope\":\""@ + (spec_escape(scope_raw) + "\"}"@)))))))))
}

/// Consuming `lit` at `from`: the position just past it, if it is there.
pub open spec fn spec_eat(s: Seq<char>, from: int, lit: Seq<char>) -> Option<int> {
    if spec_has_at(s, from, lit) {
        Some(from + lit.len())
    } else {
        None
    }
}

/// The decoded character of a `\u00..` escape.
pub open spec fn spec_hex_decoded(h1: char, h2: char) -> char {
    (((spec_hex_val(h1) * 16 + spec_hex_val(h2)) as u32) as char)
}

/// Reads a string value from `from` up to its closing quote, decoding the
/// `\u00..` escapes: the decoded value and the position of the quote.
/// Fails on a character that the writer would have escaped, on a malformed
/// or non-canonical escape, and on a missing quote.
pub open spec fn spec_scan_string(s: Seq<char>, from: int) -> Option<(Seq<char>, int)>
    decreases s.len() - from,
{
    if from < 0 || from >= s.len() {
        None
    } else if s[from] == '"' {
        Some((Seq::empty(), from))
    } else if s[from] == '\\' {
        if from + 6 <= s.len() && s[from + 1] == 'u' && s[from + 2] == '0' && s[from + 3] == '0'
            && spec_is_hex_digit(s[from + 4]) && spec_is_hex_digit(s[from + 5])
            && !spec_json_safe_char(spec_hex_decoded(s[from + 4], s[from + 5])) {
            match spec_scan_string(s, from + 6) {
                Some(p) => Some((seq![spec_hex_decoded(s[from + 4], s[from + 5])] + p.0, p.1)),
                None => None,
            }
        } else {
            None
        }
    } else if spec_json_safe_char(s[from]) {
        match spec_scan_string(s, from + 1) {
            Some(p) => Some((seq![s[from]] + p.0, p.1)),
            None => None,
        }
    } else {
        None
    }
}

/// A quoted string value or `null` at `from`: the decoded value and the
/// position just past it.
pub open spec fn spec_parse_quoted(s: Seq<char>, from: int) -> Option<(Option<Seq<char>>, int)> {
    if spec_has_at(s, from, "null"@) {
        Some((None, from + "null"@.len()))
    } else if from < s.len() && s[from] == '"' {
        match spec_scan_string(s, from + 1) {
            Some((v, end)) => Some((Some(v), end + 1)),
            None => None,
        }
    } else {
        None
    }
}

/// The parse of a whole cache blob: the five parts, or `None` for anything
/// that is not a rendering this module writes.
pub open spec fn spec_parse_cache(s: Seq<char>) -> Option<
    (Seq<char>, int, Option<int>, Option<Seq<char>>, Seq<char>),
> {
    match spec_eat(s, 0, "{\"access_token\":\""@) {
        None => None,
        Some(i1) => match spec_scan_string(s, i1) {
            None => None,
            Some((access, e1)) => match spec_eat(s, e1, "\",\"expires_in\":"@) {
                None => None,
                Some(i2) => {
                    let neg = i2 < s.len() && s[i2] == '-';
                    let dstart = if neg {
                        i2 + 1
                    } else {
                        i2
                    };
                    match spec_parse_u64(s, dstart) {
                        None => None,
                        Some((v, e2)) => {
                            if (neg && (v < 1 || v > 0x8000000000000000)) || (!neg && v
                                > i64::MAX) {
                                None
                            } else {
                                let ein: int = if neg {
                                    -v
                                } else {
                                    v
                                };
                                match spec_eat(s, e2, ",\"expires_at\":"@) {
                                    None => None,
                                    Some(i3) => match spec_parse_quoted(s, i3) {
                                        None => None,
                                        Some((iso, e3)) => {
                                            let at = match iso {
                                                None => Some(None::<int>),
                                                Some(w) => match spec_parse_rfc3339(w) {
                                                    Some(ts) => if MIN_CACHED_INSTANT <= ts
                                                        <= MAX_CACHED_INSTANT {
                                                        Some(Some(ts))
                                                    } else {
                                                        None
                                                    },
                                                    None => None,
                                                },
                                            };
                                            match at {
                                                None => None,
                                                Some(at) => match spec_eat(
                                                    s,
                                                    e3,
                                                    ",\"refresh_token\":"@,
                                                ) {
                                                    None => None,
                                                    Some(i4) => match spec_parse_quoted(s, i4) {
                                                        None => None,
                                                        Some((rt, e4)) => match spec_eat(
                                                            s,
                                                            e4,
                                                            ",\"scope\":\""@,
                                                        ) {
                                                            None => None,
                                                            Some(i5) => match spec_scan_string(
                                                                s,
                                                                i5,
                                                            ) {
                                                                None => None,
                                                                Some((scope_raw, e5)) => match
                                                                    spec_eat(s, e5, "\"}"@) {
                                                                    None => None,
                                                                    Some(i6) => if i6 == s.len() {
                                                                        Some(
                                                                            (
                                                                                access,
                                                                                ein,
                                                                                at,
                                                                                rt,
                                                                                scope_raw,
                                                                            ),
                                                                        )
                                                                    } else {
                                                                        None
                                                                    },
                                                                },
                                                            },
                                                        },
                                                    },
                                                },
                                            }
                                        },
                                    },
                                }
                            }
                        },
                    }
                },
            },
        },
    }
}

// ---------------------------------------------------------------------------
// Executable codec
// ---------------------------------------------------------------------------

/// Reads a string value up to its closing quote, decoding escapes, per
/// [`spec_scan_string`].
fn scan_string(s: &str, from: usize) -> (r: Option<(String, usize)>)
    requires
        from <= s@.len(),
    ensures
        (match (r, spec_scan_string(s@, from as int)) {
            (Some((v, e)), Some((sv, se))) => v@ == sv && e as int == se && from <= e < s@.len(),
            (None, None) => true,
            _ => false,
        }),
{
    let len = s.unicode_len();
    let mut out: Vec<char> = Vec::new();
    let mut i: usize = from;
    proof {
        match spec_scan_string(s@, from as int) {
            Some(p) => {
                assert(out@ + p.0 =~= p.0);
            },
            None => {},
        }
    }
    while i < len
        invariant
            from <= i <= len,
            len == s@.len(),
            (match spec_scan_string(s@, i as int) {
                Some(p) => spec_scan_string(s@, from as int) == Some((out@ + p.0, p.1)),
                None => spec_scan_string(s@, from as int) is None,
            }),
        decreases len - i,
    {
        let ghost pre = out@;
        let c = s.get_char(i);
        if c == '"' {
            proof {
                assert(spec_scan_string(s@, i as int) == Some((Seq::<char>::empty(), i as int)));
                assert(pre + Seq::<char>::empty() =~= pre);
            }
            return Some((string_from_chars(&out), i));
        } else if c == '\\' {
            if len - i < 6 {
                proof {
                    assert(spec_scan_string(s@, i as int) is None);
                }
                return None;
            }
            let c1 = s.get_char(i + 1);
            let c2 = s.get_char(i + 2);
            let c3 = s.get_char(i + 3);
            let c4 = s.get_char(i + 4);
            let c5 = s.get_char(i + 5);
            if c1 != 'u' || c2 != '0' || c3 != '0' {
                proof {
                    assert(spec_scan_string(s@, i as int) is None);
                }
                return None;
            }
            let h4 = c4 as u32;
            let h5 = c5 as u32;
            if !((48 <= h4 && h4 <= 57) || (97 <= h4 && h4 <= 102)) || !((48 <= h5 && h5 <= 57)
                || (97 <= h5 && h5 <= 102)) {
                proof {
                    assert(spec_scan_string(s@, i as int) is None);
                }
                return None;
            }
            let decoded = char_from_u32(hex_val(c4) * 16 + hex_val(c5));
            proof {
                assert(decoded == spec_hex_decoded(s@[i + 4], s@[i + 5]));
            }
            if decoded != '"' && decoded != '\\' && (decoded as u32) >= 0x20 {
                proof {
                    assert(spec_json_safe_char(spec_hex_decoded(s@[i + 4], s@[i + 5])));
                    assert(spec_scan_string(s@, i as int) is None);
                }
                return None;
            }
            out.push(decoded);
            proof {
                assert(out@ =~= pre + seq![decoded]);
                let sub = spec_scan_string(s@, i + 6);
                match sub {
                    Some(p) => {
                        assert(spec_scan_string(s@, i as int) == Some((
                            seq![decoded] + p.0,
                            p.1,
                        )));
                        assert(pre + (seq![decoded] + p.0) =~= out@ + p.0);
                    },
                    None => {
                        assert(spec_scan_string(s@, i as int) is None);
                    },
                }
            }
            i += 6;
        } else if (c as u32) >= 0x20 {
            out.push(c);
            proof {
                assert(out@ =~= pre + seq![c]);
                let sub = spec_scan_string(s@, i + 1);
                match sub {
                    Some(p) => {
                        assert(spec_scan_string(s@, i as int) == Some((seq![c] + p.0, p.1)));
                        assert(pre + (seq![c] + p.0) =~= out@ + p.0);
                    },
                    None => {
                        assert(spec_scan_string(s@, i as int) is None);
                    },
                }
            }
            i += 1;
        } else {
            proof {
                assert(!spec_json_safe_char(s@[i as int]));
                assert(spec_scan_string(s@, i as int) is None);
            }
            return None;
        }
    }
    proof {
        assert(spec_scan_string(s@, i as int) is None);
    }
    None
}

/// Reads a quoted string value or `null` at `from`, per
/// [`spec_parse_quoted`].
fn parse_quoted(s: &str, from: usize) -> (r: Option<(Option<String>, usize)>)
    requires
        from <= s@.len(),
    ensures
        (match (r, spec_parse_quoted(s@, from as int)) {
            (Some((v, e)), Some((sv, se))) => e == se && e <= s@.len() && (match (v, sv) {
                (Some(w), Some(sw)) => w@ == sw,
                (None, None) => true,
                _ => false,
            }),
            (None, None) => true,
            _ => false,
        }),
{
    match eat_lit(s, from, "null") {
        Some(e) => Some((None, e)),
        None => {
            if from == s.unicode_len() {
                return None;
            }
            if s.get_char(from) != '"' {
                return None;
            }
            match scan_string(s, from + 1) {
                Some((w, end)) => Some((Some(w), end + 1)),
                None => None,
            }
        },
    }
}

/// Serializes a token to its cache blob, escaping every string; fails, with
/// a cache-file error, exactly on tokens outside [`Token::wf`]: an expiry
/// instant the RFC 3339 rendering cannot carry, or scope entries that the
/// space-joined scope string cannot keep apart.
#[verifier::rlimit(100)]
pub fn token_to_cache_json(t: &Token) -> (r: ClientResult<String>)

    ensures
        r is Ok <==> t.wf(),
        (r matches Err(e) ==> e is CacheFile),
        (r matches Ok(s) ==> s@ == spec_cache_json(
            t.access_token@,
            t.expires_in as int,
            (match t.expires_at {
                Some(ts) => Some(spec_rfc3339(ts as int)),
                None => None,
            }),
            t@.refresh_token,
            spec_join(t@.scope, ' '),
        )),
        (r is Ok ==> (t.expires_at matches Some(ts) ==> spec_parse_rfc3339(
            spec_rfc3339(ts as int),
        ) == Some(ts as int))),
{
    if !t.is_wf() {
        return Err(
            ClientError::CacheFile(
                String::from_str("token holds values the cache file cannot carry"),
            ),
        );
    }
    proof {
        reveal_strlit("-");
    }
    let mut out = String::from_str("{\"access_token\":\"");
    out.append(escape_str(t.access_token.as_str()).as_str());
    out.append("\",\"expires_in\":");
    if t.expires_in < 0 {
        out.append("-");
        let mag: u64 = if t.expires_in == i64::MIN {
            9223372036854775808u64
        } else {
            (-t.expires_in) as u64
        };
        let digits = u64_to_string(mag);
        proof {
            assert(mag as nat == (-(t.expires_in as int)) as nat);
        }
        out.append(digits.as_str());
    } else {
        let digits = u64_to_string(t.expires_in as u64);
        proof {
            assert(t.expires_in as u64 as nat == t.expires_in as nat);
        }
        out.append(digits.as_str());
    }
    out.append(",\"expires_at\":");
    match t.expires_at {
        Some(ts) => {
            out.append("\"");
            let iso = format_rfc3339(ts);
            out.append(escape_str(iso.as_str()).as_str());
            out.append("\"");
        },
        None => {
            out.append("null");
        },
    }
    out.append(",\"refresh_token\":");
    match t.refresh_token {
        Some(ref rt) => {
            out.append("\"");
            out.append(escape_str(rt.as_str()).as_str());
            out.append("\"");
        },
        None => {
            out.append("null");
        },
    }
    out.append(",\"scope\":\"");
    let joined = crate::text::join_space(&t.scope);
    out.append(escape_str(joined.as_str()).as_str());
    out.append("\"}");
    proof {
        reveal_strlit("\"");
        assert("\""@ =~= seq!['"']);
        assert(out@ =~= spec_cache_json(
            t.access_token@,
            t.expires_in as int,
            (match t.expires_at {
                Some(ts) => Some(spec_rfc3339(ts as int)),
                None => None,
            }),
            t@.refresh_token,
            spec_join(t@.scope, ' '),
        ));
    }
    Ok(out)
}

/// Reads a cache blob back into its five parts, per [`spec_parse_cache`].
pub fn parse_cache_json(s: &str) -> (r: Option<(String, i64, Option<i64>, Option<String>, String)>)
    ensures
        (match (r, spec_parse_cache(s@)) {
            (Some((access, ein, at, rt, scope_raw)), Some((sa, sv, sat, srt, ssr))) => {
                &&& access@ == sa
                &&& ein as int == sv
                &&& (match (at, sat) {
                    (Some(a), Some(b)) => a as int == b,
                    (None, None) => true,
                    _ => false,
                })
                &&& (match (rt, srt) {
                    (Some(a), Some(b)) => a@ == b,
                    (None, None) => true,
                    _ => false,
                })
                &&& scope_raw@ == ssr
            },
            (None, None) => true,
            _ => false,
        }),
{
    let len = s.unicode_len();
    let i1 = match eat_lit(s, 0, "{\"access_token\":\"") {
        Some(i) => i,
        None => {
            return None;
        },
    };
    let (access, e1) = match scan_string(s, i1) {
        Some(p) => p,
        None => {
            return None;
        },
    };
    let i2 = match eat_lit(s, e1, "\",\"expires_in\":") {
        Some(i) => i,
        None => {
            return None;
        },
    };
    let neg = if i2 < len {
        s.get_char(i2) == '-'
    } else {
        false
    };
    let dstart = if neg {
        i2 + 1
    } else {
        i2
    };
    let (v, e2) = match parse_u64(s, dstart) {
        Some(p) => p,
        None => {
            return None;
        },
    };
    if neg && (v < 1 || v > 0x8000000000000000u64) {
        return None;
    }
    if !neg && v > i64::MAX as u64 {
        return None;
    }
    let ein: i64 = if neg {
        if v == 0x8000000000000000u64 {
            i64::MIN
        } else {
            -(v as i64)
        }
    } else {
        v as i64
    };
    let i3 = match eat_lit(s, e2, ",\"expires_at\":") {
        Some(i) => i,
        None => {
            return None;
        },
    };
    let (iso, e3) = match parse_quoted(s, i3) {
        Some(p) => p,
        None => {
            return None;
        },
    };
    let at: Option<i64> = match iso {
        None => None,
        Some(w) => {
            match parse_rfc3339(w.as_str()) {
                Some(ts) => {
                    if MIN_CACHED_INSTANT <= ts && ts <= MAX_CACHED_INSTANT {
                        Some(ts)
                    } else {
                        return None;
                    }
                },
                None => {
                    return None;
                },
            }
        },
    };
    let i4 = match eat_lit(s, e3, ",\"refresh_token\":") {
        Some(i) => i,
        None => {
            return None;
        },
    };
    let (rt, e4) = match parse_quoted(s, i4) {
        Some(p) => p,
        None => {
            return None;
        },
    };
    let i5 = match eat_lit(s, e4, ",\"scope\":\"") {
        Some(i) => i,
        None => {
            return None;
        },
    };
    let (scope_raw, e5) = match scan_string(s, i5) {
        Some(p) => p,
        None => {
            return None;
        },
    };
    let i6 = match eat_lit(s, e5, "\"}") {
        Some(i) => i,
        None => {
            return None;
        },
    };
    if i6 != len {
        return None;
    }
    Some((access, ein, at, rt, scope_raw))
}

// ---------------------------------------------------------------------------
// Round trip: parsing a written blob recovers the parts
// ---------------------------------------------------------------------------

proof fn lemma_eat_at(x: Seq<char>, lit: Seq<char>, y: Seq<char>, s: Seq<char>)
    requires
        s == x + (lit + y),
    ensures
        spec_eat(s, x.len() as int, lit) == Some((x.len() + lit.len()) as int),
{
    assert(s.subrange(x.len() as int, (x.len() + lit.len()) as int) =~= lit);
}

proof fn lemma_scan_escape_at(x: Seq<char>, w: Seq<char>, y: Seq<char>, s: Seq<char>)
    requires
        s == x + (spec_escape(w) + y),
        y.len() >= 1,
        y[0] == '"',
    ensures
        spec_scan_string(s, x.len() as int) == Some((w, (x.len() + spec_escape(w).len()) as int)),
    decreases w.len(),
{
    let from = x.len() as int;
    if w.len() == 0 {
        assert(spec_escape(w) =~= Seq::<char>::empty());
        assert(s[from] == y[0]);
        assert(Seq::<char>::empty() + w =~= w);
        assert(spec_scan_string(s, from) == Some((Seq::<char>::empty(), from)));
    } else {
        let c = w[0];
        let w2 = w.drop_first();
        let esc = spec_escape_char(c);
        assert(spec_escape(w) == esc + spec_escape(w2));
        assert(s =~= (x + esc) + (spec_escape(w2) + y));
        lemma_scan_escape_at(x + esc, w2, y, s);
        assert(forall|k: int| 0 <= k < esc.len() ==> s[from + k] == esc[k]);
        if spec_json_safe_char(c) {
            assert(esc =~= seq![c]);
            assert(s[from] == c);
            assert(c != '"' && c != '\\');
            assert(spec_scan_string(s, from + 1) == Some((
                w2,
                from + 1 + spec_escape(w2).len(),
            )));
            assert(seq![c] + w2 =~= w);
        } else {
            let cu = c as u32;
            assert(cu < 0x5D);
            vstd::arithmetic::div_mod::lemma_fundamental_div_mod(cu as int, 16);
            lemma_hex_char_val((cu as int) / 16);
            lemma_hex_char_val((cu as int) % 16);
            assert(esc.len() == 6);
            assert(s[from] == '\\');
            assert(s[from + 1] == 'u');
            assert(s[from + 2] == '0');
            assert(s[from + 3] == '0');
            assert(s[from + 4] == spec_hex_char((cu as int) / 16));
            assert(s[from + 5] == spec_hex_char((cu as int) % 16));
            assert(spec_hex_decoded(s[from + 4], s[from + 5]) == c) by {
                assert(spec_hex_val(s[from + 4]) * 16 + spec_hex_val(s[from + 5]) == cu);
                vstd::utf8::char_u32_cast(c, cu);
            }
            assert(from + 6 <= s.len());
            assert(spec_scan_string(s, from + 6) == Some((
                w2,
                from + 6 + spec_escape(w2).len(),
            )));
            assert(seq![c] + w2 =~= w);
        }
    }
}

proof fn lemma_digits_at(x: Seq<char>, n: nat, y: Seq<char>, s: Seq<char>)
    requires
        s == x + (spec_digits(n) + y),
        n <= u64::MAX,
        y.len() >= 1,
        !spec_is_digit(y[0]),
    ensures
        spec_parse_u64(s, x.len() as int) == Some(
            (n as int, (x.len() + spec_digits(n).len()) as int),
        ),
{
    let from = x.len() as int;
    let d = spec_digits(n);
    let e = from + d.len();
    lemma_digits_roundtrip(n);
    assert(s.subrange(from, e) =~= d);
    assert(forall|j: int| from <= j < e ==> spec_is_digit(#[trigger] s[j]));
    assert(e < s.len());
    assert(s[e] == y[0]);
    lemma_digit_run_unique(s, from, e);
    assert(spec_digit_run_end(s, from) == e);
    assert(spec_digits_val(s.subrange(from, e)) == n);
    assert(s[from] == d[0]);
}

/// The signed rendering at `x.len()` parses back to `n`: the sign, if any,
/// stands just before the digit run.
proof fn lemma_int_digits_at(x: Seq<char>, n: int, y: Seq<char>, s: Seq<char>)
    requires
        s == x + (spec_int_digits(n) + y),
        i64::MIN <= n <= i64::MAX,
        y.len() >= 1,
        !spec_is_digit(y[0]),
    ensures
        ({
            let from = x.len() as int;
            let neg = from < s.len() && s[from] == '-';
            let dstart = if neg {
                from + 1
            } else {
                from
            };
            &&& neg == (n < 0)
            &&& spec_parse_u64(s, dstart) == Some(
                (
                    if n < 0 {
                        -n
                    } else {
                        n
                    },
                    (x.len() + spec_int_digits(n).len()) as int,
                ),
            )
        }),
{
    let from = x.len() as int;
    reveal_strlit("-");
    if n < 0 {
        let mag = (-n) as nat;
        let d = spec_digits(mag);
        assert(spec_int_digits(n) == seq!['-'] + d);
        assert(s =~= (x + seq!['-']) + (d + y));
        assert(s[from] == '-');
        lemma_digits_at(x + seq!['-'], mag, y, s);
        lemma_digits_roundtrip(mag);
        assert(spec_int_digits(n).len() == 1 + d.len());
    } else {
        let d = spec_digits(n as nat);
        lemma_digits_roundtrip(n as nat);
        assert(s[from] == d[0]);
        assert(spec_is_digit(d[0]));
        assert(s[from] != '-');
        lemma_digits_at(x, n as nat, y, s);
    }
}

proof fn lemma_quoted_at(x: Seq<char>, v: Option<Seq<char>>, y: Seq<char>, s: Seq<char>)
    requires
        s == x + (spec_quoted(v) + y),
        y.len() >= 1,
    ensures
        spec_parse_quoted(s, x.len() as int) == Some(
            (v, (x.len() + spec_quoted(v).len()) as int),
        ),
{
    let from = x.len() as int;
    let q = spec_quoted(v);
    reveal_strlit("null");
    match v {
        None => {
            lemma_eat_at(x, "null"@, y, s);
            assert(spec_has_at(s, from, "null"@));
        },
        Some(w) => {
            assert(q == seq!['"'] + (spec_escape(w) + seq!['"']));
            assert(s[from] == q[0]);
            assert(q[0] == '"');
            assert(!spec_has_at(s, from, "null"@)) by {
                if spec_has_at(s, from, "null"@) {
                    assert(s.subrange(from, from + 4)[0] == 'n');
                    assert(s[from] == 'n');
                }
            }
            let x2 = x + seq!['"'];
            let y2 = seq!['"'] + y;
            assert(s =~= x2 + (spec_escape(w) + y2));
            lemma_scan_escape_at(x2, w, y2, s);
            assert(spec_scan_string(s, from + 1) == Some((
                w,
                from + 1 + spec_escape(w).len(),
            )));
            assert(q.len() == spec_escape(w).len() + 2);
        },
    }
}

/// Evaluates the blob parse once every step's outcome is known: the glue
/// between the step lemmas and [`spec_parse_cache`].
#[verifier::rlimit(100)]
proof fn lemma_parse_cache_eval(
    s: Seq<char>,
    access: Seq<char>,
    ein: int,
    iso: Option<Seq<char>>,
    at: Option<int>,
    refresh: Option<Seq<char>>,
    scope_raw: Seq<char>,
    i1: int,
    e1: int,
    i2: int,
    e2: int,
    i3: int,
    e3: int,
    i4: int,
    e4: int,
    i5: int,
    e5: int,
)
    requires
        i64::MIN <= ein <= i64::MAX,
        spec_eat(s, 0, "{\"access_token\":\""@) == Some(i1),
        spec_scan_string(s, i1) == Some((access, e1)),
        spec_eat(s, e1, "\",\"expires_in\":"@) == Some(i2),
        (i2 < s.len() && s[i2] == '-') == (ein < 0),
        spec_parse_u64(
            s,
            if ein < 0 {
                i2 + 1
            } else {
                i2
            },
        ) == Some(
            (
                if ein < 0 {
                    -ein
                } else {
                    ein
                },
                e2,
            ),
        ),
        spec_eat(s, e2, ",\"expires_at\":"@) == Some(i3),
        spec_parse_quoted(s, i3) == Some((iso, e3)),
        (match iso {
            None => at is None,
            Some(w) => at matches Some(ts) && spec_parse_rfc3339(w) == Some(ts)
                && MIN_CACHED_INSTANT <= ts <= MAX_CACHED_INSTANT,
        }),
        spec_eat(s, e3, ",\"refresh_token\":"@) == Some(i4),
        spec_parse_quoted(s, i4) == Some((refresh, e4)),
        spec_eat(s, e4, ",\"scope\":\""@) == Some(i5),
        spec_scan_string(s, i5) == Some((scope_raw, e5)),
        spec_eat(s, e5, "\"}"@) == Some(s.len() as int),
    ensures
        spec_parse_cache(s) == Some((access, ein, at, refresh, scope_raw)),
{
}

/// Reassociates one peeled piece onto the consumed prefix.
proof fn lemma_shift(x: Seq<char>, a: Seq<char>, y: Seq<char>, s: Seq<char>)
    requires
        s == x + (a + y),
    ensures
        s == (x + a) + y,
{
    assert((x + (a + y)) =~= ((x + a) + y));
}

/// The round-trip law of the cache blob: a rendering of well-formed parts
/// parses back to exactly those parts. The expiry rendering `iso` may be any
/// string that the instant parser reads back as the token's expiry.
#[verifier::rlimit(100)]
pub proof fn lemma_cache_roundtrip(t: Token, iso: Option<Seq<char>>)
    requires
        t.wf(),
        (t.expires_at is Some <==> iso is Some),
        (match (t.expires_at, iso) {
            (Some(ts), Some(w)) => spec_parse_rfc3339(w) == Some(ts as int),
            _ => true,
        }),
    ensures
        spec_parse_cache(
            spec_cache_json(
                t.access_token@,
                t.expires_in as int,
                iso,
                t@.refresh_token,
                spec_join(t@.scope, ' '),
            ),
        ) == Some(
            (
                t.access_token@,
                t.expires_in as int,
                t@.expires_at,
                t@.refresh_token,
                spec_join(t@.scope, ' '),
            ),
        ),
{
    let access = t.access_token@;
    let ein = t.expires_in as int;
    let refresh = t@.refresh_token;
    let scope_raw = spec_join(t@.scope, ' ');
    let ea = spec_escape(access);
    let es = spec_escape(scope_raw);
    let d = spec_int_digits(ein);
    let qa = spec_quoted(iso);
    let qr = spec_quoted(refresh);
    let l0 = "{\"access_token\":\""@;
    let l1 = "\",\"expires_in\":"@;
    let l2 = ",\"expires_at\":"@;
    let l3 = ",\"refresh_token\":"@;
    let l4 = ",\"scope\":\""@;
    let l5 = "\"}"@;
    let r10 = l5;
    let r9 = es + r10;
    let r8 = l4 + r9;
    let r7 = qr + r8;
    let r6 = l3 + r7;
    let r5 = qa + r6;
    let r4 = l2 + r5;
    let r3 = d + r4;
    let r2 = l1 + r3;
    let r1 = ea + r2;
    let s = l0 + r1;
    assert(s == spec_cache_json(access, ein, iso, refresh, scope_raw));
    reveal_strlit("{\"access_token\":\"");
    reveal_strlit("\",\"expires_in\":");
    reveal_strlit(",\"expires_at\":");
    reveal_strlit(",\"refresh_token\":");
    reveal_strlit(",\"scope\":\"");
    reveal_strlit("\"}");
    reveal_strlit("null");

    // access token
    assert(Seq::<char>::empty() + (l0 + r1) =~= s);
    lemma_eat_at(Seq::empty(), l0, r1, s);
    let x1 = l0;
    assert(r2[0] == '"');
    lemma_scan_escape_at(x1, access, r2, s);
    lemma_shift(x1, ea, r2, s);
    let x2 = x1 + ea;
    let e1 = x2.len() as int;

    // expires_in
    lemma_eat_at(x2, l1, r3, s);
    lemma_shift(x2, l1, r3, s);
    let x3 = x2 + l1;
    assert(!spec_is_digit(r4[0]));
    lemma_int_digits_at(x3, ein, r4, s);
    lemma_shift(x3, d, r4, s);
    let x4 = x3 + d;
    let e2 = x4.len() as int;

    // expires_at
    lemma_eat_at(x4, l2, r5, s);
    lemma_shift(x4, l2, r5, s);
    let x5 = x4 + l2;
    assert(r6.len() >= 1);
    lemma_quoted_at(x5, iso, r6, s);
    lemma_shift(x5, qa, r6, s);
    let x6 = x5 + qa;
    let e3 = x6.len() as int;

    // refresh token
    lemma_eat_at(x6, l3, r7, s);
    lemma_shift(x6, l3, r7, s);
    let x7 = x6 + l3;
    assert(r8.len() >= 1);
    lemma_quoted_at(x7, refresh, r8, s);
    lemma_shift(x7, qr, r8, s);
    let x8 = x7 + qr;
    let e4 = x8.len() as int;

    // scope
    lemma_eat_at(x8, l4, r9, s);
    lemma_shift(x8, l4, r9, s);
    let x9 = x8 + l4;
    assert(r10[0] == '"');
    lemma_scan_escape_at(x9, scope_raw, r10, s);
    lemma_shift(x9, es, r10, s);
    let x10 = x9 + es;
    let e5 = x10.len() as int;

    // closing brace
    assert(l5 + Seq::<char>::empty() =~= l5);
    lemma_eat_at(x10, l5, Seq::empty(), s);
    assert(x10.len() + l5.len() == s.len());

    lemma_parse_cache_eval(
        s,
        access,
        ein,
        iso,
        t@.expires_at,
        refresh,
        scope_raw,
        x1.len() as int,
        e1,
        x3.len() as int,
        e2,
        x5.len() as int,
        e3,
        x7.len() as int,
        e4,
        x9.len() as int,
        e5,
    );
}

/// The scope entries read back from a raw scope string: the split pieces,
/// with empty ones dropped.
pub open spec fn spec_keep_nonempty(ss: Seq<Seq<char>>) -> Seq<Seq<char>>
    decreases ss.len(),
{
    if ss.len() == 0 {
        Seq::empty()
    } else {
        (if ss[0].len() >= 1 {
            seq![ss[0]]
        } else {
            Seq::empty()
        }) + spec_keep_nonempty(ss.drop_first())
    }
}

/// Splitting the space-joined rendering of well-formed scopes, and dropping
/// empty pieces, recovers the scope list.
pub proof fn lemma_scope_roundtrip(ss: Seq<Seq<char>>)
    requires
        crate::token::spec_wf_scopes(ss),
    ensures
        spec_keep_nonempty(spec_split(spec_join(ss, ' '), ' ')) == ss,
{
    if ss.len() == 0 {
        assert(spec_join(ss, ' ') == Seq::<char>::empty());
        let sp = spec_split(Seq::<char>::empty(), ' ');
        assert(sp =~= seq![Seq::<char>::empty()]);
        assert(sp.len() == 1 && sp[0].len() == 0);
        assert(sp.drop_first() =~= Seq::<Seq<char>>::empty());
        assert(spec_keep_nonempty(sp.drop_first()) =~= Seq::<Seq<char>>::empty());
        assert(spec_keep_nonempty(sp) =~= Seq::<Seq<char>>::empty() + spec_keep_nonempty(
            sp.drop_first(),
        ));
        assert(spec_keep_nonempty(sp) =~= Seq::<Seq<char>>::empty());
        assert(spec_keep_nonempty(spec_split(spec_join(ss, ' '), ' ')) =~= ss);
    } else {
        crate::text::lemma_split_join(ss, ' ');
        lemma_keep_all(ss);
    }
}

/// Dropping empty pieces from a list without any is the identity.
proof fn lemma_keep_all(ss: Seq<Seq<char>>)
    requires
        forall|i: int| 0 <= i < ss.len() ==> (#[trigger] ss[i]).len() >= 1,
    ensures
        spec_keep_nonempty(ss) == ss,
    decreases ss.len(),
{
    if ss.len() != 0 {
        lemma_keep_all(ss.drop_first());
        assert(spec_keep_nonempty(ss) =~= ss);
    }
}

impl crate::token::TokenBuilder {
    /// Best-effort load of token state from the contents of a cache file:
    /// anything that is not a cache rendering yields the empty builder
    /// state, never an error.
    pub fn from_cache_str(contents: &str) -> (r: crate::token::TokenBuilder)
        ensures
            (match spec_parse_cache(contents@) {
                None => {
                    &&& r.access_token is None
                    &&& r.expires_in is None
                    &&& r.expires_at is None
                    &&& r.refresh_token is None
                    &&& r.scope is None
                },
                Some((access, ein, at, rt, raw)) => {
                    &&& r.access_token matches Some(a) && a@ == access
                    &&& r.expires_in matches Some(e) && e as int == ein
                    &&& r.expires_at matches Some(a2) && (match (a2, at) {
                        (Some(x), Some(y)) => x as int == y,
                        (None, None) => true,
                        _ => false,
                    })
                    &&& r.refresh_token matches Some(rt2) && (match (rt2, rt) {
                        (Some(x), Some(y)) => x@ == y,
                        (None, None) => true,
                        _ => false,
                    })
                    &&& r.scope matches Some(sc) && sc.deep_view() == spec_keep_nonempty(
                        spec_split(raw, ' '),
                    )
                },
            }),
    {
        let parts = match parse_cache_json(contents) {
            Some(p) => p,
            None => {
                return crate::token::TokenBuilder::default();
            },
        };
        let (access, ein, at, rt, scope_raw) = parts;
        let pieces = crate::text::split_str(scope_raw.as_str(), ' ');
        let mut scope: Vec<String> = Vec::new();
        let mut i: usize = 0;
        proof {
            assert(pieces.deep_view().skip(0) =~= pieces.deep_view());
            assert(scope.deep_view() + spec_keep_nonempty(pieces.deep_view())
                =~= spec_keep_nonempty(pieces.deep_view()));
        }
        while i < pieces.len()
            invariant
                0 <= i <= pieces.len(),
                spec_keep_nonempty(pieces.deep_view()) =~= scope.deep_view()
                    + spec_keep_nonempty(pieces.deep_view().skip(i as int)),
            decreases pieces.len() - i,
        {
            let ghost pre = scope.deep_view();
            let ghost tail = pieces.deep_view().skip(i as int);
            proof {
                assert(tail[0] == pieces.deep_view()[i as int]);
                assert(tail.drop_first() =~= pieces.deep_view().skip(i + 1));
            }
            if !pieces[i].as_str().is_empty() {
                scope.push(pieces[i].clone());
                proof {
                    assert(scope.deep_view() =~= pre + seq![pieces.deep_view()[i as int]]);
                    assert(spec_keep_nonempty(tail) =~= seq![tail[0]] + spec_keep_nonempty(
                        tail.drop_first(),
                    ));
                    assert(spec_keep_nonempty(pieces.deep_view()) =~= scope.deep_view()
                        + spec_keep_nonempty(pieces.deep_view().skip(i + 1)));
                }
            } else {
                proof {
                    assert(spec_keep_nonempty(tail) =~= Seq::<Seq<char>>::empty()
                        + spec_keep_nonempty(tail.drop_first()));
                    assert(spec_keep_nonempty(tail) =~= spec_keep_nonempty(tail.drop_first()));
                    assert(spec_keep_nonempty(pieces.deep_view()) =~= scope.deep_view()
                        + spec_keep_nonempty(pieces.deep_view().skip(i + 1)));
                }
            }
            i += 1;
        }
        proof {
            assert(pieces.deep_view().skip(pieces.len() as int) =~= Seq::<Seq<char>>::empty());
            assert(spec_keep_nonempty(Seq::<Seq<char>>::empty()) =~= Seq::<Seq<char>>::empty());
            assert(scope.deep_view() + Seq::<Seq<char>>::empty() =~= scope.deep_view());
        }
        crate::token::TokenBuilder {
            access_token: Some(access),
            expires_in: Some(ein),
            expires_at: Some(at),
            refresh_token: Some(rt),
            scope: Some(scope),
        }
    }
}

} // verus!
