//! The job-record wire format: the queue payload is the UTF-8 JSON object
//! `{"url": <string>, "user_id": <string>}` and nothing else. Encoding is
//! canonical (fields in that order, lowercase hex escapes); decoding accepts
//! exactly the canonical form and is proved to invert encoding.

use vstd::prelude::*;

verus! {

use crate::text::push_char;
use crate::text::digit_char;
use crate::text::is_prefix_of;
use vstd::string::StrSliceExecFns;
use vstd::string::StringExecFns;

/// A request to fetch one remote media URL on behalf of one requester.
pub struct Job {
    pub url: String,
    pub user_id: String,
}

/// The lowercase hexadecimal digit character for `d`, which must be below 16.
pub open spec fn hex_digit_char(d: int) -> char {
    if d < 10 {
        digit_char(d)
    } else if d == 10 {
        'a'
    } else if d == 11 {
        'b'
    } else if d == 12 {
        'c'
    } else if d == 13 {
        'd'
    } else if d == 14 {
        'e'
    } else {
        'f'
    }
}

/// How one character is written inside a JSON string literal: quote and
/// backslash get a backslash escape, control characters a `\u00XX` escape,
/// everything else stands as itself.
pub open spec fn esc_char(c: char) -> Seq<char> {
    if c == '"' {
        seq!['\\', '"']
    } else if c == '\\' {
        seq!['\\', '\\']
    } else if (c as u32) < 32 {
        seq!['\\', 'u', '0', '0',
             hex_digit_char((c as u32) as int / 16),
             hex_digit_char((c as u32) as int % 16)]
    } else {
        seq![c]
    }
}

/// The JSON string-literal body for `s`: each character escaped in turn.
pub open spec fn esc(s: Seq<char>) -> Seq<char>
    decreases s.len(),
{
    if s.len() == 0 {
        Seq::<char>::empty()
    } else {
        esc_char(s[0]) + esc(s.skip(1))
    }
}

/// Escaping distributes over concatenation.
pub proof fn lemma_esc_app(a: Seq<char>, b: Seq<char>)
    ensures
        esc(a + b) == esc(a) + esc(b),
    decreases a.len(),
{
    if a.len() == 0 {
        assert(a + b =~= b);
        assert(esc(a) + esc(b) =~= esc(b));
    } else {
        assert((a + b).skip(1) =~= a.skip(1) + b);
        lemma_esc_app(a.skip(1), b);
        assert(esc(a + b) =~= esc(a) + esc(b));
    }
}

fn hex_digit_exec(d: u32) -> (c: char)
    requires
        d < 16,
    ensures
        c == hex_digit_char(d as int),
{
    match d {
        0 => '0',
        1 => '1',
        2 => '2',
        3 => '3',
        4 => '4',
        5 => '5',
        6 => '6',
        7 => '7',
        8 => '8',
        9 => '9',
        10 => 'a',
        11 => 'b',
        12 => 'c',
        13 => 'd',
        14 => 'e',
        _ => 'f',
    }
}

/// Appends the escaped form of `s` to `out`.
fn escape_into(s: &str, out: &mut String)
    ensures
        final(out)@ == old(out)@ + esc(s@),
{
    let n = s.unicode_len();
    let mut i: usize = 0;
    while i < n
        invariant
            i <= n,
            n == s@.len(),
            out@ == old(out)@ + esc(s@.take(i as int)),
        decreases n - i,
    {
        let c = s.get_char(i);
        proof {
            assert(s@.take(i + 1) =~= s@.take(i as int) + seq![s@[i as int]]);
            lemma_esc_app(s@.take(i as int), seq![s@[i as int]]);
            assert(seq![s@[i as int]].skip(1) =~= Seq::<char>::empty());
            assert(esc(seq![s@[i as int]]) == esc_char(s@[i as int]) + esc(Seq::<char>::empty()));
            assert(esc(seq![s@[i as int]]) =~= esc_char(s@[i as int]));
        }
        if c == '"' {
            push_char(out, '\\');
            push_char(out, '"');
        } else if c == '\\' {
            push_char(out, '\\');
            push_char(out, '\\');
        } else if (c as u32) < 32 {
            push_char(out, '\\');
            push_char(out, 'u');
            push_char(out, '0');
            push_char(out, '0');
            push_char(out, hex_digit_exec((c as u32) / 16));
            push_char(out, hex_digit_exec((c as u32) % 16));
        } else {
            push_char(out, c);
        }
        assert(out@ =~= old(out)@ + esc(s@.take(i + 1)));
        i += 1;
    }
    assert(s@.take(n as int) =~= s@);
}

/// The opening of the payload, up to and including the quote that starts the
/// url string.
pub open spec fn wire_pre() -> Seq<char> {
    "{\"url\":\""@
}

/// What stands between the url string's closing quote (exclusive) and the
/// user id string's opening quote (inclusive).
pub open spec fn wire_mid() -> Seq<char> {
    ",\"user_id\":\""@
}

/// The canonical payload for a job with the given url and user id.
pub open spec fn enc_spec(url: Seq<char>, user_id: Seq<char>) -> Seq<char> {
    wire_pre() + esc(url) + seq!['"'] + wire_mid() + esc(user_id) + seq!['"'] + seq!['}']
}

/// Serializes a job to its canonical queue payload.
pub fn encode_job(job: &Job) -> (r: String)
    ensures
        r@ == enc_spec(job.url@, job.user_id@),
{
    let mut s = "{\"url\":\"".to_owned();
    escape_into(job.url.as_str(), &mut s);
    s.append("\",\"user_id\":\"");
    escape_into(job.user_id.as_str(), &mut s);
    s.append("\"}");
    proof {
        reveal_strlit("{\"url\":\"");
        reveal_strlit("\",\"user_id\":\"");
        reveal_strlit(",\"user_id\":\"");
        reveal_strlit("\"}");
        assert(("\",\"user_id\":\""@) =~= seq!['"'] + wire_mid());
        assert(("\"}"@) =~= seq!['"'] + seq!['}']);
        assert(s@ =~= enc_spec(job.url@, job.user_id@));
    }
    s
}

/// True iff `c` is a lowercase hexadecimal digit.
pub open spec fn is_hex(c: char) -> bool {
    (48 <= c as u32 && c as u32 <= 57) || (97 <= c as u32 && c as u32 <= 102)
}

/// The value of a lowercase hexadecimal digit.
pub open spec fn hexv(c: char) -> int {
    if c as u32 <= 57 {
        c as u32 - 48
    } else {
        c as u32 - 87
    }
}

/// The character with code `n`, for codes below 128.
pub open spec fn char_of(n: int) -> char {
    n as char
}

/// Reads a JSON string-literal body from the front of `s`: the characters up
/// to the first unescaped quote, unescaped, and whatever follows that quote.
/// `None` on a malformed or unterminated literal. Only the canonical escapes
/// that `esc_char` emits are accepted.
pub open spec fn scan_str(s: Seq<char>) -> Option<(Seq<char>, Seq<char>)>
    decreases s.len(),
{
    if s.len() == 0 {
        None
    } else if s[0] == '"' {
        Some((Seq::<char>::empty(), s.skip(1)))
    } else if s[0] == '\\' {
        if s.len() >= 2 && (s[1] == '"' || s[1] == '\\') {
            match scan_str(s.skip(2)) {
                Some(p) => Some((seq![s[1]] + p.0, p.1)),
                None => None,
            }
        } else if s.len() >= 6 && s[1] == 'u' && s[2] == '0' && s[3] == '0'
            && is_hex(s[4]) && is_hex(s[5]) && hexv(s[4]) * 16 + hexv(s[5]) < 32 {
            match scan_str(s.skip(6)) {
                Some(p) => Some((seq![char_of(hexv(s[4]) * 16 + hexv(s[5]))] + p.0, p.1)),
                None => None,
            }
        } else {
            None
        }
    } else if (s[0] as u32) < 32 {
        None
    } else {
        match scan_str(s.skip(1)) {
            Some(p) => Some((seq![s[0]] + p.0, p.1)),
            None => None,
        }
    }
}

/// What a payload means: `Some((url, user_id))` iff the text is the canonical
/// encoding of exactly those two fields.
pub open spec fn dec_spec(s: Seq<char>) -> Option<(Seq<char>, Seq<char>)> {
    if !is_prefix_of(wire_pre(), s) {
        None
    } else {
        match scan_str(s.skip(wire_pre().len() as int)) {
            Some(p1) => {
                if !is_prefix_of(wire_mid(), p1.1) {
                    None
                } else {
                    match scan_str(p1.1.skip(wire_mid().len() as int)) {
                        Some(p2) => {
                            if p2.1 == seq!['}'] {
                                Some((p1.0, p2.0))
                            } else {
                                None
                            }
                        },
                        None => None,
                    }
                }
            },
            None => None,
        }
    }
}

fn hex_val(c: char) -> (r: Option<u32>)
    ensures
        match r {
            Some(v) => is_hex(c) && hexv(c) == v && v < 16,
            None => !is_hex(c),
        },
{
    let n = c as u32;
    if 48 <= n && n <= 57 {
        Some(n - 48)
    } else if 97 <= n && n <= 102 {
        Some(n - 87)
    } else {
        None
    }
}

/// `scan_str`'s result with `acc` prepended to the content.
pub open spec fn scan_join(acc: Seq<char>, r: Option<(Seq<char>, Seq<char>)>) -> Option<(Seq<char>, Seq<char>)> {
    match r {
        Some(p) => Some((acc + p.0, p.1)),
        None => None,
    }
}

proof fn lemma_scan_join(a: Seq<char>, c: char, r: Option<(Seq<char>, Seq<char>)>)
    ensures
        scan_join(a, scan_join(seq![c], r)) == scan_join(a + seq![c], r),
{
    if let Some(p) = r {
        assert(a + (seq![c] + p.0) =~= (a + seq![c]) + p.0);
    }
}

/// Reads one string literal of the payload, starting at character position
/// `start` (just after the opening quote); returns the unescaped content and
/// the position just after the closing quote.
fn scan_exec(s: &str, start: usize) -> (r: Option<(String, usize)>)
    requires
        start <= s@.len(),
    ensures
        match r {
            Some(p) => p.1 <= s@.len()
                && scan_str(s@.skip(start as int)) == Some((p.0@, s@.skip(p.1 as int))),
            None => scan_str(s@.skip(start as int)) is None,
        },
{
    let n = s.unicode_len();
    let mut i: usize = start;
    let mut acc = String::new();
    while i < n
        invariant
            start <= i <= n,
            n == s@.len(),
            scan_str(s@.skip(start as int)) == scan_join(acc@, scan_str(s@.skip(i as int))),
        decreases n - i,
    {
        let ghost tail = s@.skip(i as int);
        let ghost acc0 = acc@;
        proof {
            assert(tail.len() == n - i);
            assert(tail[0] == s@[i as int]);
        }
        let c = s.get_char(i);
        if c == '"' {
            proof {
                assert(tail.skip(1) =~= s@.skip(i + 1));
                assert(scan_str(tail) == Some((Seq::<char>::empty(), s@.skip(i + 1))));
                assert(acc@ + Seq::<char>::empty() =~= acc@);
            }
            return Some((acc, i + 1));
        } else if c == '\\' {
            if i + 1 >= n {
                assert(scan_str(tail) is None);
                return None;
            }
            proof {
                assert(tail[1] == s@[i + 1]);
            }
            let c2 = s.get_char(i + 1);
            if c2 == '"' || c2 == '\\' {
                proof {
                    assert(tail.skip(2) =~= s@.skip(i + 2));
                    assert(scan_str(tail) == scan_join(seq![c2], scan_str(s@.skip(i + 2))));
                    lemma_scan_join(acc0, c2, scan_str(s@.skip(i + 2)));
                }
                push_char(&mut acc, c2);
                i += 2;
            } else if c2 == 'u' {
                if n - i < 6 {
                    assert(scan_str(tail) is None);
                    return None;
                }
                proof {
                    assert(tail[2] == s@[i + 2] && tail[3] == s@[i + 3] && tail[4] == s@[i + 4]
                        && tail[5] == s@[i + 5]);
                }
                let c3 = s.get_char(i + 2);
                let c4 = s.get_char(i + 3);
                if c3 != '0' || c4 != '0' {
                    assert(scan_str(tail) is None);
                    return None;
                }
                let h = hex_val(s.get_char(i + 4));
                let l = hex_val(s.get_char(i + 5));
                match (h, l) {
                    (Some(hv), Some(lv)) => {
                        let v: u32 = hv * 16 + lv;
                        if v >= 32 {
                            assert(scan_str(tail) is None);
                            return None;
                        }
                        let dc = (v as u8) as char;
                        proof {
                            assert(v as u8 == v as int);
                            assert(dc as u32 == v);
                            assert(dc == char_of(hexv(s@[i + 4]) * 16 + hexv(s@[i + 5])));
                            assert(tail.skip(6) =~= s@.skip(i + 6));
                            assert(scan_str(tail) == scan_join(seq![dc], scan_str(s@.skip(i + 6))));
                            lemma_scan_join(acc0, dc, scan_str(s@.skip(i + 6)));
                        }
                        push_char(&mut acc, dc);
                        i += 6;
                    },
                    _ => {
                        assert(scan_str(tail) is None);
                        return None;
                    },
                }
            } else {
                assert(scan_str(tail) is None);
                return None;
            }
        } else if (c as u32) < 32 {
            assert(scan_str(tail) is None);
            return None;
        } else {
            proof {
                assert(tail.skip(1) =~= s@.skip(i + 1));
                assert(scan_str(tail) == scan_join(seq![c], scan_str(s@.skip(i + 1))));
                lemma_scan_join(acc0, c, scan_str(s@.skip(i + 1)));
            }
            push_char(&mut acc, c);
            i += 1;
        }
    }
    assert(s@.skip(i as int).len() == 0);
    assert(scan_str(s@.skip(i as int)) is None);
    None
}

/// What a payload means: see `dec_spec`. Parses the canonical job payload.
pub fn decode_job(s: &str) -> (r: Option<Job>)
    ensures
        match r {
            Some(j) => dec_spec(s@) == Some((j.url@, j.user_id@)),
            None => dec_spec(s@) is None,
        },
{
    let pre = "{\"url\":\"";
    let mid = ",\"user_id\":\"";
    if !crate::text::starts_with_str(s, pre) {
        return None;
    }
    let p0 = pre.unicode_len();
    let n = s.unicode_len();
    match scan_exec(s, p0) {
        None => None,
        Some((url, p1)) => {
            let ghost r1 = s@.skip(p1 as int);
            let sub = s.substring_char(p1, n);
            proof {
                assert(sub@ =~= r1);
            }
            if !crate::text::starts_with_str(sub, mid) {
                return None;
            }
            let p2 = p1 + mid.unicode_len();
            proof {
                assert(s@.skip(p2 as int) =~= r1.skip(wire_mid().len() as int));
            }
            match scan_exec(s, p2) {
                None => None,
                Some((uid, p3)) => {
                    let ghost r2 = s@.skip(p3 as int);
                    if n - p3 == 1 {
                        if s.get_char(p3) == '}' {
                            proof {
                                assert(r2 =~= seq!['}']);
                            }
                            return Some(Job { url, user_id: uid });
                        }
                        proof {
                            assert(r2[0] == s@[p3 as int]);
                            assert(r2 != seq!['}']);
                        }
                        return None;
                    }
                    proof {
                        assert(r2.len() != 1);
                        assert(r2 != seq!['}']) by {
                            if r2 == seq!['}'] {
                                assert(r2.len() == 1);
                            }
                        }
                    }
                    None
                },
            }
        },
    }
}

proof fn lemma_hex_inv(d: int)
    requires
        0 <= d < 16,
    ensures
        is_hex(hex_digit_char(d)),
        hexv(hex_digit_char(d)) == d,
{
}

/// A scan of an escaped body, its closing quote, and anything after the quote
/// recovers exactly the original body and leaves exactly the tail.
pub proof fn lemma_scan_esc(u: Seq<char>, rest: Seq<char>)
    ensures
        scan_str(esc(u) + seq!['"'] + rest) == Some((u, rest)),
    decreases u.len(),
{
    let s = esc(u) + seq!['"'] + rest;
    if u.len() == 0 {
        assert(esc(u) =~= Seq::<char>::empty());
        assert(s[0] == '"');
        assert(s.skip(1) =~= rest);
        assert(Seq::<char>::empty() + rest =~= rest);
    } else {
        let c = u[0];
        let t = esc(u.skip(1)) + seq!['"'] + rest;
        lemma_scan_esc(u.skip(1), rest);
        assert(s =~= esc_char(c) + t);
        if c == '"' {
            assert(s[0] == '\\' && s[1] == '"');
            assert(s.len() >= 2);
            assert(s.skip(2) =~= t);
            assert(seq![s[1]] + u.skip(1) =~= u);
        } else if c == '\\' {
            assert(s[0] == '\\' && s[1] == '\\');
            assert(s.len() >= 2);
            assert(s.skip(2) =~= t);
            assert(seq![s[1]] + u.skip(1) =~= u);
        } else if (c as u32) < 32 {
            let h = (c as u32) as int / 16;
            let l = (c as u32) as int % 16;
            lemma_hex_inv(h);
            lemma_hex_inv(l);
            assert(s[0] == '\\' && s[1] == 'u' && s[2] == '0' && s[3] == '0');
            assert(s[4] == hex_digit_char(h) && s[5] == hex_digit_char(l));
            assert(s.len() >= 6);
            assert(hexv(s[4]) * 16 + hexv(s[5]) == c as u32);
            vstd::utf8::char_u32_cast(c, c as u32);
            assert(char_of(c as u32 as int) == c);
            assert(s.skip(6) =~= t);
            assert(seq![char_of(hexv(s[4]) * 16 + hexv(s[5]))] + u.skip(1) =~= u);
        } else {
            assert(s[0] == c);
            assert(s.skip(1) =~= t);
            assert(seq![s[0]] + u.skip(1) =~= u);
        }
    }
}

/// Decoding inverts encoding: the canonical payload of any url and user id
/// decodes to exactly those two fields.
pub proof fn lemma_wire_round_trip(url: Seq<char>, user_id: Seq<char>)
    ensures
        dec_spec(enc_spec(url, user_id)) == Some((url, user_id)),
{
    let s = enc_spec(url, user_id);
    let rest1 = wire_mid() + esc(user_id) + seq!['"'] + seq!['}'];
    assert(s.take(wire_pre().len() as int) =~= wire_pre());
    assert(is_prefix_of(wire_pre(), s));
    assert(s.skip(wire_pre().len() as int) =~= esc(url) + seq!['"'] + rest1);
    lemma_scan_esc(url, rest1);
    assert(rest1.take(wire_mid().len() as int) =~= wire_mid());
    assert(is_prefix_of(wire_mid(), rest1));
    assert(rest1.skip(wire_mid().len() as int) =~= esc(user_id) + seq!['"'] + seq!['}']);
    lemma_scan_esc(user_id, seq!['}']);
}

} // verus!
