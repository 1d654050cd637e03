//! The on-disk form of the preferences record.
//!
//! The record is stored as a pretty-printed JSON object with stable
//! camel-case keys; the two optional overrides are written only when set.
//! The encoder pins every character of the document. The decoder accepts
//! the document form with any whitespace and key order, tolerates unknown
//! scalar fields, and treats anything else as corrupt, which the loading
//! rule turns into the all-default record.

use vstd::prelude::*;

use crate::prefs::{HubPreferences, PrefsView};

verus! {

/// The lower-case hexadecimal digit of `n`.
pub open spec fn hex_digit_char(n: int) -> char {
    if n == 0 {
        '0'
    } else if n == 1 {
        '1'
    } else if n == 2 {
        '2'
    } else if n == 3 {
        '3'
    } else if n == 4 {
        '4'
    } else if n == 5 {
        '5'
    } else if n == 6 {
        '6'
    } else if n == 7 {
        '7'
    } else if n == 8 {
        '8'
    } else if n == 9 {
        '9'
    } else if n == 10 {
        'a'
    } else if n == 11 {
        'b'
    } else if n == 12 {
        'c'
    } else if n == 13 {
        'd'
    } else if n == 14 {
        'e'
    } else {
        'f'
    }
}

/// How one character appears inside a JSON string: itself, a named escape,
/// or a `\u00..` escape for the remaining control characters.
pub open spec fn escape_char(c: char) -> Seq<char> {
    if c == '"' {
        seq!['\\', '"']
    } else if c == '\\' {
        seq!['\\', '\\']
    } else if c == '\u{8}' {
        seq!['\\', 'b']
    } else if c == '\u{c}' {
        seq!['\\', 'f']
    } else if c == '\n' {
        seq!['\\', 'n']
    } else if c == '\r' {
        seq!['\\', 'r']
    } else if c == '\t' {
        seq!['\\', 't']
    } else if (c as u32) < 0x20 {
        seq!['\\', 'u', '0', '0', hex_digit_char((c as u32) as int / 16), hex_digit_char(
            (c as u32) as int % 16,
        )]
    } else {
        seq![c]
    }
}

/// A string as it appears between the quotes of a JSON string.
pub open spec fn json_escaped(s: Seq<char>) -> Seq<char>
    decreases s.len(),
{
    if s.len() == 0 {
        s
    } else {
        escape_char(s[0]) + json_escaped(s.drop_first())
    }
}

/// The text of a JSON boolean.
pub open spec fn bool_text(b: bool) -> Seq<char> {
    if b {
        "true"@
    } else {
        "false"@
    }
}

/// The full preferences document for a record: every flag always, each
/// override only when set, keys in declaration order, two-space indent.
pub open spec fn encode_prefs(v: PrefsView) -> Seq<char> {
    "{\n  \"openOnStartup\": "@ + bool_text(v.open_on_startup) + ",\n  \"closeToTray\": "@
        + bool_text(v.close_to_tray) + ",\n  \"minimizeToTray\": "@ + bool_text(v.minimize_to_tray)
        + (match v.install_dir {
        Some(d) => ",\n  \"installDir\": \""@ + json_escaped(d) + "\""@,
        None => Seq::empty(),
    }) + (match v.installer_type {
        Some(t) => ",\n  \"installerType\": \""@ + json_escaped(t) + "\""@,
        None => Seq::empty(),
    }) + "\n}"@
}

/// Escaping distributes over extending the string by one character.
proof fn lemma_escaped_push(s: Seq<char>, c: char)
    ensures
        json_escaped(s.push(c)) == json_escaped(s) + escape_char(c),
    decreases s.len(),
{
    if s.len() == 0 {
        assert(s.push(c)[0] == c);
        assert(s.push(c).drop_first() =~= s);
        assert(json_escaped(s.push(c)) == escape_char(c) + json_escaped(s));
        assert(escape_char(c) + json_escaped(s) =~= escape_char(c));
        assert(json_escaped(s) + escape_char(c) =~= escape_char(c));
    } else {
        assert(s.push(c)[0] == s[0]);
        assert(s.push(c).drop_first() =~= s.drop_first().push(c));
        lemma_escaped_push(s.drop_first(), c);
        assert(json_escaped(s.push(c)) == escape_char(s[0]) + (json_escaped(s.drop_first())
            + escape_char(c)));
        assert(escape_char(s[0]) + (json_escaped(s.drop_first()) + escape_char(c)) =~= (escape_char(
            s[0],
        ) + json_escaped(s.drop_first())) + escape_char(c));
    }
}

/// Append the lower-case hexadecimal digit of `n`.
fn append_hex_digit(acc: &mut String, n: u32)
    requires
        n < 16,
    ensures
        final(acc)@ == old(acc)@ + seq![hex_digit_char(n as int)],
{
    if n == 0 {
        proof {
            reveal_strlit("0");
        }
        acc.append("0");
    } else if n == 1 {
        proof {
            reveal_strlit("1");
        }
        acc.append("1");
    } else if n == 2 {
        proof {
            reveal_strlit("2");
        }
        acc.append("2");
    } else if n == 3 {
        proof {
            reveal_strlit("3");
        }
        acc.append("3");
    } else if n == 4 {
        proof {
            reveal_strlit("4");
        }
        acc.append("4");
    } else if n == 5 {
        proof {
            reveal_strlit("5");
        }
        acc.append("5");
    } else if n == 6 {
        proof {
            reveal_strlit("6");
        }
        acc.append("6");
    } else if n == 7 {
        proof {
            reveal_strlit("7");
        }
        acc.append("7");
    } else if n == 8 {
        proof {
            reveal_strlit("8");
        }
        acc.append("8");
    } else if n == 9 {
        proof {
            reveal_strlit("9");
        }
        acc.append("9");
    } else if n == 10 {
        proof {
            reveal_strlit("a");
        }
        acc.append("a");
    } else if n == 11 {
        proof {
            reveal_strlit("b");
        }
        acc.append("b");
    } else if n == 12 {
        proof {
            reveal_strlit("c");
        }
        acc.append("c");
    } else if n == 13 {
        proof {
            reveal_strlit("d");
        }
        acc.append("d");
    } else if n == 14 {
        proof {
            reveal_strlit("e");
        }
        acc.append("e");
    } else {
        proof {
            reveal_strlit("f");
        }
        acc.append("f");
    }
    proof {
        assert(final(acc)@ =~= old(acc)@ + seq![hex_digit_char(n as int)]);
    }
}

/// Append `s` in its escaped JSON-string form.
fn append_escaped(out: &mut String, s: &str)
    ensures
        final(out)@ == old(out)@ + json_escaped(s@),
{
    let n = s.unicode_len();
    let mut acc = String::new();
    let mut i: usize = 0;
    while i < n
        invariant
            i <= n,
            n == s@.len(),
            acc@ == json_escaped(s@.subrange(0, i as int)),
        decreases n - i,
    {
        let c = s.get_char(i);
        if c == '"' {
            proof {
                reveal_strlit("\\\"");
            }
            acc.append("\\\"");
            proof {
                assert(acc@ =~= json_escaped(s@.subrange(0, i as int)) + escape_char(c));
            }
        } else if c == '\\' {
            proof {
                reveal_strlit("\\\\");
            }
            acc.append("\\\\");
            proof {
                assert(acc@ =~= json_escaped(s@.subrange(0, i as int)) + escape_char(c));
            }
        } else if c == '\u{8}' {
            proof {
                reveal_strlit("\\b");
            }
            acc.append("\\b");
            proof {
                assert(acc@ =~= json_escaped(s@.subrange(0, i as int)) + escape_char(c));
            }
        } else if c == '\u{c}' {
            proof {
                reveal_strlit("\\f");
            }
            acc.append("\\f");
            proof {
                assert(acc@ =~= json_escaped(s@.subrange(0, i as int)) + escape_char(c));
            }
        } else if c == '\n' {
            proof {
                reveal_strlit("\\n");
            }
            acc.append("\\n");
            proof {
                assert(acc@ =~= json_escaped(s@.subrange(0, i as int)) + escape_char(c));
            }
        } else if c == '\r' {
            proof {
                reveal_strlit("\\r");
            }
            acc.append("\\r");
            proof {
                assert(acc@ =~= json_escaped(s@.subrange(0, i as int)) + escape_char(c));
            }
        } else if c == '\t' {
            proof {
                reveal_strlit("\\t");
            }
            acc.append("\\t");
            proof {
                assert(acc@ =~= json_escaped(s@.subrange(0, i as int)) + escape_char(c));
            }
        } else {
            let code = c as u32;
            if code < 0x20 {
                proof {
                    reveal_strlit("\\u00");
                }
                acc.append("\\u00");
                if code < 16 {
                    proof {
                        reveal_strlit("0");
                    }
                    acc.append("0");
                } else {
                    proof {
                        reveal_strlit("1");
                    }
                    acc.append("1");
                }
                append_hex_digit(&mut acc, code % 16);
                proof {
                    assert(acc@ =~= json_escaped(s@.subrange(0, i as int)) + escape_char(c));
                }
            } else {
                acc.append(s.substring_char(i, i + 1));
                proof {
                    assert(s@.subrange(i as int, i as int + 1) =~= seq![s@[i as int]]);
                    assert(acc@ =~= json_escaped(s@.subrange(0, i as int)) + escape_char(c));
                }
            }
        }
        proof {
            assert(s@.subrange(0, i as int + 1) =~= s@.subrange(0, i as int).push(s@[i as int]));
            lemma_escaped_push(s@.subrange(0, i as int), s@[i as int]);
        }
        i = i + 1;
    }
    proof {
        assert(s@.subrange(0, n as int) =~= s@);
    }
    out.append(acc.as_str());
}

/// Serialize a preferences record to its full document text. Every one of
/// the record's fields that is set is written; nothing else is.
#[verifier::rlimit(60)]
pub fn encode_preferences(p: &HubPreferences) -> (r: String)
    ensures
        r@ == encode_prefs(p@),
{
    let mut r = String::from_str("{\n  \"openOnStartup\": ");
    r.append(if p.open_on_startup {
        "true"
    } else {
        "false"
    });
    r.append(",\n  \"closeToTray\": ");
    r.append(if p.close_to_tray {
        "true"
    } else {
        "false"
    });
    r.append(",\n  \"minimizeToTray\": ");
    r.append(if p.minimize_to_tray {
        "true"
    } else {
        "false"
    });
    match &p.install_dir {
        Some(d) => {
            r.append(",\n  \"installDir\": \"");
            append_escaped(&mut r, d.as_str());
            r.append("\"");
        },
        None => {},
    }
    match &p.installer_type {
        Some(t) => {
            r.append(",\n  \"installerType\": \"");
            append_escaped(&mut r, t.as_str());
            r.append("\"");
        },
        None => {},
    }
    r.append("\n}");
    proof {
        assert(r@ =~= encode_prefs(p@));
    }
    r
}

/// JSON whitespace.
pub open spec fn is_ws(c: char) -> bool {
    c == ' ' || c == '\t' || c == '\n' || c == '\r'
}

/// The control character with code `v`.
pub open spec fn control_char(v: int) -> char {
    if v == 0 {
        '\u{0}'
    } else if v == 1 {
        '\u{1}'
    } else if v == 2 {
        '\u{2}'
    } else if v == 3 {
        '\u{3}'
    } else if v == 4 {
        '\u{4}'
    } else if v == 5 {
        '\u{5}'
    } else if v == 6 {
        '\u{6}'
    } else if v == 7 {
        '\u{7}'
    } else if v == 8 {
        '\u{8}'
    } else if v == 9 {
        '\u{9}'
    } else if v == 10 {
        '\u{a}'
    } else if v == 11 {
        '\u{b}'
    } else if v == 12 {
        '\u{c}'
    } else if v == 13 {
        '\u{d}'
    } else if v == 14 {
        '\u{e}'
    } else if v == 15 {
        '\u{f}'
    } else if v == 16 {
        '\u{10}'
    } else if v == 17 {
        '\u{11}'
    } else if v == 18 {
        '\u{12}'
    } else if v == 19 {
        '\u{13}'
    } else if v == 20 {
        '\u{14}'
    } else if v == 21 {
        '\u{15}'
    } else if v == 22 {
        '\u{16}'
    } else if v == 23 {
        '\u{17}'
    } else if v == 24 {
        '\u{18}'
    } else if v == 25 {
        '\u{19}'
    } else if v == 26 {
        '\u{1a}'
    } else if v == 27 {
        '\u{1b}'
    } else if v == 28 {
        '\u{1c}'
    } else if v == 29 {
        '\u{1d}'
    } else if v == 30 {
        '\u{1e}'
    } else {
        '\u{1f}'
    }
}

/// Append the control character with code `v`.
fn append_control(acc: &mut String, v: u32)
    requires
        v < 0x20,
    ensures
        final(acc)@ == old(acc)@.push(control_char(v as int)),
{
    if v == 0 {
        proof {
            reveal_strlit("\u{0}");
        }
        acc.append("\u{0}");
    } else if v == 1 {
        proof {
            reveal_strlit("\u{1}");
        }
        acc.append("\u{1}");
    } else if v == 2 {
        proof {
            reveal_strlit("\u{2}");
        }
        acc.append("\u{2}");
    } else if v == 3 {
        proof {
            reveal_strlit("\u{3}");
        }
        acc.append("\u{3}");
    } else if v == 4 {
        proof {
            reveal_strlit("\u{4}");
        }
        acc.append("\u{4}");
    } else if v == 5 {
        proof {
            reveal_strlit("\u{5}");
        }
        acc.append("\u{5}");
    } else if v == 6 {
        proof {
            reveal_strlit("\u{6}");
        }
        acc.append("\u{6}");
    } else if v == 7 {
        proof {
            reveal_strlit("\u{7}");
        }
        acc.append("\u{7}");
    } else if v == 8 {
        proof {
            reveal_strlit("\u{8}");
        }
        acc.append("\u{8}");
    } else if v == 9 {
        proof {
            reveal_strlit("\u{9}");
        }
        acc.append("\u{9}");
    } else if v == 10 {
        proof {
            reveal_strlit("\u{a}");
        }
        acc.append("\u{a}");
    } else if v == 11 {
        proof {
            reveal_strlit("\u{b}");
        }
        acc.append("\u{b}");
    } else if v == 12 {
        proof {
            reveal_strlit("\u{c}");
        }
        acc.append("\u{c}");
    } else if v == 13 {
        proof {
            reveal_strlit("\u{d}");
        }
        acc.append("\u{d}");
    } else if v == 14 {
        proof {
            reveal_strlit("\u{e}");
        }
        acc.append("\u{e}");
    } else if v == 15 {
        proof {
            reveal_strlit("\u{f}");
        }
        acc.append("\u{f}");
    } else if v == 16 {
        proof {
            reveal_strlit("\u{10}");
        }
        acc.append("\u{10}");
    } else if v == 17 {
        proof {
            reveal_strlit("\u{11}");
        }
        acc.append("\u{11}");
    } else if v == 18 {
        proof {
            reveal_strlit("\u{12}");
        }
        acc.append("\u{12}");
    } else if v == 19 {
        proof {
            reveal_strlit("\u{13}");
        }
        acc.append("\u{13}");
    } else if v == 20 {
        proof {
            reveal_strlit("\u{14}");
        }
        acc.append("\u{14}");
    } else if v == 21 {
        proof {
            reveal_strlit("\u{15}");
        }
        acc.append("\u{15}");
    } else if v == 22 {
        proof {
            reveal_strlit("\u{16}");
        }
        acc.append("\u{16}");
    } else if v == 23 {
        proof {
            reveal_strlit("\u{17}");
        }
        acc.append("\u{17}");
    } else if v == 24 {
        proof {
            reveal_strlit("\u{18}");
        }
        acc.append("\u{18}");
    } else if v == 25 {
        proof {
            reveal_strlit("\u{19}");
        }
        acc.append("\u{19}");
    } else if v == 26 {
        proof {
            reveal_strlit("\u{1a}");
        }
        acc.append("\u{1a}");
    } else if v == 27 {
        proof {
            reveal_strlit("\u{1b}");
        }
        acc.append("\u{1b}");
    } else if v == 28 {
        proof {
            reveal_strlit("\u{1c}");
        }
        acc.append("\u{1c}");
    } else if v == 29 {
        proof {
            reveal_strlit("\u{1d}");
        }
        acc.append("\u{1d}");
    } else if v == 30 {
        proof {
            reveal_strlit("\u{1e}");
        }
        acc.append("\u{1e}");
    } else {
        proof {
            reveal_strlit("\u{1f}");
        }
        acc.append("\u{1f}");
    }
    proof {
        assert(final(acc)@ =~= old(acc)@.push(control_char(v as int)));
    }
}

/// Compare two strings by content.
fn str_eq(a: &str, b: &str) -> (r: bool)
    ensures
        r == (a@ == b@),
{
    let n = a.unicode_len();
    let m = b.unicode_len();
    if n != m {
        return false;
    }
    let mut i: usize = 0;
    while i < n
        invariant
            i <= n,
            n == a@.len(),
            n == b@.len(),
            forall|k: int| 0 <= k < i ==> a@[k] == b@[k],
        decreases n - i,
    {
        if a.get_char(i) != b.get_char(i) {
            return false;
        }
        i = i + 1;
    }
    proof {
        assert(a@ =~= b@);
    }
    true
}

/// The first position at or after `i` that holds no whitespace.
fn skip_ws(s: &str, i: usize) -> (j: usize)
    requires
        i <= s@.len(),
    ensures
        i <= j <= s@.len(),
        forall|k: int| i <= k < j ==> is_ws(s@[k]),
        j < s@.len() ==> !is_ws(s@[j as int]),
{
    let n = s.unicode_len();
    let mut j = i;
    while j < n
        invariant
            i <= j <= n,
            n == s@.len(),
            forall|k: int| i <= k < j ==> is_ws(s@[k]),
        decreases n - j,
    {
        let c = s.get_char(j);
        if c == ' ' || c == '\t' || c == '\n' || c == '\r' {
            j = j + 1;
        } else {
            return j;
        }
    }
    j
}

/// The value of a hexadecimal digit.
fn hex_val(c: char) -> (r: Option<u32>)
    ensures
        r matches Some(v) ==> v < 16,
        48 <= c as u32 <= 57 ==> (r matches Some(v) && v == c as u32 - 48),
        97 <= c as u32 <= 102 ==> (r matches Some(v) && v == c as u32 - 87),
        65 <= c as u32 <= 70 ==> (r matches Some(v) && v == c as u32 - 55),
{
    if '0' <= c && c <= '9' {
        Some(c as u32 - '0' as u32)
    } else if 'a' <= c && c <= 'f' {
        Some(c as u32 - 'a' as u32 + 10)
    } else if 'A' <= c && c <= 'F' {
        Some(c as u32 - 'A' as u32 + 10)
    } else {
        None
    }
}

/// Parse the JSON string starting with the quote at `i`; the result is the
/// unescaped content and the position after the closing quote. A `\u`
/// escape is honoured only for code points below `0x20`, the ones the
/// encoder writes; any other `\u` escape counts as corrupt.
fn parse_string(s: &str, i: usize) -> (r: Option<(String, usize)>)
    requires
        i <= s@.len(),
    ensures
        r matches Some(p) ==> i < p.1 <= s@.len(),
{
    let n = s.unicode_len();
    if i >= n || s.get_char(i) != '"' {
        return None;
    }
    let mut acc = String::new();
    let mut pos = i + 1;
    loop
        invariant
            i < pos <= n,
            n == s@.len(),
        decreases n - pos,
    {
        if pos >= n {
            return None;
        }
        let c = s.get_char(pos);
        if c == '"' {
            return Some((acc, pos + 1));
        }
        if c == '\\' {
            if pos + 1 >= n {
                return None;
            }
            let e = s.get_char(pos + 1);
            if e == '"' {
                acc.append("\"");
                pos = pos + 2;
            } else if e == '\\' {
                acc.append("\\");
                pos = pos + 2;
            } else if e == '/' {
                acc.append("/");
                pos = pos + 2;
            } else if e == 'b' {
                acc.append("\u{8}");
                pos = pos + 2;
            } else if e == 'f' {
                acc.append("\u{c}");
                pos = pos + 2;
            } else if e == 'n' {
                acc.append("\n");
                pos = pos + 2;
            } else if e == 'r' {
                acc.append("\r");
                pos = pos + 2;
            } else if e == 't' {
                acc.append("\t");
                pos = pos + 2;
            } else if e == 'u' {
                if n - pos < 6 {
                    return None;
                }
                if s.get_char(pos + 2) != '0' || s.get_char(pos + 3) != '0' {
                    return None;
                }
                let hi = match hex_val(s.get_char(pos + 4)) {
                    Some(v) => v,
                    None => {
                        return None;
                    },
                };
                let lo = match hex_val(s.get_char(pos + 5)) {
                    Some(v) => v,
                    None => {
                        return None;
                    },
                };
                let v = hi * 16 + lo;
                if v >= 0x20 {
                    return None;
                }
                append_control(&mut acc, v);
                pos = pos + 6;
            } else {
                return None;
            }
        } else {
            acc.append(s.substring_char(pos, pos + 1));
            pos = pos + 1;
        }
    }
}

/// Recognize `true` or `false` at `i`.
fn parse_bool(s: &str, i: usize) -> (r: Option<(bool, usize)>)
    requires
        i <= s@.len(),
    ensures
        r matches Some(p) ==> i < p.1 <= s@.len(),
        i + 4 <= s@.len() && s@.subrange(i as int, i + 4) == "true"@ ==> (r matches Some(pr)
            && pr.0 == true && pr.1 == i + 4),
        i + 5 <= s@.len() && s@.subrange(i as int, i + 5) == "false"@ ==> (r matches Some(pr)
            && pr.0 == false && pr.1 == i + 5),
{
    proof {
        reveal_strlit("true");
        reveal_strlit("false");
        if i + 4 <= s@.len() && s@.subrange(i as int, i + 4) == "true"@ {
            assert(s@[i as int] == s@.subrange(i as int, i + 4)[0]);
            assert(s@[i as int + 1] == s@.subrange(i as int, i + 4)[1]);
            assert(s@[i as int + 2] == s@.subrange(i as int, i + 4)[2]);
            assert(s@[i as int + 3] == s@.subrange(i as int, i + 4)[3]);
        }
        if i + 5 <= s@.len() && s@.subrange(i as int, i + 5) == "false"@ {
            assert(s@[i as int] == s@.subrange(i as int, i + 5)[0]);
            assert(s@[i as int + 1] == s@.subrange(i as int, i + 5)[1]);
            assert(s@[i as int + 2] == s@.subrange(i as int, i + 5)[2]);
            assert(s@[i as int + 3] == s@.subrange(i as int, i + 5)[3]);
            assert(s@[i as int + 4] == s@.subrange(i as int, i + 5)[4]);
        }
    }
    let n = s.unicode_len();
    if i < n && n - i >= 4 && s.get_char(i) == 't' && s.get_char(i + 1) == 'r' && s.get_char(i + 2)
        == 'u' && s.get_char(i + 3) == 'e' {
        Some((true, i + 4))
    } else if i < n && n - i >= 5 && s.get_char(i) == 'f' && s.get_char(i + 1) == 'a' && s.get_char(
        i + 2,
    ) == 'l' && s.get_char(i + 3) == 's' && s.get_char(i + 4) == 'e' {
        Some((false, i + 5))
    } else {
        None
    }
}

/// Recognize `null` at `i`.
fn parse_null(s: &str, i: usize) -> (r: Option<usize>)
    requires
        i <= s@.len(),
    ensures
        r matches Some(j) ==> i < j <= s@.len(),
{
    let n = s.unicode_len();
    if i < n && n - i >= 4 && s.get_char(i) == 'n' && s.get_char(i + 1) == 'u' && s.get_char(i + 2)
        == 'l' && s.get_char(i + 3) == 'l' {
        Some(i + 4)
    } else {
        None
    }
}

/// Skip over a JSON number at `i`, loosely: a sign or digit followed by any
/// run of number characters.
fn skip_number(s: &str, i: usize) -> (r: Option<usize>)
    requires
        i <= s@.len(),
    ensures
        r matches Some(j) ==> i < j <= s@.len(),
{
    let n = s.unicode_len();
    if i >= n {
        return None;
    }
    let c = s.get_char(i);
    if !(c == '-' || ('0' <= c && c <= '9')) {
        return None;
    }
    let mut j = i + 1;
    while j < n
        invariant
            i < j <= n,
            n == s@.len(),
        decreases n - j,
    {
        let c = s.get_char(j);
        if ('0' <= c && c <= '9') || c == '-' || c == '+' || c == '.' || c == 'e' || c == 'E' {
            j = j + 1;
        } else {
            return Some(j);
        }
    }
    Some(j)
}

/// Skip over an unknown scalar value (string, number, boolean or null).
/// A nested object or array is beyond the document form and is refused.
fn skip_scalar(s: &str, i: usize) -> (r: Option<usize>)
    requires
        i <= s@.len(),
    ensures
        r matches Some(j) ==> i < j <= s@.len(),
{
    match parse_string(s, i) {
        Some((_, j)) => {
            return Some(j);
        },
        None => {},
    }
    match parse_bool(s, i) {
        Some((_, j)) => {
            return Some(j);
        },
        None => {},
    }
    match parse_null(s, i) {
        Some(j) => {
            return Some(j);
        },
        None => {},
    }
    skip_number(s, i)
}

/// Characters with one code point are one character.
proof fn lemma_char_code_eq(a: char, b: char)
    requires
        a as u32 == b as u32,
    ensures
        a == b,
{
}

/// The escaped form of `content` stands at `i`, closed by a quote.
pub open spec fn escaped_at(s: Seq<char>, i: int, content: Seq<char>) -> bool {
    &&& 0 <= i
    &&& i + json_escaped(content).len() + 1 <= s.len()
    &&& s.subrange(i, i + json_escaped(content).len()) == json_escaped(content)
    &&& s[i + json_escaped(content).len()] == '"'
}

/// The single character a two-character named escape stands for.
fn unescape_named(e: char) -> (r: Option<&'static str>)
    ensures
        r matches Some(t) ==> t@.len() == 1 && escape_char(t@[0]) =~= seq!['\\', e],
        r is None ==> forall|x: char| escape_char(x) !~= seq!['\\', e],
{
    let r: Option<&'static str> = if e == '"' {
        proof {
            reveal_strlit("\"");
        }
        Some("\"")
    } else if e == '\\' {
        proof {
            reveal_strlit("\\");
        }
        Some("\\")
    } else if e == 'b' {
        proof {
            reveal_strlit("\u{8}");
        }
        Some("\u{8}")
    } else if e == 'f' {
        proof {
            reveal_strlit("\u{c}");
        }
        Some("\u{c}")
    } else if e == 'n' {
        proof {
            reveal_strlit("\n");
        }
        Some("\n")
    } else if e == 'r' {
        proof {
            reveal_strlit("\r");
        }
        Some("\r")
    } else if e == 't' {
        proof {
            reveal_strlit("\t");
        }
        Some("\t")
    } else {
        None
    };
    proof {
        if r is None {
            assert forall|x: char| escape_char(x) !~= seq!['\\', e] by {
                if escape_char(x) =~= seq!['\\', e] {
                    assert(escape_char(x).len() == 2);
                    assert(escape_char(x)[0] == '\\');
                    assert(escape_char(x)[1] == e);
                }
            }
        }
    }
    r
}

/// Read the escaped body of a string value up to and past its closing
/// quote, inverting the escaping the encoder applies: wherever the escaped
/// form of some content stands at `i`, exactly that content comes back.
fn read_string_body(s: &str, i: usize) -> (r: Option<(String, usize)>)
    requires
        i <= s@.len(),
    ensures
        r matches Some(pr) ==> i < pr.1 <= s@.len(),
        forall|content: Seq<char>|
            escaped_at(s@, i as int, content) ==> (r matches Some(pr) && pr.0@ == content && pr.1
                == i + json_escaped(content).len() + 1),
    decreases s@.len() - i,
{
    let n = s.unicode_len();
    if i >= n {
        proof {
            assert forall|content: Seq<char>| !escaped_at(s@, i as int, content) by {}
        }
        return None;
    }
    let c = s.get_char(i);
    proof {
        assert forall|content: Seq<char>|
            escaped_at(s@, i as int, content) && content.len() > 0 implies {
            &&& json_escaped(content) == escape_char(content[0]) + json_escaped(
                content.drop_first(),
            )
            &&& escape_char(content[0]).len() >= 1
            &&& s@[i as int] == escape_char(content[0])[0]
            &&& escaped_at(
                s@,
                i + escape_char(content[0]).len(),
                content.drop_first(),
            )
            &&& (escape_char(content[0]).len() >= 2 ==> s@[i as int + 1] == escape_char(
                content[0],
            )[1])
        } by {
            let u = escape_char(content[0]);
            let e = json_escaped(content);
            let rest = json_escaped(content.drop_first());
            assert(e == u + rest);
            assert(s@[i as int] == s@.subrange(i as int, i + e.len())[0]);
            assert(s@.subrange(i + u.len(), i + u.len() + rest.len()) =~= rest) by {
                assert forall|t: int| 0 <= t < rest.len() implies s@.subrange(
                    i + u.len(),
                    i + u.len() + rest.len(),
                )[t] == rest[t] by {
                    assert(s@.subrange(i as int, i + e.len())[u.len() + t] == e[u.len() + t]);
                }
            }
            assert(s@[i + u.len() + rest.len()] == '"');
            if u.len() >= 2 {
                assert(s@[i as int + 1] == s@.subrange(i as int, i + e.len())[1]);
            }
        }
    }
    if c == '"' {
        let r = Some((String::new(), i + 1));
        proof {
            assert forall|content: Seq<char>|
                escaped_at(s@, i as int, content) implies content =~= Seq::<char>::empty() by {
                if content.len() > 0 {
                    assert(s@[i as int] == escape_char(content[0])[0]);
                }
            }
        }
        return r;
    }
    if c == '\\' {
        if i + 1 >= n {
            proof {
                assert forall|content: Seq<char>| !escaped_at(s@, i as int, content) by {
                    if escaped_at(s@, i as int, content) {
                        assert(content.len() > 0);
                        assert(escape_char(content[0]).len() >= 2);
                    }
                }
            }
            return None;
        }
        let e = s.get_char(i + 1);
        proof {
            assert forall|content: Seq<char>|
                escaped_at(s@, i as int, content) implies content.len() > 0 && escape_char(
                content[0],
            ).len() >= 2 && escape_char(content[0])[0] == '\\' && escape_char(content[0])[1]
                == e by {
                assert(content.len() > 0);
            }
        }
        if e == 'u' {
            if n - i < 7 {
                proof {
                    assert forall|content: Seq<char>| !escaped_at(s@, i as int, content) by {
                        if escaped_at(s@, i as int, content) {
                            assert(escape_char(content[0]).len() == 6);
                        }
                    }
                }
                return None;
            }
            proof {
                assert forall|content: Seq<char>|
                    escaped_at(s@, i as int, content) implies escape_char(content[0]).len() == 6
                    && (content[0] as u32) < 0x20 && s@[i as int + 2] == '0' && s@[i as int + 3]
                    == '0' && s@[i as int + 4] == hex_digit_char((content[0] as u32) as int / 16)
                    && s@[i as int + 5] == hex_digit_char((content[0] as u32) as int % 16) by {
                    let u = escape_char(content[0]);
                    let e2 = json_escaped(content);
                    assert(s@[i as int + 2] == s@.subrange(i as int, i + e2.len())[2]);
                    assert(s@[i as int + 3] == s@.subrange(i as int, i + e2.len())[3]);
                    assert(s@[i as int + 4] == s@.subrange(i as int, i + e2.len())[4]);
                    assert(s@[i as int + 5] == s@.subrange(i as int, i + e2.len())[5]);
                }
            }
            if s.get_char(i + 2) != '0' || s.get_char(i + 3) != '0' {
                return None;
            }
            let hi = match hex_val(s.get_char(i + 4)) {
                Some(v) => v,
                None => {
                    proof {
                        assert forall|content: Seq<char>| !escaped_at(s@, i as int, content) by {
                            if escaped_at(s@, i as int, content) {
                                let d = (content[0] as u32) as int / 16;
                                assert(48 <= hex_digit_char(d) as u32 <= 57);
                            }
                        }
                    }
                    return None;
                },
            };
            let lo = match hex_val(s.get_char(i + 5)) {
                Some(v) => v,
                None => {
                    proof {
                        assert forall|content: Seq<char>| !escaped_at(s@, i as int, content) by {
                            if escaped_at(s@, i as int, content) {
                                let d = (content[0] as u32) as int % 16;
                                assert(48 <= hex_digit_char(d) as u32 <= 57 || 97 <= hex_digit_char(
                                    d,
                                ) as u32 <= 102);
                            }
                        }
                    }
                    return None;
                },
            };
            let v = hi * 16 + lo;
            proof {
                assert forall|content: Seq<char>|
                    escaped_at(s@, i as int, content) implies content[0] == control_char(
                    v as int,
                ) && v < 0x20 by {
                    let u = escape_char(content[0]);
                    let e2 = json_escaped(content);
                    if content.len() == 0 {
                        assert(s@[i as int] == '"');
                    }
                    assert(e2 == u + json_escaped(content.drop_first()));
                    assert(s@[i as int] == s@.subrange(i as int, i + e2.len())[0]);
                    assert(u[0] == '\\');
                    assert(u.len() >= 2);
                    assert(s@[i as int + 1] == s@.subrange(i as int, i + e2.len())[1]);
                    assert(u[1] == 'u');
                    let code = (content[0] as u32) as int;
                    assert(code < 0x20);
                    assert(u.len() == 6);
                    assert(u[4] == hex_digit_char(code / 16) && u[5] == hex_digit_char(code % 16));
                    assert(s@[i as int + 4] == s@.subrange(i as int, i + e2.len())[4]);
                    assert(s@[i as int + 5] == s@.subrange(i as int, i + e2.len())[5]);
                    assert(0 <= code / 16 <= 1);
                    assert(48 <= hex_digit_char(code / 16) as u32 <= 57);
                    assert(hi == code / 16);
                    assert(0 <= code % 16 <= 15);
                    assert(48 <= hex_digit_char(code % 16) as u32 <= 57 || 97 <= hex_digit_char(
                        code % 16,
                    ) as u32 <= 102);
                    assert(lo == code % 16);
                    assert(v == code);
                    assert(control_char(code) as u32 == code);
                    assert(content[0] as u32 == v);
                    assert(control_char(v as int) as u32 == v);
                    lemma_char_code_eq(content[0], control_char(v as int));
                }
            }
            if v >= 0x20 {
                proof {
                    assert forall|content: Seq<char>| !escaped_at(s@, i as int, content) by {}
                }
                return None;
            }
            match read_string_body(s, i + 6) {
                Some((tail, end)) => {
                    let mut out = String::new();
                    append_control(&mut out, v);
                    out.append(tail.as_str());
                    proof {
                        assert forall|content: Seq<char>|
                            escaped_at(s@, i as int, content) implies out@ == content && end == i
                            + json_escaped(content).len() + 1 by {
                            assert(escaped_at(s@, i + 6, content.drop_first()));
                            assert(out@ =~= content);
                        }
                    }
                    return Some((out, end));
                },
                None => {
                    proof {
                        assert forall|content: Seq<char>| !escaped_at(s@, i as int, content) by {
                            if escaped_at(s@, i as int, content) {
                                assert(escaped_at(s@, i + 6, content.drop_first()));
                            }
                        }
                    }
                    return None;
                },
            }
        }
        match unescape_named(e) {
            Some(lit) => {
                proof {
                    assert forall|content: Seq<char>|
                        escaped_at(s@, i as int, content) implies content[0] == lit@[0]
                        && escape_char(content[0]).len() == 2 by {
                        assert(escape_char(content[0])[1] == e);
                        assert(escape_char(content[0]) =~= seq!['\\', e]);
                        assert(escape_char(lit@[0]) =~= seq!['\\', e]);
                        assert(content[0] == lit@[0]) by {
                            if content[0] != lit@[0] {
                                assert(escape_char(content[0]) == escape_char(lit@[0]));
                            }
                        }
                    }
                }
                match read_string_body(s, i + 2) {
                    Some((tail, end)) => {
                        let mut out = String::from_str(lit);
                        out.append(tail.as_str());
                        proof {
                            assert forall|content: Seq<char>|
                                escaped_at(s@, i as int, content) implies out@ == content && end
                                == i + json_escaped(content).len() + 1 by {
                                assert(escaped_at(s@, i + 2, content.drop_first()));
                                assert(out@ =~= content);
                            }
                        }
                        Some((out, end))
                    },
                    None => {
                        proof {
                            assert forall|content: Seq<char>| !escaped_at(s@, i as int, content) by {
                                if escaped_at(s@, i as int, content) {
                                    assert(escaped_at(s@, i + 2, content.drop_first()));
                                }
                            }
                        }
                        None
                    },
                }
            },
            None => {
                proof {
                    assert forall|content: Seq<char>| !escaped_at(s@, i as int, content) by {
                        if escaped_at(s@, i as int, content) {
                            assert(escape_char(content[0]) =~= seq!['\\', e]);
                        }
                    }
                }
                None
            },
        }
    } else {
        proof {
            assert forall|content: Seq<char>|
                escaped_at(s@, i as int, content) implies content[0] == c && escape_char(
                content[0],
            ).len() == 1 by {
                assert(content.len() > 0);
                assert(escape_char(content[0])[0] == c);
            }
        }
        match read_string_body(s, i + 1) {
            Some((tail, end)) => {
                let mut out = String::from_str(s.substring_char(i, i + 1));
                out.append(tail.as_str());
                proof {
                    assert(out@ == seq![c] + tail@) by {
                        assert(s@.subrange(i as int, i as int + 1) =~= seq![c]);
                        assert(seq![c] + tail@ =~= out@);
                    }
                    assert forall|content: Seq<char>|
                        escaped_at(s@, i as int, content) implies out@ == content && end == i
                        + json_escaped(content).len() + 1 by {
                        assert(escaped_at(s@, i + 1, content.drop_first()));
                        assert(out@ =~= content);
                    }
                }
                Some((out, end))
            },
            None => {
                proof {
                    assert forall|content: Seq<char>| !escaped_at(s@, i as int, content) by {
                        if escaped_at(s@, i as int, content) {
                            assert(escaped_at(s@, i + 1, content.drop_first()));
                        }
                    }
                }
                None
            },
        }
    }
}

/// Match the exact text of `lit` at position `i`.
fn expect_lit(s: &str, i: usize, lit: &str) -> (r: Option<usize>)
    requires
        i <= s@.len(),
    ensures
        r matches Some(j) ==> j == i + lit@.len() && j <= s@.len() && s@.subrange(
            i as int,
            j as int,
        ) == lit@,
        r is None ==> !(i + lit@.len() <= s@.len() && s@.subrange(i as int, i + lit@.len())
            == lit@),
{
    let n = s.unicode_len();
    let m = lit.unicode_len();
    if n - i < m {
        return None;
    }
    let mut k: usize = 0;
    while k < m
        invariant
            k <= m,
            i + m <= n,
            n == s@.len(),
            m == lit@.len(),
            forall|t: int| 0 <= t < k ==> s@[i + t] == lit@[t],
        decreases m - k,
    {
        if s.get_char(i + k) != lit.get_char(k) {
            proof {
                assert(s@.subrange(i as int, i + lit@.len())[k as int] != lit@[k as int]);
            }
            return None;
        }
        k = k + 1;
    }
    proof {
        assert(s@.subrange(i as int, i + lit@.len()) =~= lit@);
    }
    Some(i + m)
}

/// The offset at which the optional segments of a document begin: past the
/// three flag fields.
pub open spec fn flags_end(p: PrefsView) -> int {
    62 + (bool_text(p.open_on_startup).len() + bool_text(p.close_to_tray).len() + bool_text(
        p.minimize_to_tray,
    ).len()) as int
}

/// The length of the `installDir` segment of a document.
pub open spec fn dir_seg_len(v: Option<Seq<char>>) -> int {
    match v {
        Some(d) => 20 + json_escaped(d).len() as int,
        None => 0,
    }
}

/// The length of the `installerType` segment of a document.
pub open spec fn type_seg_len(v: Option<Seq<char>>) -> int {
    match v {
        Some(t) => 23 + json_escaped(t).len() as int,
        None => 0,
    }
}

/// How the document of a record slices into its segments.
#[verifier::rlimit(100)]
proof fn lemma_canonical_slices(s: Seq<char>, p: PrefsView)
    requires
        s == encode_prefs(p),
    ensures
        ({
            let l1 = "{\n  \"openOnStartup\": "@;
            let l2 = ",\n  \"closeToTray\": "@;
            let l3 = ",\n  \"minimizeToTray\": "@;
            let ld = ",\n  \"installDir\": \""@;
            let lt = ",\n  \"installerType\": \""@;
            let l4 = "\n}"@;
            let o = bool_text(p.open_on_startup);
            let c = bool_text(p.close_to_tray);
            let m = bool_text(p.minimize_to_tray);
            let fe = flags_end(p);
            let ds = dir_seg_len(p.install_dir);
            let ts = type_seg_len(p.installer_type);
            &&& s.len() == fe + ds + ts + 2
            &&& s.subrange(0, 21) == l1
            &&& s.subrange(21, 21 + o.len() as int) == o
            &&& s.subrange(21 + o.len() as int, 40 + o.len() as int) == l2
            &&& s.subrange(40 + o.len() as int, 40 + (o.len() + c.len()) as int) == c
            &&& s.subrange(40 + (o.len() + c.len()) as int, 62 + (o.len() + c.len()) as int) == l3
            &&& s.subrange(62 + (o.len() + c.len()) as int, fe) == m
            &&& (p.install_dir matches Some(d) ==> s.subrange(fe, fe + 19) == ld && s.subrange(
                fe + 19,
                fe + 19 + json_escaped(d).len() as int,
            ) == json_escaped(d) && s[fe + 19 + json_escaped(d).len()] == '"')
            &&& (p.installer_type matches Some(t) ==> s.subrange(fe + ds, fe + ds + 22) == lt
                && s.subrange(fe + ds + 22, fe + ds + 22 + json_escaped(t).len() as int)
                == json_escaped(t) && s[fe + ds + 22 + json_escaped(t).len()] == '"')
            &&& s.subrange(fe + ds + ts, s.len() as int) == l4
            &&& l1.len() == 21
            &&& l2.len() == 19
            &&& l3.len() == 22
            &&& ld.len() == 19
            &&& lt.len() == 22
            &&& l4.len() == 2
            &&& o.len() == (if p.open_on_startup {
                4int
            } else {
                5int
            })
            &&& c.len() == (if p.close_to_tray {
                4int
            } else {
                5int
            })
            &&& m.len() == (if p.minimize_to_tray {
                4int
            } else {
                5int
            })
        }),
{
    reveal_strlit("{\n  \"openOnStartup\": ");
    reveal_strlit(",\n  \"closeToTray\": ");
    reveal_strlit(",\n  \"minimizeToTray\": ");
    reveal_strlit(",\n  \"installDir\": \"");
    reveal_strlit(",\n  \"installerType\": \"");
    reveal_strlit("\n}");
    reveal_strlit("\"");
    reveal_strlit("true");
    reveal_strlit("false");
    let l1 = "{\n  \"openOnStartup\": "@;
    let l2 = ",\n  \"closeToTray\": "@;
    let l3 = ",\n  \"minimizeToTray\": "@;
    let l4 = "\n}"@;
    let o = bool_text(p.open_on_startup);
    let c = bool_text(p.close_to_tray);
    let m = bool_text(p.minimize_to_tray);
    let fe = flags_end(p);
    let dseg = match p.install_dir {
        Some(d) => ",\n  \"installDir\": \""@ + json_escaped(d) + "\""@,
        None => Seq::<char>::empty(),
    };
    let tseg = match p.installer_type {
        Some(t) => ",\n  \"installerType\": \""@ + json_escaped(t) + "\""@,
        None => Seq::<char>::empty(),
    };
    assert(s =~= l1 + o + l2 + c + l3 + m + dseg + tseg + l4);
    assert(dseg.len() == dir_seg_len(p.install_dir));
    assert(tseg.len() == type_seg_len(p.installer_type));
    assert(s.subrange(0, 21) =~= l1);
    assert(s.subrange(21, 21 + o.len() as int) =~= o);
    assert(s.subrange(21 + o.len() as int, 40 + o.len() as int) =~= l2);
    assert(s.subrange(40 + o.len() as int, 40 + (o.len() + c.len()) as int) =~= c);
    assert(s.subrange(40 + (o.len() + c.len()) as int, 62 + (o.len() + c.len()) as int) =~= l3);
    assert(s.subrange(62 + (o.len() + c.len()) as int, fe) =~= m);
    match p.install_dir {
        Some(d) => {
            assert(s.subrange(fe, fe + 19) =~= ",\n  \"installDir\": \""@);
            assert(s.subrange(fe + 19, fe + 19 + json_escaped(d).len() as int) =~= json_escaped(d));
            assert(s[fe + 19 + json_escaped(d).len()] == dseg[19 + json_escaped(d).len() as int]);
            assert(dseg[19 + json_escaped(d).len() as int] == '"');
        },
        None => {},
    }
    match p.installer_type {
        Some(t) => {
            let ds = dir_seg_len(p.install_dir);
            assert(s.subrange(fe + ds, fe + ds + 22) =~= ",\n  \"installerType\": \""@);
            assert(s.subrange(fe + ds + 22, fe + ds + 22 + json_escaped(t).len() as int)
                =~= json_escaped(t));
            assert(s[fe + ds + 22 + json_escaped(t).len()] == tseg[22 + json_escaped(t).len() as int]);
            assert(tseg[22 + json_escaped(t).len() as int] == '"');
        },
        None => {},
    }
    assert(s.subrange(
        fe + dir_seg_len(p.install_dir) + type_seg_len(p.installer_type),
        s.len() as int,
    ) =~= l4);
}

/// No record has `s` as its document.
spec fn no_canonical_source(s: Seq<char>) -> bool {
    forall|p: PrefsView| s != encode_prefs(p)
}

/// What the matcher has established after the three flag fields: each
/// recognized boolean pins the value read and the position reached.
spec fn early_pins(
    s: Seq<char>,
    b1: bool,
    i1: int,
    i2: int,
    b2: bool,
    i3: int,
    i4: int,
    b3: bool,
    i5: int,
) -> bool {
    &&& (25 <= s.len() && s.subrange(21, 25) == "true"@ ==> b1 == true && i1 == 25)
    &&& (26 <= s.len() && s.subrange(21, 26) == "false"@ ==> b1 == false && i1 == 26)
    &&& i2 == i1 + 19
    &&& (i2 + 4 <= s.len() && s.subrange(i2, i2 + 4) == "true"@ ==> b2 == true && i3 == i2 + 4)
    &&& (i2 + 5 <= s.len() && s.subrange(i2, i2 + 5) == "false"@ ==> b2 == false && i3 == i2 + 5)
    &&& i4 == i3 + 22
    &&& (i4 + 4 <= s.len() && s.subrange(i4, i4 + 4) == "true"@ ==> b3 == true && i5 == i4 + 4)
    &&& (i4 + 5 <= s.len() && s.subrange(i4, i4 + 5) == "false"@ ==> b3 == false && i5 == i4 + 5)
}

/// What the matcher has established about the `installDir` segment.
spec fn dir_pins(s: Seq<char>, i5: int, took: bool, dval: Option<Seq<char>>, i7: int) -> bool {
    &&& (took ==> i5 + 19 <= s.len() && s.subrange(i5, i5 + 19) == ",\n  \"installDir\": \""@ && (
    forall|content: Seq<char>|
        #[trigger] escaped_at(s, i5 + 19, content) ==> (dval matches Some(x) && x == content && i7
            == i5 + 20 + json_escaped(content).len())))
    &&& (!took ==> !(i5 + 19 <= s.len() && s.subrange(i5, i5 + 19) == ",\n  \"installDir\": \""@)
        && dval is None && i7 == i5)
}

/// What the matcher has established about the `installerType` segment.
spec fn type_pins(s: Seq<char>, i7: int, took: bool, tval: Option<Seq<char>>, i8: int) -> bool {
    &&& (took ==> i7 + 22 <= s.len() && s.subrange(i7, i7 + 22) == ",\n  \"installerType\": \""@
        && (forall|content: Seq<char>|
        #[trigger] escaped_at(s, i7 + 22, content) ==> (tval matches Some(x) && x == content && i8
            == i7 + 23 + json_escaped(content).len())))
    &&& (!took ==> !(i7 + 22 <= s.len() && s.subrange(i7, i7 + 22)
        == ",\n  \"installerType\": \""@) && tval is None && i8 == i7)
}

/// A text that does not open with the first key is no document.
proof fn lemma_nc_head(s: Seq<char>)
    requires
        !(21 <= s.len() && s.subrange(0, 21) == "{\n  \"openOnStartup\": "@),
    ensures
        no_canonical_source(s),
{
    assert forall|p: PrefsView| s != encode_prefs(p) by {
        if s == encode_prefs(p) {
            lemma_canonical_slices(s, p);
        }
    }
}

/// A text whose first value is no boolean is no document.
proof fn lemma_nc_bool1(s: Seq<char>)
    requires
        !(25 <= s.len() && s.subrange(21, 25) == "true"@),
        !(26 <= s.len() && s.subrange(21, 26) == "false"@),
    ensures
        no_canonical_source(s),
{
    assert forall|p: PrefsView| s != encode_prefs(p) by {
        if s == encode_prefs(p) {
            lemma_canonical_slices(s, p);
            if p.open_on_startup {
                assert(s.subrange(21int, 25int) == "true"@);
            } else {
                assert(s.subrange(21int, 26int) == "false"@);
            }
        }
    }
}

/// Under any source document the second key follows at `i1`.
proof fn lemma_nc_lit2(s: Seq<char>, i1: int)
    requires
        25 <= s.len() && s.subrange(21, 25) == "true"@ ==> i1 == 25,
        26 <= s.len() && s.subrange(21, 26) == "false"@ ==> i1 == 26,
        !(i1 + 19 <= s.len() && s.subrange(i1, i1 + 19) == ",\n  \"closeToTray\": "@),
    ensures
        no_canonical_source(s),
{
    assert forall|p: PrefsView| s != encode_prefs(p) by {
        if s == encode_prefs(p) {
            lemma_canonical_slices(s, p);
            if p.open_on_startup {
                assert(s.subrange(21int, 25int) == "true"@);
            } else {
                assert(s.subrange(21int, 26int) == "false"@);
            }
            assert(i1 == 21 + bool_text(p.open_on_startup).len());
            assert(s.subrange(i1, i1 + 19) == ",\n  \"closeToTray\": "@);
        }
    }
}

/// A text whose second value is no boolean is no document.
proof fn lemma_nc_bool2(s: Seq<char>, i1: int, i2: int)
    requires
        25 <= s.len() && s.subrange(21, 25) == "true"@ ==> i1 == 25,
        26 <= s.len() && s.subrange(21, 26) == "false"@ ==> i1 == 26,
        i2 == i1 + 19,
        !(i2 + 4 <= s.len() && s.subrange(i2, i2 + 4) == "true"@),
        !(i2 + 5 <= s.len() && s.subrange(i2, i2 + 5) == "false"@),
    ensures
        no_canonical_source(s),
{
    assert forall|p: PrefsView| s != encode_prefs(p) by {
        if s == encode_prefs(p) {
            lemma_canonical_slices(s, p);
            if p.open_on_startup {
                assert(s.subrange(21int, 25int) == "true"@);
            } else {
                assert(s.subrange(21int, 26int) == "false"@);
            }
            assert(i2 == 21 + bool_text(p.open_on_startup).len() + 19);
            if p.close_to_tray {
                assert(s.subrange(i2, i2 + 4) == "true"@);
            } else {
                assert(s.subrange(i2, i2 + 5) == "false"@);
            }
        }
    }
}

/// Under any source document the third key follows at `i3`.
proof fn lemma_nc_lit3(s: Seq<char>, i1: int, i2: int, i3: int)
    requires
        25 <= s.len() && s.subrange(21, 25) == "true"@ ==> i1 == 25,
        26 <= s.len() && s.subrange(21, 26) == "false"@ ==> i1 == 26,
        i2 == i1 + 19,
        i2 + 4 <= s.len() && s.subrange(i2, i2 + 4) == "true"@ ==> i3 == i2 + 4,
        i2 + 5 <= s.len() && s.subrange(i2, i2 + 5) == "false"@ ==> i3 == i2 + 5,
        !(i3 + 22 <= s.len() && s.subrange(i3, i3 + 22) == ",\n  \"minimizeToTray\": "@),
    ensures
        no_canonical_source(s),
{
    assert forall|p: PrefsView| s != encode_prefs(p) by {
        if s == encode_prefs(p) {
            lemma_canonical_slices(s, p);
            if p.open_on_startup {
                assert(s.subrange(21int, 25int) == "true"@);
            } else {
                assert(s.subrange(21int, 26int) == "false"@);
            }
            assert(i2 == 21 + bool_text(p.open_on_startup).len() + 19);
            if p.close_to_tray {
                assert(s.subrange(i2, i2 + 4) == "true"@);
            } else {
                assert(s.subrange(i2, i2 + 5) == "false"@);
            }
            assert(i3 == i2 + bool_text(p.close_to_tray).len());
            assert(s.subrange(i3, i3 + 22) == ",\n  \"minimizeToTray\": "@);
        }
    }
}

/// A text whose third value is no boolean is no document.
proof fn lemma_nc_bool3(s: Seq<char>, i1: int, i2: int, i3: int, i4: int)
    requires
        25 <= s.len() && s.subrange(21, 25) == "true"@ ==> i1 == 25,
        26 <= s.len() && s.subrange(21, 26) == "false"@ ==> i1 == 26,
        i2 == i1 + 19,
        i2 + 4 <= s.len() && s.subrange(i2, i2 + 4) == "true"@ ==> i3 == i2 + 4,
        i2 + 5 <= s.len() && s.subrange(i2, i2 + 5) == "false"@ ==> i3 == i2 + 5,
        i4 == i3 + 22,
        !(i4 + 4 <= s.len() && s.subrange(i4, i4 + 4) == "true"@),
        !(i4 + 5 <= s.len() && s.subrange(i4, i4 + 5) == "false"@),
    ensures
        no_canonical_source(s),
{
    assert forall|p: PrefsView| s != encode_prefs(p) by {
        if s == encode_prefs(p) {
            lemma_canonical_slices(s, p);
            if p.open_on_startup {
                assert(s.subrange(21int, 25int) == "true"@);
            } else {
                assert(s.subrange(21int, 26int) == "false"@);
            }
            assert(i2 == 21 + bool_text(p.open_on_startup).len() + 19);
            if p.close_to_tray {
                assert(s.subrange(i2, i2 + 4) == "true"@);
            } else {
                assert(s.subrange(i2, i2 + 5) == "false"@);
            }
            assert(i4 == i2 + bool_text(p.close_to_tray).len() + 22);
            if p.minimize_to_tray {
                assert(s.subrange(i4, i4 + 4) == "true"@);
            } else {
                assert(s.subrange(i4, i4 + 5) == "false"@);
            }
        }
    }
}

/// Under any source document the flag fields pin the values read and the
/// position reached after them.
proof fn lemma_stage_positions(
    s: Seq<char>,
    p: PrefsView,
    b1: bool,
    i1: int,
    i2: int,
    b2: bool,
    i3: int,
    i4: int,
    b3: bool,
    i5: int,
)
    requires
        s == encode_prefs(p),
        early_pins(s, b1, i1, i2, b2, i3, i4, b3, i5),
    ensures
        b1 == p.open_on_startup,
        b2 == p.close_to_tray,
        b3 == p.minimize_to_tray,
        i5 == flags_end(p),
{
    lemma_canonical_slices(s, p);
    if p.open_on_startup {
        assert(s.subrange(21int, 25int) == "true"@);
    } else {
        assert(s.subrange(21int, 26int) == "false"@);
    }
    assert(i2 == 21 + bool_text(p.open_on_startup).len() + 19);
    if p.close_to_tray {
        assert(s.subrange(i2, i2 + 4) == "true"@);
    } else {
        assert(s.subrange(i2, i2 + 5) == "false"@);
    }
    assert(i4 == i2 + bool_text(p.close_to_tray).len() + 22);
    if p.minimize_to_tray {
        assert(s.subrange(i4, i4 + 4) == "true"@);
    } else {
        assert(s.subrange(i4, i4 + 5) == "false"@);
    }
}

/// A record without an install-directory override never has the
/// `installDir` key at the optional-segment position.
proof fn lemma_no_dir_lit(s: Seq<char>, p: PrefsView)
    requires
        s == encode_prefs(p),
        p.install_dir is None,
    ensures
        !(flags_end(p) + 19 <= s.len() && s.subrange(flags_end(p), flags_end(p) + 19)
            == ",\n  \"installDir\": \""@),
{
    lemma_canonical_slices(s, p);
    reveal_strlit(",\n  \"installDir\": \"");
    reveal_strlit(",\n  \"installerType\": \"");
    let fe = flags_end(p);
    if fe + 19 <= s.len() && s.subrange(fe, fe + 19) == ",\n  \"installDir\": \""@ {
        match p.installer_type {
            Some(t) => {
                assert(s[fe + 12] == s.subrange(fe, fe + 19)[12]);
                assert(s[fe + 12] == s.subrange(fe, fe + 22)[12]);
                assert(false);
            },
            None => {
                assert(s.len() == fe + 2);
                assert(false);
            },
        }
    }
}

/// A record without an installer-type override never has the
/// `installerType` key where its segment would stand.
proof fn lemma_no_type_lit(s: Seq<char>, p: PrefsView)
    requires
        s == encode_prefs(p),
        p.installer_type is None,
    ensures
        !(flags_end(p) + dir_seg_len(p.install_dir) + 22 <= s.len() && s.subrange(
            flags_end(p) + dir_seg_len(p.install_dir),
            flags_end(p) + dir_seg_len(p.install_dir) + 22,
        ) == ",\n  \"installerType\": \""@),
{
    lemma_canonical_slices(s, p);
}

/// Under any source document the `installDir` segment pins the value read
/// and the position reached.
proof fn lemma_dir_stage(
    s: Seq<char>,
    p: PrefsView,
    i5: int,
    took: bool,
    dval: Option<Seq<char>>,
    i7: int,
)
    requires
        s == encode_prefs(p),
        i5 == flags_end(p),
        dir_pins(s, i5, took, dval, i7),
    ensures
        dval == p.install_dir,
        i7 == flags_end(p) + dir_seg_len(p.install_dir),
{
    lemma_canonical_slices(s, p);
    match p.install_dir {
        Some(d) => {
            if !took {
                assert(false);
            }
            assert(escaped_at(s, i5 + 19, d));
        },
        None => {
            if took {
                lemma_no_dir_lit(s, p);
            }
        },
    }
}

/// Under any source document the `installerType` segment pins the value
/// read and the position reached.
proof fn lemma_type_stage(
    s: Seq<char>,
    p: PrefsView,
    i7: int,
    took: bool,
    tval: Option<Seq<char>>,
    i8: int,
)
    requires
        s == encode_prefs(p),
        i7 == flags_end(p) + dir_seg_len(p.install_dir),
        type_pins(s, i7, took, tval, i8),
    ensures
        tval == p.installer_type,
        i8 == flags_end(p) + dir_seg_len(p.install_dir) + type_seg_len(p.installer_type),
{
    lemma_canonical_slices(s, p);
    match p.installer_type {
        Some(t) => {
            if !took {
                assert(false);
            }
            assert(escaped_at(s, i7 + 22, t));
        },
        None => {
            if took {
                lemma_no_type_lit(s, p);
            }
        },
    }
}

/// A matched `installDir` key whose value is no escaped string belongs to
/// no document.
proof fn lemma_nc_read_dir(
    s: Seq<char>,
    b1: bool,
    i1: int,
    i2: int,
    b2: bool,
    i3: int,
    i4: int,
    b3: bool,
    i5: int,
)
    requires
        early_pins(s, b1, i1, i2, b2, i3, i4, b3, i5),
        i5 + 19 <= s.len() && s.subrange(i5, i5 + 19) == ",\n  \"installDir\": \""@,
        forall|content: Seq<char>| !(#[trigger] escaped_at(s, i5 + 19, content)),
    ensures
        no_canonical_source(s),
{
    assert forall|p: PrefsView| s != encode_prefs(p) by {
        if s == encode_prefs(p) {
            lemma_stage_positions(s, p, b1, i1, i2, b2, i3, i4, b3, i5);
            lemma_canonical_slices(s, p);
            match p.install_dir {
                Some(d) => {
                    assert(escaped_at(s, i5 + 19, d));
                },
                None => {
                    lemma_no_dir_lit(s, p);
                },
            }
        }
    }
}

/// A matched `installerType` key whose value is no escaped string belongs
/// to no document.
proof fn lemma_nc_read_type(
    s: Seq<char>,
    b1: bool,
    i1: int,
    i2: int,
    b2: bool,
    i3: int,
    i4: int,
    b3: bool,
    i5: int,
    dir_took: bool,
    dval: Option<Seq<char>>,
    i7: int,
)
    requires
        early_pins(s, b1, i1, i2, b2, i3, i4, b3, i5),
        dir_pins(s, i5, dir_took, dval, i7),
        i7 + 22 <= s.len() && s.subrange(i7, i7 + 22) == ",\n  \"installerType\": \""@,
        forall|content: Seq<char>| !(#[trigger] escaped_at(s, i7 + 22, content)),
    ensures
        no_canonical_source(s),
{
    assert forall|p: PrefsView| s != encode_prefs(p) by {
        if s == encode_prefs(p) {
            lemma_stage_positions(s, p, b1, i1, i2, b2, i3, i4, b3, i5);
            lemma_dir_stage(s, p, i5, dir_took, dval, i7);
            lemma_canonical_slices(s, p);
            match p.installer_type {
                Some(t) => {
                    assert(escaped_at(s, i7 + 22, t));
                },
                None => {
                    lemma_no_type_lit(s, p);
                },
            }
        }
    }
}

/// A text that does not close right after the optional segments is no
/// document.
proof fn lemma_nc_end(
    s: Seq<char>,
    b1: bool,
    i1: int,
    i2: int,
    b2: bool,
    i3: int,
    i4: int,
    b3: bool,
    i5: int,
    dir_took: bool,
    dval: Option<Seq<char>>,
    i7: int,
    type_took: bool,
    tval: Option<Seq<char>>,
    i8: int,
    closed: bool,
)
    requires
        early_pins(s, b1, i1, i2, b2, i3, i4, b3, i5),
        dir_pins(s, i5, dir_took, dval, i7),
        type_pins(s, i7, type_took, tval, i8),
        closed ==> i8 + 2 != s.len(),
        !closed ==> !(i8 + 2 <= s.len() && s.subrange(i8, i8 + 2) == "\n}"@),
    ensures
        no_canonical_source(s),
{
    assert forall|p: PrefsView| s != encode_prefs(p) by {
        if s == encode_prefs(p) {
            lemma_stage_positions(s, p, b1, i1, i2, b2, i3, i4, b3, i5);
            lemma_dir_stage(s, p, i5, dir_took, dval, i7);
            lemma_type_stage(s, p, i7, type_took, tval, i8);
            lemma_canonical_slices(s, p);
            assert(i8 + 2 == s.len());
            assert(s.subrange(i8, i8 + 2) == "\n}"@);
        }
    }
}

/// Every source of a fully matched text is exactly the record the matcher
/// read.
proof fn lemma_canonical_success(
    s: Seq<char>,
    b1: bool,
    i1: int,
    i2: int,
    b2: bool,
    i3: int,
    i4: int,
    b3: bool,
    i5: int,
    dir_took: bool,
    dval: Option<Seq<char>>,
    i7: int,
    type_took: bool,
    tval: Option<Seq<char>>,
    i8: int,
)
    requires
        early_pins(s, b1, i1, i2, b2, i3, i4, b3, i5),
        dir_pins(s, i5, dir_took, dval, i7),
        type_pins(s, i7, type_took, tval, i8),
    ensures
        forall|p: PrefsView|
            s == encode_prefs(p) ==> p == (PrefsView {
                open_on_startup: b1,
                close_to_tray: b2,
                minimize_to_tray: b3,
                install_dir: dval,
                installer_type: tval,
            }),
{
    assert forall|p: PrefsView|
        s == encode_prefs(p) implies p == (PrefsView {
        open_on_startup: b1,
        close_to_tray: b2,
        minimize_to_tray: b3,
        install_dir: dval,
        installer_type: tval,
    }) by {
        lemma_stage_positions(s, p, b1, i1, i2, b2, i3, i4, b3, i5);
        lemma_dir_stage(s, p, i5, dir_took, dval, i7);
        lemma_type_stage(s, p, i7, type_took, tval, i8);
    }
}

/// Read a document in exactly the form the encoder writes. Any other text
/// is left to the tolerant reader.
fn decode_canonical(s: &str) -> (r: Option<HubPreferences>)
    ensures
        forall|p: PrefsView| s@ == encode_prefs(p) ==> (r matches Some(hp) && hp@ == p),
{
    proof {
        reveal_strlit("{\n  \"openOnStartup\": ");
        reveal_strlit(",\n  \"closeToTray\": ");
        reveal_strlit(",\n  \"minimizeToTray\": ");
        reveal_strlit(",\n  \"installDir\": \"");
        reveal_strlit(",\n  \"installerType\": \"");
        reveal_strlit("\n}");
    }
    let i0 = match expect_lit(s, 0, "{\n  \"openOnStartup\": ") {
        Some(j) => j,
        None => {
            proof {
                lemma_nc_head(s@);
            }
            return None;
        },
    };
    let (open_on_startup, i1) = match parse_bool(s, i0) {
        Some(pair) => pair,
        None => {
            proof {
                lemma_nc_bool1(s@);
            }
            return None;
        },
    };
    let i2 = match expect_lit(s, i1, ",\n  \"closeToTray\": ") {
        Some(j) => j,
        None => {
            proof {
                lemma_nc_lit2(s@, i1 as int);
            }
            return None;
        },
    };
    let (close_to_tray, i3) = match parse_bool(s, i2) {
        Some(pair) => pair,
        None => {
            proof {
                lemma_nc_bool2(s@, i1 as int, i2 as int);
            }
            return None;
        },
    };
    let i4 = match expect_lit(s, i3, ",\n  \"minimizeToTray\": ") {
        Some(j) => j,
        None => {
            proof {
                lemma_nc_lit3(s@, i1 as int, i2 as int, i3 as int);
            }
            return None;
        },
    };
    let (minimize_to_tray, i5) = match parse_bool(s, i4) {
        Some(pair) => pair,
        None => {
            proof {
                lemma_nc_bool3(s@, i1 as int, i2 as int, i3 as int, i4 as int);
            }
            return None;
        },
    };
    proof {
        assert(early_pins(
            s@,
            open_on_startup,
            i1 as int,
            i2 as int,
            close_to_tray,
            i3 as int,
            i4 as int,
            minimize_to_tray,
            i5 as int,
        ));
    }
    let mut dir_took = false;
    let mut install_dir: Option<String> = None;
    let mut i7 = i5;
    match expect_lit(s, i5, ",\n  \"installDir\": \"") {
        Some(j) => {
            match read_string_body(s, j) {
                Some(pair) => {
                    dir_took = true;
                    install_dir = Some(pair.0);
                    i7 = pair.1;
                },
                None => {
                    proof {
                        lemma_nc_read_dir(
                            s@,
                            open_on_startup,
                            i1 as int,
                            i2 as int,
                            close_to_tray,
                            i3 as int,
                            i4 as int,
                            minimize_to_tray,
                            i5 as int,
                        );
                    }
                    return None;
                },
            }
        },
        None => {},
    }
    proof {
        assert(dir_pins(s@, i5 as int, dir_took, install_dir.deep_view(), i7 as int));
    }
    let mut type_took = false;
    let mut installer_type: Option<String> = None;
    let mut i8 = i7;
    match expect_lit(s, i7, ",\n  \"installerType\": \"") {
        Some(j) => {
            match read_string_body(s, j) {
                Some(pair) => {
                    type_took = true;
                    installer_type = Some(pair.0);
                    i8 = pair.1;
                },
                None => {
                    proof {
                        lemma_nc_read_type(
                            s@,
                            open_on_startup,
                            i1 as int,
                            i2 as int,
                            close_to_tray,
                            i3 as int,
                            i4 as int,
                            minimize_to_tray,
                            i5 as int,
                            dir_took,
                            install_dir.deep_view(),
                            i7 as int,
                        );
                    }
                    return None;
                },
            }
        },
        None => {},
    }
    proof {
        assert(type_pins(s@, i7 as int, type_took, installer_type.deep_view(), i8 as int));
    }
    let i9 = match expect_lit(s, i8, "\n}") {
        Some(j) => j,
        None => {
            proof {
                lemma_nc_end(
                    s@,
                    open_on_startup,
                    i1 as int,
                    i2 as int,
                    close_to_tray,
                    i3 as int,
                    i4 as int,
                    minimize_to_tray,
                    i5 as int,
                    dir_took,
                    install_dir.deep_view(),
                    i7 as int,
                    type_took,
                    installer_type.deep_view(),
                    i8 as int,
                    false,
                );
            }
            return None;
        },
    };
    if i9 != s.unicode_len() {
        proof {
            lemma_nc_end(
                s@,
                open_on_startup,
                i1 as int,
                i2 as int,
                close_to_tray,
                i3 as int,
                i4 as int,
                minimize_to_tray,
                i5 as int,
                dir_took,
                install_dir.deep_view(),
                i7 as int,
                type_took,
                installer_type.deep_view(),
                i8 as int,
                true,
            );
        }
        return None;
    }
    let result = HubPreferences {
        open_on_startup,
        close_to_tray,
        minimize_to_tray,
        install_dir,
        installer_type,
    };
    proof {
        lemma_canonical_success(
            s@,
            result.open_on_startup,
            i1 as int,
            i2 as int,
            result.close_to_tray,
            i3 as int,
            i4 as int,
            result.minimize_to_tray,
            i5 as int,
            dir_took,
            result.install_dir.deep_view(),
            i7 as int,
            type_took,
            result.installer_type.deep_view(),
            i8 as int,
        );
    }
    Some(result)
}

/// Parse a preferences document.
///
/// Accepted: one object of scalar fields, in any order and with any
/// whitespace; the known keys with their proper types (each at most once);
/// unknown keys with any scalar value. Missing fields take their defaults.
/// Anything else — other top-level values, type mismatches, duplicate known
/// keys, trailing text — is treated as a corrupt document, which the
/// loading rule turns into the all-default record.
///
/// Two narrowings against a fully general JSON reader, both deliberate:
/// an unknown field whose value is a nested object or array counts as
/// corrupt rather than being skipped, and a `\u` escape is honoured only
/// for the control characters the encoder itself writes (code points below
/// `0x20`); a document using either loads as all-defaults. Both are beyond
/// what this library ever writes, since the store rewrites the file in
/// full from its own record on every change.
///
/// Reading inverts writing: a document the encoder wrote for any record
/// comes back as exactly that record.
pub fn decode_preferences(s: &str) -> (r: Option<HubPreferences>)
    ensures
        forall|p: PrefsView| s@ == encode_prefs(p) ==> (r matches Some(hp) && hp@ == p),
{
    match decode_canonical(s) {
        Some(hp) => Some(hp),
        None => decode_general(s),
    }
}

/// The tolerant reader behind [`decode_preferences`].
fn decode_general(s: &str) -> (r: Option<HubPreferences>) {
    let n = s.unicode_len();
    let mut open_on_startup: Option<bool> = None;
    let mut close_to_tray: Option<bool> = None;
    let mut minimize_to_tray: Option<bool> = None;
    let mut install_dir: Option<String> = None;
    let mut installer_type: Option<String> = None;
    let mut seen_install_dir = false;
    let mut seen_installer_type = false;

    let mut pos = skip_ws(s, 0);
    if pos >= n || s.get_char(pos) != '{' {
        return None;
    }
    pos = skip_ws(s, pos + 1);
    if pos < n && s.get_char(pos) == '}' {
        let tail = skip_ws(s, pos + 1);
        if tail < n {
            return None;
        }
        return Some(
            HubPreferences {
                open_on_startup: false,
                close_to_tray: false,
                minimize_to_tray: false,
                install_dir: None,
                installer_type: None,
            },
        );
    }
    loop
        invariant
            pos <= n,
            n == s@.len(),
        decreases n - pos,
    {
        let (key, after_key) = match parse_string(s, pos) {
            Some(p) => p,
            None => {
                return None;
            },
        };
        pos = skip_ws(s, after_key);
        if pos >= n || s.get_char(pos) != ':' {
            return None;
        }
        pos = skip_ws(s, pos + 1);
        if str_eq(key.as_str(), "openOnStartup") {
            let (v, j) = match parse_bool(s, pos) {
                Some(p) => p,
                None => {
                    return None;
                },
            };
            if open_on_startup.is_some() {
                return None;
            }
            open_on_startup = Some(v);
            pos = j;
        } else if str_eq(key.as_str(), "closeToTray") {
            let (v, j) = match parse_bool(s, pos) {
                Some(p) => p,
                None => {
                    return None;
                },
            };
            if close_to_tray.is_some() {
                return None;
            }
            close_to_tray = Some(v);
            pos = j;
        } else if str_eq(key.as_str(), "minimizeToTray") {
            let (v, j) = match parse_bool(s, pos) {
                Some(p) => p,
                None => {
                    return None;
                },
            };
            if minimize_to_tray.is_some() {
                return None;
            }
            minimize_to_tray = Some(v);
            pos = j;
        } else if str_eq(key.as_str(), "installDir") {
            if seen_install_dir {
                return None;
            }
            seen_install_dir = true;
            match parse_string(s, pos) {
                Some((v, j)) => {
                    install_dir = Some(v);
                    pos = j;
                },
                None => {
                    match parse_null(s, pos) {
                        Some(j) => {
                            pos = j;
                        },
                        None => {
                            return None;
                        },
                    }
                },
            }
        } else if str_eq(key.as_str(), "installerType") {
            if seen_installer_type {
                return None;
            }
            seen_installer_type = true;
            match parse_string(s, pos) {
                Some((v, j)) => {
                    installer_type = Some(v);
                    pos = j;
                },
                None => {
                    match parse_null(s, pos) {
                        Some(j) => {
                            pos = j;
                        },
                        None => {
                            return None;
                        },
                    }
                },
            }
        } else {
            match skip_scalar(s, pos) {
                Some(j) => {
                    pos = j;
                },
                None => {
                    return None;
                },
            }
        }
        pos = skip_ws(s, pos);
        if pos >= n {
            return None;
        }
        let c = s.get_char(pos);
        if c == '}' {
            let tail = skip_ws(s, pos + 1);
            if tail < n {
                return None;
            }
            return Some(
                HubPreferences {
                    open_on_startup: match open_on_startup {
                        Some(v) => v,
                        None => false,
                    },
                    close_to_tray: match close_to_tray {
                        Some(v) => v,
                        None => false,
                    },
                    minimize_to_tray: match minimize_to_tray {
                        Some(v) => v,
                        None => false,
                    },
                    install_dir,
                    installer_type,
                },
            );
        }
        if c != ',' {
            return None;
        }
        pos = skip_ws(s, pos + 1);
    }
}

/// Load the preferences record from the document text the host could read,
/// if it could read one: a missing or corrupt document yields the
/// all-default record, never an error, and a document this library wrote
/// yields exactly the record it was written from. Which tolerated foreign
/// documents parse is [`decode_preferences`]'s: its acceptance beyond the
/// library's own write-image is stated there in words and held by tests.
pub fn load_preferences(text: Option<&str>) -> (r: HubPreferences)
    ensures
        text is None ==> r@ == crate::prefs::default_prefs(),
        text matches Some(t) ==> (forall|p: PrefsView| t@ == encode_prefs(p) ==> r@ == p),
{
    match text {
        None => HubPreferences::default(),
        Some(t) => {
            let decoded = decode_preferences(t);
            let r = crate::prefs::preferences_or_default(decoded);
            proof {
                assert forall|p: PrefsView| t@ == encode_prefs(p) implies r@ == p by {}
            }
            r
        },
    }
}

} // verus!
