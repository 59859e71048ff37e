//! JSON at the wire: a verified string escaper for the documents the
//! library itself emits, and trusted readers over serde_json for the
//! documents it receives.

use vstd::prelude::*;

verus! {

/// The character for one hexadecimal digit.
pub open spec fn spec_hex_digit(d: nat) -> char {
    if d == 0 {
        '0'
    } else if d == 1 {
        '1'
    } else if d == 2 {
        '2'
    } else if d == 3 {
        '3'
    } else if d == 4 {
        '4'
    } else if d == 5 {
        '5'
    } else if d == 6 {
        '6'
    } else if d == 7 {
        '7'
    } else if d == 8 {
        '8'
    } else if d == 9 {
        '9'
    } else if d == 10 {
        'a'
    } else if d == 11 {
        'b'
    } else if d == 12 {
        'c'
    } else if d == 13 {
        'd'
    } else if d == 14 {
        'e'
    } else {
        'f'
    }
}

/// How one character stands inside a JSON string literal: quotes,
/// backslashes and control characters are escaped, everything else stands
/// as it is.
pub open spec fn esc_json_char(c: char) -> Seq<char> {
    if c == '"' {
        seq!['\\', '"']
    } else if c == '\\' {
        seq!['\\', '\\']
    } else if c == '\u{8}' {
        seq!['\\', 'b']
    } else if c == '\u{c}' {
        seq!['\\', 'f']
    } else if c == '\n' {
        seq!['\\', 'n']
    } else if c == '\r' {
        seq!['\\', 'r']
    } else if c == '\t' {
        seq!['\\', 't']
    } else if (c as u32) < 32 {
        seq!['\\', 'u', '0', '0', spec_hex_digit((c as u32) as nat / 16), spec_hex_digit(
            (c as u32) as nat % 16,
        )]
    } else {
        seq![c]
    }
}

/// The body of a JSON string literal holding the text `s`.
pub open spec fn esc_json(s: Seq<char>) -> Seq<char>
    decreases s.len(),
{
    if s.len() == 0 {
        Seq::<char>::empty()
    } else {
        esc_json(s.drop_last()) + esc_json_char(s.last())
    }
}

fn hex_digit_str(d: u32) -> (r: &'static str)
    requires
        d < 16,
    ensures
        r@ == seq![spec_hex_digit(d as nat)],
{
    let r: &'static str = match d {
        0 => "0",
        1 => "1",
        2 => "2",
        3 => "3",
        4 => "4",
        5 => "5",
        6 => "6",
        7 => "7",
        8 => "8",
        9 => "9",
        10 => "a",
        11 => "b",
        12 => "c",
        13 => "d",
        14 => "e",
        _ => "f",
    };
    proof {
        reveal_strlit("0");
        reveal_strlit("1");
        reveal_strlit("2");
        reveal_strlit("3");
        reveal_strlit("4");
        reveal_strlit("5");
        reveal_strlit("6");
        reveal_strlit("7");
        reveal_strlit("8");
        reveal_strlit("9");
        reveal_strlit("a");
        reveal_strlit("b");
        reveal_strlit("c");
        reveal_strlit("d");
        reveal_strlit("e");
        reveal_strlit("f");
        assert(r@ =~= seq![spec_hex_digit(d as nat)]);
    }
    r
}

/// Escape `s` for inclusion in a JSON string literal.
pub fn escape_json(s: &str) -> (out: String)
    ensures
        out@ == esc_json(s@),
{
    let n = s.unicode_len();
    let mut out = String::new();
    let mut i: usize = 0;
    proof {
        assert(s@.take(0) =~= Seq::<char>::empty());
        assert(out@ =~= esc_json(s@.take(0)));
    }
    while i < n
        invariant
            i <= n,
            n == s@.len(),
            out@ == esc_json(s@.take(i as int)),
        decreases n - i,
    {
        let c = s.get_char(i);
        if c == '"' {
            out.append("\\\"");
            proof {
                reveal_strlit("\\\"");
                assert("\\\""@ =~= esc_json_char(c));
            }
        } else if c == '\\' {
            out.append("\\\\");
            proof {
                reveal_strlit("\\\\");
                assert("\\\\"@ =~= esc_json_char(c));
            }
        } else if c == '\u{8}' {
            out.append("\\b");
            proof {
                reveal_strlit("\\b");
                assert("\\b"@ =~= esc_json_char(c));
            }
        } else if c == '\u{c}' {
            out.append("\\f");
            proof {
                reveal_strlit("\\f");
                assert("\\f"@ =~= esc_json_char(c));
            }
        } else if c == '\n' {
            out.append("\\n");
            proof {
                reveal_strlit("\\n");
                assert("\\n"@ =~= esc_json_char(c));
            }
        } else if c == '\r' {
            out.append("\\r");
            proof {
                reveal_strlit("\\r");
                assert("\\r"@ =~= esc_json_char(c));
            }
        } else if c == '\t' {
            out.append("\\t");
            proof {
                reveal_strlit("\\t");
                assert("\\t"@ =~= esc_json_char(c));
            }
        } else if (c as u32) < 32 {
            let v = c as u32;
            out.append("\\u00");
            out.append(hex_digit_str(v / 16));
            out.append(hex_digit_str(v % 16));
            proof {
                reveal_strlit("\\u00");
                assert("\\u00"@ + seq![spec_hex_digit((v / 16) as nat)] + seq![
                    spec_hex_digit((v % 16) as nat),
                ] =~= esc_json_char(c));
            }
        } else {
            let piece = s.substring_char(i, i + 1);
            assert(piece@ =~= seq![s@[i as int]]);
            out.append(piece);
            proof {
                assert(seq![s@[i as int]] =~= esc_json_char(c));
            }
        }
        proof {
            assert(s@.take(i + 1).drop_last() =~= s@.take(i as int));
            assert(s@.take(i + 1).last() == s@[i as int]);
        }
        i += 1;
    }
    proof {
        assert(s@.take(n as int) =~= s@);
    }
    out
}

/// Whether a text parses as one JSON document.
pub uninterp spec fn parses_as_json(s: Seq<char>) -> bool;

/// Relies on serde_json::from_str: whether the text is one well-formed
/// JSON document, a pure function of the text.
#[verifier::external_body]
pub fn json_text_valid(s: &str) -> (b: bool)
    ensures
        b == parses_as_json(s@),
{
    serde_json::from_str::<serde_json::Value>(s).is_ok()
}

/// The success flag, output and optional error of a JSON document in the
/// shape of a tool result, or nothing where the document does not parse
/// with those members.
pub uninterp spec fn tool_result_of_json(s: Seq<char>) -> Option<
    (bool, Seq<char>, Option<Seq<char>>),
>;

/// Relies on serde_json::from_str and the serde_json::Value accessors
/// get, as_bool, is_null and as_str: the members of a tool-result
/// document, a pure function of the text.
#[verifier::external_body]
pub fn parse_tool_result_text(s: &str) -> (r: Option<(bool, String, Option<String>)>)
    ensures
        match r {
            Some(t) => tool_result_of_json(s@) == Some((t.0, t.1@, t.2.deep_view())),
            None => tool_result_of_json(s@) is None,
        },
{
    let v: serde_json::Value = serde_json::from_str(s).ok()?;
    let success = v.get("success")?.as_bool()?;
    let output = v.get("output")?.as_str()?.to_string();
    let error = match v.get("error") {
        None => None,
        Some(e) if e.is_null() => None,
        Some(e) => Some(e.as_str()?.to_string()),
    };
    Some((success, output, error))
}

/// The error member (with its optional message text) and the re-serialized
/// result member of a JSON-RPC reply document, or nothing where the text is
/// not one JSON document.
pub uninterp spec fn rpc_reply_of_json(s: Seq<char>) -> Option<
    (Option<Option<Seq<char>>>, Option<Seq<char>>),
>;

/// Relies on serde_json::from_str and the serde_json::Value accessors get,
/// as_str and to_string: whether the reply carries an error member (and its
/// message, when that is a string) and its result member re-serialized, a
/// pure function of the text.
#[verifier::external_body]
pub fn parse_rpc_reply_text(s: &str) -> (r: Option<(Option<Option<String>>, Option<String>)>)
    ensures
        match r {
            Some(t) => rpc_reply_of_json(s@) == Some((t.0.deep_view(), t.1.deep_view())),
            None => rpc_reply_of_json(s@) is None,
        },
{
    let v: serde_json::Value = match serde_json::from_str(s) {
        Ok(v) => v,
        Err(_) => return None,
    };
    let error = v.get("error").map(
        |e: &serde_json::Value| e.get("message").and_then(|m| m.as_str()).map(|m| m.to_string()),
    );
    let result = v.get("result").map(|x: &serde_json::Value| x.to_string());
    Some((error, result))
}

} // verus!
