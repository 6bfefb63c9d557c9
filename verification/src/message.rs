//! The outgoing message payload and its wire-request serialization: a JSON
//! object holding the optional payload fields and the ordered
//! `registration_ids` array. The serializer is verified against
//! [`spec_message_json`], character for character.

use vstd::prelude::*;

use crate::json::push_char;
use crate::response::GcmError;

verus! {

/// One outgoing message: an already-validated payload (destination, collapse
/// key, dry-run flag) plus the ordered recipient identifier list. The order
/// of `registration_ids` is load-bearing: it is the only correlation key for
/// the per-recipient results that come back.
#[derive(Debug, Clone, PartialEq)]
pub struct Message {
    pub to: Option<String>,
    pub collapse_key: Option<String>,
    pub dry_run: Option<bool>,
    pub registration_ids: Option<Vec<String>>,
}

/// The mathematical image of a [`Message`].
pub struct MessageModel {
    pub to: Option<Seq<char>>,
    pub collapse_key: Option<Seq<char>>,
    pub dry_run: Option<bool>,
    pub registration_ids: Option<Seq<Seq<char>>>,
}

impl Message {
    /// The mathematical value of this message.
    pub open spec fn model(&self) -> MessageModel {
        MessageModel {
            to: match self.to {
                Some(s) => Some(s@),
                None => None,
            },
            collapse_key: match self.collapse_key {
                Some(s) => Some(s@),
                None => None,
            },
            dry_run: self.dry_run,
            registration_ids: match self.registration_ids {
                Some(v) => Some(v@.map_values(|s: String| s@)),
                None => None,
            },
        }
    }
}

/// The hexadecimal digit for `v`, which is below 16.
pub open spec fn hex_digit(v: u32) -> char {
    if v == 0 {
        '0'
    } else if v == 1 {
        '1'
    } else if v == 2 {
        '2'
    } else if v == 3 {
        '3'
    } else if v == 4 {
        '4'
    } else if v == 5 {
        '5'
    } else if v == 6 {
        '6'
    } else if v == 7 {
        '7'
    } else if v == 8 {
        '8'
    } else if v == 9 {
        '9'
    } else if v == 10 {
        'a'
    } else if v == 11 {
        'b'
    } else if v == 12 {
        'c'
    } else if v == 13 {
        'd'
    } else if v == 14 {
        'e'
    } else {
        'f'
    }
}

fn hex_digit_exec(v: u32) -> (r: char)
    requires
        v < 16,
    ensures
        r == hex_digit(v),
{
    if v == 0 {
        '0'
    } else if v == 1 {
        '1'
    } else if v == 2 {
        '2'
    } else if v == 3 {
        '3'
    } else if v == 4 {
        '4'
    } else if v == 5 {
        '5'
    } else if v == 6 {
        '6'
    } else if v == 7 {
        '7'
    } else if v == 8 {
        '8'
    } else if v == 9 {
        '9'
    } else if v == 10 {
        'a'
    } else if v == 11 {
        'b'
    } else if v == 12 {
        'c'
    } else if v == 13 {
        'd'
    } else if v == 14 {
        'e'
    } else {
        'f'
    }
}

/// The JSON escape of one character: the two-character escapes for quote,
/// backslash and the common controls, `\u00` plus two hex digits for the
/// remaining control characters, the character itself otherwise.
pub open spec fn esc_char(c: char) -> Seq<char> {
    if c == '"' {
        "\\\""@
    } else if c == '\\' {
        "\\\\"@
    } else if c == '\n' {
        "\\n"@
    } else if c == '\r' {
        "\\r"@
    } else if c == '\t' {
        "\\t"@
    } else if c == '\u{0008}' {
        "\\b"@
    } else if c == '\u{000c}' {
        "\\f"@
    } else if (c as u32) < 0x20 {
        "\\u00"@ + seq![hex_digit((c as u32) / 16), hex_digit((c as u32) % 16)]
    } else {
        seq![c]
    }
}

/// The escapes of `s` from position `i` on, appended to `acc`.
pub open spec fn spec_escape(s: Seq<char>, i: int, acc: Seq<char>) -> Seq<char>
    decreases s.len() - i,
{
    if i < 0 || i >= s.len() {
        acc
    } else {
        spec_escape(s, i + 1, acc + esc_char(s[i]))
    }
}

/// `s` escaped and wrapped in quotes.
pub open spec fn quoted(s: Seq<char>) -> Seq<char> {
    spec_escape(s, 0, seq!['"']).push('"')
}

fn escape_from(s: &str, i: usize, acc: String) -> (r: String)
    requires
        i <= s@.len(),
    ensures
        r@ == spec_escape(s@, i as int, acc@),
    decreases s@.len() - i,
{
    let n = s.unicode_len();
    if i >= n {
        return acc;
    }
    let c = s.get_char(i);
    let mut acc2 = acc;
    if c == '"' {
        acc2.append("\\\"");
    } else if c == '\\' {
        acc2.append("\\\\");
    } else if c == '\n' {
        acc2.append("\\n");
    } else if c == '\r' {
        acc2.append("\\r");
    } else if c == '\t' {
        acc2.append("\\t");
    } else if c == '\u{0008}' {
        acc2.append("\\b");
    } else if c == '\u{000c}' {
        acc2.append("\\f");
    } else if (c as u32) < 0x20 {
        acc2.append("\\u00");
        push_char(&mut acc2, hex_digit_exec((c as u32) / 16));
        push_char(&mut acc2, hex_digit_exec((c as u32) % 16));
        proof {
            assert(acc2@ =~= acc@ + esc_char(c));
        }
    } else {
        push_char(&mut acc2, c);
        proof {
            assert(acc2@ =~= acc@ + esc_char(c));
        }
    }
    escape_from(s, i + 1, acc2)
}

/// Escape `s` and wrap it in quotes.
fn quote_str(s: &str) -> (r: String)
    ensures
        r@ == quoted(s@),
{
    let mut acc = String::new();
    push_char(&mut acc, '"');
    proof {
        assert(acc@ =~= seq!['"']);
    }
    let mut out = escape_from(s, 0, acc);
    push_char(&mut out, '"');
    proof {
        assert(out@ =~= spec_escape(s@, 0, seq!['"']).push('"'));
    }
    out
}

/// One object member: the quoted key, a colon, the rendered value.
pub open spec fn field_txt(name: Seq<char>, val: Seq<char>) -> Seq<char> {
    quoted(name).push(':') + val
}

fn field_str(name: &str, val: String) -> (r: String)
    ensures
        r@ == field_txt(name@, val@),
{
    let mut out = quote_str(name);
    push_char(&mut out, ':');
    out.append(val.as_str());
    proof {
        assert(out@ =~= quoted(name@).push(':') + val@);
    }
    out
}

/// The rendered `registration_ids` array from index `i` on, appended to
/// `acc`, comma-separated, closed with `]`.
pub open spec fn spec_id_array(ids: Seq<Seq<char>>, i: int, acc: Seq<char>) -> Seq<char>
    decreases ids.len() - i,
{
    if i < 0 || i >= ids.len() {
        acc.push(']')
    } else {
        let sep = if i == 0 {
            acc
        } else {
            acc.push(',')
        };
        spec_id_array(ids, i + 1, sep + quoted(ids[i]))
    }
}

fn id_array_from(ids: &Vec<String>, i: usize, acc: String) -> (r: String)
    requires
        i <= ids@.len(),
    ensures
        r@ == spec_id_array(ids@.map_values(|s: String| s@), i as int, acc@),
    decreases ids@.len() - i,
{
    if i >= ids.len() {
        let mut out = acc;
        push_char(&mut out, ']');
        proof {
            assert(out@ =~= acc@.push(']'));
        }
        return out;
    }
    let mut sep = acc;
    if i > 0 {
        push_char(&mut sep, ',');
    }
    let q = quote_str(ids[i].as_str());
    let mut acc2 = sep;
    acc2.append(q.as_str());
    proof {
        let views = ids@.map_values(|s: String| s@);
        assert(views[i as int] == ids@[i as int]@);
        if i > 0 {
            assert(acc2@ =~= acc@.push(',') + quoted(views[i as int]));
        } else {
            assert(acc2@ =~= acc@ + quoted(views[i as int]));
        }
    }
    id_array_from(ids, i + 1, acc2)
}

/// Append a member to the object body: a comma first when a member is
/// already there.
pub open spec fn add_piece(acc: Seq<char>, any: bool, p: Option<Seq<char>>) -> (Seq<char>, bool) {
    match p {
        None => (acc, any),
        Some(x) => (
            if any {
                acc.push(',') + x
            } else {
                acc + x
            },
            true,
        ),
    }
}

/// The members of the serialized message object, in the fixed field order
/// `to`, `collapse_key`, `dry_run`, `registration_ids`, absent fields
/// omitted.
pub open spec fn spec_message_fields(m: MessageModel) -> Seq<char> {
    let p_to = match m.to {
        Some(s) => Some(field_txt("to"@, quoted(s))),
        None => None,
    };
    let p_ck = match m.collapse_key {
        Some(s) => Some(field_txt("collapse_key"@, quoted(s))),
        None => None,
    };
    let p_dr = match m.dry_run {
        Some(b) => Some(
            field_txt(
                "dry_run"@,
                if b {
                    "true"@
                } else {
                    "false"@
                },
            ),
        ),
        None => None,
    };
    let p_ri = match m.registration_ids {
        Some(v) => Some(field_txt("registration_ids"@, spec_id_array(v, 0, seq!['[']))),
        None => None,
    };
    let a0 = (Seq::<char>::empty(), false);
    let a1 = add_piece(a0.0, a0.1, p_to);
    let a2 = add_piece(a1.0, a1.1, p_ck);
    let a3 = add_piece(a2.0, a2.1, p_dr);
    let a4 = add_piece(a3.0, a3.1, p_ri);
    a4.0
}

/// The whole serialized message: the members wrapped in braces.
pub open spec fn spec_message_json(m: MessageModel) -> Seq<char> {
    seq!['{'] + spec_message_fields(m) + seq!['}']
}

/// Serialize a message to its wire request body. This serializer cannot
/// fail; the `Result` mirrors the call contract, under which a serialization
/// failure would short-circuit as `InvalidJsonBody`.
pub fn to_json(msg: &Message) -> (r: Result<String, GcmError>)
    ensures
        r matches Ok(j) && j@ == spec_message_json(msg.model()),
{
    let ghost m = msg.model();
    let mut fields = String::new();
    let mut any: bool = false;
    match &msg.to {
        Some(s) => {
            let piece = field_str("to", quote_str(s.as_str()));
            if any {
                push_char(&mut fields, ',');
            }
            fields.append(piece.as_str());
            any = true;
        },
        None => {},
    }
    let ghost a1 = add_piece(Seq::<char>::empty(), false, match m.to {
        Some(s) => Some(field_txt("to"@, quoted(s))),
        None => None,
    });
    proof {
        assert(fields@ =~= a1.0);
        assert(any == a1.1);
    }
    match &msg.collapse_key {
        Some(s) => {
            let piece = field_str("collapse_key", quote_str(s.as_str()));
            if any {
                push_char(&mut fields, ',');
            }
            fields.append(piece.as_str());
            any = true;
        },
        None => {},
    }
    let ghost a2 = add_piece(a1.0, a1.1, match m.collapse_key {
        Some(s) => Some(field_txt("collapse_key"@, quoted(s))),
        None => None,
    });
    proof {
        assert(fields@ =~= a2.0);
        assert(any == a2.1);
    }
    match &msg.dry_run {
        Some(b) => {
            let val: String = if *b {
                "true".to_owned()
            } else {
                "false".to_owned()
            };
            let piece = field_str("dry_run", val);
            if any {
                push_char(&mut fields, ',');
            }
            fields.append(piece.as_str());
            any = true;
        },
        None => {},
    }
    let ghost a3 = add_piece(a2.0, a2.1, match m.dry_run {
        Some(b) => Some(
            field_txt(
                "dry_run"@,
                if b {
                    "true"@
                } else {
                    "false"@
                },
            ),
        ),
        None => None,
    });
    proof {
        assert(fields@ =~= a3.0);
        assert(any == a3.1);
    }
    match &msg.registration_ids {
        Some(v) => {
            let mut open = String::new();
            push_char(&mut open, '[');
            proof {
                assert(open@ =~= seq!['[']);
            }
            let arr = id_array_from(v, 0, open);
            let piece = field_str("registration_ids", arr);
            if any {
                push_char(&mut fields, ',');
            }
            fields.append(piece.as_str());
            any = true;
        },
        None => {},
    }
    let ghost a4 = add_piece(a3.0, a3.1, match m.registration_ids {
        Some(v) => Some(field_txt("registration_ids"@, spec_id_array(v, 0, seq!['[']))),
        None => None,
    });
    proof {
        assert(fields@ =~= a4.0);
        assert(a4.0 == spec_message_fields(m));
    }
    let mut out = String::new();
    push_char(&mut out, '{');
    out.append(fields.as_str());
    push_char(&mut out, '}');
    proof {
        assert(out@ =~= seq!['{'] + spec_message_fields(m) + seq!['}']);
    }
    Ok(out)
}

} // verus!
