//! Decoding of the wire response body: a JSON object with the optional fields
//! `message_id`, `error`, `multicast_id`, `success`, `failure`,
//! `canonical_ids` and `results` (an array of per-recipient objects with
//! optional `message_id`, `registration_id` and `error`).
//!
//! The decoder is written and verified here, with a specification-level
//! parser as its contract: [`crate::response::GcmResponse`] comes out exactly
//! as [`spec_parse_response`] describes, and every body the specification
//! parser rejects is answered with `InvalidJsonBody`. Keys may come in any
//! order; an unknown key, an explicit `null`, a number out of range or a
//! string escape outside the eight single-character escapes is rejected.

use vstd::prelude::*;

use crate::response::{GcmError, GcmResponse, MessageResult};

verus! {

/// The mathematical image of one decoded [`MessageResult`].
pub struct ItemModel {
    pub message_id: Option<Seq<char>>,
    pub registration_id: Option<u64>,
    pub error: Option<Seq<char>>,
}

/// The mathematical image of a decoded [`GcmResponse`]: the wire fields only,
/// strings abstracted to character sequences.
pub struct ResponseModel {
    pub message_id: Option<u64>,
    pub error: Option<Seq<char>>,
    pub multicast_id: Option<i64>,
    pub success: Option<u64>,
    pub failure: Option<u64>,
    pub canonical_ids: Option<u64>,
    pub results: Option<Seq<ItemModel>>,
}

impl MessageResult {
    /// The mathematical value of this result item.
    pub open spec fn model(&self) -> ItemModel {
        ItemModel {
            message_id: match self.message_id {
                Some(s) => Some(s@),
                None => None,
            },
            registration_id: self.registration_id,
            error: match self.error {
                Some(s) => Some(s@),
                None => None,
            },
        }
    }
}

impl GcmResponse {
    /// The mathematical value of the wire fields of this response.
    pub open spec fn model(&self) -> ResponseModel {
        ResponseModel {
            message_id: self.message_id,
            error: match self.error {
                Some(s) => Some(s@),
                None => None,
            },
            multicast_id: self.multicast_id,
            success: self.success,
            failure: self.failure,
            canonical_ids: self.canonical_ids,
            results: match self.results {
                Some(v) => Some(v@.map_values(|m: MessageResult| m.model())),
                None => None,
            },
        }
    }
}

/// Relies on `String::push`: appends exactly the one character.
#[verifier::external_body]
pub(crate) fn push_char(s: &mut String, c: char)
    ensures
        final(s)@ == old(s)@ + seq![c],
{
    s.push(c);
}

/// JSON insignificant whitespace.
pub open spec fn is_ws(c: char) -> bool {
    c == ' ' || c == '\t' || c == '\n' || c == '\r'
}

/// The first position at or after `pos` holding a non-whitespace character.
pub open spec fn spec_ws(s: Seq<char>, pos: int) -> int
    decreases s.len() - pos,
{
    if 0 <= pos < s.len() && is_ws(s[pos]) {
        spec_ws(s, pos + 1)
    } else {
        pos
    }
}

/// Skip insignificant whitespace.
fn skip_ws(s: &str, pos: usize) -> (r: usize)
    requires
        pos <= s@.len(),
    ensures
        r == spec_ws(s@, pos as int),
        pos <= r <= s@.len(),
    decreases s@.len() - pos,
{
    let n = s.unicode_len();
    if pos < n {
        let c = s.get_char(pos);
        if c == ' ' || c == '\t' || c == '\n' || c == '\r' {
            return skip_ws(s, pos + 1);
        }
    }
    pos
}

/// The replacement a single-character escape stands for, if it is one of the
/// eight accepted ones.
pub open spec fn spec_unescape(c: char) -> Option<char> {
    if c == '"' {
        Some('"')
    } else if c == '\\' {
        Some('\\')
    } else if c == '/' {
        Some('/')
    } else if c == 'b' {
        Some('\u{0008}')
    } else if c == 'f' {
        Some('\u{000c}')
    } else if c == 'n' {
        Some('\n')
    } else if c == 'r' {
        Some('\r')
    } else if c == 't' {
        Some('\t')
    } else {
        None
    }
}

fn unescape_char(c: char) -> (r: Option<char>)
    ensures
        r == spec_unescape(c),
{
    if c == '"' {
        Some('"')
    } else if c == '\\' {
        Some('\\')
    } else if c == '/' {
        Some('/')
    } else if c == 'b' {
        Some('\u{0008}')
    } else if c == 'f' {
        Some('\u{000c}')
    } else if c == 'n' {
        Some('\n')
    } else if c == 'r' {
        Some('\r')
    } else if c == 't' {
        Some('\t')
    } else {
        None
    }
}

/// The remainder of a string literal, from just after the opening quote (or
/// any position inside), accumulating into `acc`: ends at an unescaped
/// closing quote, refuses raw control characters and unknown escapes.
pub open spec fn spec_str_body(s: Seq<char>, pos: int, acc: Seq<char>) -> Option<(Seq<char>, int)>
    decreases s.len() - pos,
{
    if pos < 0 || pos >= s.len() {
        None
    } else if s[pos] == '"' {
        Some((acc, pos + 1))
    } else if s[pos] == '\\' {
        if pos + 1 < s.len() {
            match spec_unescape(s[pos + 1]) {
                Some(u) => spec_str_body(s, pos + 2, acc.push(u)),
                None => None,
            }
        } else {
            None
        }
    } else if (s[pos] as u32) < 0x20 {
        None
    } else {
        spec_str_body(s, pos + 1, acc.push(s[pos]))
    }
}

/// A string literal starting at `pos` with its opening quote.
pub open spec fn spec_string(s: Seq<char>, pos: int) -> Option<(Seq<char>, int)> {
    if 0 <= pos < s.len() && s[pos] == '"' {
        spec_str_body(s, pos + 1, Seq::empty())
    } else {
        None
    }
}

fn parse_str_body(s: &str, pos: usize, acc: String) -> (r: Option<(String, usize)>)
    requires
        pos <= s@.len(),
    ensures
        match spec_str_body(s@, pos as int, acc@) {
            Some((sv, sp)) => r matches Some(p) && p.0@ == sv && p.1 == sp && pos < p.1 <= s@.len(),
            None => r is None,
        },
    decreases s@.len() - pos,
{
    let n = s.unicode_len();
    if pos >= n {
        return None;
    }
    let c = s.get_char(pos);
    if c == '"' {
        Some((acc, pos + 1))
    } else if c == '\\' {
        if pos + 1 < n {
            match unescape_char(s.get_char(pos + 1)) {
                Some(u) => {
                    let mut acc2 = acc;
                    push_char(&mut acc2, u);
                    proof {
                        assert(acc2@ =~= acc@.push(u));
                    }
                    parse_str_body(s, pos + 2, acc2)
                },
                None => None,
            }
        } else {
            None
        }
    } else if (c as u32) < 0x20 {
        None
    } else {
        let mut acc2 = acc;
        push_char(&mut acc2, c);
        proof {
            assert(acc2@ =~= acc@.push(c));
        }
        parse_str_body(s, pos + 1, acc2)
    }
}

/// Parse a string literal starting at `pos`.
fn parse_string(s: &str, pos: usize) -> (r: Option<(String, usize)>)
    requires
        pos <= s@.len(),
    ensures
        match spec_string(s@, pos as int) {
            Some((sv, sp)) => r matches Some(p) && p.0@ == sv && p.1 == sp && pos < p.1 <= s@.len(),
            None => r is None,
        },
    decreases s@.len() - pos,
{
    let n = s.unicode_len();
    if pos < n && s.get_char(pos) == '"' {
        parse_str_body(s, pos + 1, String::new())
    } else {
        None
    }
}

/// A decimal digit and its value.
pub open spec fn is_digit(c: char) -> bool {
    48 <= (c as u32) <= 57
}

pub open spec fn digit_val(c: char) -> int {
    (c as u32) - 48
}

/// A run of decimal digits accumulated onto `acc`, refused as soon as the
/// value would leave the `u64` range.
pub open spec fn spec_digits(s: Seq<char>, pos: int, acc: int) -> Option<(int, int)>
    decreases s.len() - pos,
{
    if 0 <= pos < s.len() && is_digit(s[pos]) {
        let a2 = acc * 10 + digit_val(s[pos]);
        if a2 > u64::MAX {
            None
        } else {
            spec_digits(s, pos + 1, a2)
        }
    } else {
        Some((acc, pos))
    }
}

/// An unsigned decimal number starting at `pos`: at least one digit, value in
/// the `u64` range.
pub open spec fn spec_u64(s: Seq<char>, pos: int) -> Option<(int, int)> {
    if 0 <= pos < s.len() && is_digit(s[pos]) {
        spec_digits(s, pos, 0)
    } else {
        None
    }
}

fn parse_digits(s: &str, pos: usize, acc: u64) -> (r: Option<(u64, usize)>)
    requires
        pos <= s@.len(),
    ensures
        match spec_digits(s@, pos as int, acc as int) {
            Some((v, sp)) => r matches Some(p) && p.0 == v && p.1 == sp && pos <= p.1 <= s@.len(),
            None => r is None,
        },
    decreases s@.len() - pos,
{
    let n = s.unicode_len();
    if pos < n {
        let c = s.get_char(pos);
        let cv = c as u32;
        if 48 <= cv && cv <= 57 {
            let d: u64 = (cv - 48) as u64;
            return match acc.checked_mul(10) {
                Some(m) => match m.checked_add(d) {
                    Some(a2) => parse_digits(s, pos + 1, a2),
                    None => None,
                },
                None => {
                    proof {
                        assert(acc * 10 + digit_val(c) > u64::MAX);
                    }
                    None
                },
            };
        }
    }
    Some((acc, pos))
}

/// Parse an unsigned decimal number starting at `pos`.
fn parse_u64(s: &str, pos: usize) -> (r: Option<(u64, usize)>)
    requires
        pos <= s@.len(),
    ensures
        match spec_u64(s@, pos as int) {
            Some((v, sp)) => r matches Some(p) && p.0 == v && p.1 == sp && pos <= p.1 <= s@.len(),
            None => r is None,
        },
{
    let n = s.unicode_len();
    if pos < n {
        let cv = s.get_char(pos) as u32;
        if 48 <= cv && cv <= 57 {
            return parse_digits(s, pos, 0);
        }
    }
    None
}

/// A possibly negated decimal number in the `i64` range.
pub open spec fn spec_i64(s: Seq<char>, pos: int) -> Option<(int, int)> {
    if 0 <= pos < s.len() && s[pos] == '-' {
        match spec_u64(s, pos + 1) {
            Some((v, sp)) => if -v >= i64::MIN {
                Some((-v, sp))
            } else {
                None
            },
            None => None,
        }
    } else {
        match spec_u64(s, pos) {
            Some((v, sp)) => if v <= i64::MAX {
                Some((v, sp))
            } else {
                None
            },
            None => None,
        }
    }
}

/// Parse a possibly negated decimal number in the `i64` range.
fn parse_i64(s: &str, pos: usize) -> (r: Option<(i64, usize)>)
    requires
        pos <= s@.len(),
    ensures
        match spec_i64(s@, pos as int) {
            Some((v, sp)) => r matches Some(p) && p.0 == v && p.1 == sp && pos <= p.1 <= s@.len(),
            None => r is None,
        },
{
    let n = s.unicode_len();
    if pos < n && s.get_char(pos) == '-' {
        match parse_u64(s, pos + 1) {
            Some((mag, sp)) => {
                if mag <= i64::MAX as u64 {
                    Some((-(mag as i64), sp))
                } else if mag == (i64::MAX as u64) + 1 {
                    Some((i64::MIN, sp))
                } else {
                    None
                }
            },
            None => None,
        }
    } else {
        match parse_u64(s, pos) {
            Some((v, sp)) => {
                if v <= i64::MAX as u64 {
                    Some((v as i64, sp))
                } else {
                    None
                }
            },
            None => None,
        }
    }
}

/// An item model with every field absent.
pub open spec fn empty_item() -> ItemModel {
    ItemModel { message_id: None, registration_id: None, error: None }
}

/// A response model with every field absent.
pub open spec fn empty_response_model() -> ResponseModel {
    ResponseModel {
        message_id: None,
        error: None,
        multicast_id: None,
        success: None,
        failure: None,
        canonical_ids: None,
        results: None,
    }
}

/// The members of one result object, from just after `{` or a `,`: a known
/// key, a colon, a value of that key's type, then either a comma and further
/// members or the closing brace. `fuel` bounds the member count; it is always
/// called with more fuel than any input can consume.
pub open spec fn spec_item_fields(s: Seq<char>, pos: int, m: ItemModel, fuel: nat) -> Option<
    (ItemModel, int),
>
    decreases fuel,
{
    if fuel == 0 {
        None
    } else {
        let kpos = spec_ws(s, pos);
        match spec_string(s, kpos) {
            None => None,
            Some((key, p1)) => {
                let p2 = spec_ws(s, p1);
                if !(p2 < s.len() && s[p2] == ':') {
                    None
                } else {
                    let p3 = spec_ws(s, p2 + 1);
                    let step: Option<(ItemModel, int)> = if key == "message_id"@ {
                        match spec_string(s, p3) {
                            Some((v, p4)) => Some((ItemModel { message_id: Some(v), ..m }, p4)),
                            None => None,
                        }
                    } else if key == "registration_id"@ {
                        match spec_u64(s, p3) {
                            Some((v, p4)) => Some(
                                (ItemModel { registration_id: Some(v as u64), ..m }, p4),
                            ),
                            None => None,
                        }
                    } else if key == "error"@ {
                        match spec_string(s, p3) {
                            Some((v, p4)) => Some((ItemModel { error: Some(v), ..m }, p4)),
                            None => None,
                        }
                    } else {
                        None
                    };
                    match step {
                        None => None,
                        Some((m2, p4)) => {
                            let p5 = spec_ws(s, p4);
                            if p5 < s.len() && s[p5] == ',' {
                                spec_item_fields(s, p5 + 1, m2, (fuel - 1) as nat)
                            } else if p5 < s.len() && s[p5] == '}' {
                                Some((m2, p5 + 1))
                            } else {
                                None
                            }
                        },
                    }
                }
            },
        }
    }
}

/// One result object starting at its `{`.
pub open spec fn spec_item(s: Seq<char>, pos: int) -> Option<(ItemModel, int)> {
    if 0 <= pos < s.len() && s[pos] == '{' {
        let p1 = spec_ws(s, pos + 1);
        if p1 < s.len() && s[p1] == '}' {
            Some((empty_item(), p1 + 1))
        } else {
            spec_item_fields(s, pos + 1, empty_item(), s.len())
        }
    } else {
        None
    }
}

/// The elements of a non-empty results array, from just after `[` or a `,`.
pub open spec fn spec_results_elems(
    s: Seq<char>,
    pos: int,
    acc: Seq<ItemModel>,
    fuel: nat,
) -> Option<(Seq<ItemModel>, int)>
    decreases fuel,
{
    if fuel == 0 {
        None
    } else {
        let p0 = spec_ws(s, pos);
        match spec_item(s, p0) {
            None => None,
            Some((it, p1)) => {
                let p2 = spec_ws(s, p1);
                if p2 < s.len() && s[p2] == ',' {
                    spec_results_elems(s, p2 + 1, acc.push(it), (fuel - 1) as nat)
                } else if p2 < s.len() && s[p2] == ']' {
                    Some((acc.push(it), p2 + 1))
                } else {
                    None
                }
            },
        }
    }
}

/// The results array starting at its `[`.
pub open spec fn spec_results(s: Seq<char>, pos: int) -> Option<(Seq<ItemModel>, int)> {
    if 0 <= pos < s.len() && s[pos] == '[' {
        let p1 = spec_ws(s, pos + 1);
        if p1 < s.len() && s[p1] == ']' {
            Some((Seq::empty(), p1 + 1))
        } else {
            spec_results_elems(s, pos + 1, Seq::empty(), s.len())
        }
    } else {
        None
    }
}

/// The members of the response object, from just after `{` or a `,`.
pub open spec fn spec_resp_fields(s: Seq<char>, pos: int, m: ResponseModel, fuel: nat) -> Option<
    (ResponseModel, int),
>
    decreases fuel,
{
    if fuel == 0 {
        None
    } else {
        let kpos = spec_ws(s, pos);
        match spec_string(s, kpos) {
            None => None,
            Some((key, p1)) => {
                let p2 = spec_ws(s, p1);
                if !(p2 < s.len() && s[p2] == ':') {
                    None
                } else {
                    let p3 = spec_ws(s, p2 + 1);
                    let step: Option<(ResponseModel, int)> = if key == "message_id"@ {
                        match spec_u64(s, p3) {
                            Some((v, p4)) => Some(
                                (ResponseModel { message_id: Some(v as u64), ..m }, p4),
                            ),
                            None => None,
                        }
                    } else if key == "error"@ {
                        match spec_string(s, p3) {
                            Some((v, p4)) => Some((ResponseModel { error: Some(v), ..m }, p4)),
                            None => None,
                        }
                    } else if key == "multicast_id"@ {
                        match spec_i64(s, p3) {
                            Some((v, p4)) => Some(
                                (ResponseModel { multicast_id: Some(v as i64), ..m }, p4),
                            ),
                            None => None,
                        }
                    } else if key == "success"@ {
                        match spec_u64(s, p3) {
                            Some((v, p4)) => Some(
                                (ResponseModel { success: Some(v as u64), ..m }, p4),
                            ),
                            None => None,
                        }
                    } else if key == "failure"@ {
                        match spec_u64(s, p3) {
                            Some((v, p4)) => Some(
                                (ResponseModel { failure: Some(v as u64), ..m }, p4),
                            ),
                            None => None,
                        }
                    } else if key == "canonical_ids"@ {
                        match spec_u64(s, p3) {
                            Some((v, p4)) => Some(
                                (ResponseModel { canonical_ids: Some(v as u64), ..m }, p4),
                            ),
                            None => None,
                        }
                    } else if key == "results"@ {
                        match spec_results(s, p3) {
                            Some((v, p4)) => Some((ResponseModel { results: Some(v), ..m }, p4)),
                            None => None,
                        }
                    } else {
                        None
                    };
                    match step {
                        None => None,
                        Some((m2, p4)) => {
                            let p5 = spec_ws(s, p4);
                            if p5 < s.len() && s[p5] == ',' {
                                spec_resp_fields(s, p5 + 1, m2, (fuel - 1) as nat)
                            } else if p5 < s.len() && s[p5] == '}' {
                                Some((m2, p5 + 1))
                            } else {
                                None
                            }
                        },
                    }
                }
            },
        }
    }
}

/// The whole response body: one object, possibly surrounded by whitespace,
/// nothing after it.
pub open spec fn spec_parse_response(s: Seq<char>) -> Option<ResponseModel> {
    let p0 = spec_ws(s, 0);
    if p0 < s.len() && s[p0] == '{' {
        let p1 = spec_ws(s, p0 + 1);
        let parsed: Option<(ResponseModel, int)> = if p1 < s.len() && s[p1] == '}' {
            Some((empty_response_model(), p1 + 1))
        } else {
            spec_resp_fields(s, p0 + 1, empty_response_model(), s.len())
        };
        match parsed {
            None => None,
            Some((m, p2)) => {
                if spec_ws(s, p2) == s.len() {
                    Some(m)
                } else {
                    None
                }
            },
        }
    } else {
        None
    }
}

/// Whether the string `a` reads exactly as the literal `lit`.
fn str_is(a: &String, lit: &str) -> (r: bool)
    ensures
        r == (a@ == lit@),
{
    *a == lit.to_owned()
}

fn parse_item_fields(s: &str, pos: usize, m: MessageResult, fuel: usize) -> (r: Option<
    (MessageResult, usize),
>)
    requires
        pos <= s@.len(),
    ensures
        match spec_item_fields(s@, pos as int, m.model(), fuel as nat) {
            Some((m2, sp)) => r matches Some(p) && p.0.model() == m2 && p.1 == sp && p.1 <= s@.len(),
            None => r is None,
        },
    decreases fuel,
{
    if fuel == 0 {
        return None;
    }
    let kpos = skip_ws(s, pos);
    let n = s.unicode_len();
    match parse_string(s, kpos) {
        None => None,
        Some((key, p1)) => {
            let p2 = skip_ws(s, p1);
            if !(p2 < n && s.get_char(p2) == ':') {
                return None;
            }
            let p3 = skip_ws(s, p2 + 1);
            let step: Option<(MessageResult, usize)> = if str_is(&key, "message_id") {
                match parse_string(s, p3) {
                    Some((v, p4)) => Some((MessageResult { message_id: Some(v), ..m }, p4)),
                    None => None,
                }
            } else if str_is(&key, "registration_id") {
                match parse_u64(s, p3) {
                    Some((v, p4)) => Some((MessageResult { registration_id: Some(v), ..m }, p4)),
                    None => None,
                }
            } else if str_is(&key, "error") {
                match parse_string(s, p3) {
                    Some((v, p4)) => Some((MessageResult { error: Some(v), ..m }, p4)),
                    None => None,
                }
            } else {
                None
            };
            match step {
                None => None,
                Some((m2, p4)) => {
                    let p5 = skip_ws(s, p4);
                    if p5 < n && s.get_char(p5) == ',' {
                        parse_item_fields(s, p5 + 1, m2, fuel - 1)
                    } else if p5 < n && s.get_char(p5) == '}' {
                        Some((m2, p5 + 1))
                    } else {
                        None
                    }
                },
            }
        },
    }
}

fn parse_item(s: &str, pos: usize) -> (r: Option<(MessageResult, usize)>)
    requires
        pos <= s@.len(),
    ensures
        match spec_item(s@, pos as int) {
            Some((m, sp)) => r matches Some(p) && p.0.model() == m && p.1 == sp && p.1 <= s@.len(),
            None => r is None,
        },
{
    let n = s.unicode_len();
    if pos < n && s.get_char(pos) == '{' {
        let empty = MessageResult { message_id: None, registration_id: None, error: None };
        proof {
            assert(empty.model() == empty_item());
        }
        let p1 = skip_ws(s, pos + 1);
        if p1 < n && s.get_char(p1) == '}' {
            Some((empty, p1 + 1))
        } else {
            parse_item_fields(s, pos + 1, empty, n)
        }
    } else {
        None
    }
}

fn parse_results_elems(s: &str, pos: usize, acc: Vec<MessageResult>, fuel: usize) -> (r: Option<
    (Vec<MessageResult>, usize),
>)
    requires
        pos <= s@.len(),
    ensures
        match spec_results_elems(
            s@,
            pos as int,
            acc@.map_values(|x: MessageResult| x.model()),
            fuel as nat,
        ) {
            Some((v, sp)) => r matches Some(p) && p.0@.map_values(|x: MessageResult| x.model()) == v
                && p.1 == sp && p.1 <= s@.len(),
            None => r is None,
        },
    decreases fuel,
{
    if fuel == 0 {
        return None;
    }
    let n = s.unicode_len();
    let p0 = skip_ws(s, pos);
    match parse_item(s, p0) {
        None => None,
        Some((it, p1)) => {
            let ghost acc0 = acc@;
            let ghost it_model = it.model();
            let mut acc2 = acc;
            acc2.push(it);
            proof {
                assert(acc2@.map_values(|x: MessageResult| x.model()) =~= acc0.map_values(
                    |x: MessageResult| x.model(),
                ).push(it_model));
            }
            let p2 = skip_ws(s, p1);
            if p2 < n && s.get_char(p2) == ',' {
                parse_results_elems(s, p2 + 1, acc2, fuel - 1)
            } else if p2 < n && s.get_char(p2) == ']' {
                Some((acc2, p2 + 1))
            } else {
                None
            }
        },
    }
}

fn parse_results(s: &str, pos: usize) -> (r: Option<(Vec<MessageResult>, usize)>)
    requires
        pos <= s@.len(),
    ensures
        match spec_results(s@, pos as int) {
            Some((v, sp)) => r matches Some(p) && p.0@.map_values(|x: MessageResult| x.model()) == v
                && p.1 == sp && p.1 <= s@.len(),
            None => r is None,
        },
{
    let n = s.unicode_len();
    if pos < n && s.get_char(pos) == '[' {
        let p1 = skip_ws(s, pos + 1);
        if p1 < n && s.get_char(p1) == ']' {
            let empty: Vec<MessageResult> = Vec::new();
            proof {
                assert(empty@.map_values(|x: MessageResult| x.model()) =~= Seq::<
                    ItemModel,
                >::empty());
            }
            Some((empty, p1 + 1))
        } else {
            let empty: Vec<MessageResult> = Vec::new();
            proof {
                assert(empty@.map_values(|x: MessageResult| x.model()) =~= Seq::<
                    ItemModel,
                >::empty());
            }
            parse_results_elems(s, pos + 1, empty, n)
        }
    } else {
        None
    }
}

fn parse_resp_fields(s: &str, pos: usize, m: GcmResponse, fuel: usize) -> (r: Option<
    (GcmResponse, usize),
>)
    requires
        pos <= s@.len(),
    ensures
        match spec_resp_fields(s@, pos as int, m.model(), fuel as nat) {
            Some((m2, sp)) => r matches Some(p) && p.0.model() == m2 && p.1 == sp && p.1 <= s@.len()
                && p.0.ids_by_error == m.ids_by_error && p.0.ids_by_success == m.ids_by_success,
            None => r is None,
        },
    decreases fuel,
{
    if fuel == 0 {
        return None;
    }
    let kpos = skip_ws(s, pos);
    let n = s.unicode_len();
    match parse_string(s, kpos) {
        None => None,
        Some((key, p1)) => {
            let p2 = skip_ws(s, p1);
            if !(p2 < n && s.get_char(p2) == ':') {
                return None;
            }
            let p3 = skip_ws(s, p2 + 1);
            let step: Option<(GcmResponse, usize)> = if str_is(&key, "message_id") {
                match parse_u64(s, p3) {
                    Some((v, p4)) => Some((GcmResponse { message_id: Some(v), ..m }, p4)),
                    None => None,
                }
            } else if str_is(&key, "error") {
                match parse_string(s, p3) {
                    Some((v, p4)) => Some((GcmResponse { error: Some(v), ..m }, p4)),
                    None => None,
                }
            } else if str_is(&key, "multicast_id") {
                match parse_i64(s, p3) {
                    Some((v, p4)) => Some((GcmResponse { multicast_id: Some(v), ..m }, p4)),
                    None => None,
                }
            } else if str_is(&key, "success") {
                match parse_u64(s, p3) {
                    Some((v, p4)) => Some((GcmResponse { success: Some(v), ..m }, p4)),
                    None => None,
                }
            } else if str_is(&key, "failure") {
                match parse_u64(s, p3) {
                    Some((v, p4)) => Some((GcmResponse { failure: Some(v), ..m }, p4)),
                    None => None,
                }
            } else if str_is(&key, "canonical_ids") {
                match parse_u64(s, p3) {
                    Some((v, p4)) => Some((GcmResponse { canonical_ids: Some(v), ..m }, p4)),
                    None => None,
                }
            } else if str_is(&key, "results") {
                match parse_results(s, p3) {
                    Some((v, p4)) => Some((GcmResponse { results: Some(v), ..m }, p4)),
                    None => None,
                }
            } else {
                None
            };
            match step {
                None => None,
                Some((m2, p4)) => {
                    let p5 = skip_ws(s, p4);
                    if p5 < n && s.get_char(p5) == ',' {
                        parse_resp_fields(s, p5 + 1, m2, fuel - 1)
                    } else if p5 < n && s.get_char(p5) == '}' {
                        Some((m2, p5 + 1))
                    } else {
                        None
                    }
                },
            }
        },
    }
}

/// Decode a response body. Exactly the bodies accepted by
/// [`spec_parse_response`] yield a response, and that response's wire fields
/// are the parsed model's, its derived maps empty; every other body yields
/// `InvalidJsonBody`.
pub fn from_body(body: &str) -> (r: Result<GcmResponse, GcmError>)
    ensures
        match spec_parse_response(body@) {
            Some(m) => r matches Ok(resp) && resp.model() == m && resp.ids_by_error is None
                && resp.ids_by_success@.len() == 0 && resp.wf(),
            None => r matches Err(e) && e is InvalidJsonBody,
        },
{
    let n = body.unicode_len();
    let p0 = skip_ws(body, 0);
    if p0 < n && body.get_char(p0) == '{' {
        let base = GcmResponse::default();
        proof {
            assert(base.model() == empty_response_model());
        }
        let p1 = skip_ws(body, p0 + 1);
        let parsed: Option<(GcmResponse, usize)> = if p1 < n && body.get_char(p1) == '}' {
            Some((base, p1 + 1))
        } else {
            parse_resp_fields(body, p0 + 1, base, n)
        };
        match parsed {
            None => Err(GcmError::InvalidJsonBody),
            Some((resp, p2)) => {
                if skip_ws(body, p2) == n {
                    Ok(resp)
                } else {
                    Err(GcmError::InvalidJsonBody)
                }
            },
        }
    } else {
        Err(GcmError::InvalidJsonBody)
    }
}

} // verus!
