//! The parser: locates the intent array inside the inference service's
//! raw text (anything before the first `[` and after the last `]` is
//! discarded) and decodes it into the intent sequence.  The payload is
//! an array of objects, each carrying an `intent` discriminator and an
//! optional flat `parameters` object of string and unsigned-integer
//! values.  Any mismatch fails with a [`ParseError`] carrying the raw
//! payload, so the caller can log it.

use vstd::prelude::*;
use vstd::string::StrSliceExecFns;
use crate::ir::{CreateArrayParams, Intent, IntentModel, SortArrayParams, WaitParams};

verus! {

/// A payload that could not be decoded as an intent array; `raw` holds
/// the text handed to the decoder, so nothing is lost for diagnostics.
#[derive(Debug)]
pub struct ParseError {
    pub raw: String,
}

/// The whitespace accepted between tokens.
pub open spec fn is_ws_char(c: char) -> bool {
    c == ' ' || c == '\t' || c == '\n' || c == '\r'
}

/// A decimal digit.
pub open spec fn is_digit_char(c: char) -> bool {
    '0' <= c && c <= '9'
}

/// The value of a decimal digit.
pub open spec fn digit_value(c: char) -> u64 {
    (c as u32 - '0' as u32) as u64
}

/// The first position at or after `i` that holds no whitespace.
pub open spec fn spec_skip_ws(s: Seq<char>, i: int) -> int
    decreases s.len() - i,
{
    if 0 <= i < s.len() && is_ws_char(s[i]) {
        spec_skip_ws(s, i + 1)
    } else {
        i
    }
}

/// Skipping whitespace stays inside the text.
pub proof fn lemma_skip_ws(s: Seq<char>, i: int)
    requires
        0 <= i <= s.len(),
    ensures
        i <= spec_skip_ws(s, i) <= s.len(),
    decreases s.len() - i,
{
    if 0 <= i < s.len() && is_ws_char(s[i]) {
        lemma_skip_ws(s, i + 1);
    }
}

/// Reading digits from `i` on into the accumulator; stops at the first
/// non-digit, and fails if the number no longer fits in 64 bits.
pub open spec fn spec_number_loop(s: Seq<char>, i: int, acc: u64) -> Option<(u64, int)>
    decreases s.len() - i,
{
    if 0 <= i < s.len() && is_digit_char(s[i]) {
        if acc <= (u64::MAX - digit_value(s[i])) / 10 {
            spec_number_loop(s, i + 1, (acc * 10 + digit_value(s[i])) as u64)
        } else {
            None
        }
    } else {
        Some((acc, i))
    }
}

/// An unsigned decimal number: at least one digit at `i`.
pub open spec fn spec_parse_number(s: Seq<char>, i: int) -> Option<(u64, int)> {
    if 0 <= i < s.len() && is_digit_char(s[i]) {
        spec_number_loop(s, i, 0)
    } else {
        None
    }
}

/// Reading digits moves forward and stays inside the text.
pub proof fn lemma_number_loop(s: Seq<char>, i: int, acc: u64)
    requires
        0 <= i <= s.len(),
    ensures
        spec_number_loop(s, i, acc) matches Some((v, e)) ==> i <= e <= s.len(),
    decreases s.len() - i,
{
    if 0 <= i < s.len() && is_digit_char(s[i]) && acc <= (u64::MAX - digit_value(s[i])) / 10 {
        lemma_number_loop(s, i + 1, (acc * 10 + digit_value(s[i])) as u64);
    }
}

/// A parsed number ends past where it starts.
pub proof fn lemma_parse_number(s: Seq<char>, i: int)
    requires
        0 <= i <= s.len(),
    ensures
        spec_parse_number(s, i) matches Some((v, e)) ==> i < e <= s.len(),
{
    if 0 <= i < s.len() && is_digit_char(s[i]) {
        lemma_number_loop(s, i + 1, digit_value(s[i]));
    }
}

/// The position of the closing quote at or after `j`.  A backslash or
/// the end of the text means there is none the decoder accepts: escape
/// sequences are not part of the vocabulary the payload needs.
pub open spec fn spec_string_end(s: Seq<char>, j: int) -> Option<int>
    decreases s.len() - j,
{
    if !(0 <= j < s.len()) {
        None
    } else if s[j] == '"' {
        Some(j)
    } else if s[j] == '\\' {
        None
    } else {
        spec_string_end(s, j + 1)
    }
}

/// The closing quote stands at or after `j`, inside the text.
pub proof fn lemma_string_end(s: Seq<char>, j: int)
    requires
        0 <= j <= s.len(),
    ensures
        spec_string_end(s, j) matches Some(e) ==> j <= e < s.len() && s[e] == '"',
    decreases s.len() - j,
{
    if 0 <= j < s.len() && s[j] != '"' && s[j] != '\\' {
        lemma_string_end(s, j + 1);
    }
}

/// A string literal at `i`: its contents, and the position after the
/// closing quote.
pub open spec fn spec_parse_string(s: Seq<char>, i: int) -> Option<(Seq<char>, int)> {
    if 0 <= i < s.len() && s[i] == '"' {
        match spec_string_end(s, i + 1) {
            Some(e) => Some((s.subrange(i + 1, e), e + 1)),
            None => None,
        }
    } else {
        None
    }
}

/// A parsed string ends past where it starts, inside the text.
pub proof fn lemma_parse_string(s: Seq<char>, i: int)
    requires
        0 <= i <= s.len(),
    ensures
        spec_parse_string(s, i) matches Some((v, e)) ==> i < e <= s.len(),
{
    if 0 <= i < s.len() && s[i] == '"' {
        lemma_string_end(s, i + 1);
    }
}

/// Whether the character at `i` is whitespace.
fn ws_at(s: &str, len: usize, i: usize) -> (r: bool)
    requires
        len == s@.len(),
        i < len,
    ensures
        r == is_ws_char(s@[i as int]),
{
    let c = s.get_char(i);
    c == ' ' || c == '\t' || c == '\n' || c == '\r'
}

/// Whether the character at `i` is a decimal digit.
fn digit_at(s: &str, len: usize, i: usize) -> (r: bool)
    requires
        len == s@.len(),
        i < len,
    ensures
        r == is_digit_char(s@[i as int]),
{
    let c = s.get_char(i);
    c >= '0' && c <= '9'
}

/// Whether the number loop can take the digit at `i` into `acc`.
fn can_take_digit(s: &str, len: usize, i: usize, acc: u64) -> (r: bool)
    requires
        len == s@.len(),
        i <= len,
    ensures
        r == (i < s@.len() && is_digit_char(s@[i as int]) && acc <= (u64::MAX - digit_value(
            s@[i as int],
        )) / 10),
{
    if i >= len {
        return false;
    }
    let c = s.get_char(i);
    if !(c >= '0' && c <= '9') {
        return false;
    }
    let d: u64 = c as u64 - 48;
    acc <= (u64::MAX - d) / 10
}

/// Whether the string scan continues past the character at `j`.
fn string_continues_at(s: &str, len: usize, j: usize) -> (r: bool)
    requires
        len == s@.len(),
        j < len,
    ensures
        r == (s@[j as int] != '"' && s@[j as int] != '\\'),
{
    let c = s.get_char(j);
    c != '"' && c != '\\'
}

/// Finds the first position at or after `start` that holds no
/// whitespace.
fn skip_ws(s: &str, len: usize, start: usize) -> (r: usize)
    requires
        len == s@.len(),
        start <= len,
    ensures
        r == spec_skip_ws(s@, start as int),
        start <= r <= len,
{
    let mut i: usize = start;
    while i < len && ws_at(s, len, i)
        invariant
            start <= i <= len,
            len == s@.len(),
            spec_skip_ws(s@, start as int) == spec_skip_ws(s@, i as int),
        decreases len - i,
    {
        i = i + 1;
    }
    i
}

/// Reads an unsigned decimal number at `start`.
fn parse_number(s: &str, len: usize, start: usize) -> (r: Option<(u64, usize)>)
    requires
        len == s@.len(),
        start <= len,
    ensures
        match r {
            Some((v, e)) => spec_parse_number(s@, start as int) == Some((v, e as int)) && start < e
                <= len,
            None => spec_parse_number(s@, start as int) is None,
        },
{
    if start >= len {
        return None;
    }
    let first = s.get_char(start);
    if !(first >= '0' && first <= '9') {
        return None;
    }
    let mut acc: u64 = 0;
    let mut i: usize = start;
    while can_take_digit(s, len, i, acc)
        invariant
            start <= i <= len,
            len == s@.len(),
            spec_number_loop(s@, start as int, 0) == spec_number_loop(s@, i as int, acc),
        decreases len - i,
    {
        let d: u64 = s.get_char(i) as u64 - 48;
        acc = acc * 10 + d;
        i = i + 1;
    }
    if i < len {
        let c = s.get_char(i);
        if c >= '0' && c <= '9' {
            // The next digit no longer fits in 64 bits.
            return None;
        }
    }
    proof {
        lemma_number_loop(s@, start as int, 0);
    }
    Some((acc, i))
}

/// Reads a string literal at `start`; the contents must be free of
/// backslash escapes.
fn parse_string(s: &str, len: usize, start: usize) -> (r: Option<(String, usize)>)
    requires
        len == s@.len(),
        start <= len,
    ensures
        match r {
            Some((v, e)) => spec_parse_string(s@, start as int) == Some((v@, e as int)) && start < e
                <= len,
            None => spec_parse_string(s@, start as int) is None,
        },
{
    if start >= len {
        return None;
    }
    if s.get_char(start) != '"' {
        return None;
    }
    let mut j: usize = start + 1;
    while j < len && string_continues_at(s, len, j)
        invariant
            start + 1 <= j <= len,
            len == s@.len(),
            spec_string_end(s@, start + 1) == spec_string_end(s@, j as int),
        decreases len - j,
    {
        j = j + 1;
    }
    if j >= len {
        return None;
    }
    if s.get_char(j) == '\\' {
        return None;
    }
    let contents = s.substring_char(start + 1, j).to_owned();
    Some((contents, j + 1))
}

} // verus!

verus! {

/// A parameter value: the parameters object is flat, holding only
/// strings and unsigned integers.
#[derive(Debug)]
pub enum ParamValue {
    Num(u64),
    Str(String),
}

/// Mathematical model of a [`ParamValue`].
#[verifier::ext_equal]
pub enum ParamValueModel {
    Num(u64),
    Str(Seq<char>),
}

impl DeepView for ParamValue {
    type V = ParamValueModel;

    open spec fn deep_view(&self) -> ParamValueModel {
        match self {
            ParamValue::Num(n) => ParamValueModel::Num(*n),
            ParamValue::Str(s) => ParamValueModel::Str(s@),
        }
    }
}

/// A member of an intent object: a string, an unsigned integer, or the
/// flat parameters object.
#[derive(Debug)]
pub enum MemberValue {
    Num(u64),
    Str(String),
    Obj(Vec<(String, ParamValue)>),
}

/// Mathematical model of a [`MemberValue`].
#[verifier::ext_equal]
pub enum MemberValueModel {
    Num(u64),
    Str(Seq<char>),
    Obj(Seq<(Seq<char>, ParamValueModel)>),
}

impl DeepView for MemberValue {
    type V = MemberValueModel;

    open spec fn deep_view(&self) -> MemberValueModel {
        match self {
            MemberValue::Num(n) => MemberValueModel::Num(*n),
            MemberValue::Str(s) => MemberValueModel::Str(s@),
            MemberValue::Obj(ps) => MemberValueModel::Obj(ps.deep_view()),
        }
    }
}

/// A parameter value at `i`: a string or an unsigned number.
pub open spec fn spec_parse_param_value(s: Seq<char>, i: int) -> Option<(ParamValueModel, int)> {
    if 0 <= i < s.len() && s[i] == '"' {
        match spec_parse_string(s, i) {
            Some((v, e)) => Some((ParamValueModel::Str(v), e)),
            None => None,
        }
    } else {
        match spec_parse_number(s, i) {
            Some((n, e)) => Some((ParamValueModel::Num(n), e)),
            None => None,
        }
    }
}

/// A parsed parameter value ends past where it starts.
pub proof fn lemma_parse_param_value(s: Seq<char>, i: int)
    requires
        0 <= i <= s.len(),
    ensures
        spec_parse_param_value(s, i) matches Some((v, e)) ==> i < e <= s.len(),
{
    lemma_parse_string(s, i);
    lemma_parse_number(s, i);
}

/// A `"key": value` pair of the parameters object at `i`.
pub open spec fn spec_parse_pair(s: Seq<char>, i: int) -> Option<
    ((Seq<char>, ParamValueModel), int),
> {
    match spec_parse_string(s, i) {
        Some((key, i1)) => {
            let i2 = spec_skip_ws(s, i1);
            if 0 <= i2 < s.len() && s[i2] == ':' {
                let i3 = spec_skip_ws(s, i2 + 1);
                match spec_parse_param_value(s, i3) {
                    Some((v, i4)) => Some(((key, v), i4)),
                    None => None,
                }
            } else {
                None
            }
        },
        None => None,
    }
}

/// A parsed pair ends past where it starts.
pub proof fn lemma_parse_pair(s: Seq<char>, i: int)
    requires
        0 <= i <= s.len(),
    ensures
        spec_parse_pair(s, i) matches Some((kv, e)) ==> i < e <= s.len(),
{
    lemma_parse_string(s, i);
    match spec_parse_string(s, i) {
        Some((key, i1)) => {
            lemma_skip_ws(s, i1);
            let i2 = spec_skip_ws(s, i1);
            if 0 <= i2 < s.len() && s[i2] == ':' {
                lemma_skip_ws(s, i2 + 1);
                lemma_parse_param_value(s, spec_skip_ws(s, i2 + 1));
            }
        },
        None => {},
    }
}

/// The remaining pairs of a parameters object, after the pair at `i`:
/// pairs separated by commas, closed by a brace.
pub open spec fn spec_params_loop(
    s: Seq<char>,
    i: int,
    acc: Seq<(Seq<char>, ParamValueModel)>,
) -> Option<(Seq<(Seq<char>, ParamValueModel)>, int)>
    decreases s.len() - i,
{
    match spec_parse_pair(s, i) {
        None => None,
        Some((kv, i1)) => {
            let i2 = spec_skip_ws(s, i1);
            if 0 <= i2 < s.len() && s[i2] == ',' {
                let i3 = spec_skip_ws(s, i2 + 1);
                if i < i3 <= s.len() {
                    spec_params_loop(s, i3, acc.push(kv))
                } else {
                    None
                }
            } else if 0 <= i2 < s.len() && s[i2] == '}' {
                Some((acc.push(kv), i2 + 1))
            } else {
                None
            }
        },
    }
}

/// The loop over pairs ends past where it starts.
pub proof fn lemma_params_loop(s: Seq<char>, i: int, acc: Seq<(Seq<char>, ParamValueModel)>)
    requires
        0 <= i <= s.len(),
    ensures
        spec_params_loop(s, i, acc) matches Some((ps, e)) ==> i < e <= s.len(),
    decreases s.len() - i,
{
    lemma_parse_pair(s, i);
    match spec_parse_pair(s, i) {
        Some((kv, i1)) => {
            lemma_skip_ws(s, i1);
            let i2 = spec_skip_ws(s, i1);
            if 0 <= i2 < s.len() && s[i2] == ',' {
                let i3 = spec_skip_ws(s, i2 + 1);
                if i < i3 <= s.len() {
                    lemma_params_loop(s, i3, acc.push(kv));
                }
            }
        },
        None => {},
    }
}

/// The flat parameters object at `i`.
pub open spec fn spec_parse_params(s: Seq<char>, i: int) -> Option<
    (Seq<(Seq<char>, ParamValueModel)>, int),
> {
    if 0 <= i < s.len() && s[i] == '{' {
        let i1 = spec_skip_ws(s, i + 1);
        if 0 <= i1 < s.len() && s[i1] == '}' {
            Some((Seq::empty(), i1 + 1))
        } else {
            spec_params_loop(s, i1, Seq::empty())
        }
    } else {
        None
    }
}

/// A parsed parameters object ends past where it starts.
pub proof fn lemma_parse_params(s: Seq<char>, i: int)
    requires
        0 <= i <= s.len(),
    ensures
        spec_parse_params(s, i) matches Some((ps, e)) ==> i < e <= s.len(),
{
    if 0 <= i < s.len() && s[i] == '{' {
        lemma_skip_ws(s, i + 1);
        lemma_params_loop(s, spec_skip_ws(s, i + 1), Seq::empty());
    }
}

/// A member value of an intent object at `i`: a string, a parameters
/// object, or an unsigned number.
pub open spec fn spec_parse_member_value(s: Seq<char>, i: int) -> Option<(MemberValueModel, int)> {
    if 0 <= i < s.len() && s[i] == '"' {
        match spec_parse_string(s, i) {
            Some((v, e)) => Some((MemberValueModel::Str(v), e)),
            None => None,
        }
    } else if 0 <= i < s.len() && s[i] == '{' {
        match spec_parse_params(s, i) {
            Some((ps, e)) => Some((MemberValueModel::Obj(ps), e)),
            None => None,
        }
    } else {
        match spec_parse_number(s, i) {
            Some((n, e)) => Some((MemberValueModel::Num(n), e)),
            None => None,
        }
    }
}

/// A parsed member value ends past where it starts.
pub proof fn lemma_parse_member_value(s: Seq<char>, i: int)
    requires
        0 <= i <= s.len(),
    ensures
        spec_parse_member_value(s, i) matches Some((v, e)) ==> i < e <= s.len(),
{
    lemma_parse_string(s, i);
    lemma_parse_params(s, i);
    lemma_parse_number(s, i);
}

/// A `"key": value` member of an intent object at `i`.
pub open spec fn spec_parse_member(s: Seq<char>, i: int) -> Option<
    ((Seq<char>, MemberValueModel), int),
> {
    match spec_parse_string(s, i) {
        Some((key, i1)) => {
            let i2 = spec_skip_ws(s, i1);
            if 0 <= i2 < s.len() && s[i2] == ':' {
                let i3 = spec_skip_ws(s, i2 + 1);
                match spec_parse_member_value(s, i3) {
                    Some((v, i4)) => Some(((key, v), i4)),
                    None => None,
                }
            } else {
                None
            }
        },
        None => None,
    }
}

/// A parsed member ends past where it starts.
pub proof fn lemma_parse_member(s: Seq<char>, i: int)
    requires
        0 <= i <= s.len(),
    ensures
        spec_parse_member(s, i) matches Some((kv, e)) ==> i < e <= s.len(),
{
    lemma_parse_string(s, i);
    match spec_parse_string(s, i) {
        Some((key, i1)) => {
            lemma_skip_ws(s, i1);
            let i2 = spec_skip_ws(s, i1);
            if 0 <= i2 < s.len() && s[i2] == ':' {
                lemma_skip_ws(s, i2 + 1);
                lemma_parse_member_value(s, spec_skip_ws(s, i2 + 1));
            }
        },
        None => {},
    }
}

/// The remaining members of an intent object, after the member at `i`.
pub open spec fn spec_members_loop(
    s: Seq<char>,
    i: int,
    acc: Seq<(Seq<char>, MemberValueModel)>,
) -> Option<(Seq<(Seq<char>, MemberValueModel)>, int)>
    decreases s.len() - i,
{
    match spec_parse_member(s, i) {
        None => None,
        Some((kv, i1)) => {
            let i2 = spec_skip_ws(s, i1);
            if 0 <= i2 < s.len() && s[i2] == ',' {
                let i3 = spec_skip_ws(s, i2 + 1);
                if i < i3 <= s.len() {
                    spec_members_loop(s, i3, acc.push(kv))
                } else {
                    None
                }
            } else if 0 <= i2 < s.len() && s[i2] == '}' {
                Some((acc.push(kv), i2 + 1))
            } else {
                None
            }
        },
    }
}

/// The loop over members ends past where it starts.
pub proof fn lemma_members_loop(s: Seq<char>, i: int, acc: Seq<(Seq<char>, MemberValueModel)>)
    requires
        0 <= i <= s.len(),
    ensures
        spec_members_loop(s, i, acc) matches Some((ms, e)) ==> i < e <= s.len(),
    decreases s.len() - i,
{
    lemma_parse_member(s, i);
    match spec_parse_member(s, i) {
        Some((kv, i1)) => {
            lemma_skip_ws(s, i1);
            let i2 = spec_skip_ws(s, i1);
            if 0 <= i2 < s.len() && s[i2] == ',' {
                let i3 = spec_skip_ws(s, i2 + 1);
                if i < i3 <= s.len() {
                    lemma_members_loop(s, i3, acc.push(kv));
                }
            }
        },
        None => {},
    }
}

/// The member list of the intent object at `i`.
pub open spec fn spec_parse_intent_object(s: Seq<char>, i: int) -> Option<
    (Seq<(Seq<char>, MemberValueModel)>, int),
> {
    if 0 <= i < s.len() && s[i] == '{' {
        let i1 = spec_skip_ws(s, i + 1);
        if 0 <= i1 < s.len() && s[i1] == '}' {
            Some((Seq::empty(), i1 + 1))
        } else {
            spec_members_loop(s, i1, Seq::empty())
        }
    } else {
        None
    }
}

/// A parsed intent object ends past where it starts.
pub proof fn lemma_parse_intent_object(s: Seq<char>, i: int)
    requires
        0 <= i <= s.len(),
    ensures
        spec_parse_intent_object(s, i) matches Some((ms, e)) ==> i < e <= s.len(),
{
    if 0 <= i < s.len() && s[i] == '{' {
        lemma_skip_ws(s, i + 1);
        lemma_members_loop(s, spec_skip_ws(s, i + 1), Seq::empty());
    }
}

/// The first value bound to `key` among the members.
pub open spec fn member_lookup(ms: Seq<(Seq<char>, MemberValueModel)>, key: Seq<char>) -> Option<
    MemberValueModel,
>
    decreases ms.len(),
{
    if ms.len() == 0 {
        None
    } else if ms[0].0 == key {
        Some(ms[0].1)
    } else {
        member_lookup(ms.drop_first(), key)
    }
}

/// The first value bound to `key` among the parameters.
pub open spec fn param_lookup(ps: Seq<(Seq<char>, ParamValueModel)>, key: Seq<char>) -> Option<
    ParamValueModel,
>
    decreases ps.len(),
{
    if ps.len() == 0 {
        None
    } else if ps[0].0 == key {
        Some(ps[0].1)
    } else {
        param_lookup(ps.drop_first(), key)
    }
}

/// The intent described by an object's members: the `intent` member
/// names the variant, and the `parameters` member carries its fields.
/// An unknown discriminator, a missing or ill-typed parameter, or a
/// size beyond 32 bits is a decoding failure.
pub open spec fn spec_intent_of_members(ms: Seq<(Seq<char>, MemberValueModel)>) -> Option<
    IntentModel,
> {
    match member_lookup(ms, "intent"@) {
        Some(MemberValueModel::Str(name)) => if name == "CreateArray"@ {
            match member_lookup(ms, "parameters"@) {
                Some(MemberValueModel::Obj(ps)) => match param_lookup(ps, "size"@) {
                    Some(ParamValueModel::Num(n)) => if n <= u32::MAX {
                        Some(IntentModel::CreateArray { size: n as u32 })
                    } else {
                        None
                    },
                    _ => None,
                },
                _ => None,
            }
        } else if name == "SortArray"@ {
            match member_lookup(ms, "parameters"@) {
                Some(MemberValueModel::Obj(ps)) => match param_lookup(ps, "order"@) {
                    Some(ParamValueModel::Str(order)) => Some(IntentModel::SortArray { order }),
                    _ => None,
                },
                _ => None,
            }
        } else if name == "PrintArray"@ {
            Some(IntentModel::PrintArray)
        } else if name == "Wait"@ {
            match member_lookup(ms, "parameters"@) {
                Some(MemberValueModel::Obj(ps)) => match param_lookup(ps, "durationMs"@) {
                    Some(ParamValueModel::Num(n)) => Some(IntentModel::Wait { duration_ms: n }),
                    _ => None,
                },
                _ => None,
            }
        } else {
            None
        },
        _ => None,
    }
}

/// One intent at `i`: its object parsed and interpreted.
pub open spec fn spec_parse_intent(s: Seq<char>, i: int) -> Option<(IntentModel, int)> {
    match spec_parse_intent_object(s, i) {
        Some((ms, e)) => match spec_intent_of_members(ms) {
            Some(m) => Some((m, e)),
            None => None,
        },
        None => None,
    }
}

/// The remaining intents of the array, after the intent at `i`.
pub open spec fn spec_intents_loop(s: Seq<char>, i: int, acc: Seq<IntentModel>) -> Option<
    (Seq<IntentModel>, int),
>
    decreases s.len() - i,
{
    match spec_parse_intent(s, i) {
        None => None,
        Some((m, i1)) => {
            let i2 = spec_skip_ws(s, i1);
            if 0 <= i2 < s.len() && s[i2] == ',' {
                let i3 = spec_skip_ws(s, i2 + 1);
                if i < i3 <= s.len() {
                    spec_intents_loop(s, i3, acc.push(m))
                } else {
                    None
                }
            } else if 0 <= i2 < s.len() && s[i2] == ']' {
                Some((acc.push(m), i2 + 1))
            } else {
                None
            }
        },
    }
}

/// The intent array at `i`.
pub open spec fn spec_parse_intent_array(s: Seq<char>, i: int) -> Option<(Seq<IntentModel>, int)> {
    if 0 <= i < s.len() && s[i] == '[' {
        let i1 = spec_skip_ws(s, i + 1);
        if 0 <= i1 < s.len() && s[i1] == ']' {
            Some((Seq::empty(), i1 + 1))
        } else {
            spec_intents_loop(s, i1, Seq::empty())
        }
    } else {
        None
    }
}

/// Decoding a whole payload: optional whitespace, the intent array,
/// optional whitespace, and nothing else.
pub open spec fn spec_decode(s: Seq<char>) -> Option<Seq<IntentModel>> {
    match spec_parse_intent_array(s, spec_skip_ws(s, 0)) {
        Some((v, j)) => if spec_skip_ws(s, j) == s.len() {
            Some(v)
        } else {
            None
        },
        None => None,
    }
}

/// The position of the first `[` at or after `i`.
pub open spec fn spec_first_lbracket(s: Seq<char>, i: int) -> Option<int>
    decreases s.len() - i,
{
    if !(0 <= i < s.len()) {
        None
    } else if s[i] == '[' {
        Some(i)
    } else {
        spec_first_lbracket(s, i + 1)
    }
}

/// The position of the last `]` before `i`.
pub open spec fn spec_last_rbracket(s: Seq<char>, i: int) -> Option<int>
    decreases i,
{
    if i <= 0 || i > s.len() {
        None
    } else if s[i - 1] == ']' {
        Some(i - 1)
    } else {
        spec_last_rbracket(s, i - 1)
    }
}

/// The first bracket found lies inside the text.
pub proof fn lemma_first_lbracket_bounds(s: Seq<char>, i: int)
    requires
        0 <= i <= s.len(),
    ensures
        spec_first_lbracket(s, i) matches Some(a) ==> i <= a < s.len() && s[a] == '[',
    decreases s.len() - i,
{
    if 0 <= i < s.len() && s[i] != '[' {
        lemma_first_lbracket_bounds(s, i + 1);
    }
}

/// The last bracket found lies inside the text.
pub proof fn lemma_last_rbracket_bounds(s: Seq<char>, i: int)
    requires
        0 <= i <= s.len(),
    ensures
        spec_last_rbracket(s, i) matches Some(b) ==> 0 <= b < i && s[b] == ']',
    decreases i,
{
    if 0 < i <= s.len() && s[i - 1] != ']' {
        lemma_last_rbracket_bounds(s, i - 1);
    }
}

/// The payload is never longer than the raw text.
pub proof fn lemma_payload_len(s: Seq<char>)
    ensures
        spec_payload(s).len() <= s.len(),
{
    lemma_first_lbracket_bounds(s, 0);
    lemma_last_rbracket_bounds(s, s.len() as int);
}

/// The payload inside raw inference output: the substring from the
/// first `[` to the last `]`.  Without both brackets in that order the
/// whole text is the payload, so decoding it produces one uniform
/// error.
pub open spec fn spec_payload(s: Seq<char>) -> Seq<char> {
    match spec_first_lbracket(s, 0) {
        Some(a) => match spec_last_rbracket(s, s.len() as int) {
            Some(b) => if a <= b {
                s.subrange(a, b + 1)
            } else {
                s
            },
            None => s,
        },
        None => s,
    }
}

} // verus!

verus! {

/// Reads a parameter value at `start`.
fn parse_param_value(s: &str, len: usize, start: usize) -> (r: Option<(ParamValue, usize)>)
    requires
        len == s@.len(),
        start <= len,
    ensures
        match r {
            Some((v, e)) => spec_parse_param_value(s@, start as int) == Some(
                (v.deep_view(), e as int),
            ) && start < e <= len,
            None => spec_parse_param_value(s@, start as int) is None,
        },
{
    if start < len && s.get_char(start) == '"' {
        match parse_string(s, len, start) {
            Some((v, e)) => Some((ParamValue::Str(v), e)),
            None => None,
        }
    } else {
        match parse_number(s, len, start) {
            Some((n, e)) => Some((ParamValue::Num(n), e)),
            None => None,
        }
    }
}

/// Reads a `"key": value` pair of the parameters object at `start`.
fn parse_pair(s: &str, len: usize, start: usize) -> (r: Option<((String, ParamValue), usize)>)
    requires
        len == s@.len(),
        start <= len,
    ensures
        match r {
            Some((kv, e)) => spec_parse_pair(s@, start as int) == Some(
                (kv.deep_view(), e as int),
            ) && start < e <= len,
            None => spec_parse_pair(s@, start as int) is None,
        },
{
    match parse_string(s, len, start) {
        None => None,
        Some((key, i1)) => {
            let i2 = skip_ws(s, len, i1);
            if i2 < len && s.get_char(i2) == ':' {
                let i3 = skip_ws(s, len, i2 + 1);
                match parse_param_value(s, len, i3) {
                    Some((v, i4)) => Some(((key, v), i4)),
                    None => None,
                }
            } else {
                None
            }
        },
    }
}

/// Reads the flat parameters object at `start`.
fn parse_params(s: &str, len: usize, start: usize) -> (r: Option<
    (Vec<(String, ParamValue)>, usize),
>)
    requires
        len == s@.len(),
        start <= len,
    ensures
        match r {
            Some((ps, e)) => spec_parse_params(s@, start as int) == Some(
                (ps.deep_view(), e as int),
            ) && start < e <= len,
            None => spec_parse_params(s@, start as int) is None,
        },
{
    if !(start < len && s.get_char(start) == '{') {
        return None;
    }
    let i1 = skip_ws(s, len, start + 1);
    if i1 < len && s.get_char(i1) == '}' {
        let empty: Vec<(String, ParamValue)> = Vec::new();
        proof {
            assert(empty.deep_view() =~= Seq::<(Seq<char>, ParamValueModel)>::empty());
        }
        return Some((empty, i1 + 1));
    }
    let mut acc: Vec<(String, ParamValue)> = Vec::new();
    let mut i: usize = i1;
    proof {
        assert(acc.deep_view() =~= Seq::<(Seq<char>, ParamValueModel)>::empty());
    }
    loop
        invariant
            len == s@.len(),
            start < i <= len,
            spec_parse_params(s@, start as int) == spec_params_loop(
                s@,
                i as int,
                acc.deep_view(),
            ),
        decreases len - i,
    {
        let ghost acc_before = acc.deep_view();
        match parse_pair(s, len, i) {
            None => {
                return None;
            },
            Some((kv, e1)) => {
                let ghost kv_model = kv.deep_view();
                let i2 = skip_ws(s, len, e1);
                acc.push(kv);
                proof {
                    assert(acc.deep_view() =~= acc_before.push(kv_model));
                }
                if i2 < len && s.get_char(i2) == ',' {
                    let i3 = skip_ws(s, len, i2 + 1);
                    proof {
                        assert(i < i3 <= s@.len());
                    }
                    i = i3;
                } else if i2 < len && s.get_char(i2) == '}' {
                    return Some((acc, i2 + 1));
                } else {
                    return None;
                }
            },
        }
    }
}

/// Reads a member value of an intent object at `start`.
fn parse_member_value(s: &str, len: usize, start: usize) -> (r: Option<(MemberValue, usize)>)
    requires
        len == s@.len(),
        start <= len,
    ensures
        match r {
            Some((v, e)) => spec_parse_member_value(s@, start as int) == Some(
                (v.deep_view(), e as int),
            ) && start < e <= len,
            None => spec_parse_member_value(s@, start as int) is None,
        },
{
    if start < len && s.get_char(start) == '"' {
        match parse_string(s, len, start) {
            Some((v, e)) => Some((MemberValue::Str(v), e)),
            None => None,
        }
    } else if start < len && s.get_char(start) == '{' {
        match parse_params(s, len, start) {
            Some((ps, e)) => Some((MemberValue::Obj(ps), e)),
            None => None,
        }
    } else {
        match parse_number(s, len, start) {
            Some((n, e)) => Some((MemberValue::Num(n), e)),
            None => None,
        }
    }
}

/// Reads a `"key": value` member of an intent object at `start`.
fn parse_member(s: &str, len: usize, start: usize) -> (r: Option<((String, MemberValue), usize)>)
    requires
        len == s@.len(),
        start <= len,
    ensures
        match r {
            Some((kv, e)) => spec_parse_member(s@, start as int) == Some(
                (kv.deep_view(), e as int),
            ) && start < e <= len,
            None => spec_parse_member(s@, start as int) is None,
        },
{
    match parse_string(s, len, start) {
        None => None,
        Some((key, i1)) => {
            let i2 = skip_ws(s, len, i1);
            if i2 < len && s.get_char(i2) == ':' {
                let i3 = skip_ws(s, len, i2 + 1);
                match parse_member_value(s, len, i3) {
                    Some((v, i4)) => Some(((key, v), i4)),
                    None => None,
                }
            } else {
                None
            }
        },
    }
}

/// Reads the member list of the intent object at `start`.
fn parse_intent_object(s: &str, len: usize, start: usize) -> (r: Option<
    (Vec<(String, MemberValue)>, usize),
>)
    requires
        len == s@.len(),
        start <= len,
    ensures
        match r {
            Some((ms, e)) => spec_parse_intent_object(s@, start as int) == Some(
                (ms.deep_view(), e as int),
            ) && start < e <= len,
            None => spec_parse_intent_object(s@, start as int) is None,
        },
{
    if !(start < len && s.get_char(start) == '{') {
        return None;
    }
    let i1 = skip_ws(s, len, start + 1);
    if i1 < len && s.get_char(i1) == '}' {
        let empty: Vec<(String, MemberValue)> = Vec::new();
        proof {
            assert(empty.deep_view() =~= Seq::<(Seq<char>, MemberValueModel)>::empty());
        }
        return Some((empty, i1 + 1));
    }
    let mut acc: Vec<(String, MemberValue)> = Vec::new();
    let mut i: usize = i1;
    proof {
        assert(acc.deep_view() =~= Seq::<(Seq<char>, MemberValueModel)>::empty());
    }
    loop
        invariant
            len == s@.len(),
            start < i <= len,
            spec_parse_intent_object(s@, start as int) == spec_members_loop(
                s@,
                i as int,
                acc.deep_view(),
            ),
        decreases len - i,
    {
        let ghost acc_before = acc.deep_view();
        match parse_member(s, len, i) {
            None => {
                return None;
            },
            Some((kv, e1)) => {
                let ghost kv_model = kv.deep_view();
                let i2 = skip_ws(s, len, e1);
                acc.push(kv);
                proof {
                    assert(acc.deep_view() =~= acc_before.push(kv_model));
                }
                if i2 < len && s.get_char(i2) == ',' {
                    let i3 = skip_ws(s, len, i2 + 1);
                    proof {
                        assert(i < i3 <= s@.len());
                    }
                    i = i3;
                } else if i2 < len && s.get_char(i2) == '}' {
                    return Some((acc, i2 + 1));
                } else {
                    return None;
                }
            },
        }
    }
}

/// Finds the first member bound to `key`.
fn member_find<'a>(ms: &'a Vec<(String, MemberValue)>, key: &str) -> (r: Option<&'a MemberValue>)
    ensures
        match r {
            Some(v) => member_lookup(ms.deep_view(), key@) == Some(v.deep_view()),
            None => member_lookup(ms.deep_view(), key@) is None,
        },
{
    let wanted = String::from_str(key);
    let ghost all = ms.deep_view();
    let mut i: usize = 0;
    proof {
        assert(all.skip(0) =~= all);
    }
    while i < ms.len()
        invariant
            i <= ms@.len(),
            all == ms.deep_view(),
            all.len() == ms@.len(),
            wanted@ == key@,
            member_lookup(all, key@) == member_lookup(all.skip(i as int), key@),
        decreases ms@.len() - i,
    {
        proof {
            assert(all.skip(i as int)[0] == all[i as int]);
            assert(all.skip(i as int).drop_first() =~= all.skip(i + 1));
        }
        if ms[i].0 == wanted {
            return Some(&ms[i].1);
        }
        i = i + 1;
    }
    proof {
        assert(all.skip(all.len() as int) =~= Seq::<(Seq<char>, MemberValueModel)>::empty());
    }
    None
}

/// Finds the first parameter bound to `key`.
fn param_find<'a>(ps: &'a Vec<(String, ParamValue)>, key: &str) -> (r: Option<&'a ParamValue>)
    ensures
        match r {
            Some(v) => param_lookup(ps.deep_view(), key@) == Some(v.deep_view()),
            None => param_lookup(ps.deep_view(), key@) is None,
        },
{
    let wanted = String::from_str(key);
    let ghost all = ps.deep_view();
    let mut i: usize = 0;
    proof {
        assert(all.skip(0) =~= all);
    }
    while i < ps.len()
        invariant
            i <= ps@.len(),
            all == ps.deep_view(),
            all.len() == ps@.len(),
            wanted@ == key@,
            param_lookup(all, key@) == param_lookup(all.skip(i as int), key@),
        decreases ps@.len() - i,
    {
        proof {
            assert(all.skip(i as int)[0] == all[i as int]);
            assert(all.skip(i as int).drop_first() =~= all.skip(i + 1));
        }
        if ps[i].0 == wanted {
            return Some(&ps[i].1);
        }
        i = i + 1;
    }
    proof {
        assert(all.skip(all.len() as int) =~= Seq::<(Seq<char>, ParamValueModel)>::empty());
    }
    None
}

/// Interprets an intent object's members: the `intent` discriminator
/// picks the variant, the `parameters` object fills its fields.
fn intent_of_members(ms: &Vec<(String, MemberValue)>) -> (r: Option<Intent>)
    ensures
        match r {
            Some(intent) => spec_intent_of_members(ms.deep_view()) == Some(intent.deep_view()),
            None => spec_intent_of_members(ms.deep_view()) is None,
        },
{
    match member_find(ms, "intent") {
        Some(MemberValue::Str(name)) => {
            if *name == String::from_str("CreateArray") {
                match member_find(ms, "parameters") {
                    Some(MemberValue::Obj(ps)) => match param_find(ps, "size") {
                        Some(ParamValue::Num(n)) => {
                            if *n <= 0xffff_ffffu64 {
                                Some(Intent::CreateArray(CreateArrayParams { size: *n as u32 }))
                            } else {
                                None
                            }
                        },
                        _ => None,
                    },
                    _ => None,
                }
            } else if *name == String::from_str("SortArray") {
                match member_find(ms, "parameters") {
                    Some(MemberValue::Obj(ps)) => match param_find(ps, "order") {
                        Some(ParamValue::Str(order)) => Some(
                            Intent::SortArray(SortArrayParams { order: order.clone() }),
                        ),
                        _ => None,
                    },
                    _ => None,
                }
            } else if *name == String::from_str("PrintArray") {
                Some(Intent::PrintArray)
            } else if *name == String::from_str("Wait") {
                match member_find(ms, "parameters") {
                    Some(MemberValue::Obj(ps)) => match param_find(ps, "durationMs") {
                        Some(ParamValue::Num(n)) => Some(
                            Intent::Wait(WaitParams { duration_ms: *n }),
                        ),
                        _ => None,
                    },
                    _ => None,
                }
            } else {
                None
            }
        },
        _ => None,
    }
}

/// Reads one intent at `start`: its object, interpreted.
fn parse_intent(s: &str, len: usize, start: usize) -> (r: Option<(Intent, usize)>)
    requires
        len == s@.len(),
        start <= len,
    ensures
        match r {
            Some((intent, e)) => spec_parse_intent(s@, start as int) == Some(
                (intent.deep_view(), e as int),
            ) && start < e <= len,
            None => spec_parse_intent(s@, start as int) is None,
        },
{
    match parse_intent_object(s, len, start) {
        None => None,
        Some((ms, e)) => match intent_of_members(&ms) {
            Some(intent) => Some((intent, e)),
            None => None,
        },
    }
}

/// Reads the intent array at `start`.
fn parse_intent_array(s: &str, len: usize, start: usize) -> (r: Option<(Vec<Intent>, usize)>)
    requires
        len == s@.len(),
        start <= len,
    ensures
        match r {
            Some((v, e)) => spec_parse_intent_array(s@, start as int) == Some(
                (v.deep_view(), e as int),
            ) && start < e <= len,
            None => spec_parse_intent_array(s@, start as int) is None,
        },
{
    if !(start < len && s.get_char(start) == '[') {
        return None;
    }
    let i1 = skip_ws(s, len, start + 1);
    if i1 < len && s.get_char(i1) == ']' {
        let empty: Vec<Intent> = Vec::new();
        proof {
            assert(empty.deep_view() =~= Seq::<IntentModel>::empty());
        }
        return Some((empty, i1 + 1));
    }
    let mut acc: Vec<Intent> = Vec::new();
    let mut i: usize = i1;
    proof {
        assert(acc.deep_view() =~= Seq::<IntentModel>::empty());
    }
    loop
        invariant
            len == s@.len(),
            start < i <= len,
            spec_parse_intent_array(s@, start as int) == spec_intents_loop(
                s@,
                i as int,
                acc.deep_view(),
            ),
        decreases len - i,
    {
        let ghost acc_before = acc.deep_view();
        match parse_intent(s, len, i) {
            None => {
                return None;
            },
            Some((intent, e1)) => {
                let ghost intent_model = intent.deep_view();
                let i2 = skip_ws(s, len, e1);
                acc.push(intent);
                proof {
                    assert(acc.deep_view() =~= acc_before.push(intent_model));
                }
                if i2 < len && s.get_char(i2) == ',' {
                    let i3 = skip_ws(s, len, i2 + 1);
                    proof {
                        assert(i < i3 <= s@.len());
                    }
                    i = i3;
                } else if i2 < len && s.get_char(i2) == ']' {
                    return Some((acc, i2 + 1));
                } else {
                    return None;
                }
            },
        }
    }
}

/// Decodes a whole payload: whitespace, the intent array, whitespace,
/// and nothing else.
fn decode_payload(s: &str) -> (r: Option<Vec<Intent>>)
    ensures
        match r {
            Some(v) => spec_decode(s@) == Some(v.deep_view()),
            None => spec_decode(s@) is None,
        },
{
    let len = s.unicode_len();
    let i = skip_ws(s, len, 0);
    match parse_intent_array(s, len, i) {
        None => None,
        Some((v, j)) => {
            let j2 = skip_ws(s, len, j);
            if j2 == len {
                Some(v)
            } else {
                None
            }
        },
    }
}

/// Turns raw inference output into the intent sequence: the substring
/// from the first `[` to the last `]` (or the whole text, when the
/// brackets are missing) is decoded, and a payload that is no intent
/// array is returned inside the error, so the caller can log it.
pub fn parse_to_intent_graph(llm_output: &str) -> (r: Result<Vec<Intent>, ParseError>)
    ensures
        match r {
            Ok(v) => spec_decode(spec_payload(llm_output@)) == Some(v.deep_view()),
            Err(e) => spec_decode(spec_payload(llm_output@)) is None && e.raw@ == spec_payload(
                llm_output@,
            ),
        },
{
    let len = llm_output.unicode_len();

    // The first `[`.
    let mut a: usize = 0;
    while a < len && llm_output.get_char(a) != '['
        invariant
            a <= len,
            len == llm_output@.len(),
            spec_first_lbracket(llm_output@, 0) == spec_first_lbracket(llm_output@, a as int),
        decreases len - a,
    {
        a = a + 1;
    }

    // The last `]`.
    let mut b: usize = len;
    while b > 0 && llm_output.get_char(b - 1) != ']'
        invariant
            b <= len,
            len == llm_output@.len(),
            spec_last_rbracket(llm_output@, len as int) == spec_last_rbracket(
                llm_output@,
                b as int,
            ),
        decreases b,
    {
        b = b - 1;
    }

    let payload: &str = if a < len && b > 0 && a <= b - 1 {
        llm_output.substring_char(a, b)
    } else {
        llm_output
    };
    proof {
        assert(payload@ == spec_payload(llm_output@));
    }

    match decode_payload(payload) {
        Some(v) => Ok(v),
        None => Err(ParseError { raw: payload.to_owned() }),
    }
}

} // verus!

verus! {

/// The first `[` at or after `i` is the first one the search from `i`
/// finds.
proof fn lemma_first_lbracket_at(s: Seq<char>, i: int, k: int)
    requires
        0 <= i <= k < s.len(),
        s[k] == '[',
        forall|j: int| i <= j < k ==> s[j] != '[',
    ensures
        spec_first_lbracket(s, i) == Some(k),
    decreases k - i,
{
    if i < k {
        lemma_first_lbracket_at(s, i + 1, k);
    }
}

/// The last `]` before `i` is the first one the backward search finds.
proof fn lemma_last_rbracket_at(s: Seq<char>, i: int, b: int)
    requires
        0 <= b < i <= s.len(),
        s[b] == ']',
        forall|j: int| b < j < i ==> s[j] != ']',
    ensures
        spec_last_rbracket(s, i) == Some(b),
    decreases i,
{
    if b < i - 1 {
        lemma_last_rbracket_at(s, i - 1, b);
    }
}

/// Whatever prose or markup stands before the first `[` and after the
/// last `]`, the payload the parser extracts is exactly the bracketed
/// core: text without `[` in front and text without `]` behind are
/// discarded.
pub proof fn lemma_payload_extraction(before: Seq<char>, core: Seq<char>, behind: Seq<char>)
    requires
        forall|j: int| 0 <= j < before.len() ==> before[j] != '[',
        forall|j: int| 0 <= j < behind.len() ==> behind[j] != ']',
        core.len() > 0,
        core[0] == '[',
        core[core.len() - 1] == ']',
    ensures
        spec_payload(before + core + behind) == core,
{
    let s = before + core + behind;
    let a = before.len() as int;
    let b = before.len() + core.len() - 1;
    assert(s[a] == '[');
    assert(s[b] == ']');
    assert forall|j: int| 0 <= j < a implies s[j] != '[' by {
        assert(s[j] == before[j]);
    }
    assert forall|j: int| b < j < s.len() implies s[j] != ']' by {
        assert(s[j] == behind[j - before.len() - core.len()]);
    }
    lemma_first_lbracket_at(s, 0, a);
    lemma_last_rbracket_at(s, s.len() as int, b);
    assert(s.subrange(a, b + 1) =~= core);
}

} // verus!
