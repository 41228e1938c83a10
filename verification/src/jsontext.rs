use vstd::prelude::*;

verus! {

/// The string value of the top-level field `name` of the JSON object
/// written in `s`, or nothing when `s` is not a JSON object, lacks the
/// field, or the field is not a string.
pub uninterp spec fn json_str_field(s: Seq<char>, name: Seq<char>) -> Option<Seq<char>>;

/// The value of the top-level field `name` when it is an unsigned
/// integer that fits 64 bits, or nothing.
pub uninterp spec fn json_u64_field(s: Seq<char>, name: Seq<char>) -> Option<u64>;

/// The value of the top-level field `name` when it is a signed integer
/// that fits 64 bits, or nothing.
pub uninterp spec fn json_i64_field(s: Seq<char>, name: Seq<char>) -> Option<i64>;

/// The top-level field `name` re-serialised as JSON text, whatever kind
/// of value it is, or nothing when `s` is not a JSON object or lacks
/// the field.
pub uninterp spec fn json_raw_field(s: Seq<char>, name: Seq<char>) -> Option<Seq<char>>;

/// The top-level field `name` re-serialised as JSON text when it is a
/// number, or nothing otherwise.
pub uninterp spec fn json_number_field(s: Seq<char>, name: Seq<char>) -> Option<Seq<char>>;

/// Relies on serde_json::from_str::<Value>, Value::get and Value::as_str:
/// the string value of a top-level field, a function of the text alone.
#[verifier::external_body]
pub fn extract_str_field(s: &str, name: &str) -> (r: Option<String>)
    ensures
        match r {
            Some(v) => json_str_field(s@, name@) == Some(v@),
            None => json_str_field(s@, name@) is None,
        },
{
    match serde_json::from_str::<serde_json::Value>(s) {
        Ok(v) => v.get(name).and_then(|f| f.as_str()).map(|t| t.to_string()),
        Err(_) => None,
    }
}

/// Relies on serde_json::from_str::<Value>, Value::get and Value::as_u64:
/// the unsigned value of a top-level field, a function of the text alone.
#[verifier::external_body]
pub fn extract_u64_field(s: &str, name: &str) -> (r: Option<u64>)
    ensures
        r == json_u64_field(s@, name@),
{
    match serde_json::from_str::<serde_json::Value>(s) {
        Ok(v) => v.get(name).and_then(|f| f.as_u64()),
        Err(_) => None,
    }
}

/// Relies on serde_json::from_str::<Value>, Value::get and Value::as_i64:
/// the signed value of a top-level field, a function of the text alone.
#[verifier::external_body]
pub fn extract_i64_field(s: &str, name: &str) -> (r: Option<i64>)
    ensures
        r == json_i64_field(s@, name@),
{
    match serde_json::from_str::<serde_json::Value>(s) {
        Ok(v) => v.get(name).and_then(|f| f.as_i64()),
        Err(_) => None,
    }
}

/// Relies on serde_json::from_str::<Value>, Value::get and
/// Value::to_string: a top-level field re-serialised as JSON text, a
/// function of the text alone.
#[verifier::external_body]
pub fn extract_raw_field(s: &str, name: &str) -> (r: Option<String>)
    ensures
        match r {
            Some(v) => json_raw_field(s@, name@) == Some(v@),
            None => json_raw_field(s@, name@) is None,
        },
{
    match serde_json::from_str::<serde_json::Value>(s) {
        Ok(v) => v.get(name).map(|f| f.to_string()),
        Err(_) => None,
    }
}

/// Relies on serde_json::from_str::<Value>, Value::get, Value::is_number
/// and Value::to_string: a numeric top-level field re-serialised as JSON
/// text, a function of the text alone.
#[verifier::external_body]
pub fn extract_number_field(s: &str, name: &str) -> (r: Option<String>)
    ensures
        match r {
            Some(v) => json_number_field(s@, name@) == Some(v@),
            None => json_number_field(s@, name@) is None,
        },
{
    match serde_json::from_str::<serde_json::Value>(s) {
        Ok(v) => v.get(name).filter(|f| f.is_number()).map(|f| f.to_string()),
        Err(_) => None,
    }
}


/// The string value of the field `inner` of the object-valued top-level
/// field `outer`, or nothing when any step of that path is absent or of
/// another kind.
pub uninterp spec fn json_str_field_in(
    s: Seq<char>,
    outer: Seq<char>,
    inner: Seq<char>,
) -> Option<Seq<char>>;

/// Relies on serde_json::from_str::<Value>, Value::get and Value::as_str:
/// the string value of a field one level down, a function of the text
/// alone.
#[verifier::external_body]
pub fn extract_str_field_in(s: &str, outer: &str, inner: &str) -> (r: Option<String>)
    ensures
        match r {
            Some(v) => json_str_field_in(s@, outer@, inner@) == Some(v@),
            None => json_str_field_in(s@, outer@, inner@) is None,
        },
{
    match serde_json::from_str::<serde_json::Value>(s) {
        Ok(v) => v.get(outer).and_then(|o| o.get(inner)).and_then(|f| f.as_str()).map(
            |t| t.to_string(),
        ),
        Err(_) => None,
    }
}

/// Character-for-character equality of two string slices.
pub fn str_eq(a: &str, b: &str) -> (r: bool)
    ensures
        r == (a@ == b@),
{
    let al = a.unicode_len();
    let bl = b.unicode_len();
    if al != bl {
        proof {
            assert(a@ != b@);
        }
        return false;
    }
    let eq = crate::prefixed::str_has_prefix(a, b);
    proof {
        if eq {
            assert(a@.take(b@.len() as int) =~= a@);
        } else {
            if a@ == b@ {
                assert(a@.take(b@.len() as int) =~= b@);
            }
        }
    }
    eq
}


/// Relies on String::push: appends exactly the one character.
#[verifier::external_body]
pub fn string_push_char(s: &mut String, c: char)
    ensures
        final(s)@ == old(s)@.push(c),
{
    s.push(c);
}

/// The lower-case hexadecimal digit for a nibble.
pub open spec fn hex_char(n: int) -> char {
    if n == 0 { '0' } else if n == 1 { '1' } else if n == 2 { '2' } else if n == 3 { '3' }
    else if n == 4 { '4' } else if n == 5 { '5' } else if n == 6 { '6' } else if n == 7 { '7' }
    else if n == 8 { '8' } else if n == 9 { '9' } else if n == 10 { 'a' } else if n == 11 { 'b' }
    else if n == 12 { 'c' } else if n == 13 { 'd' } else if n == 14 { 'e' } else { 'f' }
}

/// How one character is written inside a JSON string literal: quotes
/// and backslashes are escaped, control characters become `\u00XX`,
/// and everything else stands for itself.
pub open spec fn esc_char(c: char) -> Seq<char> {
    if c == '"' {
        seq!['\\', '"']
    } else if c == '\\' {
        seq!['\\', '\\']
    } else if (c as u32) < 32 {
        seq!['\\', 'u', '0', '0', hex_char(c as u32 as int / 16), hex_char(c as u32 as int % 16)]
    } else {
        seq![c]
    }
}

/// The body of the JSON string literal denoting `s`.
pub open spec fn json_escaped(s: Seq<char>) -> Seq<char>
    decreases s.len(),
{
    if s.len() == 0 {
        Seq::<char>::empty()
    } else {
        json_escaped(s.drop_last()) + esc_char(s.last())
    }
}

/// Append the nibble's hexadecimal digit.
fn push_hex_char(out: &mut String, n: u32)
    requires
        n < 16,
    ensures
        final(out)@ == old(out)@.push(hex_char(n as int)),
{
    let c = if n == 0 { '0' } else if n == 1 { '1' } else if n == 2 { '2' } else if n == 3 { '3' }
    else if n == 4 { '4' } else if n == 5 { '5' } else if n == 6 { '6' } else if n == 7 { '7' }
    else if n == 8 { '8' } else if n == 9 { '9' } else if n == 10 { 'a' } else if n == 11 { 'b' }
    else if n == 12 { 'c' } else if n == 13 { 'd' } else if n == 14 { 'e' } else { 'f' };
    string_push_char(out, c);
}

/// Append `s` to `out` in JSON string-literal notation, without the
/// surrounding quotes.
pub fn append_json_escaped(out: &mut String, s: &str)
    ensures
        final(out)@ == old(out)@ + json_escaped(s@),
{
    let n = s.unicode_len();
    let mut i: usize = 0;
    proof {
        assert(s@.take(0) =~= Seq::<char>::empty());
        assert(out@ =~= old(out)@ + json_escaped(s@.take(0)));
    }
    while i < n
        invariant
            0 <= i <= n,
            n == s@.len(),
            out@ == old(out)@ + json_escaped(s@.take(i as int)),
        decreases n - i,
    {
        let c = s.get_char(i);
        proof {
            assert(s@.take(i + 1).drop_last() =~= s@.take(i as int));
            assert(s@.take(i + 1).last() == s@[i as int]);
        }
        if c == '"' {
            string_push_char(out, '\\');
            string_push_char(out, '"');
        } else if c == '\\' {
            string_push_char(out, '\\');
            string_push_char(out, '\\');
        } else if (c as u32) < 32 {
            string_push_char(out, '\\');
            string_push_char(out, 'u');
            string_push_char(out, '0');
            string_push_char(out, '0');
            push_hex_char(out, (c as u32) / 16);
            push_hex_char(out, (c as u32) % 16);
        } else {
            string_push_char(out, c);
        }
        proof {
            assert(out@ =~= old(out)@ + json_escaped(s@.take(i + 1)));
        }
        i = i + 1;
    }
    proof {
        assert(s@.take(n as int) =~= s@);
    }
}

} // verus!
