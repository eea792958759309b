use vstd::prelude::*;

verus! {

/// serde_json's generic JSON value, carried through unread.
#[verifier::external_type_specification]
#[verifier::external_body]
pub struct ExValue(serde_json::Value);

/// serde_json's serialisation error, handed on to the caller.
#[verifier::external_type_specification]
#[verifier::external_body]
pub struct ExJsonError(serde_json::Error);

/// The pretty-printed JSON text of a value, or `None` where it cannot be
/// serialised.
pub uninterp spec fn pretty_value(v: serde_json::Value) -> Option<Seq<char>>;

/// Relies on serde_json::to_string_pretty on a `serde_json::Value`: its
/// outcome depends on the value alone.
#[verifier::external_body]
pub(crate) fn value_to_pretty(v: &serde_json::Value) -> (r: Result<String, serde_json::Error>)
    ensures
        match r {
            Ok(t) => pretty_value(*v) == Some(t@),
            Err(_) => pretty_value(*v) is None,
        },
{
    serde_json::to_string_pretty(v)
}

/// Relies on uuid::Uuid::new_v4 and its `Display`: a random version-4 UUID in
/// the hyphenated form, 36 characters with dashes at 8, 13, 18 and 23 and the
/// version digit `4` at 14.
#[verifier::external_body]
pub(crate) fn fresh_uid() -> (r: String)
    ensures
        r@.len() == 36,
        r@[8] == '-' && r@[13] == '-' && r@[18] == '-' && r@[23] == '-',
        r@[14] == '4',
{
    uuid::Uuid::new_v4().to_string()
}

/// Relies on `String::push`: the character is added at the end.
pub assume_specification[ String::push ](s: &mut String, ch: char)
    ensures
        final(s)@ == old(s)@.push(ch),
;

} // verus!
