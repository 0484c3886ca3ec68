use vstd::prelude::*;

verus! {

/// The text form of an identifier: 36 characters, lower-case hex digits with
/// hyphens at positions 8, 13, 18 and 23.
pub open spec fn is_uuid_text(s: Seq<char>) -> bool {
    &&& s.len() == 36
    &&& forall|i: int|
        0 <= i < 36 ==> if i == 8 || i == 13 || i == 18 || i == 23 {
            s[i] == '-'
        } else {
            ('0' <= #[trigger] s[i] && s[i] <= '9') || ('a' <= s[i] && s[i] <= 'f')
        }
}

/// Relies on `uuid::Uuid::new_v4` and the `Display` impl of `uuid::Uuid`
/// (lower-case hyphenated form): a random version-4 identifier in text form.
/// Of its value only its shape is promised.
#[verifier::external_body]
pub(crate) fn fresh_id() -> (r: String)
    ensures
        is_uuid_text(r@),
{
    uuid::Uuid::new_v4().to_string()
}

/// Relies on `chrono::Utc::now` and the `Display` impl of `chrono::DateTime`:
/// the current time in text form. Nothing is promised of its value.
#[verifier::external_body]
pub(crate) fn now_timestamp() -> (r: String) {
    chrono::Utc::now().to_string()
}

} // verus!
