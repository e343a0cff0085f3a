//! Reading the answers of outside services.
use vstd::prelude::*;
use vstd::string::*;

use crate::text;

verus! {

/// What a JSON object holds under some key, as far as the service reads it.
#[derive(Debug)]
pub enum Member {
    /// A string.
    Text(String),
    /// A boolean.
    Flag(bool),
    /// Anything else, or nothing.
    Other,
}

/// What a `Member` says.
#[verifier::ext_equal]
pub ghost enum MemberView {
    Text(Seq<char>),
    Flag(bool),
    Other,
}

impl View for Member {
    type V = MemberView;

    open spec fn view(&self) -> MemberView {
        match self {
            Member::Text(s) => MemberView::Text(s@),
            Member::Flag(b) => MemberView::Flag(*b),
            Member::Other => MemberView::Other,
        }
    }
}

/// What `serde_json` finds under a key of the object in a JSON text.
pub uninterp spec fn json_member(body: Seq<u8>, key: Seq<char>) -> MemberView;

/// Parses the bytes with `serde_json::from_slice` as a `serde_json::Value`, with `null` in place of
/// bytes that are no JSON text, and looks the key up with `Value::get`. The result depends on
/// nothing but the bytes and the key; what JSON is, is left to `serde_json`.
#[verifier::external_body]
fn member(body: &[u8], key: &str) -> (r: Member)
    ensures
        r@ == json_member(body@, key@),
{
    match serde_json::from_slice::<serde_json::Value>(body).unwrap_or_default().get(key) {
        Some(serde_json::Value::String(s)) => Member::Text(s.clone()),
        Some(serde_json::Value::Bool(b)) => Member::Flag(*b),
        _ => Member::Other,
    }
}

/// The string in a member.
pub open spec fn text_of(m: MemberView) -> Option<Seq<char>> {
    match m {
        MemberView::Text(s) => Some(s),
        _ => None,
    }
}

/// The boolean in a member, `false` where it holds none.
pub open spec fn flag_of(m: MemberView) -> bool {
    m == MemberView::Flag(true)
}

impl Member {
    /// The string in the member.
    pub fn into_text(self) -> (r: Option<String>)
        ensures
            text::opt_view(r) == text_of(self@),
    {
        match self {
            Member::Text(s) => Some(s),
            _ => None,
        }
    }

    /// The boolean in the member, `false` where it holds none.
    pub fn flag(&self) -> (r: bool)
        ensures
            r == flag_of(self@),
    {
        match self {
            Member::Flag(b) => *b,
            _ => false,
        }
    }
}

/// The string that a JSON object holds under a key.
pub fn text_member(body: &[u8], key: &str) -> (r: Option<String>)
    ensures
        text::opt_view(r) == text_of(json_member(body@, key@)),
{
    member(body, key).into_text()
}

/// Whether a JSON object holds `true` under a key.
pub fn flag_member(body: &[u8], key: &str) -> (r: bool)
    ensures
        r == flag_of(json_member(body@, key@)),
{
    member(body, key).flag()
}

} // verus!
