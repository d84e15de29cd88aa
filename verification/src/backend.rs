//! What the companion web service for comments and likes computes on plain
//! values: the requests it takes, and how it names a visitor.

use crate::text::{chars_of, find_char, index_of, owned, slice, string_of, trim, trim_chars};
use vstd::prelude::*;
use vstd::utf8::encode_utf8;

verus! {

/// The request to add a comment.
#[derive(Debug)]
pub struct AddCommentPayload {
    pub post_slug: String,
    pub name: String,
    pub email: Option<String>,
    pub url: Option<String>,
    pub body: String,
    pub parent_comment_id: Option<String>,
}

/// The request for the comments of a post.
#[derive(Debug)]
pub struct ListCommentsQuery {
    pub slug: String,
}

/// The request for the likes of a post.
#[derive(Debug)]
pub struct StatusQuery {
    pub post_slug: String,
}

/// The request to like a post, or to take the like back.
#[derive(Debug)]
pub struct ToggleLikePayload {
    pub post_slug: String,
}

impl AddCommentPayload {
    /// Whether the fields that a comment must have are not empty: the
    /// post's slug, the author's name, and the text.
    pub fn has_required_fields(&self) -> (b: bool)
        ensures
            b == (self.post_slug@.len() > 0 && self.name@.len() > 0 && self.body@.len() > 0),
    {
        chars_of(self.post_slug.as_str()).len() > 0 && chars_of(self.name.as_str()).len() > 0
            && chars_of(self.body.as_str()).len() > 0
    }
}

/// The address from which a request came.
#[derive(Debug)]
pub struct ClientIp(pub String);

/// The first entry of a comma-separated list, without the white space
/// around it.
pub open spec fn first_entry(list: Seq<char>) -> Seq<char> {
    match index_of(list, ',') {
        Some(i) => trim(list.take(i)),
        None => trim(list),
    }
}

/// The address of the client, as the proxies in front of the service
/// report it: the first address of `X-Forwarded-For`, or else `X-Real-IP`,
/// or else `unknown`.
pub open spec fn client_address(forwarded_for: Option<Seq<char>>, real_ip: Option<Seq<char>>) -> Seq<
    char,
> {
    match forwarded_for {
        Some(list) => first_entry(list),
        None => match real_ip {
            Some(ip) => ip,
            None => "unknown"@,
        },
    }
}

impl ClientIp {
    /// The client's address, given the two headers where the request has
    /// them.
    pub fn from_headers(forwarded_for: Option<&str>, real_ip: Option<&str>) -> (r: ClientIp)
        ensures
            r.0@ == client_address(
                match forwarded_for {
                    Some(s) => Some(s@),
                    None => None,
                },
                match real_ip {
                    Some(s) => Some(s@),
                    None => None,
                },
            ),
    {
        match forwarded_for {
            Some(list) => {
                let v = chars_of(list);
                assert(v@.skip(0) =~= v@);
                match find_char(&v, ',', 0) {
                    Some(i) => {
                        let head = slice(&v, 0, i);
                        assert(head@ =~= v@.take(i as int));
                        ClientIp(string_of(&trim_chars(&head)))
                    },
                    None => ClientIp(string_of(&trim_chars(&v))),
                }
            },
            None => match real_ip {
                Some(ip) => ClientIp(owned(ip)),
                None => ClientIp(owned("unknown")),
            },
        }
    }
}

/// The SHA-256 digest of a byte sequence, as 64 lower-case hexadecimal
/// digits.
pub uninterp spec fn sha256_hex(bytes: Seq<u8>) -> Seq<char>;

/// Hashes bytes with `sha2::Sha256` and writes the digest in lower-case
/// hexadecimal. The digits depend on the bytes alone and are named, not
/// stated.
#[verifier::external_body]
fn sha256_of(bytes: &[u8]) -> (r: String)
    ensures
        r@ == sha256_hex(bytes@),
{
    format!("{:x}", <sha2::Sha256 as sha2::Digest>::digest(bytes))
}

/// The name under which a visitor's address is stored: its hash.
pub fn hash_ip(ip: &str) -> (r: String)
    ensures
        r@ == sha256_hex(encode_utf8(ip@)),
{
    sha256_of(ip.as_bytes())
}

} // verus!
