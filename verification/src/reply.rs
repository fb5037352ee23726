//! HTTP replies.

use vstd::prelude::*;

verus! {

/// The two content types of replies.
#[derive(Debug, Clone, Copy, PartialEq, Eq, Structural)]
pub enum ContentType {
    /// One MessagePack value.
    Msgpack,
    /// A stream of length-prefixed frames.
    OctetStream,
}

/// The name of a content type.
pub open spec fn content_type_name(content_type: ContentType) -> Seq<char> {
    match content_type {
        ContentType::Msgpack => "application/msgpack"@,
        ContentType::OctetStream => "application/octet-stream"@,
    }
}

impl ContentType {
    /// The value of the `content-type` header.
    pub fn as_str(self) -> (res: &'static str)
        ensures
            res@ == content_type_name(self),
            self == ContentType::Msgpack ==> res@ == "application/msgpack"@,
            self == ContentType::OctetStream ==> res@ == "application/octet-stream"@,
    {
        match self {
            ContentType::Msgpack => "application/msgpack",
            ContentType::OctetStream => "application/octet-stream",
        }
    }
}

/// The head of a reply.
#[derive(Debug, Clone, Copy, PartialEq, Eq, Structural)]
pub struct ReplyHead {
    pub status: u16,
    pub content_type: ContentType,
}

/// A reply whose body is known as a whole.
#[derive(Debug, PartialEq, Eq)]
pub struct Reply {
    pub head: ReplyHead,
    pub body: Vec<u8>,
}

/// Every reply that the handlers give has status 200: a failure is part of the
/// body.
pub open spec fn ok_head(content_type: ContentType) -> ReplyHead {
    ReplyHead { status: 200, content_type }
}

/// The head of a reply that streams frames.
pub fn stream_head() -> (res: ReplyHead)
    ensures
        res == ok_head(ContentType::OctetStream),
        res.status == 200,
        res.content_type == ContentType::OctetStream,
{
    ReplyHead { status: 200, content_type: ContentType::OctetStream }
}

/// The reply that carries one encoded result.
pub fn msgpack_response(body: Vec<u8>) -> (res: Reply)
    ensures
        res.head == ok_head(ContentType::Msgpack),
        res.head.status == 200,
        res.head.content_type == ContentType::Msgpack,
        res.body@ == body@,
{
    Reply { head: ReplyHead { status: 200, content_type: ContentType::Msgpack }, body }
}

/// The reply that carries an encoded error. If the error could not be encoded,
/// the body is empty.
pub fn msgpack_error_response(encoded: Option<Vec<u8>>) -> (res: Reply)
    ensures
        res.head == ok_head(ContentType::Msgpack),
        res.head.status == 200,
        res.head.content_type == ContentType::Msgpack,
        match encoded {
            Some(body) => res.body@ == body@,
            None => res.body@.len() == 0,
        },
{
    match encoded {
        Some(body) => msgpack_response(body),
        None => msgpack_response(Vec::new()),
    }
}

/// Every reply has status 200 and the content type asked for.
pub proof fn replies_have_status_200(content_type: ContentType)
    ensures
        ok_head(content_type).status == 200,
        ok_head(content_type).content_type == content_type,
{
}

} // verus!
