//! A stream of content: its bytes and, when it declares one, its media type.

use vstd::prelude::*;

verus! {

/// The identifier of a stream.
#[derive(Clone, Copy, Debug, PartialEq, Eq)]
pub struct StreamId(pub u64);

impl StreamId {
    pub fn new(id: u64) -> (s: Self)
        ensures
            s.0 == id,
    {
        StreamId(id)
    }
}

/// Content to be identified and validated.
#[derive(Clone, Debug)]
pub struct Stream {
    id: StreamId,
    bytes: Vec<u8>,
    media_type: Option<String>,
}

/// A stream's bytes and media type.
pub ghost struct StreamView {
    pub id: u64,
    pub bytes: Seq<u8>,
    pub media_type: Option<Seq<char>>,
}

impl View for Stream {
    type V = StreamView;

    closed spec fn view(&self) -> StreamView {
        StreamView {
            id: self.id.0,
            bytes: self.bytes@,
            media_type: match self.media_type {
                Some(m) => Some(m@),
                None => None,
            },
        }
    }
}

impl Stream {
    /// The stream `id` of `bytes`, of `media_type` when one is declared.
    pub fn new(id: StreamId, bytes: Vec<u8>, media_type: Option<String>) -> (s: Self)
        ensures
            s@.id == id.0,
            s@.bytes == bytes@,
            s@.media_type == match media_type {
                Some(m) => Some(m@),
                None => None::<Seq<char>>,
            },
    {
        Stream { id, bytes, media_type }
    }

    pub fn id(&self) -> (i: StreamId)
        ensures
            i.0 == self@.id,
    {
        self.id
    }

    pub fn bytes(&self) -> (b: &[u8])
        ensures
            b@ == self@.bytes,
    {
        self.bytes.as_slice()
    }

    pub fn media_type(&self) -> (m: Option<&str>)
        ensures
            match m {
                Some(t) => self@.media_type == Some(t@),
                None => self@.media_type is None,
            },
    {
        match &self.media_type {
            Some(m) => Some(m.as_str()),
            None => None,
        }
    }
}

} // verus!
