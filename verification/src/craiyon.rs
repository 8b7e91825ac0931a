use std::time::Duration;
use vstd::prelude::*;
use crate::raster::{base64_decode, base64_decoding};

verus! {

/// What one request to the image service has brought.
pub struct GeneratedResult {
    /// The images, decoded, in the order of the answer.
    pub images: Vec<Vec<u8>>,
    /// How long the service took to answer.
    pub duration: Duration,
}

/// A text without its line feeds.
pub open spec fn without_newlines(s: Seq<char>) -> Seq<char>
    decreases s.len(),
{
    if s.len() == 0 {
        Seq::<char>::empty()
    } else if s.last() == '\n' {
        without_newlines(s.drop_last())
    } else {
        without_newlines(s.drop_last()).push(s.last())
    }
}

/// The bytes of one image of the answer: its text, freed of line feeds,
/// is base64.
pub open spec fn image_bytes(text: Seq<char>) -> Option<Seq<u8>> {
    base64_decoding(without_newlines(text))
}

/// Takes the line feeds out of a text.
pub fn strip_newlines(text: &str) -> (out: String)
    ensures
        out@ == without_newlines(text@),
{
    let mut out = String::new();
    for c in it: text.chars()
        invariant
            it.seq() == text@,
            out@ == without_newlines(text@.take(it.index())),
    {
        assert(text@.take(it.index() + 1).drop_last() == text@.take(it.index()));
        if c != '\n' {
            out.push(c);
        }
    }
    assert(text@.take(text@.len() as int) == text@);
    out
}

impl GeneratedResult {
    /// Decodes the images of an answer that took `duration`. Gives
    /// nothing if one of them does not decode.
    pub fn decode(images: &Vec<String>, duration: Duration) -> (result: Option<Self>)
        ensures
            match result {
                Some(generated) => {
                    &&& generated.duration == duration
                    &&& generated.images@.len() == images@.len()
                    &&& forall|i: int|
                        0 <= i < images@.len() ==> image_bytes(images@[i]@) == Some(
                            (#[trigger] generated.images@[i])@,
                        )
                },
                None => exists|i: int|
                    0 <= i < images@.len() && image_bytes((#[trigger] images@[i])@) is None,
            },
    {
        let mut decoded: Vec<Vec<u8>> = Vec::new();
        let mut i: usize = 0;
        while i < images.len()
            invariant
                i <= images.len(),
                decoded@.len() == i,
                forall|k: int|
                    0 <= k < i ==> image_bytes(images@[k]@) == Some((#[trigger] decoded@[k])@),
            decreases images.len() - i,
        {
            let text = strip_newlines(images[i].as_str());
            match base64_decode(text.as_str()) {
                Ok(bytes) => {
                    decoded.push(bytes);
                },
                Err(_) => {
                    assert(image_bytes(images@[i as int]@) is None);
                    return None;
                },
            }
            i = i + 1;
        }
        Some(GeneratedResult { images: decoded, duration })
    }
}

} // verus!
