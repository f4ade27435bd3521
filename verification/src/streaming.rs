//! Streaming inference: the text of a streamed response is the content of
//! its chunks in the order they came, and each piece of content is passed
//! to the step's `during_step_streaming` hooks with the number of chunks
//! received so far.

use vstd::prelude::*;
use crate::text::{chars_to_string, non_empty_pieces, push_str, split_pieces, str_to_chars, words};

verus! {

/// One chunk of a streamed response.
#[derive(Debug)]
pub enum StreamChunk {
    /// A chunk, with the content it carries, if any.
    Content(Option<String>),
    /// A chunk that could not be read.
    Failed(String),
}

/// What has been received of a stream so far.
#[derive(Debug)]
pub struct StreamAggregate {
    pub text: Vec<char>,
    pub chunks_received: u32,
}

impl StreamAggregate {
    /// Nothing received yet.
    pub fn new() -> (a: StreamAggregate)
        ensures
            a.text@.len() == 0,
            a.chunks_received == 0,
    {
        StreamAggregate { text: Vec::new(), chunks_received: 0 }
    }

    /// Takes in one chunk: a readable chunk is counted and its content
    /// appended, and the content is returned with the count for the
    /// streaming hooks; an unreadable chunk changes nothing.
    pub fn receive(&mut self, chunk: &StreamChunk) -> (hook: Option<(String, u32)>)
        requires
            old(self).chunks_received < u32::MAX,
        ensures
            match *chunk {
                StreamChunk::Failed(_) => final(self).text@ == old(self).text@
                    && final(self).chunks_received == old(self).chunks_received && hook is None,
                StreamChunk::Content(None) => final(self).text@ == old(self).text@
                    && final(self).chunks_received == old(self).chunks_received + 1 && hook is None,
                StreamChunk::Content(Some(d)) => final(self).text@ == old(self).text@ + d@
                    && final(self).chunks_received == old(self).chunks_received + 1
                    && (hook matches Some((t, n)) && t@ == d@ && n == final(self).chunks_received),
            },
    {
        match chunk {
            StreamChunk::Failed(_) => None,
            StreamChunk::Content(c) => {
                self.chunks_received = self.chunks_received + 1;
                match c {
                    Some(d) => {
                        push_str(&mut self.text, d.as_str());
                        Some((d.clone(), self.chunks_received))
                    },
                    None => None,
                }
            },
        }
    }
}

/// The tokens a streamed response is credited with: its words.
pub fn streamed_token_count(text: &str) -> (n: usize)
    ensures
        n == words(text@).len(),
{
    let v = str_to_chars(text);
    let ps = split_pieces(&v, false);
    let ws = non_empty_pieces(&ps);
    ws.len()
}

/// The error of a stream that could not be opened.
pub fn streaming_failure(error: &str) -> (m: String)
    ensures
        m@ == "Streaming failed: "@ + error@,
{
    let mut out: Vec<char> = Vec::new();
    push_str(&mut out, "Streaming failed: ");
    push_str(&mut out, error);
    chars_to_string(out.as_slice())
}

} // verus!
