//! The stateful front of the import pipeline: holds the configured encoding
//! label, the decoded and normalized text, and the parsed events. Reading
//! the source file from disk is the caller's business; this type takes the
//! raw bytes.

use vstd::prelude::*;
use crate::decode::{DecodeError, clean_text_of, decode, encoding_known};
use crate::event::{Event, EventModel, models};
use crate::parse::{ParseError, bad_line, events_of, parse};
use crate::text::split_crlf;

verus! {

/// Decodes and parses one source snapshot.
#[derive(Debug)]
pub struct CSVParser {
    encoding: String,
    contents: Option<Vec<char>>,
    parsed_events: Option<Vec<Event>>,
}

impl CSVParser {
    /// The configured encoding label.
    pub closed spec fn spec_encoding(&self) -> Seq<char> {
        self.encoding@
    }

    /// The clean text, once decoded.
    pub closed spec fn spec_contents(&self) -> Option<Seq<char>> {
        match self.contents {
            Some(c) => Some(c@),
            None => None,
        }
    }

    /// The parsed events, once parsed.
    pub closed spec fn spec_events(&self) -> Option<Seq<EventModel>> {
        match self.parsed_events {
            Some(e) => Some(models(e@)),
            None => None,
        }
    }

    /// A fresh parser for the given encoding label, with nothing read yet.
    pub fn new(encoding: &str) -> (p: CSVParser)
        ensures
            p.spec_encoding() == encoding@,
            p.spec_contents() is None,
            p.spec_events() is None,
    {
        CSVParser {
            encoding: String::from_str(encoding),
            contents: None,
            parsed_events: None,
        }
    }

    pub fn get_enc(&self) -> (r: &str)
        ensures
            r@ == self.spec_encoding(),
    {
        self.encoding.as_str()
    }

    /// Decodes the raw bytes of the source file under the configured
    /// encoding and keeps the normalized text. Fails exactly when the
    /// label resolves to no encoding, leaving the parser untouched.
    pub fn read_file(&mut self, raw_bytes: &Vec<u8>) -> (r: Result<(), DecodeError>)
        requires
            raw_bytes@.len() <= usize::MAX / 4,
        ensures
            final(self).spec_encoding() == old(self).spec_encoding(),
            final(self).spec_events() == old(self).spec_events(),
            r is Ok <==> encoding_known(old(self).spec_encoding()),
            r is Ok ==> final(self).spec_contents() == Some(
                clean_text_of(old(self).spec_encoding(), raw_bytes@),
            ),
            r is Err ==> final(self).spec_contents() == old(self).spec_contents() && r == Err::<
                (),
                DecodeError,
            >(DecodeError::UnknownEncoding),
    {
        let decoded = decode(raw_bytes, self.encoding.as_str());
        match decoded {
            Ok(text) => {
                self.contents = Some(text);
                Ok(())
            }
            Err(e) => Err(e),
        }
    }

    /// Parses the decoded text into events, all-or-nothing: on the first
    /// malformed row nothing is kept and the offending row is reported.
    /// Fails with `NoContent` when no text has been read yet.
    pub fn parse_contents(&mut self) -> (r: Result<(), ParseError>)
        ensures
            final(self).spec_encoding() == old(self).spec_encoding(),
            final(self).spec_contents() == old(self).spec_contents(),
            old(self).spec_contents() is None ==> (r matches Err(e) && e is NoContent
                && final(self).spec_events() == old(self).spec_events()),
            old(self).spec_contents() matches Some(text) ==> ((r is Ok <==> events_of(
                text,
            ) is Some) && (r is Ok ==> final(self).spec_events() == events_of(text)) && (
            r matches Err(e) ==> final(self).spec_events() == old(self).spec_events() && (
            e matches ParseError::BadRow { line_number, line } && line_number >= 1 && bad_line(
                split_crlf(text),
                line_number as int,
            ) && line@ == split_crlf(text)[line_number as int] && (forall|k: int|
                1 <= k < line_number ==> !bad_line(split_crlf(text), k))))),
    {
        let parsed = match &self.contents {
            None => Err(ParseError::NoContent),
            Some(text) => parse(text),
        };
        match parsed {
            Ok(events) => {
                self.parsed_events = Some(events);
                Ok(())
            }
            Err(e) => Err(e),
        }
    }

    /// The parsed events, if a parse has succeeded.
    pub fn get_events(&self) -> (r: Option<&Vec<Event>>)
        ensures
            r is Some <==> self.spec_events() is Some,
            r matches Some(v) ==> Some(models(v@)) == self.spec_events(),
    {
        match &self.parsed_events {
            Some(events) => Some(events),
            None => None,
        }
    }
}

} // verus!
