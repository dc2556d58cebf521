//! The metadata record of a commit and its trailer form.

use crate::decode::{
    decode_kind, decode_link, decode_links, decode_name, decoding, entries_model, find_field, texts,
};
use crate::encode::{
    encoding, frame, lemma_decode_encoding, links_value, optional_text, stable_links, trailer_text,
};
use crate::error::{Cause, Error, Fault};
use crate::kind::{wire_name, Kind};
use crate::link::{url_serialization, Url};
use crate::text::{
    has_separator, lemma_trailer_of_joined, lemma_trimmed_ends, locate, same_text, separator_at,
    trailer, trimmed, without_marker,
};
use crate::yaml::{is_printable, parse, render, yaml_document, yaml_text, Yaml, YamlValue};
use vstd::prelude::*;
use vstd::string::*;

verus! {

/// The metadata that a commit carries in its trailer.
#[derive(Debug)]
pub struct Metadata {
    pub kind: Kind,
    pub pr: Option<Url>,
    pub fixes: Vec<Url>,
    pub co_authored_by: Option<String>,
}

/// The mathematical value of a [`Metadata`]: each URL as its text.
pub struct Record {
    pub kind: Kind,
    pub pr: Option<Seq<char>>,
    pub fixes: Seq<Seq<char>>,
    pub co_authored_by: Option<Seq<char>>,
}

impl View for Metadata {
    type V = Record;

    open spec fn view(&self) -> Record {
        Record {
            kind: self.kind,
            pr: match self.pr {
                Some(url) => Some(url@),
                None => None,
            },
            fixes: Seq::new(self.fixes.len() as nat, |i: int| self.fixes[i]@),
            co_authored_by: match self.co_authored_by {
                Some(name) => Some(name@),
                None => None,
            },
        }
    }
}

/// The record that stands for "nothing said": a change, with no pull
/// request, no fixed issues and no co-author.
pub open spec fn default_record() -> Record {
    Record { kind: Kind::Changed, pr: None, fixes: Seq::empty(), co_authored_by: None }
}

impl Default for Metadata {
    fn default() -> (r: Metadata)
        ensures
            r@ == default_record(),
    {
        let r = Metadata { kind: Kind::Changed, pr: None, fixes: Vec::new(), co_authored_by: None };
        assert(r@.fixes =~= Seq::empty());
        r
    }
}

/// What reading the metadata of a message comes to.
pub enum Reading {
    /// The message has no trailer.
    Missing,
    /// The trailer is not YAML.
    Syntax,
    /// The trailer is YAML of the wrong shape.
    Shape(Fault),
    /// The trailer decodes to this record.
    Decoded(Record),
}

/// What reading the metadata of `message` comes to: the text after the last
/// blank line is parsed as YAML and decoded.
pub open spec fn reading(message: Seq<char>) -> Reading {
    match trailer(message) {
        None => Reading::Missing,
        Some(text) => match yaml_document(text) {
            None => Reading::Syntax,
            Some(document) => match decoding(document) {
                Ok(record) => Reading::Decoded(record),
                Err(fault) => Reading::Shape(fault),
            },
        },
    }
}

/// A message without a blank line has no metadata to read, and only such a
/// message has none.
pub proof fn lemma_missing_without_separator(message: Seq<char>)
    ensures
        reading(message) is Missing <==> !has_separator(message),
{
}

/// Reading gives a record back from a message that ends in the record's
/// trailer text: `yaml` is the YAML text that the record was written as, and
/// the trailer text without its first newline follows a blank line. This
/// holds wherever the body of `yaml` is not empty and holds no blank line,
/// and parsing it with the newline after it gives the document that the
/// record is written as.
pub proof fn lemma_read_written(record: Record, prefix: Seq<char>, yaml: Seq<char>)
    ensures
        ({
            let body = trimmed(without_marker(yaml));
            let tail = trailer_text(yaml).drop_first();
            stable_links(record) && body.len() > 0 && !has_separator(body) && yaml_document(tail)
                == Some(encoding(record)) ==> reading(prefix + seq!['\n', '\n'] + tail)
                == Reading::Decoded(record)
        }),
{
    let body = trimmed(without_marker(yaml));
    let tail = trailer_text(yaml).drop_first();
    assert(tail =~= body + seq!['\n']);
    if stable_links(record) && body.len() > 0 && !has_separator(body) {
        lemma_trimmed_ends(without_marker(yaml));
        assert(tail[0] == body[0]);
        assert forall|j: int| !separator_at(tail, j) by {
            if separator_at(tail, j) {
                if j + 1 < body.len() {
                    assert(separator_at(body, j));
                } else {
                    assert(tail[j] == body.last());
                }
            }
        }
        lemma_trailer_of_joined(prefix, tail);
        lemma_decode_encoding(record);
    }
}

/// What decoding comes to once the YAML parser has answered with the
/// document or with its diagnostic.
pub open spec fn parsed_outcome(parsed: Result<Yaml, String>) -> Reading {
    match parsed {
        Err(_) => Reading::Syntax,
        Ok(document) => match decoding(document@) {
            Ok(record) => Reading::Decoded(record),
            Err(fault) => Reading::Shape(fault),
        },
    }
}

/// What `result` says of a message with the identifier `hash`: the record
/// read, or an error that carries the identifier and the message.
pub open spec fn reports(
    result: Result<Metadata, Error>,
    hash: Seq<char>,
    message: Seq<char>,
    outcome: Reading,
) -> bool {
    match result {
        Ok(metadata) => outcome == Reading::Decoded(metadata@),
        Err(Error::CommitMetadataMissing { hash: h, message: m }) => {
            &&& outcome is Missing
            &&& h@ == hash
            &&& m@ == message
        },
        Err(Error::CommitMetadataDeserialize { hash: h, message: m, cause }) => {
            &&& h@ == hash
            &&& m@ == message
            &&& match cause {
                Cause::Syntax(_) => outcome is Syntax,
                Cause::Shape(fault) => outcome == Reading::Shape(fault),
            }
        },
    }
}

/// The text that bytes decode to when each invalid sequence is replaced by
/// the replacement character.
pub uninterp spec fn lossy_text(bytes: Seq<u8>) -> Seq<char>;

/// Calls `String::from_utf8_lossy` and takes the text as a `String`.
///
/// Trusted: the text depends on the bytes alone; it is named [`lossy_text`].
#[verifier::external_body]
fn utf8_lossy(bytes: &[u8]) -> (r: String)
    ensures
        r@ == lossy_text(bytes@),
{
    String::from_utf8_lossy(bytes).into_owned()
}

impl Metadata {
    /// Decodes a trailer that has been parsed as YAML.
    pub fn from_yaml(document: &Yaml) -> (r: Result<Metadata, Fault>)
        ensures
            match r {
                Ok(metadata) => decoding(document@) == Ok::<Record, Fault>(metadata@),
                Err(fault) => decoding(document@) == Err::<Record, Fault>(fault),
            },
    {
        match document {
            Yaml::Mapping(entries) => {
                assert(document@ == YamlValue::Mapping(entries_model(entries))) by {
                    assert(document@->Mapping_0 =~= entries_model(entries));
                }
                let kind = match decode_kind(find_field(entries, "type")) {
                    Some(kind) => kind,
                    None => { return Err(Fault::Kind); },
                };
                let pr = match decode_link(find_field(entries, "pr")) {
                    Some(pr) => pr,
                    None => { return Err(Fault::Pr); },
                };
                let fixes = match decode_links(find_field(entries, "fixes")) {
                    Some(fixes) => fixes,
                    None => { return Err(Fault::Fixes); },
                };
                let co_authored_by = match decode_name(find_field(entries, "co-authored-by")) {
                    Some(name) => name,
                    None => { return Err(Fault::CoAuthoredBy); },
                };
                let metadata = Metadata { kind, pr, fixes, co_authored_by };
                assert(metadata@.fixes =~= texts(metadata.fixes@));
                Ok(metadata)
            },
            _ => Err(Fault::NotMapping),
        }
    }

    /// A copy of this record.
    pub fn duplicate(&self) -> (r: Metadata)
        ensures
            r@ == self@,
    {
        let pr = match &self.pr {
            Some(url) => Some(url.duplicate()),
            None => None,
        };
        let n: usize = self.fixes.len();
        let mut fixes: Vec<Url> = Vec::new();
        let mut i: usize = 0;
        while i < n
            invariant
                i <= n,
                n == self.fixes.len(),
                fixes.len() == i,
                forall|j: int| 0 <= j < i ==> (#[trigger] fixes[j])@ == self.fixes[j]@,
            decreases n - i,
        {
            fixes.push(self.fixes[i].duplicate());
            i += 1;
        }
        let co_authored_by = match &self.co_authored_by {
            Some(name) => Some(name.clone()),
            None => None,
        };
        let r = Metadata { kind: self.kind, pr, fixes, co_authored_by };
        assert(r@.fixes =~= self@.fixes);
        r
    }

    /// The YAML document that this record is written as. Decoding it gives
    /// the record back.
    pub fn to_yaml(&self) -> (document: Yaml)
        ensures
            document@ == encoding(self@),
            is_printable(document@),
            stable_links(self@),
            decoding(document@) == Ok::<Record, Fault>(self@),
    {
        let pr = match &self.pr {
            Some(url) => Yaml::Text(url.as_str().to_owned()),
            None => Yaml::Null,
        };
        assert(pr@ == optional_text(self@.pr));
        let n: usize = self.fixes.len();
        let mut items: Vec<Yaml> = Vec::new();
        let mut i: usize = 0;
        while i < n
            invariant
                i <= n,
                n == self.fixes.len(),
                items.len() == i,
                forall|j: int| 0 <= j < i ==> (#[trigger] items[j])@ == YamlValue::Text(self.fixes[j]@),
                forall|j: int|
                    0 <= j < i ==> url_serialization(#[trigger] self.fixes[j]@) == Some(
                        self.fixes[j]@,
                    ),
            decreases n - i,
        {
            let item = Yaml::Text(self.fixes[i].as_str().to_owned());
            assert(item@ == YamlValue::Text(self.fixes[i as int]@));
            items.push(item);
            i += 1;
        }
        let fixes = Yaml::Sequence(items);
        assert(fixes@ == links_value(self@.fixes)) by {
            assert(fixes@->Sequence_0 =~= links_value(self@.fixes)->Sequence_0);
        }
        let co_authored_by = match &self.co_authored_by {
            Some(name) => Yaml::Text(name.clone()),
            None => Yaml::Null,
        };
        assert(co_authored_by@ == optional_text(self@.co_authored_by));
        let kind = Yaml::Text(self.kind.wire().to_owned());
        assert(kind@ == YamlValue::Text(wire_name(self.kind)));
        let k0 = Yaml::Text("type".to_owned());
        let k1 = Yaml::Text("pr".to_owned());
        let k2 = Yaml::Text("fixes".to_owned());
        let k3 = Yaml::Text("co-authored-by".to_owned());
        assert(k0@ == YamlValue::Text("type"@));
        assert(k1@ == YamlValue::Text("pr"@));
        assert(k2@ == YamlValue::Text("fixes"@));
        assert(k3@ == YamlValue::Text("co-authored-by"@));
        let mut entries: Vec<(Yaml, Yaml)> = Vec::new();
        entries.push((k0, kind));
        entries.push((k1, pr));
        entries.push((k2, fixes));
        entries.push((k3, co_authored_by));
        let document = Yaml::Mapping(entries);
        proof {
            assert(document@->Mapping_0 =~= encoding(self@)->Mapping_0);
            assert(stable_links(self@));
            lemma_decode_encoding(self@);
        }
        document
    }

    /// The trailer text of this record: a newline, the record as YAML
    /// without a document-start line, a newline. An error carries the
    /// emitter's diagnostic.
    pub fn encode(&self) -> (r: Result<String, String>)
        ensures
            match r {
                Ok(text) => yaml_text(encoding(self@)) matches Some(yaml) && text@ == trailer_text(
                    yaml,
                ),
                Err(_) => yaml_text(encoding(self@)) is None,
            },
    {
        let document = self.to_yaml();
        match render(&document) {
            Ok(yaml) => Ok(frame(yaml.as_str())),
            Err(diagnostic) => Err(diagnostic),
        }
    }

    /// Decodes the trailer of a commit once the YAML parser has answered:
    /// `parsed` is the document, or the parser's diagnostic. `hash` and
    /// `message` are the commit's, for errors.
    pub fn from_parsed(hash: &str, message: String, parsed: Result<Yaml, String>) -> (r: Result<
        Metadata,
        Error,
    >)
        ensures
            reports(r, hash@, message@, parsed_outcome(parsed)),
            parsed matches Err(diagnostic) ==> r matches Err(
                Error::CommitMetadataDeserialize { cause: Cause::Syntax(text), .. },
            ) && text@ == diagnostic@,
    {
        let decoded = match parsed {
            Ok(document) => Metadata::from_yaml(&document),
            Err(diagnostic) => {
                return Err(
                    Error::CommitMetadataDeserialize {
                        hash: hash.to_owned(),
                        message,
                        cause: Cause::Syntax(diagnostic),
                    },
                );
            },
        };
        match decoded {
            Ok(metadata) => Ok(metadata),
            Err(fault) => Err(
                Error::CommitMetadataDeserialize {
                    hash: hash.to_owned(),
                    message,
                    cause: Cause::Shape(fault),
                },
            ),
        }
    }

    /// Whether `self` and `other` are the same record.
    pub fn same(&self, other: &Metadata) -> (r: bool)
        ensures
            r == (self@ == other@),
    {
        let same_pr = match (&self.pr, &other.pr) {
            (Some(a), Some(b)) => a.same(b),
            (None, None) => true,
            _ => false,
        };
        let same_name = match (&self.co_authored_by, &other.co_authored_by) {
            (Some(a), Some(b)) => same_text(a.as_str(), b.as_str()),
            (None, None) => true,
            _ => false,
        };
        let n: usize = self.fixes.len();
        if !same_pr || !same_name || !(self.kind == other.kind) || n != other.fixes.len() {
            assert(self@.fixes.len() == n && other@.fixes.len() == other.fixes.len());
            return false;
        }
        let mut i: usize = 0;
        while i < n
            invariant
                i <= n,
                n == self.fixes.len(),
                n == other.fixes.len(),
                forall|j: int| 0 <= j < i ==> (#[trigger] self.fixes[j])@ == other.fixes[j]@,
            decreases n - i,
        {
            if !self.fixes[i].same(&other.fixes[i]) {
                assert(self@.fixes[i as int] != other@.fixes[i as int]);
                return false;
            }
            i += 1;
        }
        assert(self@.fixes =~= other@.fixes);
        true
    }

    /// Reads the metadata of a commit from its message: the text after the
    /// last blank line, parsed as YAML and decoded. `hash` identifies the
    /// commit in errors.
    pub fn from_message(hash: &str, message: String) -> (r: Result<Metadata, Error>)
        ensures
            reports(r, hash@, message@, reading(message@)),
    {
        let parsed = match locate(message.as_str()) {
            Some(text) => parse(text),
            None => {
                return Err(Error::CommitMetadataMissing { hash: hash.to_owned(), message });
            },
        };
        Metadata::from_parsed(hash, message, parsed)
    }

    /// Reads the metadata of a commit from the bytes of its message, which
    /// are first decoded as UTF-8 with each invalid sequence replaced.
    pub fn from_commit(hash: &str, message_bytes: &[u8]) -> (r: Result<Metadata, Error>)
        ensures
            reports(r, hash@, lossy_text(message_bytes@), reading(lossy_text(message_bytes@))),
    {
        Metadata::from_message(hash, utf8_lossy(message_bytes))
    }
}

impl Clone for Metadata {
    fn clone(&self) -> (r: Metadata)
        ensures
            r@ == self@,
    {
        self.duplicate()
    }
}

} // verus!
