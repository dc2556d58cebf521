//! Writing a metadata record as a YAML document and as trailer text.

use crate::decode::{
    decoded_kind, decoded_link, decoded_links, decoded_name, decoding, lemma_field_at, lemma_keys,
    link_of,
};
use crate::error::Fault;
use crate::kind::{lemma_wire_names, wire_name};
use crate::link::url_serialization;
use crate::metadata::Record;
use crate::text::{document_body, trimmed, without_marker};
use crate::yaml::{is_printable, YamlValue};
use vstd::prelude::*;
use vstd::string::*;

verus! {

/// The YAML value of an optional text: the text, or null.
pub open spec fn optional_text(text: Option<Seq<char>>) -> YamlValue {
    match text {
        Some(t) => YamlValue::Text(t),
        None => YamlValue::Null,
    }
}

/// The YAML value of a list of URLs: the sequence of their texts.
pub open spec fn links_value(links: Seq<Seq<char>>) -> YamlValue {
    YamlValue::Sequence(Seq::new(links.len(), |i: int| YamlValue::Text(links[i])))
}

/// The YAML value that a record is written as: a mapping with the four keys
/// `type`, `pr`, `fixes` and `co-authored-by`, in this order.
pub open spec fn encoding(record: Record) -> YamlValue {
    YamlValue::Mapping(
        seq![
            (YamlValue::Text("type"@), YamlValue::Text(wire_name(record.kind))),
            (YamlValue::Text("pr"@), optional_text(record.pr)),
            (YamlValue::Text("fixes"@), links_value(record.fixes)),
            (YamlValue::Text("co-authored-by"@), optional_text(record.co_authored_by)),
        ],
    )
}

/// Whether each URL of `record` parses to itself.
pub open spec fn stable_links(record: Record) -> bool {
    &&& record.pr matches Some(url) ==> url_serialization(url) == Some(url)
    &&& forall|i: int|
        0 <= i < record.fixes.len() ==> url_serialization(#[trigger] record.fixes[i]) == Some(
            record.fixes[i],
        )
}

/// Decoding what a record is written as gives the record back, and what a
/// record is written as can be printed.
pub proof fn lemma_decode_encoding(record: Record)
    requires
        stable_links(record),
    ensures
        decoding(encoding(record)) == Ok::<Record, Fault>(record),
        is_printable(encoding(record)),
{
    lemma_keys();
    lemma_wire_names();
    let entries = encoding(record)->Mapping_0;
    assert(entries.len() == 4);
    lemma_field_at(entries, "type"@, 0);
    lemma_field_at(entries, "pr"@, 1);
    lemma_field_at(entries, "fixes"@, 2);
    lemma_field_at(entries, "co-authored-by"@, 3);
    let items = links_value(record.fixes)->Sequence_0;
    assert forall|i: int| 0 <= i < items.len() implies link_of(#[trigger] items[i]) is Some by {
        assert(items[i] == YamlValue::Text(record.fixes[i]));
    }
    assert(Seq::new(items.len(), |i: int| link_of(items[i])->0) =~= record.fixes);
    assert(decoded_links(Some(links_value(record.fixes))) == Some(record.fixes));
    assert(decoded_kind(Some(entries[0].1)) == Some(record.kind));
    assert(decoded_link(Some(entries[1].1)) == Some(record.pr));
    assert(decoded_name(Some(entries[3].1)) == Some(record.co_authored_by));
}

/// The trailer text made of emitted YAML text: a newline, the document's
/// body, a newline.
pub open spec fn trailer_text(yaml: Seq<char>) -> Seq<char> {
    seq!['\n'] + trimmed(without_marker(yaml)) + seq!['\n']
}

/// Frames emitted YAML text as a trailer: the text without a document-start
/// line at its start, trimmed, between two newlines.
pub fn frame(yaml: &str) -> (r: String)
    ensures
        r@ == trailer_text(yaml@),
{
    let body = document_body(yaml);
    let mut out = String::new();
    proof {
        reveal_strlit("\n");
    }
    out.append("\n");
    out.append(body);
    out.append("\n");
    assert("\n"@ =~= seq!['\n']);
    assert(out@ =~= trailer_text(yaml@));
    out
}

} // verus!
