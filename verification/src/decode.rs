//! Decoding a YAML document into the fields of a metadata record.

use crate::error::Fault;
use crate::kind::{kind_named, lemma_wire_names, Kind};
use crate::link::{url_serialization, Url};
use crate::metadata::Record;
use crate::text::same_text;
use crate::yaml::{Yaml, YamlValue};
use vstd::prelude::*;

verus! {

/// The value under the first entry of `entries` whose key is the text `key`.
pub open spec fn field(entries: Seq<(YamlValue, YamlValue)>, key: Seq<char>) -> Option<YamlValue>
    decreases entries.len(),
{
    if entries.len() == 0 {
        None
    } else if entries[0].0 == YamlValue::Text(key) {
        Some(entries[0].1)
    } else {
        field(entries.drop_first(), key)
    }
}

/// The kind that the value under `type` gives: it must be there, and be the
/// wire name of a kind.
pub open spec fn decoded_kind(value: Option<YamlValue>) -> Option<Kind> {
    match value {
        Some(YamlValue::Text(name)) => kind_named(name),
        _ => None,
    }
}

/// The URL that `value` gives: it must be text that parses as a URL.
pub open spec fn link_of(value: YamlValue) -> Option<Seq<char>> {
    match value {
        YamlValue::Text(text) => url_serialization(text),
        _ => None,
    }
}

/// The optional URL that the value under `pr` gives: absent where the key
/// is absent or null; `None` where the value is wrong.
pub open spec fn decoded_link(value: Option<YamlValue>) -> Option<Option<Seq<char>>> {
    match value {
        None => Some(None),
        Some(YamlValue::Null) => Some(None),
        Some(other) => match link_of(other) {
            Some(url) => Some(Some(url)),
            None => None,
        },
    }
}

/// The URLs that the value under `fixes` gives, in order: none where the key
/// is absent; `None` where the value is wrong.
pub open spec fn decoded_links(value: Option<YamlValue>) -> Option<Seq<Seq<char>>> {
    match value {
        None => Some(Seq::empty()),
        Some(YamlValue::Sequence(items)) => if forall|i: int|
            0 <= i < items.len() ==> link_of(#[trigger] items[i]) is Some {
            Some(Seq::new(items.len(), |i: int| link_of(items[i])->0))
        } else {
            None
        },
        Some(_) => None,
    }
}

/// The optional text that the value under `co-authored-by` gives: absent
/// where the key is absent or null; `None` where the value is wrong.
pub open spec fn decoded_name(value: Option<YamlValue>) -> Option<Option<Seq<char>>> {
    match value {
        None => Some(None),
        Some(YamlValue::Null) => Some(None),
        Some(YamlValue::Text(text)) => Some(Some(text)),
        Some(_) => None,
    }
}

/// What decoding `document` gives: the record, or the first fault in the
/// order `type`, `pr`, `fixes`, `co-authored-by`. Keys other than these four
/// are passed over.
pub open spec fn decoding(document: YamlValue) -> Result<Record, Fault> {
    match document {
        YamlValue::Mapping(entries) => match decoded_kind(field(entries, "type"@)) {
            None => Err(Fault::Kind),
            Some(kind) => match decoded_link(field(entries, "pr"@)) {
                None => Err(Fault::Pr),
                Some(pr) => match decoded_links(field(entries, "fixes"@)) {
                    None => Err(Fault::Fixes),
                    Some(fixes) => match decoded_name(field(entries, "co-authored-by"@)) {
                        None => Err(Fault::CoAuthoredBy),
                        Some(co_authored_by) => Ok(Record { kind, pr, fixes, co_authored_by }),
                    },
                },
            },
        },
        _ => Err(Fault::NotMapping),
    }
}

/// The values of a mapping's entries.
pub open spec fn entries_model(entries: &Vec<(Yaml, Yaml)>) -> Seq<(YamlValue, YamlValue)> {
    Seq::new(entries.len() as nat, |i: int| (entries[i].0@, entries[i].1@))
}

/// The value of an optional document.
pub open spec fn value_of(document: Option<&Yaml>) -> Option<YamlValue> {
    match document {
        Some(d) => Some(d@),
        None => None,
    }
}

/// The value under the first entry whose key is the text `key`.
pub fn find_field<'a>(entries: &'a Vec<(Yaml, Yaml)>, key: &str) -> (r: Option<&'a Yaml>)
    ensures
        value_of(r) == field(entries_model(entries), key@),
{
    let ghost all = entries_model(entries);
    let n: usize = entries.len();
    let mut i: usize = 0;
    assert(all.subrange(0, n as int) =~= all);
    while i < n
        invariant
            i <= n,
            n == entries.len(),
            all == entries_model(entries),
            field(all, key@) == field(all.subrange(i as int, n as int), key@),
        decreases n - i,
    {
        let hit = match &entries[i].0 {
            Yaml::Text(name) => same_text(name.as_str(), key),
            _ => false,
        };
        proof {
            let rest = all.subrange(i as int, n as int);
            assert(rest[0] == all[i as int]);
            assert(rest.drop_first() =~= all.subrange(i + 1, n as int));
            assert(hit == (all[i as int].0 == YamlValue::Text(key@)));
        }
        if hit {
            return Some(&entries[i].1);
        }
        i += 1;
    }
    None
}

/// Decodes the value under `type`.
pub fn decode_kind(value: Option<&Yaml>) -> (r: Option<Kind>)
    ensures
        r == decoded_kind(value_of(value)),
{
    match value {
        Some(Yaml::Text(name)) => Kind::from_wire(name.as_str()),
        _ => None,
    }
}

/// Decodes one URL.
pub fn decode_url(value: &Yaml) -> (r: Option<Url>)
    ensures
        match r {
            Some(url) => link_of(value@) == Some(url@),
            None => link_of(value@) is None,
        },
{
    match value {
        Yaml::Text(text) => Url::parse(text.as_str()),
        _ => None,
    }
}

/// Decodes the value under `pr`.
pub fn decode_link(value: Option<&Yaml>) -> (r: Option<Option<Url>>)
    ensures
        match r {
            Some(Some(url)) => decoded_link(value_of(value)) == Some(Some(url@)),
            Some(None) => decoded_link(value_of(value)) == Some(None::<Seq<char>>),
            None => decoded_link(value_of(value)) is None,
        },
{
    match value {
        None => Some(None),
        Some(Yaml::Null) => Some(None),
        Some(other) => match decode_url(other) {
            Some(url) => Some(Some(url)),
            None => None,
        },
    }
}

/// The texts of a list of URLs.
pub open spec fn texts(urls: Seq<Url>) -> Seq<Seq<char>> {
    Seq::new(urls.len(), |i: int| urls[i]@)
}

/// Decodes the value under `fixes`.
pub fn decode_links(value: Option<&Yaml>) -> (r: Option<Vec<Url>>)
    ensures
        match r {
            Some(urls) => decoded_links(value_of(value)) == Some(texts(urls@)),
            None => decoded_links(value_of(value)) is None,
        },
{
    match value {
        None => {
            let urls: Vec<Url> = Vec::new();
            assert(texts(urls@) =~= Seq::empty());
            Some(urls)
        },
        Some(document) => match document {
            Yaml::Sequence(items) => {
                let ghost values = document@->Sequence_0;
                let n: usize = items.len();
                let mut urls: Vec<Url> = Vec::new();
                let mut i: usize = 0;
                while i < n
                    invariant
                        i <= n,
                        n == items.len(),
                        value_of(value) == Some(document@),
                        document@ == YamlValue::Sequence(values),
                        values.len() == n,
                        forall|j: int| 0 <= j < n ==> (#[trigger] values[j]) == items[j]@,
                        urls.len() == i,
                        forall|j: int| 0 <= j < i ==> link_of(#[trigger] values[j]) == Some(urls[j]@),
                    decreases n - i,
                {
                    match decode_url(&items[i]) {
                        Some(url) => {
                            urls.push(url);
                        },
                        None => {
                            assert(link_of(values[i as int]) is None);
                            return None;
                        },
                    }
                    i += 1;
                }
                assert(texts(urls@) =~= Seq::new(values.len(), |i: int| link_of(values[i])->0));
                Some(urls)
            },
            _ => None,
        },
    }
}

/// Decodes the value under `co-authored-by`.
pub fn decode_name(value: Option<&Yaml>) -> (r: Option<Option<String>>)
    ensures
        match r {
            Some(Some(name)) => decoded_name(value_of(value)) == Some(Some(name@)),
            Some(None) => decoded_name(value_of(value)) == Some(None::<Seq<char>>),
            None => decoded_name(value_of(value)) is None,
        },
{
    match value {
        None => Some(None),
        Some(Yaml::Null) => Some(None),
        Some(Yaml::Text(text)) => Some(Some(text.clone())),
        Some(_) => None,
    }
}

/// The four keys of a trailer have pairwise different lengths.
pub proof fn lemma_keys()
    ensures
        "type"@.len() == 4,
        "pr"@.len() == 2,
        "fixes"@.len() == 5,
        "co-authored-by"@.len() == 14,
{
    reveal_strlit("type");
    reveal_strlit("pr");
    reveal_strlit("fixes");
    reveal_strlit("co-authored-by");
}

/// The value under `key` stands in the first entry that has this key.
pub proof fn lemma_field_at(entries: Seq<(YamlValue, YamlValue)>, key: Seq<char>, i: int)
    requires
        0 <= i < entries.len(),
        entries[i].0 == YamlValue::Text(key),
        forall|j: int| 0 <= j < i ==> (#[trigger] entries[j]).0 != YamlValue::Text(key),
    ensures
        field(entries, key) == Some(entries[i].1),
    decreases i,
{
    if i > 0 {
        assert(entries[0].0 != YamlValue::Text(key));
        let rest = entries.drop_first();
        assert forall|j: int| 0 <= j < i - 1 implies (#[trigger] rest[j]).0 != YamlValue::Text(
            key,
        ) by {
            assert(rest[j] == entries[j + 1]);
        }
        lemma_field_at(rest, key, i - 1);
    }
}

/// No value stands under a key that no entry has.
pub proof fn lemma_field_absent(entries: Seq<(YamlValue, YamlValue)>, key: Seq<char>)
    requires
        forall|j: int| 0 <= j < entries.len() ==> (#[trigger] entries[j]).0 != YamlValue::Text(key),
    ensures
        field(entries, key) is None,
    decreases entries.len(),
{
    if entries.len() > 0 {
        assert(entries[0].0 != YamlValue::Text(key));
        let rest = entries.drop_first();
        assert forall|j: int| 0 <= j < rest.len() implies (#[trigger] rest[j]).0
            != YamlValue::Text(key) by {
            assert(rest[j] == entries[j + 1]);
        }
        lemma_field_absent(rest, key);
    }
}

/// A mapping without the keys `pr`, `fixes` and `co-authored-by` decodes,
/// where its `type` is good, to a record without a pull request, with an
/// empty list of fixed issues and without a co-author.
pub proof fn lemma_absent_keys(entries: Seq<(YamlValue, YamlValue)>)
    requires
        decoded_kind(field(entries, "type"@)) is Some,
        field(entries, "pr"@) is None,
        field(entries, "fixes"@) is None,
        field(entries, "co-authored-by"@) is None,
    ensures
        decoding(YamlValue::Mapping(entries)) == Ok::<Record, Fault>(
            Record {
                kind: decoded_kind(field(entries, "type"@))->0,
                pr: None,
                fixes: Seq::empty(),
                co_authored_by: None,
            },
        ),
{
}

/// Only the hyphenated spelling names the co-author: a mapping that spells
/// the key in any other way, whatever the spelling, leaves the co-author
/// absent where it decodes.
pub proof fn lemma_hyphenated_key_only(entries: Seq<(YamlValue, YamlValue)>)
    requires
        forall|j: int|
            0 <= j < entries.len() ==> (#[trigger] entries[j]).0 != YamlValue::Text(
                "co-authored-by"@,
            ),
    ensures
        "coauthoredby"@ != "co-authored-by"@,
        "co_authored_by"@ != "co-authored-by"@,
        decoding(YamlValue::Mapping(entries)) matches Ok(record) ==> record.co_authored_by is None,
{
    reveal_strlit("coauthoredby");
    reveal_strlit("co_authored_by");
    reveal_strlit("co-authored-by");
    lemma_field_absent(entries, "co-authored-by"@);
    assert("co_authored_by"@[2] != "co-authored-by"@[2]);
}

/// A trailer that names a kind and spells the co-author's key without the
/// hyphens, or with underscores, decodes to a record without a co-author:
/// the document is the mapping of `type` to `changed` and of the misspelt
/// `key` to `name`.
pub proof fn lemma_misspelt_key_is_passed_over(key: Seq<char>, name: YamlValue)
    requires
        key == "coauthoredby"@ || key == "co_authored_by"@,
    ensures
        decoding(
            YamlValue::Mapping(
                seq![
                    (YamlValue::Text("type"@), YamlValue::Text("changed"@)),
                    (YamlValue::Text(key), name),
                ],
            ),
        ) == Ok::<Record, Fault>(
            Record { kind: Kind::Changed, pr: None, fixes: Seq::empty(), co_authored_by: None },
        ),
{
    let entries = seq![
        (YamlValue::Text("type"@), YamlValue::Text("changed"@)),
        (YamlValue::Text(key), name),
    ];
    lemma_keys();
    lemma_wire_names();
    reveal_strlit("coauthoredby");
    reveal_strlit("co_authored_by");
    reveal_strlit("co-authored-by");
    assert("co_authored_by"@[2] != "co-authored-by"@[2]);
    assert(key != "co-authored-by"@);
    assert(key.len() == 12 || key.len() == 14);
    lemma_field_at(entries, "type"@, 0);
    lemma_field_absent(entries, "pr"@);
    lemma_field_absent(entries, "fixes"@);
    lemma_field_absent(entries, "co-authored-by"@);
}

} // verus!
