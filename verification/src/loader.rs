use std::io::Read;
use vstd::prelude::*;
use vstd::utf8::{decode_utf8, valid_utf8};
use crate::document::{node_models, children_in_range, Attribute, Document, NodeModel, XmlNode};

verus! {

#[verifier::external_type_specification]
#[verifier::external_body]
pub struct ExXmlError(roxmltree::Error);

/// What `roxmltree` parses the XML text `text` into (DTDs allowed): its nodes
/// in document order, or `None` when the text is no well-formed XML.
pub uninterp spec fn xml_tree(text: Seq<char>) -> Option<Seq<NodeModel>>;

/// What a gzip decoder gives for `data`: the decompressed bytes, or `None`
/// when `data` is no valid gzip stream.
pub uninterp spec fn gunzipped(data: Seq<u8>) -> Option<Seq<u8>>;

/// Calls `roxmltree::Document::parse_with_options` with DTDs allowed and
/// hands back every node of the parsed document in document order: elements
/// with their local name and namespace name, their attributes under their local names, and the
/// positions of each node's children. The contract claims only that the
/// result is the value that `xml_tree` names for the text, and that an error
/// comes exactly when it names none.
#[verifier::external_body]
fn parse_xml_nodes(text: &str) -> (r: Result<Vec<XmlNode>, roxmltree::Error>)
    ensures
        match r {
            Ok(nodes) => xml_tree(text@) == Some(node_models(nodes@)),
            Err(_) => xml_tree(text@) is None,
        },
{
    let options = roxmltree::ParsingOptions { allow_dtd: true, ..Default::default() };
    let xml = roxmltree::Document::parse_with_options(text, options)?;
    Ok(xml.descendants().map(|node| XmlNode {
        tag: if node.is_element() { Some(node.tag_name().name().to_string()) } else { None },
        namespace: node.tag_name().namespace().map(|n| n.to_string()),
        attributes: node.attributes().map(|a| Attribute {
            name: a.name().to_string(),
            value: a.value().to_string(),
        }).collect(),
        children: node.children().map(|child| child.id().get_usize()).collect(),
    }).collect())
}

/// Decompresses gzip data with `flate2::read::GzDecoder`, reading it to the
/// end. The contract claims only that the result is what `gunzipped` names
/// for the input (`None` when the decoder reports an error).
#[verifier::external_body]
fn gunzip(data: &[u8]) -> (r: Option<Vec<u8>>)
    ensures
        match r {
            Some(bytes) => gunzipped(data@) == Some(bytes@),
            None => gunzipped(data@) is None,
        },
{
    let mut decoded = Vec::new();
    match flate2::read::GzDecoder::new(data).read_to_end(&mut decoded) {
        Ok(_) => Some(decoded),
        Err(_) => None,
    }
}

/// Decodes UTF-8 with `std::str::from_utf8`, which by its documentation
/// fails exactly on invalid UTF-8 and otherwise yields the encoded characters.
#[verifier::external_body]
fn utf8_text(bytes: &[u8]) -> (r: Option<String>)
    ensures
        match r {
            Some(s) => valid_utf8(bytes@) && s@ == decode_utf8(bytes@),
            None => !valid_utf8(bytes@),
        },
{
    match std::str::from_utf8(bytes) {
        Ok(text) => Some(text.to_string()),
        Err(_) => None,
    }
}


/// Why an SVG source could not be loaded.
#[derive(Debug)]
pub enum LoadError {
    /// The source (after gzip decompression) is not UTF-8.
    NotAnUtf8Str,
    /// The source starts like gzip data but does not decompress.
    MalformedGZip,
    /// The text is not well-formed XML.
    ParsingFailed(roxmltree::Error),
    /// The parser handed back a node whose child position is not a node.
    MalformedTree,
}

/// Whether `data` starts with the gzip magic bytes.
pub open spec fn is_gzip(data: Seq<u8>) -> bool {
    data.len() >= 2 && data[0] == 0x1f && data[1] == 0x8b
}

/// The text of an SVG source: decompressed first when it is gzip data; `None`
/// when it does not decompress or is not UTF-8.
pub open spec fn source_text(data: Seq<u8>) -> Option<Seq<char>> {
    if is_gzip(data) {
        match gunzipped(data) {
            Some(bytes) => if valid_utf8(bytes) {
                Some(decode_utf8(bytes))
            } else {
                None
            },
            None => None,
        }
    } else if valid_utf8(data) {
        Some(decode_utf8(data))
    } else {
        None
    }
}

/// A gzip source loads as the plain data it decompresses to: the same text,
/// and so the same document (unless that data itself starts like gzip).
pub proof fn law_gzip_loads_as_plain_text(compressed: Seq<u8>, plain: Seq<u8>)
    requires
        is_gzip(compressed),
        gunzipped(compressed) == Some(plain),
        !is_gzip(plain),
    ensures
        source_text(compressed) == source_text(plain),
{
}

/// Loads an SVG source (plain or gzip-compressed): its text and its XML tree.
pub fn load_document(data: &[u8]) -> (r: Result<(String, Document), LoadError>)
    ensures
        match r {
            Ok((text, doc)) => source_text(data@) == Some(text@) && xml_tree(text@) == Some(doc@),
            Err(LoadError::MalformedGZip) => is_gzip(data@) && gunzipped(data@) is None,
            Err(LoadError::NotAnUtf8Str) => source_text(data@) is None && !(is_gzip(data@)
                && gunzipped(data@) is None),
            Err(LoadError::ParsingFailed(_)) => source_text(data@) matches Some(text) && xml_tree(
                text,
            ) is None,
            Err(LoadError::MalformedTree) => source_text(data@) matches Some(text) && xml_tree(
                text,
            ) matches Some(nodes) && !children_in_range(nodes),
        },
{
    let text = if data.len() >= 2 && data[0] == 0x1f && data[1] == 0x8b {
        let decoded = match gunzip(data) {
            Some(bytes) => bytes,
            None => return Err(LoadError::MalformedGZip),
        };
        match utf8_text(decoded.as_slice()) {
            Some(text) => text,
            None => return Err(LoadError::NotAnUtf8Str),
        }
    } else {
        match utf8_text(data) {
            Some(text) => text,
            None => return Err(LoadError::NotAnUtf8Str),
        }
    };
    let nodes = match parse_xml_nodes(text.as_str()) {
        Ok(nodes) => nodes,
        Err(error) => return Err(LoadError::ParsingFailed(error)),
    };
    match Document::new(nodes) {
        Some(doc) => Ok((text, doc)),
        None => Err(LoadError::MalformedTree),
    }
}

} // verus!
