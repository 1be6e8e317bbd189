//! The JSON configuration behind a sublink, and the local ports that are put
//! into it before an inbound is tested with it.

use vstd::prelude::*;

verus! {

/// A JSON document.
#[verifier::external_type_specification]
#[verifier::external_body]
pub struct ExValue(serde_json::Value);

/// What stands under `port` in an inbound.
#[derive(Clone, Copy, Debug, PartialEq, Eq, Structural)]
pub enum PortField {
    Absent,
    /// An unsigned number.
    Number(u64),
    /// Anything else.
    Other,
}

/// What an inbound of the document says of its protocol and port.
pub struct LocalInbound {
    pub protocol: Option<String>,
    pub port: PortField,
}

#[verifier::ext_equal]
pub struct LocalInboundView {
    pub protocol: Option<Seq<char>>,
    pub port: PortField,
}

impl View for LocalInbound {
    type V = LocalInboundView;

    open spec fn view(&self) -> LocalInboundView {
        LocalInboundView { protocol: crate::text::opt_text(self.protocol), port: self.port }
    }
}

/// The document that a text stands for, or the message of the error.
pub uninterp spec fn document_of(text: Seq<char>) -> Result<serde_json::Value, Seq<char>>;

/// The entries of the array under `inbounds`; none where there is no such array.
pub uninterp spec fn local_inbounds(doc: serde_json::Value) -> Seq<LocalInboundView>;

/// The document with another port in one of its inbounds.
pub uninterp spec fn with_port(doc: serde_json::Value, i: int, port: u64) -> serde_json::Value;

/// The document as an indented text.
pub uninterp spec fn pretty_text(doc: serde_json::Value) -> Seq<char>;

/// `serde_json::from_str` into a `serde_json::Value`: the document, or the
/// message of the error, is a function of the text.
#[verifier::external_body]
fn parse_document(text: &str) -> (r: Result<serde_json::Value, String>)
    ensures
        match r {
            Ok(doc) => document_of(text@) == Ok::<serde_json::Value, Seq<char>>(doc),
            Err(e) => document_of(text@) == Err::<serde_json::Value, Seq<char>>(e@),
        },
{
    serde_json::from_str::<serde_json::Value>(text).map_err(|e| e.to_string())
}

/// `serde_json::Value::get` and `as_array`: how many entries there are under
/// `inbounds`.
#[verifier::external_body]
fn inbound_count(doc: &serde_json::Value) -> (n: usize)
    ensures
        n == local_inbounds(*doc).len(),
{
    doc.get("inbounds").and_then(|v| v.as_array()).map_or(0, |a| a.len())
}

/// `serde_json::Value::get`, `as_str` and `as_u64` on an entry under `inbounds`:
/// its protocol where that is a text, and its port.
#[verifier::external_body]
fn inbound_at(doc: &serde_json::Value, i: usize) -> (r: LocalInbound)
    requires
        i < local_inbounds(*doc).len(),
    ensures
        r@ == local_inbounds(*doc)[i as int],
{
    let entry = &doc["inbounds"][i];
    LocalInbound {
        protocol: entry.get("protocol").and_then(|v| v.as_str()).map(|s| s.to_owned()),
        port: match entry.get("port") {
            None => PortField::Absent,
            Some(v) => v.as_u64().map_or(PortField::Other, PortField::Number),
        },
    }
}

/// Assignment through `serde_json::Value`'s mutable index: the port of an entry
/// under `inbounds` that has one becomes the number, and the protocol of that
/// entry and all other entries stay.
#[verifier::external_body]
fn set_port(doc: &mut serde_json::Value, i: usize, port: u64)
    requires
        i < local_inbounds(*old(doc)).len(),
        local_inbounds(*old(doc))[i as int].port != PortField::Absent,
    ensures
        *final(doc) == with_port(*old(doc), i as int, port),
        local_inbounds(*final(doc)) == local_inbounds(*old(doc)).update(
            i as int,
            (LocalInboundView {
                port: PortField::Number(port),
                ..local_inbounds(*old(doc))[i as int]
            }),
        ),
{
    doc["inbounds"][i]["port"] = serde_json::Value::from(port);
}

/// `serde_json::to_string_pretty` of a document: the text is a function of the
/// document. It fails for values whose serialization fails or which hold maps
/// with keys that are not texts, and a document is neither.
#[verifier::external_body]
fn print_document(doc: &serde_json::Value) -> (r: Result<String, String>)
    ensures
        r is Ok,
        r->Ok_0@ == pretty_text(*doc),
{
    serde_json::to_string_pretty(doc).map_err(|e| e.to_string())
}

/// The port that an inbound gets in place of its own, if any: the SOCKS and
/// mixed ones get the new port, and to the port of an HTTP one the new port is
/// added.
pub open spec fn new_port(inb: LocalInboundView, newport: u16) -> Option<u64> {
    if inb.protocol == Some("socks"@) || inb.protocol == Some("mixed"@) {
        if inb.port == PortField::Absent {
            None
        } else {
            Some(newport as u64)
        }
    } else if inb.protocol == Some("http"@) {
        match inb.port {
            PortField::Number(p) => Some(
                vstd::wrapping::u64_specs::wrapping_add(p, newport as u64),
            ),
            _ => None,
        }
    } else {
        None
    }
}

/// The document after the ports of its first `k` inbounds were replaced.
pub open spec fn moved_upto(doc: serde_json::Value, newport: u16, k: int) -> serde_json::Value
    decreases k,
{
    if k <= 0 {
        doc
    } else {
        let before = moved_upto(doc, newport, k - 1);
        match new_port(local_inbounds(doc)[k - 1], newport) {
            Some(p) => with_port(before, k - 1, p),
            None => before,
        }
    }
}

/// The document with all its ports replaced.
pub open spec fn moved(doc: serde_json::Value, newport: u16) -> serde_json::Value {
    moved_upto(doc, newport, local_inbounds(doc).len() as int)
}

/// Decides on the port of an inbound.
pub fn port_for(inb: &LocalInbound, newport: u16) -> (r: Option<u64>)
    ensures
        r == new_port(inb@, newport),
{
    let protocol = match &inb.protocol {
        Some(p) => p.as_str(),
        None => return None,
    };
    if crate::text::str_eq(protocol, "socks") || crate::text::str_eq(protocol, "mixed") {
        match inb.port {
            PortField::Absent => None,
            _ => Some(newport as u64),
        }
    } else if crate::text::str_eq(protocol, "http") {
        match inb.port {
            PortField::Number(p) => Some(p.wrapping_add(newport as u64)),
            _ => None,
        }
    } else {
        None
    }
}

/// Replaces the ports of a document.
pub fn move_ports(doc: &mut serde_json::Value, newport: u16)
    ensures
        *final(doc) == moved(*old(doc), newport),
        local_inbounds(*final(doc)).len() == local_inbounds(*old(doc)).len(),
        forall|i: int|
            0 <= i < local_inbounds(*old(doc)).len() ==> #[trigger] local_inbounds(*final(doc))[i]
                == (match new_port(local_inbounds(*old(doc))[i], newport) {
                Some(p) => (LocalInboundView {
                    port: PortField::Number(p),
                    ..local_inbounds(*old(doc))[i]
                }),
                None => local_inbounds(*old(doc))[i],
            }),
{
    let ghost start = *doc;
    let ghost all = local_inbounds(start);
    let n = inbound_count(doc);
    let mut i: usize = 0;
    while i < n
        invariant
            i <= n,
            n == all.len(),
            start == *old(doc),
            all == local_inbounds(start),
            *doc == moved_upto(start, newport, i as int),
            local_inbounds(*doc).len() == n,
            forall|j: int| i <= j < n ==> #[trigger] local_inbounds(*doc)[j] == all[j],
            forall|j: int|
                0 <= j < i ==> #[trigger] local_inbounds(*doc)[j] == (match new_port(
                    all[j],
                    newport,
                ) {
                    Some(p) => (LocalInboundView { port: PortField::Number(p), ..all[j] }),
                    None => all[j],
                }),
        decreases n - i,
    {
        let inb = inbound_at(doc, i);
        assert(inb@ == all[i as int]);
        if let Some(p) = port_for(&inb, newport) {
            set_port(doc, i, p);
        }
        i += 1;
    }
}

/// The text of a sublink's document with the ports replaced, for the local test
/// of the inbound.
pub fn dl_sublink(resp: &str, newport: u16) -> (r: Result<String, String>)
    ensures
        match document_of(resp@) {
            Err(e) => r matches Err(m) && m@ == e,
            Ok(doc) => r matches Ok(t) && t@ == pretty_text(moved(doc, newport)),
        },
{
    match parse_document(resp) {
        Err(e) => Err(e),
        Ok(d) => {
            let mut doc = d;
            move_ports(&mut doc, newport);
            print_document(&doc)
        },
    }
}

/// The local ports of a document make room for one test of many: a SOCKS or mixed inbound
/// with a port gets the new one, that of an HTTP inbound is raised by it, and all other
/// inbounds keep theirs.
pub proof fn law_local_ports_are_moved(inb: LocalInboundView, newport: u16)
    ensures
        (inb.protocol == Some("socks"@) || inb.protocol == Some("mixed"@)) && inb.port
            != PortField::Absent ==> new_port(inb, newport) == Some(newport as u64),
        inb.protocol == Some("http"@) && inb.protocol != Some("socks"@) && inb.protocol != Some(
            "mixed"@,
        ) && inb.port is Number && inb.port->Number_0 + newport <= u64::MAX ==> new_port(
            inb,
            newport,
        ) == Some((inb.port->Number_0 + newport) as u64),
        inb.port == PortField::Absent ==> new_port(inb, newport) is None,
        inb.protocol != Some("socks"@) && inb.protocol != Some("mixed"@) && (inb.protocol != Some(
            "http"@,
        ) || !(inb.port is Number)) ==> new_port(inb, newport) is None,
{
}

} // verus!
