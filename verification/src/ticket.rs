use vstd::prelude::*;
use bytes::Bytes;
use crate::buffers::bytes_contents;

verus! {

/// A piece of connection metadata that a passenger decoder has taken apart.
pub enum BufferedField {
    KeyValue(&'static str, &'static str),
    Header(String, String),
    Attribute(String),
    Bytes(Bytes),
}

/// One item handed out by a passenger decoder: a decoded field, bytes to forward
/// untouched, or the end of the metadata section.
pub enum TicketField {
    Buffered(BufferedField),
    Passthrough(Bytes),
    Boundary,
}

/// The text model of a `BufferedField`.
pub enum FieldText {
    KeyValue(Seq<char>, Seq<char>),
    Header(Seq<char>, Seq<char>),
    Attribute(Seq<char>),
    Bytes(Seq<u8>),
}

/// The model of a `TicketField`.
pub enum TicketView {
    Buffered(FieldText),
    Passthrough(Seq<u8>),
    Boundary,
}

impl View for BufferedField {
    type V = FieldText;

    open spec fn view(&self) -> FieldText {
        match self {
            BufferedField::KeyValue(k, v) => FieldText::KeyValue(k@, v@),
            BufferedField::Header(k, v) => FieldText::Header(k@, v@),
            BufferedField::Attribute(a) => FieldText::Attribute(a@),
            BufferedField::Bytes(b) => FieldText::Bytes(bytes_contents(*b)),
        }
    }
}

impl View for TicketField {
    type V = TicketView;

    open spec fn view(&self) -> TicketView {
        match self {
            TicketField::Buffered(f) => TicketView::Buffered(f@),
            TicketField::Passthrough(b) => TicketView::Passthrough(bytes_contents(*b)),
            TicketField::Boundary => TicketView::Boundary,
        }
    }
}

/// The models of a sequence of fields.
pub open spec fn fields_text(fs: Seq<BufferedField>) -> Seq<FieldText> {
    fs.map_values(|f: BufferedField| f@)
}

/// How a field reads when fields are logged on one line: `key=value`, the
/// attribute itself, or `<bytes>`.
pub open spec fn field_line(f: FieldText) -> Seq<char> {
    match f {
        FieldText::KeyValue(k, v) => k + "="@ + v,
        FieldText::Header(k, v) => k + "="@ + v,
        FieldText::Attribute(a) => a,
        FieldText::Bytes(_) => "<bytes>"@,
    }
}

/// The fields' lines joined with `"; "`.
pub open spec fn joined_fields(fs: Seq<FieldText>) -> Seq<char>
    decreases fs.len(),
{
    if fs.len() == 0 {
        Seq::empty()
    } else if fs.len() == 1 {
        field_line(fs[0])
    } else {
        joined_fields(fs.drop_last()) + "; "@ + field_line(fs.last())
    }
}

/// Appends the line form of one field.
pub fn push_field_line(out: &mut String, f: &BufferedField)
    ensures
        final(out)@ == old(out)@ + field_line(f@),
{
    match f {
        BufferedField::KeyValue(k, v) => {
            out.append(k);
            out.append("=");
            out.append(v);
        },
        BufferedField::Header(k, v) => {
            out.append(k.as_str());
            out.append("=");
            out.append(v.as_str());
        },
        BufferedField::Attribute(a) => {
            out.append(a.as_str());
        },
        BufferedField::Bytes(_) => {
            out.append("<bytes>");
        },
    }
}

/// The fields' line forms joined with `"; "`, as the TLS decoder reports them.
pub fn join_fields(fields: &Vec<BufferedField>) -> (s: String)
    ensures
        s@ == joined_fields(fields_text(fields@)),
{
    let mut s = String::new();
    let mut i: usize = 0;
    while i < fields.len()
        invariant
            i <= fields@.len(),
            s@ == joined_fields(fields_text(fields@.take(i as int))),
        decreases fields@.len() - i,
    {
        let ghost before = fields_text(fields@.take(i as int));
        let ghost after = fields_text(fields@.take(i as int + 1));
        assert(after.drop_last() == before);
        assert(after.last() == fields@[i as int]@);
        if i > 0 {
            s.append("; ");
        }
        push_field_line(&mut s, &fields[i]);
        i = i + 1;
    }
    assert(fields@.take(fields@.len() as int) == fields@);
    s
}

/// The predicate, called on a slice holding `bytes`, can answer `answer`.
pub open spec fn predicate_answers<P: Fn(&[u8]) -> bool>(
    pred: P,
    bytes: Seq<u8>,
    answer: bool,
) -> bool {
    exists|s: &[u8]| s@ == bytes && #[trigger] call_ensures(pred, (s,), answer)
}

/// The predicate may be called on any slice.
pub open spec fn predicate_total<P: Fn(&[u8]) -> bool>(pred: P) -> bool {
    forall|s: &[u8]| #[trigger] call_requires(pred, (s,))
}

} // verus!
