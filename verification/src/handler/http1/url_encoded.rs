//! HTTP 1.x handler implementation for processing URL encoded data.

use crate::field::{FieldMap, FieldValue};
use crate::http1::HttpHandler;
use crate::util::utf8_lossy_text;
use vstd::prelude::*;

verus! {

/// The fields after a name and value have been flushed into `fields`: a pair with an empty name
/// is dropped, and a value is appended to the values of its name.
pub open spec fn flushed_fields(
    fields: Map<Seq<char>, Seq<Seq<char>>>,
    name: Seq<u8>,
    value: Seq<u8>,
) -> Map<Seq<char>, Seq<Seq<char>>> {
    if name.len() == 0 {
        fields
    } else {
        let key = utf8_lossy_text(name);
        fields.insert(
            key,
            if fields.contains_key(key) {
                fields[key].push(utf8_lossy_text(value))
            } else {
                seq![utf8_lossy_text(value)]
            },
        )
    }
}

/// `UrlEncodedHandler` is a suitable handler for URL encoded parsing: it collects the decoded
/// fields, each with its values in order.
pub struct UrlEncodedHandler {
    /// Field buffer.
    field_buffer: Vec<u8>,
    /// Fields.
    fields: FieldMap,
    /// Indicates that parsing has finished.
    finished: bool,
    /// Field/value toggle: set once a value has been given.
    toggle: bool,
    /// Value buffer.
    value_buffer: Vec<u8>,
}

impl UrlEncodedHandler {
    /// The fields stay well-formed.
    #[verifier::type_invariant]
    spec fn fields_wf(&self) -> bool {
        self.fields.wf()
    }

    /// The fields, by name.
    pub closed spec fn spec_fields(&self) -> Map<Seq<char>, Seq<Seq<char>>> {
        self.fields@
    }

    /// The name collected for the field being parsed.
    pub closed spec fn spec_field_buffer(&self) -> Seq<u8> {
        self.field_buffer@
    }

    /// The value collected for the field being parsed.
    pub closed spec fn spec_value_buffer(&self) -> Seq<u8> {
        self.value_buffer@
    }

    /// Indicates that a value has been given for the field being parsed.
    pub closed spec fn spec_toggle(&self) -> bool {
        self.toggle
    }

    /// Indicates that parsing has finished.
    pub closed spec fn spec_finished(&self) -> bool {
        self.finished
    }

    /// Nothing has been collected.
    pub open spec fn is_cleared(&self) -> bool {
        &&& self.spec_fields() == Map::<Seq<char>, Seq<Seq<char>>>::empty()
        &&& self.spec_field_buffer().len() == 0
        &&& self.spec_value_buffer().len() == 0
        &&& !self.spec_toggle()
        &&& !self.spec_finished()
    }

    /// Create a new `UrlEncodedHandler`.
    pub fn new() -> (r: UrlEncodedHandler)
        ensures
            r.is_cleared(),
    {
        UrlEncodedHandler {
            field_buffer: Vec::new(),
            fields: FieldMap::new(),
            finished: false,
            toggle: false,
            value_buffer: Vec::new(),
        }
    }

    /// Retrieve `field` from the collection of fields.
    pub fn field(&self, field: &str) -> (r: Option<&FieldValue>)
        ensures
            self.spec_fields().contains_key(field@) ==> r is Some && r->0@
                == self.spec_fields()[field@],
            !self.spec_fields().contains_key(field@) ==> r is None,
    {
        proof {
            use_type_invariant(self);
        }
        self.fields.field(field)
    }

    /// Retrieve the fields.
    pub fn fields(&self) -> (r: &FieldMap)
        ensures
            r@ == self.spec_fields(),
            r.wf(),
    {
        proof {
            use_type_invariant(self);
        }
        &self.fields
    }

    /// Flush the most recent field/value.
    fn flush(&mut self)
        ensures
            final(self).spec_fields() == flushed_fields(
                old(self).spec_fields(),
                old(self).spec_field_buffer(),
                old(self).spec_value_buffer(),
            ),
            final(self).spec_field_buffer().len() == 0,
            final(self).spec_value_buffer().len() == 0,
            final(self).spec_toggle() == old(self).spec_toggle(),
            final(self).spec_finished() == old(self).spec_finished(),
    {
        proof {
            use_type_invariant(&*self);
        }
        if !self.field_buffer.is_empty() {
            let mut fields = FieldMap::new();
            std::mem::swap(&mut fields, &mut self.fields);
            fields.push_slice(self.field_buffer.as_slice(), self.value_buffer.as_slice());
            self.fields = fields;
        }
        self.field_buffer = Vec::new();
        self.value_buffer = Vec::new();
    }

    /// Indicates that `field` exists within the collection of fields.
    pub fn has_field(&self, field: &str) -> (r: bool)
        ensures
            r == self.spec_fields().contains_key(field@),
    {
        proof {
            use_type_invariant(self);
        }
        self.fields.has_field(field)
    }

    /// Indicates that parsing has finished.
    pub fn is_finished(&self) -> (r: bool)
        ensures
            r == self.spec_finished(),
    {
        self.finished
    }

    /// Reset the handler back to its original state.
    pub fn reset(&mut self)
        ensures
            final(self).is_cleared(),
    {
        proof {
            use_type_invariant(&*self);
        }
        self.finished = false;
        self.toggle = false;
        self.field_buffer = Vec::new();
        self.fields = FieldMap::new();
        self.value_buffer = Vec::new();
    }
}

impl HttpHandler for UrlEncodedHandler {
    fn on_body_finished(&mut self) -> (r: bool)
        ensures
            r,
            final(self).spec_finished(),
            final(self).spec_fields() == flushed_fields(
                old(self).spec_fields(),
                old(self).spec_field_buffer(),
                old(self).spec_value_buffer(),
            ),
    {
        self.flush();
        proof {
            use_type_invariant(&*self);
        }
        self.finished = true;
        true
    }

    fn on_url_encoded_name(&mut self, name: &[u8]) -> (r: bool)
        ensures
            r,
            !final(self).spec_toggle(),
            old(self).spec_toggle() ==> final(self).spec_field_buffer() == name@
                && final(self).spec_fields() == flushed_fields(
                old(self).spec_fields(),
                old(self).spec_field_buffer(),
                old(self).spec_value_buffer(),
            ),
            !old(self).spec_toggle() ==> final(self).spec_field_buffer()
                == old(self).spec_field_buffer() + name@ && final(self).spec_fields()
                == old(self).spec_fields(),
    {
        proof {
            use_type_invariant(&*self);
        }
        if self.toggle {
            self.flush();
            proof {
                use_type_invariant(&*self);
            }
            self.toggle = false;
        }
        let mut buffer = Vec::new();
        std::mem::swap(&mut buffer, &mut self.field_buffer);
        buffer.extend_from_slice(name);
        self.field_buffer = buffer;
        true
    }

    fn on_url_encoded_value(&mut self, value: &[u8]) -> (r: bool)
        ensures
            r,
            final(self).spec_toggle(),
            final(self).spec_value_buffer() == old(self).spec_value_buffer() + value@,
            final(self).spec_field_buffer() == old(self).spec_field_buffer(),
            final(self).spec_fields() == old(self).spec_fields(),
    {
        proof {
            use_type_invariant(&*self);
        }
        let mut buffer = Vec::new();
        std::mem::swap(&mut buffer, &mut self.value_buffer);
        buffer.extend_from_slice(value);
        self.value_buffer = buffer;
        self.toggle = true;
        true
    }
}

impl Default for UrlEncodedHandler {
    /// The same as `UrlEncodedHandler::new()`.
    fn default() -> (r: UrlEncodedHandler)
        ensures
            r.is_cleared(),
    {
        UrlEncodedHandler::new()
    }
}

} // verus!
