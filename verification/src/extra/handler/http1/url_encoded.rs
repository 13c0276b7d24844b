//! HTTP 1.x handler implementation for processing URL encoded data into parameters, keeping only
//! the names and values that are valid UTF-8.

use crate::field::{FieldMap, FieldValue};
use crate::handler::http1::multipart::flushed_parameters;
use crate::http1::HttpHandler;
use crate::util::string_from_utf8;
use vstd::prelude::*;

verus! {

/// `UrlEncodedHandler` is a suitable handler for URL encoded parsing: it collects the decoded
/// parameters, each with its values in order, and drops a pair whose name or value is not valid
/// UTF-8.
pub struct UrlEncodedHandler {
    /// Field buffer.
    field_buffer: Vec<u8>,
    /// Indicates that parsing has finished.
    finished: bool,
    /// Parameters.
    parameters: FieldMap,
    /// Field/value toggle: set once a value has been given.
    toggle: bool,
    /// Value buffer.
    value_buffer: Vec<u8>,
}

impl UrlEncodedHandler {
    /// The parameters stay well-formed.
    #[verifier::type_invariant]
    spec fn parameters_wf(&self) -> bool {
        self.parameters.wf()
    }

    /// The parameters, by name.
    pub closed spec fn spec_parameters(&self) -> Map<Seq<char>, Seq<Seq<char>>> {
        self.parameters@
    }

    /// The name collected for the parameter being parsed.
    pub closed spec fn spec_field_buffer(&self) -> Seq<u8> {
        self.field_buffer@
    }

    /// The value collected for the parameter being parsed.
    pub closed spec fn spec_value_buffer(&self) -> Seq<u8> {
        self.value_buffer@
    }

    /// Indicates that a value has been given for the parameter being parsed.
    pub closed spec fn spec_toggle(&self) -> bool {
        self.toggle
    }

    /// Indicates that parsing has finished.
    pub closed spec fn spec_finished(&self) -> bool {
        self.finished
    }

    /// Nothing has been collected.
    pub open spec fn is_cleared(&self) -> bool {
        &&& self.spec_parameters() == Map::<Seq<char>, Seq<Seq<char>>>::empty()
        &&& self.spec_field_buffer().len() == 0
        &&& self.spec_value_buffer().len() == 0
        &&& !self.spec_toggle()
        &&& !self.spec_finished()
    }

    /// Create a new `UrlEncodedHandler`.
    pub fn new() -> (r: UrlEncodedHandler)
        ensures
            r.is_cleared(),
    {
        UrlEncodedHandler {
            field_buffer: Vec::new(),
            finished: false,
            parameters: FieldMap::new(),
            toggle: false,
            value_buffer: Vec::new(),
        }
    }

    /// Flush the most recent parameter name/value.
    fn flush(&mut self)
        ensures
            final(self).spec_parameters() == flushed_parameters(
                old(self).spec_parameters(),
                true,
                old(self).spec_field_buffer(),
                old(self).spec_value_buffer(),
            ),
            final(self).spec_field_buffer().len() == 0,
            final(self).spec_value_buffer().len() == 0,
            final(self).spec_toggle() == old(self).spec_toggle(),
            final(self).spec_finished() == old(self).spec_finished(),
    {
        proof {
            use_type_invariant(&*self);
        }
        if !self.field_buffer.is_empty() {
            let name = string_from_utf8(self.field_buffer.as_slice());
            let value = string_from_utf8(self.value_buffer.as_slice());
            match (name, value) {
                (Some(name), Some(value)) => {
                    let mut parameters = FieldMap::new();
                    std::mem::swap(&mut parameters, &mut self.parameters);
                    parameters.push(name, value);
                    self.parameters = parameters;
                },
                _ => {},
            }
        }
        self.field_buffer = Vec::new();
        self.value_buffer = Vec::new();
    }

    /// Indicates that `parameter` exists within the collection of parameters.
    pub fn has_parameter(&self, parameter: &str) -> (r: bool)
        ensures
            r == self.spec_parameters().contains_key(parameter@),
    {
        proof {
            use_type_invariant(self);
        }
        self.parameters.has_field(parameter)
    }

    /// Indicates that parsing has finished.
    pub fn is_finished(&self) -> (r: bool)
        ensures
            r == self.spec_finished(),
    {
        self.finished
    }

    /// Retrieve `parameter` from the collection of parameters.
    pub fn parameter(&self, parameter: &str) -> (r: Option<&FieldValue>)
        ensures
            self.spec_parameters().contains_key(parameter@) ==> r is Some && r->0@
                == self.spec_parameters()[parameter@],
            !self.spec_parameters().contains_key(parameter@) ==> r is None,
    {
        proof {
            use_type_invariant(self);
        }
        self.parameters.field(parameter)
    }

    /// Retrieve the parameters.
    pub fn parameters(&self) -> (r: &FieldMap)
        ensures
            r@ == self.spec_parameters(),
            r.wf(),
    {
        proof {
            use_type_invariant(self);
        }
        &self.parameters
    }

    /// Reset the handler to its original state.
    pub fn reset(&mut self)
        ensures
            final(self).is_cleared(),
    {
        proof {
            use_type_invariant(&*self);
        }
        self.finished = false;
        self.toggle = false;
        self.field_buffer = Vec::new();
        self.parameters = FieldMap::new();
        self.value_buffer = Vec::new();
    }
}

impl HttpHandler for UrlEncodedHandler {
    fn on_body_finished(&mut self) -> (r: bool)
        ensures
            r,
            final(self).spec_finished(),
            final(self).spec_parameters() == flushed_parameters(
                old(self).spec_parameters(),
                true,
                old(self).spec_field_buffer(),
                old(self).spec_value_buffer(),
            ),
    {
        self.flush();
        proof {
            use_type_invariant(&*self);
        }
        self.finished = true;
        true
    }

    fn on_url_encoded_name(&mut self, name: &[u8]) -> (r: bool)
        ensures
            r,
            !final(self).spec_toggle(),
            old(self).spec_toggle() ==> final(self).spec_field_buffer() == name@
                && final(self).spec_parameters() == flushed_parameters(
                old(self).spec_parameters(),
                true,
                old(self).spec_field_buffer(),
                old(self).spec_value_buffer(),
            ),
            !old(self).spec_toggle() ==> final(self).spec_field_buffer()
                == old(self).spec_field_buffer() + name@ && final(self).spec_parameters()
                == old(self).spec_parameters(),
    {
        proof {
            use_type_invariant(&*self);
        }
        if self.toggle {
            self.flush();
            proof {
                use_type_invariant(&*self);
            }
            self.toggle = false;
        }
        let mut buffer = Vec::new();
        std::mem::swap(&mut buffer, &mut self.field_buffer);
        buffer.extend_from_slice(name);
        self.field_buffer = buffer;
        true
    }

    fn on_url_encoded_value(&mut self, value: &[u8]) -> (r: bool)
        ensures
            r,
            final(self).spec_toggle(),
            final(self).spec_value_buffer() == old(self).spec_value_buffer() + value@,
            final(self).spec_field_buffer() == old(self).spec_field_buffer(),
            final(self).spec_parameters() == old(self).spec_parameters(),
    {
        proof {
            use_type_invariant(&*self);
        }
        let mut buffer = Vec::new();
        std::mem::swap(&mut buffer, &mut self.value_buffer);
        buffer.extend_from_slice(value);
        self.value_buffer = buffer;
        self.toggle = true;
        true
    }
}

impl Default for UrlEncodedHandler {
    /// The same as `UrlEncodedHandler::new()`.
    fn default() -> (r: UrlEncodedHandler)
        ensures
            r.is_cleared(),
    {
        UrlEncodedHandler::new()
    }
}

} // verus!
