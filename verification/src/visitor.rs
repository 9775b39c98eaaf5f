//! Picking the message out of the fields of an event.

use crate::record::text_of;
use crate::text::same_text;
use std::fmt::Debug;
use vstd::prelude::*;

verus! {

/// The name of the field that carries the message of an event.
pub open spec fn message_field() -> Seq<char> {
    "message"@
}

/// Collects the message of an event while its fields are visited. Fields of
/// any other name are passed over.
#[derive(Debug)]
pub struct TracingVisitor {
    message: Option<String>,
}

impl View for TracingVisitor {
    type V = Option<Seq<char>>;

    closed spec fn view(&self) -> Option<Seq<char>> {
        text_of(self.message)
    }
}

impl Default for TracingVisitor {
    fn default() -> (visitor: TracingVisitor)
        ensures
            visitor@ is None,
    {
        TracingVisitor { message: None }
    }
}

/// The `Debug` rendering of a value, as `format!("{:?}", value)` gives it.
/// What it holds is up to the value's own `Debug` impl, so nothing is claimed
/// of it.
#[verifier::external_body]
fn debug_text(value: &dyn Debug) -> (text: String) {
    format!("{:?}", value)
}

impl TracingVisitor {
    /// What the visitor holds after a field named `field_name` with the
    /// rendering `text` was visited while it held `held`.
    pub open spec fn after_field(
        held: Option<Seq<char>>,
        field_name: Seq<char>,
        text: Seq<char>,
    ) -> Option<Seq<char>> {
        if field_name == message_field() {
            Some(text)
        } else {
            held
        }
    }

    /// What the visitor holds after each of `fields`, given as pairs of name
    /// and rendering, was visited in turn while it held `held` at the start.
    pub open spec fn after_fields(
        held: Option<Seq<char>>,
        fields: Seq<(Seq<char>, Seq<char>)>,
    ) -> Option<Seq<char>>
        decreases fields.len(),
    {
        if fields.len() == 0 {
            held
        } else {
            Self::after_field(
                Self::after_fields(held, fields.drop_last()),
                fields.last().0,
                fields.last().1,
            )
        }
    }

    /// A visitor that starts empty ends up with the rendering of the last
    /// field that is named as the message field, and with nothing where the
    /// event has no such field.
    pub proof fn lemma_last_message_field_wins(fields: Seq<(Seq<char>, Seq<char>)>)
        ensures
            match Self::after_fields(None, fields) {
                Some(text) => exists|i: int|
                    {
                        &&& 0 <= i < fields.len()
                        &&& #[trigger] fields[i] == (message_field(), text)
                        &&& forall|j: int| i < j < fields.len() ==> (#[trigger] fields[j]).0
                            != message_field()
                    },
                None => forall|i: int|
                    0 <= i < fields.len() ==> (#[trigger] fields[i]).0 != message_field(),
            },
        decreases fields.len(),
    {
        if fields.len() > 0 {
            let earlier = fields.drop_last();
            Self::lemma_last_message_field_wins(earlier);
            let last = fields.last();
            if last.0 == message_field() {
                assert(fields[fields.len() - 1] == (message_field(), last.1));
            } else {
                match Self::after_fields(None, earlier) {
                    Some(text) => {
                        let i = choose|i: int|
                            {
                                &&& 0 <= i < earlier.len()
                                &&& #[trigger] earlier[i] == (message_field(), text)
                                &&& forall|j: int|
                                    i < j < earlier.len() ==> (#[trigger] earlier[j]).0
                                        != message_field()
                            };
                        assert(fields[i] == earlier[i]);
                        assert forall|j: int| i < j < fields.len() implies (#[trigger] fields[j]).0
                            != message_field() by {
                            if j < earlier.len() {
                                assert(fields[j] == earlier[j]);
                            }
                        }
                    },
                    None => {
                        assert forall|i: int| 0 <= i < fields.len() implies (#[trigger] fields[i]).0
                            != message_field() by {
                            if i < earlier.len() {
                                assert(fields[i] == earlier[i]);
                            }
                        }
                    },
                }
            }
        }
    }

    /// Whether a field of this name carries the message.
    pub fn is_message_field(field_name: &str) -> (is_message: bool)
        ensures
            is_message == (field_name@ == message_field()),
    {
        same_text(field_name, "message")
    }

    /// Visits a field whose value is already rendered as text. The message
    /// field replaces what was collected so far; any other field changes
    /// nothing.
    pub fn record_text(&mut self, field_name: &str, text: String)
        ensures
            final(self)@ == Self::after_field(old(self)@, field_name@, text@),
    {
        if Self::is_message_field(field_name) {
            self.message = Some(text);
        }
    }

    /// Visits a field. The value of the message field is kept in its `Debug`
    /// rendering; the value of any other field is not looked at.
    pub fn record_debug(&mut self, field_name: &str, value: &dyn Debug)
        ensures
            field_name@ == message_field() ==> final(self)@ is Some,
            field_name@ != message_field() ==> final(self)@ == old(self)@,
    {
        if Self::is_message_field(field_name) {
            self.record_text(field_name, debug_text(value));
        }
    }

    /// The message collected so far.
    pub fn message(&self) -> (message: Option<&String>)
        ensures
            match message {
                Some(text) => self@ == Some(text@),
                None => self@ is None,
            },
    {
        self.message.as_ref()
    }

    /// Gives up the visitor for the message it collected.
    pub fn into_message(self) -> (message: Option<String>)
        ensures
            text_of(message) == self@,
    {
        self.message
    }
}

} // verus!
