//! State values and the global state slot.
//!
//! A state value is held in its portable form: the name of the type it belongs
//! to and the JSON document that carries its fields. What turns such a
//! document into live interface state is not this crate's business.

use crate::json::{is_json, json_valid};
use vstd::prelude::*;

verus! {

/// The sentinel that stands for an absent global state in a frozen snapshot.
pub open spec fn none_sentinel() -> Seq<char> {
    "None"@
}

/// What a state value is: the name of its type and its document.
pub struct StateView {
    pub kind: Seq<char>,
    pub document: Seq<char>,
}

/// One state value: a type name and a serialized document.
#[derive(Debug, PartialEq, Eq)]
pub struct StateValue {
    pub kind: String,
    pub document: String,
}

impl View for StateValue {
    type V = StateView;

    open spec fn view(&self) -> StateView {
        StateView { kind: self.kind@, document: self.document@ }
    }
}

impl DeepView for StateValue {
    type V = StateView;

    open spec fn deep_view(&self) -> StateView {
        self@
    }
}

impl Clone for StateValue {
    fn clone(&self) -> (r: Self)
        ensures
            r@ == self@,
    {
        StateValue { kind: self.kind.clone(), document: self.document.clone() }
    }
}

/// What decoding `document` at the type `kind` gives: the value with that
/// document where it is well-formed JSON, and nothing otherwise.
pub open spec fn decode_state(kind: Seq<char>, document: Seq<char>) -> Option<StateView> {
    if json_valid(document) {
        Some(StateView { kind, document })
    } else {
        None
    }
}

impl StateValue {
    /// Pairs a type name with a document, which is taken as it is.
    pub fn new(kind: &str, document: &str) -> (r: Self)
        ensures
            r@ == (StateView { kind: kind@, document: document@ }),
    {
        StateValue { kind: kind.to_owned(), document: document.to_owned() }
    }

    /// Decodes a serialized document at the type `kind`. The document is
    /// accepted exactly when it is well-formed JSON.
    pub fn decode(kind: &str, document: &str) -> (r: Option<Self>)
        ensures
            r.deep_view() == decode_state(kind@, document@),
    {
        if is_json(document) {
            Some(StateValue::new(kind, document))
        } else {
            None
        }
    }

    /// Whether this value belongs to the type `kind`.
    pub fn is_kind(&self, kind: &str) -> (r: bool)
        ensures
            r == (self@.kind == kind@),
    {
        let wanted: String = kind.to_owned();
        self.kind == wanted
    }

    /// The serialized form of this value: its document.
    pub fn freeze(&self) -> (r: String)
        ensures
            r@ == self@.document,
    {
        self.document.clone()
    }
}

/// What a read of the global slot at the type `kind` gives.
pub open spec fn typed(slot: Option<StateView>, kind: Seq<char>) -> Option<StateView> {
    match slot {
        Some(value) if value.kind == kind => Some(value),
        _ => None,
    }
}

/// The serialized form of the global slot: the value's document, or the
/// sentinel where the slot is empty.
pub open spec fn frozen_global(slot: Option<StateView>) -> Seq<char> {
    match slot {
        Some(value) => value.document,
        None => none_sentinel(),
    }
}

/// The single slot for state shared by all pages. It holds one value or none.
#[derive(Debug)]
pub struct GlobalState {
    pub value: Option<StateValue>,
}

impl View for GlobalState {
    type V = Option<StateView>;

    open spec fn view(&self) -> Option<StateView> {
        self.value.deep_view()
    }
}

impl GlobalState {
    /// The empty slot.
    pub fn new() -> (r: Self)
        ensures
            r@ is None,
    {
        GlobalState { value: None }
    }

    /// A copy of the current value, provided that it belongs to the type `kind`.
    pub fn get(&self, kind: &str) -> (r: Option<StateValue>)
        ensures
            r.deep_view() == typed(self@, kind@),
    {
        match &self.value {
            Some(value) => {
                if value.is_kind(kind) {
                    Some(value.clone())
                } else {
                    None
                }
            },
            None => None,
        }
    }

    /// Replaces the current value, whatever it was.
    pub fn set(&mut self, value: StateValue)
        ensures
            final(self)@ == Some(value@),
    {
        self.value = Some(value);
    }

    /// The serialized form of the slot.
    pub fn freeze(&self) -> (r: String)
        ensures
            r@ == frozen_global(self@),
    {
        match &self.value {
            Some(value) => value.freeze(),
            None => "None".to_owned(),
        }
    }
}

} // verus!
