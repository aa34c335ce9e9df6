//! The names by which sessions, modes, models and configuration options are known.
use vstd::prelude::*;

use crate::text::same_text;

verus! {

/// The id of an ACP session.
#[derive(Debug, PartialEq, Eq, Hash)]
pub struct SessionId {
    text: String,
}

impl View for SessionId {
    type V = Seq<char>;

    closed spec fn view(&self) -> Seq<char> {
        self.text@
    }
}

impl SessionId {
    pub fn new(text: &str) -> (r: Self)
        ensures
            r@ == text@,
    {
        SessionId { text: text.to_owned() }
    }

    pub fn as_str(&self) -> (r: &str)
        ensures
            r@ == self@,
    {
        self.text.as_str()
    }

    /// Whether both are the same name.
    pub fn same_as(&self, other: &SessionId) -> (r: bool)
        ensures
            r == (self@ == other@),
    {
        same_text(self.text.as_str(), other.text.as_str())
    }
}

impl Clone for SessionId {
    fn clone(&self) -> (r: Self)
        ensures
            r@ == self@,
    {
        SessionId { text: self.text.clone() }
    }
}

/// The id of a session mode.
#[derive(Debug, PartialEq, Eq, Hash)]
pub struct ModeId {
    text: String,
}

impl View for ModeId {
    type V = Seq<char>;

    closed spec fn view(&self) -> Seq<char> {
        self.text@
    }
}

impl ModeId {
    pub fn new(text: &str) -> (r: Self)
        ensures
            r@ == text@,
    {
        ModeId { text: text.to_owned() }
    }

    pub fn as_str(&self) -> (r: &str)
        ensures
            r@ == self@,
    {
        self.text.as_str()
    }

    /// Whether both are the same name.
    pub fn same_as(&self, other: &ModeId) -> (r: bool)
        ensures
            r == (self@ == other@),
    {
        same_text(self.text.as_str(), other.text.as_str())
    }
}

impl Clone for ModeId {
    fn clone(&self) -> (r: Self)
        ensures
            r@ == self@,
    {
        ModeId { text: self.text.clone() }
    }
}

/// The id of a model.
#[derive(Debug, PartialEq, Eq, Hash)]
pub struct ModelId {
    text: String,
}

impl View for ModelId {
    type V = Seq<char>;

    closed spec fn view(&self) -> Seq<char> {
        self.text@
    }
}

impl ModelId {
    pub fn new(text: &str) -> (r: Self)
        ensures
            r@ == text@,
    {
        ModelId { text: text.to_owned() }
    }

    pub fn as_str(&self) -> (r: &str)
        ensures
            r@ == self@,
    {
        self.text.as_str()
    }

    /// Whether both are the same name.
    pub fn same_as(&self, other: &ModelId) -> (r: bool)
        ensures
            r == (self@ == other@),
    {
        same_text(self.text.as_str(), other.text.as_str())
    }
}

impl Clone for ModelId {
    fn clone(&self) -> (r: Self)
        ensures
            r@ == self@,
    {
        ModelId { text: self.text.clone() }
    }
}

/// The id of a configuration option.
#[derive(Debug, PartialEq, Eq, Hash)]
pub struct ConfigKey {
    text: String,
}

impl View for ConfigKey {
    type V = Seq<char>;

    closed spec fn view(&self) -> Seq<char> {
        self.text@
    }
}

impl ConfigKey {
    pub fn new(text: &str) -> (r: Self)
        ensures
            r@ == text@,
    {
        ConfigKey { text: text.to_owned() }
    }

    pub fn as_str(&self) -> (r: &str)
        ensures
            r@ == self@,
    {
        self.text.as_str()
    }

    /// Whether both are the same name.
    pub fn same_as(&self, other: &ConfigKey) -> (r: bool)
        ensures
            r == (self@ == other@),
    {
        same_text(self.text.as_str(), other.text.as_str())
    }
}

impl Clone for ConfigKey {
    fn clone(&self) -> (r: Self)
        ensures
            r@ == self@,
    {
        ConfigKey { text: self.text.clone() }
    }
}

/// The value of a configuration option.
#[derive(Debug, PartialEq, Eq, Hash)]
pub struct ConfigValue {
    text: String,
}

impl View for ConfigValue {
    type V = Seq<char>;

    closed spec fn view(&self) -> Seq<char> {
        self.text@
    }
}

impl ConfigValue {
    pub fn new(text: &str) -> (r: Self)
        ensures
            r@ == text@,
    {
        ConfigValue { text: text.to_owned() }
    }

    pub fn as_str(&self) -> (r: &str)
        ensures
            r@ == self@,
    {
        self.text.as_str()
    }

    /// Whether both are the same name.
    pub fn same_as(&self, other: &ConfigValue) -> (r: bool)
        ensures
            r == (self@ == other@),
    {
        same_text(self.text.as_str(), other.text.as_str())
    }
}

impl Clone for ConfigValue {
    fn clone(&self) -> (r: Self)
        ensures
            r@ == self@,
    {
        ConfigValue { text: self.text.clone() }
    }
}

} // verus!
