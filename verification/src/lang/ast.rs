//! The syntax tree of the language.

use vstd::prelude::*;

verus! {

/// A place in a source text: a line and a column, both counted from 1.
#[derive(Clone, Copy, Debug, PartialEq, Eq, Structural)]
pub struct TextPos {
    pub line: usize,
    pub col: usize,
}

/// The stretch of source text that a node was read from, if it was read from any.
#[derive(Clone, Copy, Debug, PartialEq, Eq, Structural)]
pub enum TextRange {
    /// The node was not read from a source text.
    Absent,
    /// The node was read from the characters from `start` to `end`, both of them included.
    Range { start: TextPos, end: TextPos },
}

impl TextPos {
    /// The place at column `col` of line `line`.
    pub fn new(line: usize, col: usize) -> (r: TextPos)
        ensures
            r == (TextPos { line, col }),
    {
        TextPos { line, col }
    }
}

impl TextRange {
    /// The stretch from `start` to `end`.
    pub fn new(start: TextPos, end: TextPos) -> (r: TextRange)
        ensures
            r == (TextRange::Range { start, end }),
    {
        TextRange::Range { start, end }
    }
}

/// A whole configuration: the root of the tree.
#[derive(Debug)]
pub struct Config {
    /// The settings of the proxy, area by area.
    pub config: Vec<SettingsArea>,
    /// The rules of the proxy, area by area.
    pub patterns: Vec<RulesArea>,
    /// The stretch of the whole configuration.
    pub range: TextRange,
}

/// One area of settings.
#[derive(Debug)]
pub struct SettingsArea {
    /// The settings of the area.
    pub settings: Vec<Setting>,
    /// The stretch of the area.
    pub range: TextRange,
}

/// One setting: a key with its value.
#[derive(Debug)]
pub struct Setting {
    /// The key.
    pub key: SettingKey,
    /// The value.
    pub value: SettingValue,
    /// The stretch of the setting.
    pub range: TextRange,
}

/// The key of a setting.
#[derive(Clone, Debug)]
pub struct SettingKey {
    /// The name of the key.
    pub value: String,
    /// The stretch of the key.
    pub range: TextRange,
}

/// The value of a setting.
#[derive(Debug)]
pub enum SettingValue {
    /// A string.
    String(String, TextRange),
    /// A number that is not negative.
    UInt(u64, TextRange),
    /// A number.
    SInt(i64, TextRange),
    /// A boolean.
    Bool(bool, TextRange),
    /// A list of values.
    List(Vec<SettingValue>, TextRange),
    /// A set of settings of its own.
    Dict(Vec<Setting>, TextRange),
}

/// One area of rules.
#[derive(Clone, Debug)]
pub struct RulesArea {
    /// The rules of the area.
    pub rules: Vec<Rule>,
    /// The stretch of the area.
    pub range: TextRange,
}

/// One rule: what it matches, and what is done with what it matches.
#[derive(Clone, Debug)]
pub struct Rule {
    /// What the rule matches.
    pub lhs: Pattern,
    /// What is done with what it matches.
    pub rhs: Action,
    /// The stretch of the rule.
    pub range: TextRange,
}

/// What a rule matches, or what it rewrites to.
#[derive(Clone, Debug)]
pub struct Pattern {
    /// The protocol: what stands before `://`.
    pub protocol: Protocol,
    /// The endpoint: what stands behind `://` and before a port or a path.
    pub base: Endpoint,
    /// The path: what stands behind the endpoint or the port.
    pub path: Path,
    /// The port.
    pub port: Port,
    /// The stretch of the pattern.
    pub range: TextRange,
}

/// The protocol of a pattern.
#[derive(Clone, Debug)]
pub enum Protocol {
    /// This one.
    Specific(String, TextRange),
    /// Any.
    Wildcard,
}

/// The endpoint of a pattern.
#[derive(Clone, Debug)]
pub enum Endpoint {
    /// This one.
    Specific(String, TextRange),
    /// Any.
    Wildcard,
}

/// The path of a pattern.
#[derive(Clone, Debug)]
pub enum Path {
    /// This one, element by element.
    Specific(Vec<String>, TextRange),
    /// Any.
    Wildcard,
}

/// The port of a pattern.
#[derive(Clone, Copy, Debug)]
pub enum Port {
    /// This one.
    Specific(u16, TextRange),
    /// Any.
    Wildcard,
}

/// What is done with a request that a rule matches.
#[derive(Clone, Debug)]
pub enum Action {
    /// It is passed on as it came.
    Accept(TextRange),
    /// It is rewritten to this pattern.
    Rewrite(Pattern),
    /// It is dropped with this HTTP status code, and with this message if there is one.
    Drop(u16, Option<String>, TextRange),
}

impl Config {
    /// The stretch of source text that the configuration was read from.
    pub fn range(&self) -> (r: TextRange)
        ensures
            r == self.range,
    {
        self.range
    }
}

impl SettingsArea {
    /// The stretch of source text that the area was read from.
    pub fn range(&self) -> (r: TextRange)
        ensures
            r == self.range,
    {
        self.range
    }
}

impl Setting {
    /// The stretch of source text that the setting was read from.
    pub fn range(&self) -> (r: TextRange)
        ensures
            r == self.range,
    {
        self.range
    }
}

impl SettingKey {
    /// The stretch of source text that the key was read from.
    pub fn range(&self) -> (r: TextRange)
        ensures
            r == self.range,
    {
        self.range
    }
}

impl SettingValue {
    /// The stretch of the value, whatever kind of value it is.
    pub open spec fn range_of(&self) -> TextRange {
        match *self {
            SettingValue::String(_, range) => range,
            SettingValue::UInt(_, range) => range,
            SettingValue::SInt(_, range) => range,
            SettingValue::Bool(_, range) => range,
            SettingValue::List(_, range) => range,
            SettingValue::Dict(_, range) => range,
        }
    }

    /// The stretch of source text that the value was read from.
    pub fn range(&self) -> (r: TextRange)
        ensures
            r == self.range_of(),
    {
        match self {
            SettingValue::String(_, range) => *range,
            SettingValue::UInt(_, range) => *range,
            SettingValue::SInt(_, range) => *range,
            SettingValue::Bool(_, range) => *range,
            SettingValue::List(_, range) => *range,
            SettingValue::Dict(_, range) => *range,
        }
    }
}

impl RulesArea {
    /// The stretch of source text that the area was read from.
    pub fn range(&self) -> (r: TextRange)
        ensures
            r == self.range,
    {
        self.range
    }
}

impl Rule {
    /// The stretch of source text that the rule was read from.
    pub fn range(&self) -> (r: TextRange)
        ensures
            r == self.range,
    {
        self.range
    }
}

impl Pattern {
    /// The stretch of source text that the pattern was read from.
    pub fn range(&self) -> (r: TextRange)
        ensures
            r == self.range,
    {
        self.range
    }
}

impl Protocol {
    /// The stretch of source text that the protocol was read from: none for a wildcard.
    pub fn range(&self) -> (r: TextRange)
        ensures
            r == match *self {
                Protocol::Specific(_, range) => range,
                Protocol::Wildcard => TextRange::Absent,
            },
    {
        match self {
            Protocol::Specific(_, range) => *range,
            Protocol::Wildcard => TextRange::Absent,
        }
    }
}

impl Endpoint {
    /// The stretch of source text that the endpoint was read from: none for a wildcard.
    pub fn range(&self) -> (r: TextRange)
        ensures
            r == match *self {
                Endpoint::Specific(_, range) => range,
                Endpoint::Wildcard => TextRange::Absent,
            },
    {
        match self {
            Endpoint::Specific(_, range) => *range,
            Endpoint::Wildcard => TextRange::Absent,
        }
    }
}

impl Path {
    /// The stretch of source text that the path was read from: none for a wildcard.
    pub fn range(&self) -> (r: TextRange)
        ensures
            r == match *self {
                Path::Specific(_, range) => range,
                Path::Wildcard => TextRange::Absent,
            },
    {
        match self {
            Path::Specific(_, range) => *range,
            Path::Wildcard => TextRange::Absent,
        }
    }
}

impl Port {
    /// The stretch of source text that the port was read from: none for a wildcard.
    pub fn range(&self) -> (r: TextRange)
        ensures
            r == match *self {
                Port::Specific(_, range) => range,
                Port::Wildcard => TextRange::Absent,
            },
    {
        match self {
            Port::Specific(_, range) => *range,
            Port::Wildcard => TextRange::Absent,
        }
    }
}

impl Action {
    /// The stretch of the action: for a rewrite, that of its pattern.
    pub open spec fn range_of(&self) -> TextRange {
        match *self {
            Action::Accept(range) => range,
            Action::Rewrite(pattern) => pattern.range,
            Action::Drop(_, _, range) => range,
        }
    }

    /// The stretch of source text that the action was read from.
    pub fn range(&self) -> (r: TextRange)
        ensures
            r == self.range_of(),
    {
        match self {
            Action::Accept(range) => *range,
            Action::Rewrite(pattern) => pattern.range(),
            Action::Drop(_, _, range) => *range,
        }
    }
}

} // verus!
