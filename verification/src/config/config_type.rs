//! The formats a configuration can be written in.
use crate::common::text::text_eq;
use vstd::prelude::*;
use vstd::string::*;

verus! {

/// The format of a configuration's content.
#[derive(Clone, Copy, Debug, PartialEq, Eq, Structural)]
pub enum ConfigType {
    Text,
    Json,
    Xml,
    Yaml,
    Html,
    Properties,
    Toml,
}

impl ConfigType {
    /// The format that `v` names; a name that is not known stands for
    /// plain text.
    pub open spec fn by_value(v: Seq<char>) -> ConfigType {
        if v == "json"@ {
            ConfigType::Json
        } else if v == "xml"@ {
            ConfigType::Xml
        } else if v == "yaml"@ {
            ConfigType::Yaml
        } else if v == "html"@ {
            ConfigType::Html
        } else if v == "properties"@ {
            ConfigType::Properties
        } else if v == "toml"@ {
            ConfigType::Toml
        } else {
            ConfigType::Text
        }
    }

    /// The name of the format.
    pub open spec fn value(self) -> Seq<char> {
        match self {
            ConfigType::Text => "text"@,
            ConfigType::Json => "json"@,
            ConfigType::Xml => "xml"@,
            ConfigType::Yaml => "yaml"@,
            ConfigType::Html => "html"@,
            ConfigType::Properties => "properties"@,
            ConfigType::Toml => "toml"@,
        }
    }

    /// The format that `v` names.
    pub fn new_by_value(v: &str) -> (kind: Self)
        ensures
            kind == ConfigType::by_value(v@),
    {
        if text_eq(v, "json") {
            ConfigType::Json
        } else if text_eq(v, "xml") {
            ConfigType::Xml
        } else if text_eq(v, "yaml") {
            ConfigType::Yaml
        } else if text_eq(v, "html") {
            ConfigType::Html
        } else if text_eq(v, "properties") {
            ConfigType::Properties
        } else if text_eq(v, "toml") {
            ConfigType::Toml
        } else {
            ConfigType::Text
        }
    }

    /// The name of the format.
    pub fn get_value(&self) -> (name: String)
        ensures
            name@ == self.value(),
    {
        match self {
            ConfigType::Text => "text".to_owned(),
            ConfigType::Json => "json".to_owned(),
            ConfigType::Xml => "xml".to_owned(),
            ConfigType::Yaml => "yaml".to_owned(),
            ConfigType::Html => "html".to_owned(),
            ConfigType::Properties => "properties".to_owned(),
            ConfigType::Toml => "toml".to_owned(),
        }
    }
}

} // verus!
