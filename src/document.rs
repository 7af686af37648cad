use vstd::prelude::*;
use vstd::string::StringExecFns;

use crate::error::ConfigError;

verus! {

/// A structured configuration document, as its reader sees it.
pub enum Doc {
    Text(Seq<char>),
    /// Key and value pairs, in document order.
    Table(Seq<(Doc, Doc)>),
    Null,
    /// Anything the configuration does not read: numbers, booleans, lists, dates.
    Other,
}

/// A parsed configuration document: strings, tables of keyed values, nulls,
/// and whatever else the configuration does not read.
#[derive(Debug)]
pub enum ConfigValue {
    Text(String),
    Table(Vec<(ConfigValue, ConfigValue)>),
    Null,
    Other,
}

impl ConfigValue {
    pub open spec fn doc(self) -> Doc
        decreases self,
    {
        match self {
            ConfigValue::Text(s) => Doc::Text(s@),
            ConfigValue::Table(es) => Doc::Table(
                Seq::new(
                    es@.len(),
                    |i: int|
                        if 0 <= i < es@.len() {
                            (es@[i].0.doc(), es@[i].1.doc())
                        } else {
                            (Doc::Other, Doc::Other)
                        },
                ),
            ),
            ConfigValue::Null => Doc::Null,
            ConfigValue::Other => Doc::Other,
        }
    }
}

#[verifier::external_type_specification]
#[verifier::external_body]
pub struct ExTomlValue(toml::Value);

#[verifier::external_type_specification]
#[verifier::external_body]
pub struct ExTomlError(toml::de::Error);

#[verifier::external_type_specification]
#[verifier::external_body]
pub struct ExYamlValue(serde_yaml::Value);

#[verifier::external_type_specification]
#[verifier::external_body]
pub struct ExYamlError(serde_yaml::Error);

/// What `toml::from_str` makes of a text, read as a document; `None` where it
/// rejects the text.
pub uninterp spec fn toml_text(s: Seq<char>) -> Option<Doc>;

/// What a `toml::Value` holds, read as a document.
pub uninterp spec fn toml_doc(v: toml::Value) -> Doc;

/// What `serde_yaml::from_str` makes of a text, read as a document; `None`
/// where it rejects the text.
pub uninterp spec fn yaml_text(s: Seq<char>) -> Option<Doc>;

/// What a `serde_yaml::Value` holds, read as a document.
pub uninterp spec fn yaml_doc(v: serde_yaml::Value) -> Doc;

/// One level of a TOML value.
pub enum TomlNode {
    Text(String),
    Table(Vec<(String, toml::Value)>),
    Other,
}

/// One level of a YAML value.
pub enum YamlNode {
    Text(String),
    Table(Vec<(serde_yaml::Value, serde_yaml::Value)>),
    Null,
    Other,
}

/// Relies on `toml::from_str` into a `toml::Table`: the table a TOML text holds,
/// or its parse error.
#[verifier::external_body]
fn parse_toml(s: &str) -> (r: Result<toml::Value, toml::de::Error>)
    ensures
        r is Ok <==> toml_text(s@) is Some,
        r matches Ok(v) ==> toml_text(s@) == Some(toml_doc(v)),
{
    toml::from_str::<toml::Table>(s).map(toml::Value::Table)
}

/// Relies on the variants of `toml::Value`: a string, a table with its entries
/// in the table's order, or another kind of value.
#[verifier::external_body]
fn toml_node(v: toml::Value) -> (r: TomlNode)
    ensures
        toml_doc(v) == match r {
            TomlNode::Text(s) => Doc::Text(s@),
            TomlNode::Table(es) => Doc::Table(
                es@.map_values(|e: (String, toml::Value)| (Doc::Text(e.0@), toml_doc(e.1))),
            ),
            TomlNode::Other => Doc::Other,
        },
{
    match v {
        toml::Value::String(s) => TomlNode::Text(s),
        toml::Value::Table(t) => TomlNode::Table(t.into_iter().collect()),
        toml::Value::Integer(_) => TomlNode::Other,
        toml::Value::Float(_) => TomlNode::Other,
        toml::Value::Boolean(_) => TomlNode::Other,
        toml::Value::Datetime(_) => TomlNode::Other,
        toml::Value::Array(_) => TomlNode::Other,
    }
}

/// Relies on `serde_yaml::from_str` into a `serde_yaml::Value`: the value a
/// YAML text holds, or its parse error.
#[verifier::external_body]
fn parse_yaml(s: &str) -> (r: Result<serde_yaml::Value, serde_yaml::Error>)
    ensures
        r is Ok <==> yaml_text(s@) is Some,
        r matches Ok(v) ==> yaml_text(s@) == Some(yaml_doc(v)),
{
    serde_yaml::from_str::<serde_yaml::Value>(s)
}

/// Relies on the variants of `serde_yaml::Value`: a string, a mapping with its
/// entries in the mapping's order, a null, or another kind of value.
#[verifier::external_body]
fn yaml_node(v: serde_yaml::Value) -> (r: YamlNode)
    ensures
        yaml_doc(v) == match r {
            YamlNode::Text(s) => Doc::Text(s@),
            YamlNode::Table(es) => Doc::Table(
                es@.map_values(
                    |e: (serde_yaml::Value, serde_yaml::Value)| (yaml_doc(e.0), yaml_doc(e.1)),
                ),
            ),
            YamlNode::Null => Doc::Null,
            YamlNode::Other => Doc::Other,
        },
{
    match v {
        serde_yaml::Value::String(s) => YamlNode::Text(s),
        serde_yaml::Value::Mapping(m) => YamlNode::Table(m.into_iter().collect()),
        serde_yaml::Value::Null => YamlNode::Null,
        serde_yaml::Value::Bool(_) => YamlNode::Other,
        serde_yaml::Value::Number(_) => YamlNode::Other,
        serde_yaml::Value::Sequence(_) => YamlNode::Other,
        serde_yaml::Value::Tagged(_) => YamlNode::Other,
    }
}

fn from_toml_value(v: toml::Value) -> (r: ConfigValue)
    ensures
        r.doc() == toml_doc(v),
    decreases toml_doc(v),
{
    let ghost d = toml_doc(v);
    match toml_node(v) {
        TomlNode::Text(s) => ConfigValue::Text(s),
        TomlNode::Other => ConfigValue::Other,
        TomlNode::Table(es) => {
            let ghost all = es@;
            let ghost kids = all.map_values(
                |e: (String, toml::Value)| (Doc::Text(e.0@), toml_doc(e.1)),
            );
            let n = es.len();
            let mut rest = es;
            let mut out: Vec<(ConfigValue, ConfigValue)> = Vec::new();
            let mut k: usize = 0;
            while rest.len() > 0
                invariant
                    d == toml_doc(v),
                    d == Doc::Table(kids),
                    all.len() == n,
                    kids == all.map_values(
                        |e: (String, toml::Value)| (Doc::Text(e.0@), toml_doc(e.1)),
                    ),
                    k + rest@.len() == all.len(),
                    rest@ == all.skip(k as int),
                    out@.len() == k,
                    forall|i: int|
                        0 <= i < k ==> (#[trigger] out@[i].0.doc(), out@[i].1.doc()) == kids[i],
                decreases rest@.len(),
            {
                let (key, value) = rest.remove(0);
                proof {
                    assert(all[k as int] == (key, value));
                    assert(kids[k as int] == (Doc::Text(key@), toml_doc(value)));
                    assert(decreases_to!(d => d->Table_0));
                    assert(decreases_to!(kids => kids[k as int]));
                    assert(decreases_to!(kids[k as int] => kids[k as int].1));
                    assert(decreases_to!(d => toml_doc(value)));
                }
                let item = from_toml_value(value);
                out.push((ConfigValue::Text(key), item));
                k = k + 1;
                proof {
                    assert(rest@ =~= all.skip(k as int));
                }
            }
            let ghost outs = out@;
            let r = ConfigValue::Table(out);
            proof {
                let t = r.doc()->Table_0;
                assert(t.len() == kids.len());
                assert forall|i: int| 0 <= i < t.len() implies t[i] == kids[i] by {
                    assert(t[i] == (outs[i].0.doc(), outs[i].1.doc()));
                }
                assert(t =~= kids);
            }
            r
        },
    }
}

fn from_yaml_value(v: serde_yaml::Value) -> (r: ConfigValue)
    ensures
        r.doc() == yaml_doc(v),
    decreases yaml_doc(v),
{
    let ghost d = yaml_doc(v);
    match yaml_node(v) {
        YamlNode::Text(s) => ConfigValue::Text(s),
        YamlNode::Null => ConfigValue::Null,
        YamlNode::Other => ConfigValue::Other,
        YamlNode::Table(es) => {
            let ghost all = es@;
            let ghost kids = all.map_values(
                |e: (serde_yaml::Value, serde_yaml::Value)| (yaml_doc(e.0), yaml_doc(e.1)),
            );
            let n = es.len();
            let mut rest = es;
            let mut out: Vec<(ConfigValue, ConfigValue)> = Vec::new();
            let mut k: usize = 0;
            while rest.len() > 0
                invariant
                    d == yaml_doc(v),
                    d == Doc::Table(kids),
                    all.len() == n,
                    kids == all.map_values(
                        |e: (serde_yaml::Value, serde_yaml::Value)| (yaml_doc(e.0), yaml_doc(e.1)),
                    ),
                    k + rest@.len() == all.len(),
                    rest@ == all.skip(k as int),
                    out@.len() == k,
                    forall|i: int|
                        0 <= i < k ==> (#[trigger] out@[i].0.doc(), out@[i].1.doc()) == kids[i],
                decreases rest@.len(),
            {
                let (key, value) = rest.remove(0);
                proof {
                    assert(all[k as int] == (key, value));
                    assert(kids[k as int] == (yaml_doc(key), yaml_doc(value)));
                    assert(decreases_to!(d => d->Table_0));
                    assert(decreases_to!(kids => kids[k as int]));
                    assert(decreases_to!(kids[k as int] => kids[k as int].0));
                    assert(decreases_to!(kids[k as int] => kids[k as int].1));
                    assert(decreases_to!(d => yaml_doc(key)));
                    assert(decreases_to!(d => yaml_doc(value)));
                }
                let key_item = from_yaml_value(key);
                let item = from_yaml_value(value);
                out.push((key_item, item));
                k = k + 1;
                proof {
                    assert(rest@ =~= all.skip(k as int));
                }
            }
            let ghost outs = out@;
            let r = ConfigValue::Table(out);
            proof {
                let t = r.doc()->Table_0;
                assert(t.len() == kids.len());
                assert forall|i: int| 0 <= i < t.len() implies t[i] == kids[i] by {
                    assert(t[i] == (outs[i].0.doc(), outs[i].1.doc()));
                }
                assert(t =~= kids);
            }
            r
        },
    }
}

/// The document a TOML text holds, or a parse error where the text is not TOML.
pub fn parse_toml_document(s: &str) -> (r: Result<ConfigValue, ConfigError>)
    ensures
        match r {
            Ok(v) => toml_text(s@) == Some(v.doc()),
            Err(e) => toml_text(s@) is None && e is ParseError,
        },
{
    match parse_toml(s) {
        Ok(v) => Ok(from_toml_value(v)),
        Err(_) => Err(ConfigError::ParseError(String::from_str("the configuration is not valid TOML"))),
    }
}

/// The document a YAML text holds, or a parse error where the text is not YAML.
pub fn parse_yaml_document(s: &str) -> (r: Result<ConfigValue, ConfigError>)
    ensures
        match r {
            Ok(v) => yaml_text(s@) == Some(v.doc()),
            Err(e) => yaml_text(s@) is None && e is ParseError,
        },
{
    match parse_yaml(s) {
        Ok(v) => Ok(from_yaml_value(v)),
        Err(_) => Err(ConfigError::ParseError(String::from_str("the configuration is not valid YAML"))),
    }
}

} // verus!
