//! The rule set: glob patterns with the commands to run on what they match.

use crate::json::{field_of, json_document, JsonValue};
use crate::matcher::{pattern_is_valid, PathMatcher};
use vstd::prelude::*;

verus! {

/// A rule as the contracts read it.
pub struct Rule {
    pub pattern: Seq<char>,
    pub commands: Seq<Seq<char>>,
}

/// Why no rule set could be had, as the contracts read it.
pub enum Fault {
    NotFound,
    Parse,
    InvalidPattern(Seq<char>),
}

/// Why no rule set could be had.
#[derive(Debug, Clone, PartialEq, Eq)]
pub enum ConfigError {
    /// No source holds a configuration.
    NotFound,
    /// A source is no JSON document, or the value is no mapping from patterns
    /// to a command or a list of commands.
    Parse,
    /// The pattern held here does not compile.
    InvalidPattern(String),
}

impl View for ConfigError {
    type V = Fault;

    open spec fn view(&self) -> Fault {
        match self {
            ConfigError::NotFound => Fault::NotFound,
            ConfigError::Parse => Fault::Parse,
            ConfigError::InvalidPattern(pattern) => Fault::InvalidPattern(pattern@),
        }
    }
}

/// One rule: a compiled pattern and its commands in the order of declaration.
#[derive(Debug)]
pub struct RslintStagedConfigItem {
    pub path_matcher: PathMatcher,
    pub commands: Vec<String>,
}

impl View for RslintStagedConfigItem {
    type V = Rule;

    open spec fn view(&self) -> Rule {
        Rule { pattern: self.path_matcher.pattern_text(), commands: self.commands.deep_view() }
    }
}

/// The rules in the order of the configuration. Equal patterns make separate
/// rules.
#[derive(Debug)]
pub struct RslintStagedConfig {
    pub items: Vec<RslintStagedConfigItem>,
}

impl View for RslintStagedConfig {
    type V = Seq<Rule>;

    open spec fn view(&self) -> Seq<Rule> {
        rules_of(self.items@)
    }
}

/// The rules that `items` stand for.
pub open spec fn rules_of(items: Seq<RslintStagedConfigItem>) -> Seq<Rule> {
    Seq::new(items.len(), |i: int| items[i]@)
}

/// Whether every value of `items` is a text.
pub open spec fn all_text(items: Seq<JsonValue>) -> bool {
    forall|i: int| 0 <= i < items.len() ==> #[trigger] items[i] is Text
}

/// The texts that `items` hold.
pub open spec fn texts(items: Seq<JsonValue>) -> Seq<Seq<char>> {
    Seq::new(items.len(), |i: int| items[i]->Text_0@)
}

/// The commands that the value of an entry declares: one for a text, those of
/// a list of texts in their order, none for any other value.
pub open spec fn commands_of(value: JsonValue) -> Option<Seq<Seq<char>>> {
    match value {
        JsonValue::Text(command) => Some(seq![command@]),
        JsonValue::List(items) => if all_text(items@) {
            Some(texts(items@))
        } else {
            None
        },
        _ => None,
    }
}

/// The rule that one entry stands for. A pattern that does not compile is
/// reported before a value of the wrong shape.
pub open spec fn entry_rule(entry: (String, JsonValue)) -> Result<Rule, Fault> {
    if !pattern_is_valid(entry.0@) {
        Err(Fault::InvalidPattern(entry.0@))
    } else {
        match commands_of(entry.1) {
            Some(commands) => Ok(Rule { pattern: entry.0@, commands }),
            None => Err(Fault::Parse),
        }
    }
}

/// The rules of the entries, one for each entry and in their order, or the
/// fault of the first entry that has one.
pub open spec fn entries_rules(entries: Seq<(String, JsonValue)>) -> Result<Seq<Rule>, Fault>
    decreases entries.len(),
{
    if entries.len() == 0 {
        Ok(Seq::empty())
    } else {
        match entries_rules(entries.drop_last()) {
            Err(fault) => Err(fault),
            Ok(rules) => match entry_rule(entries.last()) {
                Ok(rule) => Ok(rules.push(rule)),
                Err(fault) => Err(fault),
            },
        }
    }
}

/// The rule set that a raw value stands for.
pub open spec fn normalized(value: JsonValue) -> Result<Seq<Rule>, Fault> {
    match value {
        JsonValue::Object(entries) => entries_rules(entries@),
        _ => Err(Fault::Parse),
    }
}

/// A fault among the first entries is the fault of the whole.
pub proof fn lemma_fault_stays(entries: Seq<(String, JsonValue)>, n: int)
    requires
        0 <= n <= entries.len(),
        entries_rules(entries.take(n)) is Err,
    ensures
        entries_rules(entries) == entries_rules(entries.take(n)),
    decreases entries.len(),
{
    if n == entries.len() {
        assert(entries.take(n) =~= entries);
    } else {
        assert(entries.drop_last().take(n) =~= entries.take(n));
        lemma_fault_stays(entries.drop_last(), n);
    }
}

/// A rule set is had exactly when every entry stands for a rule, and then it
/// holds the rule of each entry at the place of the entry.
pub proof fn lemma_rules_follow_entries(entries: Seq<(String, JsonValue)>)
    ensures
        entries_rules(entries) is Ok <==> forall|i: int|
            0 <= i < entries.len() ==> #[trigger] entry_rule(entries[i]) is Ok,
        entries_rules(entries) matches Ok(rules) ==> rules.len() == entries.len() && forall|i: int|
            0 <= i < entries.len() ==> entry_rule(entries[i]) == Ok::<Rule, Fault>(
                #[trigger] rules[i],
            ),
    decreases entries.len(),
{
    if entries.len() > 0 {
        let front = entries.drop_last();
        lemma_rules_follow_entries(front);
        if entries_rules(entries) is Ok {
            assert forall|i: int| 0 <= i < entries.len() implies #[trigger] entry_rule(
                entries[i],
            ) is Ok by {
                if i < front.len() {
                    assert(entry_rule(front[i]) is Ok);
                }
            }
        }
        if forall|i: int| 0 <= i < entries.len() ==> #[trigger] entry_rule(entries[i]) is Ok {
            assert forall|i: int| 0 <= i < front.len() implies #[trigger] entry_rule(
                front[i],
            ) is Ok by {
                assert(entry_rule(entries[i]) is Ok);
            }
        }
    }
}

/// The commands that `value` declares.
fn read_commands(value: &JsonValue) -> (r: Option<Vec<String>>)
    ensures
        match r {
            Some(commands) => commands_of(*value) == Some(commands.deep_view()),
            None => commands_of(*value) is None,
        },
{
    match value {
        JsonValue::Text(command) => {
            let mut out: Vec<String> = Vec::new();
            out.push(command.clone());
            Some(out)
        },
        JsonValue::List(items) => {
            let mut out: Vec<String> = Vec::new();
            let mut i: usize = 0;
            while i < items.len()
                invariant
                    i <= items.len(),
                    *value == JsonValue::List(*items),
                    all_text(items@.take(i as int)),
                    out.deep_view() == texts(items@.take(i as int)),
                decreases items.len() - i,
            {
                match &items[i] {
                    JsonValue::Text(command) => {
                        out.push(command.clone());
                        assert(texts(items@.take(i + 1)) =~= texts(items@.take(i as int)).push(
                            command@,
                        ));
                    },
                    _ => {
                        return None;
                    },
                }
                i += 1;
            }
            assert(items@.take(i as int) =~= items@);
            Some(out)
        },
        _ => None,
    }
}

impl RslintStagedConfig {
    /// Normalises a raw value into a rule set. The value has to be an object
    /// whose keys are patterns that compile and whose values are a command or
    /// a list of commands; the first entry that is neither decides the error.
    pub fn from_json(json_value: JsonValue) -> (r: Result<RslintStagedConfig, ConfigError>)
        ensures
            match normalized(json_value) {
                Ok(rules) => r matches Ok(config) && config@ == rules,
                Err(fault) => r matches Err(error) && error@ == fault,
            },
    {
        match json_value {
            JsonValue::Object(entries) => {
                let mut items: Vec<RslintStagedConfigItem> = Vec::new();
                let mut i: usize = 0;
                assert(rules_of(items@) =~= Seq::<Rule>::empty());
                while i < entries.len()
                    invariant
                        i <= entries.len(),
                        normalized(json_value) == entries_rules(entries@),
                        entries_rules(entries@.take(i as int)) == Ok::<Seq<Rule>, Fault>(
                            rules_of(items@),
                        ),
                    decreases entries.len() - i,
                {
                    let entry = &entries[i];
                    proof {
                        assert(entries@.take(i + 1).drop_last() =~= entries@.take(i as int));
                    }
                    let path_matcher = match PathMatcher::compile(entry.0.as_str()) {
                        Ok(path_matcher) => path_matcher,
                        Err(invalid) => {
                            proof {
                                lemma_fault_stays(entries@, i + 1);
                            }
                            return Err(ConfigError::InvalidPattern(invalid.pattern));
                        },
                    };
                    let commands = match read_commands(&entry.1) {
                        Some(commands) => commands,
                        None => {
                            proof {
                                lemma_fault_stays(entries@, i + 1);
                            }
                            return Err(ConfigError::Parse);
                        },
                    };
                    let ghost before = rules_of(items@);
                    let item = RslintStagedConfigItem { path_matcher, commands };
                    let ghost rule = item@;
                    items.push(item);
                    assert(rules_of(items@) =~= before.push(rule));
                    i += 1;
                }
                assert(entries@.take(i as int) =~= entries@);
                Ok(RslintStagedConfig { items })
            },
            _ => Err(ConfigError::Parse),
        }
    }
}

/// The field of the project manifest that holds the configuration.
pub open spec fn manifest_field() -> Seq<char> {
    "lint-staged"@
}

/// The raw value that the text of the dedicated configuration file gives.
pub open spec fn fallback_value(rc_file: Option<Seq<char>>) -> Result<JsonValue, Fault> {
    match rc_file {
        Some(text) => match json_document(text) {
            Some(value) => Ok(value),
            None => Err(Fault::Parse),
        },
        None => Err(Fault::NotFound),
    }
}

/// The raw value that the two sources give: the field of the manifest where
/// the manifest has it, else the document of the dedicated file. A source that
/// is there and is no JSON document is a parse fault; with no source left,
/// the configuration is not found.
pub open spec fn raw_value(manifest: Option<Seq<char>>, rc_file: Option<Seq<char>>) -> Result<
    JsonValue,
    Fault,
> {
    match manifest {
        Some(text) => match json_document(text) {
            Some(document) => match field_of(document, manifest_field()) {
                Some(value) => Ok(value),
                None => fallback_value(rc_file),
            },
            None => Err(Fault::Parse),
        },
        None => fallback_value(rc_file),
    }
}

/// The rule set that the two sources give.
pub open spec fn resolved(manifest: Option<Seq<char>>, rc_file: Option<Seq<char>>) -> Result<
    Seq<Rule>,
    Fault,
> {
    match raw_value(manifest, rc_file) {
        Ok(value) => normalized(value),
        Err(fault) => Err(fault),
    }
}

/// Whether the dedicated configuration file is asked: the manifest is not
/// there, or it is a document without the field.
pub open spec fn wants_fallback(manifest: Option<Seq<char>>) -> bool {
    match manifest {
        Some(text) => match json_document(text) {
            Some(document) => field_of(document, manifest_field()) is None,
            None => false,
        },
        None => true,
    }
}

/// The text of an optional source.
pub open spec fn source_text(source: Option<&str>) -> Option<Seq<char>> {
    match source {
        Some(text) => Some(text@),
        None => None,
    }
}

/// Reads the dedicated configuration file.
fn read_fallback(rc_file: Option<&str>) -> (r: Result<JsonValue, ConfigError>)
    ensures
        match fallback_value(source_text(rc_file)) {
            Ok(value) => r == Ok::<JsonValue, ConfigError>(value),
            Err(fault) => r matches Err(error) && error@ == fault,
        },
{
    match rc_file {
        Some(text) => match JsonValue::parse(text) {
            Some(value) => Ok(value),
            None => Err(ConfigError::Parse),
        },
        None => Err(ConfigError::NotFound),
    }
}

/// Whether the dedicated configuration file has to be read, given the text of
/// the project manifest, `None` where the manifest is not there. Where it need
/// not be read, the rule set is the same whatever the file holds.
pub fn needs_rc_file(manifest: Option<&str>) -> (b: bool)
    ensures
        b == wants_fallback(source_text(manifest)),
        !b ==> forall|rc_file: Option<Seq<char>>|
            #[trigger] resolved(source_text(manifest), rc_file) == resolved(
                source_text(manifest),
                None,
            ),
{
    match manifest {
        Some(text) => match JsonValue::parse(text) {
            Some(document) => document.take_field("lint-staged").is_none(),
            None => false,
        },
        None => true,
    }
}

/// Resolves the rule set from the texts of the project manifest and of the
/// dedicated configuration file, each `None` where the file is not there or,
/// for the dedicated file, was not asked.
pub fn get_rslint_staged_config(manifest: Option<&str>, rc_file: Option<&str>) -> (r: Result<
    RslintStagedConfig,
    ConfigError,
>)
    ensures
        match resolved(source_text(manifest), source_text(rc_file)) {
            Ok(rules) => r matches Ok(config) && config@ == rules,
            Err(fault) => r matches Err(error) && error@ == fault,
        },
{
    let found = match manifest {
        Some(text) => match JsonValue::parse(text) {
            Some(document) => document.take_field("lint-staged"),
            None => {
                return Err(ConfigError::Parse);
            },
        },
        None => None,
    };
    let raw = match found {
        Some(value) => value,
        None => match read_fallback(rc_file) {
            Ok(value) => value,
            Err(error) => {
                return Err(error);
            },
        },
    };
    RslintStagedConfig::from_json(raw)
}

} // verus!
