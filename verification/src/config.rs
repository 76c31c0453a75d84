use vstd::prelude::*;
use vstd::string::*;
use crate::json::{
    add_member,
    items_view,
    json_view,
    lemma_items_view,
    lemma_members_view,
    members_view,
    Json,
    JsonView,
};
use crate::model::keybind::{default_table, lemma_default_is_table, Binding, KeyEvent, Keybind};
use crate::model::keys::{key_events_of, try_into_key_events};
use crate::text::{same_text, texts};

verus! {

pub const DEFAULT_PORT: u16 = 2137;

pub const DEFAULT_SEEK_STEP: i64 = 5;

pub const DEFAULT_VOLUME_STEP: i8 = 5;

pub const DEFAULT_SPEED_STEP: i16 = 5;

pub const DEFAULT_CONFIG_DIR: &'static str = "amusing";

pub const DEFAULT_CONFIG_FILE: &'static str = "amusing.toml";

pub const DEFAULT_BACKTRACE_FILE: &'static str = "amusing.backtrace";

/// What the command line says.
#[derive(Debug, PartialEq, Eq)]
pub struct CliOptions {
    /// Path to the config file (default: <config_dir>/amusing/amusing.toml).
    pub config_file: Option<String>,
}

/// Why a configuration is not taken.
#[derive(Debug, PartialEq, Eq)]
pub enum ConfigError {
    /// The text is not TOML.
    InvalidToml,
    /// A key that the configuration does not have, or a value of the wrong
    /// kind for its key.
    InvalidKey(String),
    /// A number that its setting cannot hold.
    OutOfRange,
    /// A name that is no binding.
    UnknownBinding(String),
    /// A text that names no key sequence.
    BadKeybinding(String),
    /// A binding is set to something else than a text or a list.
    ExpectedStringOrArray,
}

/// The mathematical value of a [`ConfigError`].
pub enum ConfigErrorView {
    InvalidToml,
    InvalidKey(Seq<char>),
    OutOfRange,
    UnknownBinding(Seq<char>),
    BadKeybinding(Seq<char>),
    ExpectedStringOrArray,
}

impl View for ConfigError {
    type V = ConfigErrorView;

    open spec fn view(&self) -> ConfigErrorView {
        match self {
            ConfigError::InvalidToml => ConfigErrorView::InvalidToml,
            ConfigError::InvalidKey(key) => ConfigErrorView::InvalidKey(key@),
            ConfigError::OutOfRange => ConfigErrorView::OutOfRange,
            ConfigError::UnknownBinding(name) => ConfigErrorView::UnknownBinding(name@),
            ConfigError::BadKeybinding(text) => ConfigErrorView::BadKeybinding(text@),
            ConfigError::ExpectedStringOrArray => ConfigErrorView::ExpectedStringOrArray,
        }
    }
}

impl ConfigErrorView {
    /// The text shown to the user.
    pub open spec fn text(self) -> Seq<char> {
        match self {
            ConfigErrorView::InvalidToml => "invalid TOML"@,
            ConfigErrorView::InvalidKey(key) => "invalid config key `"@ + key + "`"@,
            ConfigErrorView::OutOfRange => "out of range integral type conversion attempted"@,
            ConfigErrorView::UnknownBinding(name) => "unknown binding `"@ + name + "`"@,
            ConfigErrorView::BadKeybinding(text) => "could not parse `"@ + text + "` as a keybinding"@,
            ConfigErrorView::ExpectedStringOrArray => "expected a string or an array"@,
        }
    }
}

impl ConfigError {
    pub fn message(&self) -> (r: String)
        ensures
            r@ == self@.text(),
    {
        match self {
            ConfigError::InvalidToml => "invalid TOML".to_string(),
            ConfigError::InvalidKey(key) => "invalid config key `".to_string().concat(key.as_str()).concat(
                "`",
            ),
            ConfigError::OutOfRange => "out of range integral type conversion attempted".to_string(),
            ConfigError::UnknownBinding(name) => "unknown binding `".to_string().concat(
                name.as_str(),
            ).concat("`"),
            ConfigError::BadKeybinding(text) => "could not parse `".to_string().concat(
                text.as_str(),
            ).concat("` as a keybinding"),
            ConfigError::ExpectedStringOrArray => "expected a string or an array".to_string(),
        }
    }
}

/// What `toml` makes of a text: the table it reads, as a document, or `None`
/// where it reports an error.
pub uninterp spec fn toml_parse(text: Seq<char>) -> Option<JsonView>;

#[verifier::external_type_specification]
#[verifier::external_body]
pub struct ExTomlValue(toml::Value);

/// Moves a `toml::Value` into a [`Json`], variant by variant: a table goes
/// to an object with its entries in the table's order, an array to a list, an
/// integer to `Unsigned` where it is not below zero and to `Negative` where
/// it is, a float to `Decimal` with the text that `toml` prints for it, and
/// a date to `Null`.
#[verifier::external_body]
fn lift_toml(value: toml::Value) -> Json {
    match value {
        toml::Value::String(s) => Json::Text(s),
        toml::Value::Integer(i) => match u64::try_from(i) {
            Ok(u) => Json::Unsigned(u),
            Err(_) => Json::Negative(i),
        },
        toml::Value::Float(_) => Json::Decimal(value.to_string()),
        toml::Value::Boolean(b) => Json::Bool(b),
        toml::Value::Datetime(_) => Json::Null,
        toml::Value::Array(a) => Json::List(a.into_iter().map(lift_toml).collect()),
        toml::Value::Table(t) => Json::Object(t.into_iter().map(|(k, v)| (k, lift_toml(v))).collect()),
    }
}

/// Reads a TOML text as a table with `toml`. The result is the table that
/// `toml` reads from `text`, and `None` where it refuses the text.
#[verifier::external_body]
fn read_toml(text: &str) -> (r: Option<Json>)
    ensures
        r.is_some() == toml_parse(text@).is_some(),
        r matches Some(j) ==> toml_parse(text@) == Some(j@),
{
    text.parse::<toml::Table>().ok().map(|t| lift_toml(toml::Value::Table(t)))
}

/// The key sequences that a value of the table of bindings names: the one
/// of a text, or those of the texts of a list.
pub open spec fn sequences_of(value: JsonView) -> Result<Seq<Seq<KeyEvent>>, ConfigErrorView> {
    match value {
        JsonView::Text(s) => match key_events_of(s) {
            Some(events) => Ok(seq![events]),
            None => Err(ConfigErrorView::BadKeybinding(s)),
        },
        JsonView::List(items) => sequences_of_items(items, items.len()),
        _ => Err(ConfigErrorView::ExpectedStringOrArray),
    }
}

/// The key sequences that the first `n` items of a list name. An item that
/// is no text names nothing.
pub open spec fn sequences_of_items(items: Seq<JsonView>, n: nat) -> Result<
    Seq<Seq<KeyEvent>>,
    ConfigErrorView,
>
    decreases n,
{
    if n == 0 {
        Ok(Seq::empty())
    } else {
        match sequences_of_items(items, (n - 1) as nat) {
            Err(e) => Err(e),
            Ok(before) => match items[n - 1] {
                JsonView::Text(s) => match key_events_of(s) {
                    Some(events) => Ok(before.push(events)),
                    None => Err(ConfigErrorView::BadKeybinding(s)),
                },
                _ => Ok(before),
            },
        }
    }
}

/// The table of bindings after the first `n` entries of the configuration
/// were added to it: each entry binds its key sequences to the binding that
/// it is named after.
pub open spec fn bindings_of(
    start: Seq<(Seq<KeyEvent>, Binding)>,
    members: Seq<(Seq<char>, JsonView)>,
    n: nat,
) -> Result<Seq<(Seq<KeyEvent>, Binding)>, ConfigErrorView>
    decreases n,
{
    if n == 0 {
        Ok(start)
    } else {
        match bindings_of(start, members, (n - 1) as nat) {
            Err(e) => Err(e),
            Ok(table) => match Binding::named(members[n - 1].0) {
                None => Err(ConfigErrorView::UnknownBinding(members[n - 1].0)),
                Some(binding) => match sequences_of(members[n - 1].1) {
                    Err(e) => Err(e),
                    Ok(sequences) => Ok(
                        table + sequences.map_values(|events: Seq<KeyEvent>| (events, binding)),
                    ),
                },
            },
        }
    }
}

/// Binds the key sequences that a value names.
fn bind_sequences(
    keybind: &mut Keybind,
    value: &Json,
    binding: Binding,
    Ghost(table): Ghost<Seq<(Seq<KeyEvent>, Binding)>>,
) -> (r: Result<(), ConfigError>)
    requires
        old(keybind).is_table(table),
    ensures
        match r {
            Ok(_) => sequences_of(value@) matches Ok(sequences) && final(keybind).is_table(
                table + sequences.map_values(|events: Seq<KeyEvent>| (events, binding)),
            ),
            Err(e) => sequences_of(value@) == Err::<Seq<Seq<KeyEvent>>, ConfigErrorView>(e@),
        },
{
    if let Some(s) = value.as_str() {
        match try_into_key_events(s) {
            Some(events) => {
                keybind.bind(events.as_slice(), binding, Ghost(table));
                assert(table.push((events@, binding)) =~= table + seq![events@].map_values(
                    |events: Seq<KeyEvent>| (events, binding),
                ));
                Ok(())
            },
            None => Err(ConfigError::BadKeybinding(s.to_string())),
        }
    } else if let Some(items) = value.as_array() {
        proof {
            lemma_items_view(items@);
        }
        let ghost all = items_view(items@);
        let ghost pair = |events: Seq<KeyEvent>| (events, binding);
        let mut i: usize = 0;
        assert(table + Seq::<Seq<KeyEvent>>::empty().map_values(pair) =~= table);
        while i < items.len()
            invariant
                i <= items@.len(),
                all == items_view(items@),
                all.len() == items@.len(),
                value@ == JsonView::List(all),
                pair == |events: Seq<KeyEvent>| (events, binding),
                forall|k: int| 0 <= k < items@.len() ==> #[trigger] all[k] == json_view(items@[k]),
                sequences_of_items(all, i as nat) matches Ok(sequences) && keybind.is_table(
                    table + sequences.map_values(pair),
                ),
            decreases items@.len() - i,
        {
            let ghost before = sequences_of_items(all, i as nat)->Ok_0;
            if let Some(s) = items[i].as_str() {
                match try_into_key_events(s) {
                    Some(events) => {
                        keybind.bind(events.as_slice(), binding, Ghost(table + before.map_values(pair)));
                        assert((table + before.map_values(pair)).push((events@, binding)) =~= table
                            + before.push(events@).map_values(pair));
                    },
                    None => {
                        proof {
                            assert(sequences_of_items(all, (i + 1) as nat) == Err::<
                                Seq<Seq<KeyEvent>>,
                                ConfigErrorView,
                            >(ConfigErrorView::BadKeybinding(s@)));
                            lemma_sequences_fail(all, (i + 1) as nat, all.len());
                        }
                        return Err(ConfigError::BadKeybinding(s.to_string()));
                    },
                }
            }
            i += 1;
        }
        Ok(())
    } else {
        Err(ConfigError::ExpectedStringOrArray)
    }
}

/// Once a list fails, it fails in the same way with more items.
pub proof fn lemma_sequences_fail(items: Seq<JsonView>, n: nat, m: nat)
    requires
        n <= m,
        sequences_of_items(items, n) is Err,
    ensures
        sequences_of_items(items, m) == sequences_of_items(items, n),
    decreases m,
{
    if n < m {
        lemma_sequences_fail(items, n, (m - 1) as nat);
    }
}

/// Once the bindings fail, they fail in the same way with more entries.
pub proof fn lemma_bindings_fail(
    start: Seq<(Seq<KeyEvent>, Binding)>,
    members: Seq<(Seq<char>, JsonView)>,
    n: nat,
    m: nat,
)
    requires
        n <= m,
        bindings_of(start, members, n) is Err,
    ensures
        bindings_of(start, members, m) == bindings_of(start, members, n),
    decreases m,
{
    if n < m {
        lemma_bindings_fail(start, members, n, (m - 1) as nat);
    }
}

impl Keybind {
    /// The bindings of a configuration: those that are there from the start,
    /// and then those of the entries of the table `keybind`, one by one.
    pub fn try_from(table: &Vec<(String, Json)>) -> (r: Result<Keybind, ConfigError>)
        ensures
            match r {
                Ok(keybind) => bindings_of(
                    default_table(),
                    members_view(table@),
                    table@.len(),
                ) matches Ok(bindings) && keybind.is_table(bindings),
                Err(e) => bindings_of(default_table(), members_view(table@), table@.len()) == Err::<
                    Seq<(Seq<KeyEvent>, Binding)>,
                    ConfigErrorView,
                >(e@),
            },
    {
        let mut keybind = Keybind::default();
        proof {
            lemma_default_is_table(keybind);
            lemma_members_view(table@);
        }
        let ghost all = members_view(table@);
        let mut i: usize = 0;
        while i < table.len()
            invariant
                i <= table@.len(),
                all == members_view(table@),
                all.len() == table@.len(),
                forall|k: int|
                    0 <= k < table@.len() ==> #[trigger] all[k] == (table@[k].0@, json_view(table@[k].1)),
                bindings_of(default_table(), all, i as nat) matches Ok(bindings) && keybind.is_table(
                    bindings,
                ),
            decreases table@.len() - i,
        {
            let ghost bindings = bindings_of(default_table(), all, i as nat)->Ok_0;
            let binding = match Binding::from_str(table[i].0.as_str()) {
                Some(binding) => binding,
                None => {
                    proof {
                        assert(bindings_of(default_table(), all, (i + 1) as nat) is Err);
                        lemma_bindings_fail(default_table(), all, (i + 1) as nat, all.len());
                    }
                    return Err(ConfigError::UnknownBinding(table[i].0.clone()));
                },
            };
            match bind_sequences(&mut keybind, &table[i].1, binding, Ghost(bindings)) {
                Ok(_) => {},
                Err(e) => {
                    proof {
                        assert(bindings_of(default_table(), all, (i + 1) as nat) is Err);
                        lemma_bindings_fail(default_table(), all, (i + 1) as nat, all.len());
                    }
                    return Err(e);
                },
            }
            i += 1;
        }
        Ok(keybind)
    }
}

/// Whether a name is that of a part of the screen that has a style.
pub open spec fn is_theme_key(key: Seq<char>) -> bool {
    ||| key == "current_title"@
    ||| key == "current_artist"@
    ||| key == "current_album"@
    ||| key == "selection_primary"@
    ||| key == "selection_secondary"@
    ||| key == "search_box"@
    ||| key == "total_duration"@
    ||| key == "progress_bar_done"@
    ||| key == "progress_bar_rest"@
}

fn theme_key(key: &str) -> (r: bool)
    ensures
        r == is_theme_key(key@),
{
    same_text(key, "current_title") || same_text(key, "current_artist") || same_text(key, "current_album")
        || same_text(key, "selection_primary") || same_text(key, "selection_secondary") || same_text(
        key,
        "search_box",
    ) || same_text(key, "total_duration") || same_text(key, "progress_bar_done") || same_text(
        key,
        "progress_bar_rest",
    )
}

/// The text of a member, or the empty text where it is missing or no text.
pub open spec fn text_or_empty(value: Option<JsonView>) -> Seq<char> {
    match value {
        Some(JsonView::Text(s)) => s,
        _ => Seq::empty(),
    }
}

/// The style of a part of the screen as the configuration gives it, with its
/// two lists of modifiers always there as texts, at the end.
pub open spec fn style_of(members: Seq<(Seq<char>, JsonView)>) -> Seq<(Seq<char>, JsonView)> {
    members.push(
        (
            "add_modifier"@,
            JsonView::Text(text_or_empty(crate::json::member(members, "add_modifier"@))),
        ),
    ).push(
        (
            "sub_modifier"@,
            JsonView::Text(text_or_empty(crate::json::member(members, "sub_modifier"@))),
        ),
    )
}

/// The styles of the first `n` entries of the table `theme`.
pub open spec fn theme_of(members: Seq<(Seq<char>, JsonView)>, n: nat) -> Result<
    Seq<(Seq<char>, JsonView)>,
    ConfigErrorView,
>
    decreases n,
{
    if n == 0 {
        Ok(Seq::empty())
    } else {
        match theme_of(members, (n - 1) as nat) {
            Err(e) => Err(e),
            Ok(before) => match members[n - 1].1 {
                JsonView::Object(style) => if is_theme_key(members[n - 1].0) {
                    Ok(before.push((members[n - 1].0, JsonView::Object(style_of(style)))))
                } else {
                    Err(ConfigErrorView::InvalidKey(members[n - 1].0))
                },
                _ => Err(ConfigErrorView::InvalidKey(members[n - 1].0)),
            },
        }
    }
}

/// Once the theme fails, it fails in the same way with more entries.
pub proof fn lemma_theme_fail(members: Seq<(Seq<char>, JsonView)>, n: nat, m: nat)
    requires
        n <= m,
        theme_of(members, n) is Err,
    ensures
        theme_of(members, m) == theme_of(members, n),
    decreases m,
{
    if n < m {
        lemma_theme_fail(members, n, (m - 1) as nat);
    }
}

/// The text of a member of an object, or the empty text.
fn member_text(value: &Json, key: &str) -> (r: String)
    ensures
        r@ == text_or_empty(value@.field(key@)),
{
    match value.get(key) {
        Some(found) => match found.as_str() {
            Some(s) => s.to_string(),
            None => String::new(),
        },
        None => String::new(),
    }
}

/// The styles of the table `theme`: each entry has to be named after a part
/// of the screen and has to be a table.
pub fn theme_from(table: Vec<(String, Json)>) -> (r: Result<Vec<(String, Json)>, ConfigError>)
    ensures
        match r {
            Ok(theme) => theme_of(members_view(table@), table@.len()) == Ok::<
                Seq<(Seq<char>, JsonView)>,
                ConfigErrorView,
            >(members_view(theme@)),
            Err(e) => theme_of(members_view(table@), table@.len()) == Err::<
                Seq<(Seq<char>, JsonView)>,
                ConfigErrorView,
            >(e@),
        },
{
    proof {
        lemma_members_view(table@);
    }
    let ghost all = members_view(table@);
    let ghost entries = table@;
    let mut rest = table;
    let mut theme: Vec<(String, Json)> = Vec::new();
    let ghost mut i: nat = 0;
    assert(members_view(theme@) =~= Seq::empty());
    assert(rest@ =~= entries.skip(0));
    while rest.len() > 0
        invariant
            i + rest@.len() == entries.len(),
            rest@ == entries.skip(i as int),
            entries == table@,
            all == members_view(entries),
            all.len() == entries.len(),
            forall|k: int|
                0 <= k < entries.len() ==> #[trigger] all[k] == (entries[k].0@, json_view(entries[k].1)),
            theme_of(all, i) == Ok::<Seq<(Seq<char>, JsonView)>, ConfigErrorView>(
                members_view(theme@),
            ),
        decreases rest@.len(),
    {
        assert(rest@.remove(0) =~= entries.skip(i as int + 1));
        assert(rest@[0] == entries[i as int]);
        let (key, value) = rest.remove(0);
        let add_modifier = member_text(&value, "add_modifier");
        let sub_modifier = member_text(&value, "sub_modifier");
        let mut styled = match value {
            Json::Object(styled) => styled,
            _ => {
                proof {
                    assert(theme_of(all, i + 1) is Err);
                    lemma_theme_fail(all, i + 1, all.len());
                }
                return Err(ConfigError::InvalidKey(key));
            },
        };
        if !theme_key(key.as_str()) {
            proof {
                assert(theme_of(all, i + 1) is Err);
                lemma_theme_fail(all, i + 1, all.len());
            }
            return Err(ConfigError::InvalidKey(key));
        }
        let ghost style = members_view(styled@);
        add_member(&mut styled, "add_modifier", Json::Text(add_modifier));
        add_member(&mut styled, "sub_modifier", Json::Text(sub_modifier));
        assert(members_view(styled@) =~= style_of(style));
        add_member(&mut theme, key.as_str(), Json::Object(styled));
        proof {
            i = i + 1;
        }
    }
    Ok(theme)
}

/// What is set before the program starts.
#[derive(Debug)]
pub struct Config {
    pub port: u16,
    /// The styles of the parts of the screen, as the configuration gives
    /// them: each a name and a table.
    pub theme: Vec<(String, Json)>,
    pub keybind: Keybind,
    pub seek_step: i64,
    pub volume_step: i8,
    pub speed_step: i16,
    pub library_group_by: Vec<String>,
}

/// The mathematical value of a [`Config`], with the bindings as the table
/// that they were bound from.
pub struct ConfigView {
    pub port: u16,
    pub theme: Seq<(Seq<char>, JsonView)>,
    pub bindings: Seq<(Seq<KeyEvent>, Binding)>,
    pub seek_step: i64,
    pub volume_step: i8,
    pub speed_step: i16,
    pub library_group_by: Seq<Seq<char>>,
}

impl ConfigView {
    /// The configuration that holds where nothing is set.
    pub open spec fn initial() -> ConfigView {
        ConfigView {
            port: DEFAULT_PORT,
            theme: Seq::empty(),
            bindings: default_table(),
            seek_step: DEFAULT_SEEK_STEP,
            volume_step: DEFAULT_VOLUME_STEP,
            speed_step: DEFAULT_SPEED_STEP,
            library_group_by: seq!["albumartist"@, "album"@],
        }
    }

    /// The configuration with one more setting taken in. A key has to be
    /// known and its value of the right kind, and a number has to fit.
    pub open spec fn set(self, key: Seq<char>, value: JsonView) -> Result<ConfigView, ConfigErrorView> {
        if key == "port"@ && int_of(value) is Some {
            if 0 <= int_of(value)->Some_0 <= u16::MAX {
                Ok(ConfigView { port: int_of(value)->Some_0 as u16, ..self })
            } else {
                Err(ConfigErrorView::OutOfRange)
            }
        } else if key == "theme"@ && value is Object {
            match theme_of(value->Object_0, value->Object_0.len()) {
                Ok(theme) => Ok(ConfigView { theme, ..self }),
                Err(e) => Err(e),
            }
        } else if key == "keybind"@ && value is Object {
            match bindings_of(default_table(), value->Object_0, value->Object_0.len()) {
                Ok(bindings) => Ok(ConfigView { bindings, ..self }),
                Err(e) => Err(e),
            }
        } else if key == "seek_step"@ && int_of(value) is Some {
            if int_of(value)->Some_0 <= i64::MAX {
                Ok(ConfigView { seek_step: int_of(value)->Some_0 as i64, ..self })
            } else {
                Err(ConfigErrorView::OutOfRange)
            }
        } else if key == "volume_step"@ && int_of(value) is Some {
            if i8::MIN <= int_of(value)->Some_0 <= i8::MAX {
                Ok(ConfigView { volume_step: int_of(value)->Some_0 as i8, ..self })
            } else {
                Err(ConfigErrorView::OutOfRange)
            }
        } else if key == "speed_step"@ && int_of(value) is Some {
            if i16::MIN <= int_of(value)->Some_0 <= i16::MAX {
                Ok(ConfigView { speed_step: int_of(value)->Some_0 as i16, ..self })
            } else {
                Err(ConfigErrorView::OutOfRange)
            }
        } else if key == "library_group_by"@ && value is List {
            Ok(ConfigView { library_group_by: texts_in(value->List_0), ..self })
        } else {
            Err(ConfigErrorView::InvalidKey(key))
        }
    }

    /// The configuration with the first `n` settings of a table taken in.
    pub open spec fn set_all(self, members: Seq<(Seq<char>, JsonView)>, n: nat) -> Result<
        ConfigView,
        ConfigErrorView,
    >
        decreases n,
    {
        if n == 0 {
            Ok(self)
        } else {
            match self.set_all(members, (n - 1) as nat) {
                Ok(config) => config.set(members[n - 1].0, members[n - 1].1),
                Err(e) => Err(e),
            }
        }
    }
}

/// The whole number of a document.
pub open spec fn int_of(value: JsonView) -> Option<int> {
    match value {
        JsonView::Unsigned(n) => Some(n as int),
        JsonView::Negative(n) => Some(n as int),
        _ => None,
    }
}

/// The texts among the items of a list, in order.
pub open spec fn texts_in(items: Seq<JsonView>) -> Seq<Seq<char>>
    decreases items.len(),
{
    if items.len() == 0 {
        Seq::empty()
    } else {
        match items.last() {
            JsonView::Text(s) => texts_in(items.drop_last()).push(s),
            _ => texts_in(items.drop_last()),
        }
    }
}

/// The configuration that a text gives: that of its settings, where the text
/// is a TOML table.
pub open spec fn config_of(content: Seq<char>) -> Result<ConfigView, ConfigErrorView> {
    match toml_parse(content) {
        Some(JsonView::Object(members)) => ConfigView::initial().set_all(members, members.len()),
        _ => Err(ConfigErrorView::InvalidToml),
    }
}

/// Once the settings fail, they fail in the same way with more of them.
pub proof fn lemma_settings_fail(
    start: ConfigView,
    members: Seq<(Seq<char>, JsonView)>,
    n: nat,
    m: nat,
)
    requires
        n <= m,
        start.set_all(members, n) is Err,
    ensures
        start.set_all(members, m) == start.set_all(members, n),
    decreases m,
{
    if n < m {
        lemma_settings_fail(start, members, n, (m - 1) as nat);
    }
}

/// The whole number of a document.
fn int_from(value: &Json) -> (r: Option<i128>)
    ensures
        match r {
            Some(n) => int_of(value@) == Some(n as int),
            None => int_of(value@).is_none(),
        },
{
    match value {
        Json::Unsigned(n) => Some(*n as i128),
        Json::Negative(n) => Some(*n as i128),
        _ => None,
    }
}

/// The texts among the items of a list.
fn texts_from(items: &Vec<Json>) -> (r: Vec<String>)
    ensures
        texts(r@) == texts_in(items_view(items@)),
{
    proof {
        lemma_items_view(items@);
    }
    let ghost all = items_view(items@);
    let mut out: Vec<String> = Vec::new();
    let mut i: usize = 0;
    assert(all.take(0) =~= Seq::empty());
    assert(texts(out@) =~= Seq::empty());
    while i < items.len()
        invariant
            i <= items@.len(),
            all == items_view(items@),
            all.len() == items@.len(),
            forall|k: int| 0 <= k < items@.len() ==> #[trigger] all[k] == json_view(items@[k]),
            texts(out@) == texts_in(all.take(i as int)),
        decreases items@.len() - i,
    {
        assert(all.take(i as int + 1).drop_last() =~= all.take(i as int));
        match items[i].as_str() {
            Some(s) => {
                let owned = s.to_string();
                assert(texts(out@.push(owned)) =~= texts(out@).push(owned@));
                out.push(owned);
            },
            None => {},
        }
        i += 1;
    }
    assert(all.take(i as int) =~= all);
    out
}

impl Config {
    /// The configuration holds these settings; its bindings are those of
    /// the table of the settings.
    pub open spec fn holds(self, settings: ConfigView) -> bool {
        &&& self.port == settings.port
        &&& members_view(self.theme@) == settings.theme
        &&& self.keybind.is_table(settings.bindings)
        &&& self.seek_step == settings.seek_step
        &&& self.volume_step == settings.volume_step
        &&& self.speed_step == settings.speed_step
        &&& texts(self.library_group_by@) == settings.library_group_by
    }

    /// Takes one setting in.
    fn set(&mut self, key: String, value: Json, Ghost(settings): Ghost<ConfigView>) -> (r: Result<
        (),
        ConfigError,
    >)
        requires
            old(self).holds(settings),
        ensures
            match r {
                Ok(_) => settings.set(key@, value@) matches Ok(next) && final(self).holds(next),
                Err(e) => settings.set(key@, value@) == Err::<ConfigView, ConfigErrorView>(e@),
            },
    {
        let number = int_from(&value);
        if same_text(key.as_str(), "port") && number.is_some() {
            let n = number.unwrap();
            if 0 <= n && n <= 65535 {
                self.port = n as u16;
                Ok(())
            } else {
                Err(ConfigError::OutOfRange)
            }
        } else if same_text(key.as_str(), "theme") && value.is_object() {
            match value {
                Json::Object(table) => match {
                    proof {
                        lemma_members_view(table@);
                    }
                    theme_from(table)
                } {
                    Ok(theme) => {
                        self.theme = theme;
                        Ok(())
                    },
                    Err(e) => Err(e),
                },
                _ => Ok(()),
            }
        } else if same_text(key.as_str(), "keybind") && value.is_object() {
            match value {
                Json::Object(table) => match {
                    proof {
                        lemma_members_view(table@);
                    }
                    Keybind::try_from(&table)
                } {
                    Ok(keybind) => {
                        self.keybind = keybind;
                        Ok(())
                    },
                    Err(e) => Err(e),
                },
                _ => Ok(()),
            }
        } else if same_text(key.as_str(), "seek_step") && number.is_some() {
            let n = number.unwrap();
            if n <= 0x7fff_ffff_ffff_ffff {
                self.seek_step = n as i64;
                Ok(())
            } else {
                Err(ConfigError::OutOfRange)
            }
        } else if same_text(key.as_str(), "volume_step") && number.is_some() {
            let n = number.unwrap();
            if -128 <= n && n <= 127 {
                self.volume_step = n as i8;
                Ok(())
            } else {
                Err(ConfigError::OutOfRange)
            }
        } else if same_text(key.as_str(), "speed_step") && number.is_some() {
            let n = number.unwrap();
            if -32768 <= n && n <= 32767 {
                self.speed_step = n as i16;
                Ok(())
            } else {
                Err(ConfigError::OutOfRange)
            }
        } else if same_text(key.as_str(), "library_group_by") && value.as_array().is_some() {
            match value.as_array() {
                Some(items) => {
                    self.library_group_by = texts_from(items);
                },
                None => {},
            }
            Ok(())
        } else {
            Err(ConfigError::InvalidKey(key))
        }
    }

    /// The configuration that the content of a configuration file gives.
    pub fn try_from_file(content: &str) -> (r: Result<Config, ConfigError>)
        ensures
            match r {
                Ok(config) => config_of(content@) matches Ok(settings) && config.holds(settings),
                Err(e) => config_of(content@) == Err::<ConfigView, ConfigErrorView>(e@),
            },
    {
        let members = match read_toml(content) {
            Some(Json::Object(members)) => members,
            _ => {
                return Err(ConfigError::InvalidToml);
            },
        };
        proof {
            lemma_members_view(members@);
        }
        let ghost entries = members@;
        let ghost all = members_view(members@);
        let ghost mut i: nat = 0;
        let mut rest = members;
        let mut config = Config::default();
        assert(rest@ =~= entries.skip(0));
        while rest.len() > 0
            invariant
                i + rest@.len() == entries.len(),
                rest@ == entries.skip(i as int),
                all == members_view(entries),
                all.len() == entries.len(),
                toml_parse(content@) == Some(JsonView::Object(all)),
                forall|k: int|
                    0 <= k < entries.len() ==> #[trigger] all[k] == (entries[k].0@, json_view(entries[k].1)),
                ConfigView::initial().set_all(all, i) matches Ok(settings) && config.holds(settings),
            decreases rest@.len(),
        {
            assert(rest@.remove(0) =~= entries.skip(i as int + 1));
            assert(rest@[0] == entries[i as int]);
            let ghost settings = ConfigView::initial().set_all(all, i)->Ok_0;
            let (key, value) = rest.remove(0);
            match config.set(key, value, Ghost(settings)) {
                Ok(_) => {},
                Err(e) => {
                    proof {
                        assert(ConfigView::initial().set_all(all, i + 1) is Err);
                        lemma_settings_fail(ConfigView::initial(), all, i + 1, all.len());
                    }
                    return Err(e);
                },
            }
            proof {
                i = i + 1;
            }
        }
        Ok(config)
    }
}

impl Default for Config {
    fn default() -> (r: Config)
        ensures
            r.holds(ConfigView::initial()),
    {
        let keybind = Keybind::default();
        proof {
            lemma_default_is_table(keybind);
        }
        let library_group_by: Vec<String> = vec!["albumartist".to_string(), "album".to_string()];
        assert(texts(library_group_by@) =~= seq!["albumartist"@, "album"@]);
        let theme: Vec<(String, Json)> = Vec::new();
        assert(members_view(theme@) =~= Seq::empty());
        Config {
            port: DEFAULT_PORT,
            theme,
            keybind,
            seek_step: DEFAULT_SEEK_STEP,
            volume_step: DEFAULT_VOLUME_STEP,
            speed_step: DEFAULT_SPEED_STEP,
            library_group_by,
        }
    }
}

} // verus!
