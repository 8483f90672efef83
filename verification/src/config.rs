//! The contact book: from the `[[to]]` entries of config.toml to one tool
//! per contact and channel, with every refusal that stops the server from
//! starting (no entries, a blank name, two names with the same slug,
//! unknown fields, an invalid address, a contact without any channel).
//!
//! The contact book only says who may be written to; credentials come from
//! the environment.
use vstd::prelude::*;

use crate::channels::{defs_well_formed, value_problem, ChannelDef, ChannelValueError, ValueProblem};
use crate::order::{join, join_strings, lex_order, sort_strings, strs_view};
use crate::slug::{is_slug, lemma_slug_shape, slug_of};
use crate::text::{push_str, str_eq, trim, trim_str};

pub use crate::slug::slugify;

verus! {

/// One `[[to]]` entry of the contact book: the display name and every other
/// field as key and value (e.g. "email" and the address). Which keys exist
/// is decided only by the channel definitions.
#[derive(Clone, Debug)]
pub struct ContactEntry {
    pub name: String,
    pub fields: Vec<(String, String)>,
}

/// One tool: a contact reached over one channel.
#[derive(Clone, Debug)]
pub struct ChannelTool {
    pub contact_name: String,
    /// The key into the senders, e.g. "telegram".
    pub channel_slug: &'static str,
    pub channel_display_name: &'static str,
    /// E-mail address, chat id, topic or webhook URL, depending on the channel.
    pub address: String,
    /// E.g. "send_to_max_mustermann_via_telegram": the MCP tool name. Name
    /// first, channel last, so that the tools of one contact stay together
    /// in clients that sort alphabetically.
    pub tool_name: String,
    /// E.g. "Max Mustermann — Telegram", for clients that show MCP's `title`.
    pub title: String,
}

/// A tool as plain text values.
pub struct ToolView {
    pub contact: Seq<char>,
    pub channel: Seq<char>,
    pub display: Seq<char>,
    pub address: Seq<char>,
    pub tool_name: Seq<char>,
    pub title: Seq<char>,
}

impl View for ChannelTool {
    type V = ToolView;

    open spec fn view(&self) -> ToolView {
        ToolView {
            contact: self.contact_name@,
            channel: self.channel_slug@,
            display: self.channel_display_name@,
            address: self.address@,
            tool_name: self.tool_name@,
            title: self.title@,
        }
    }
}

pub open spec fn tools_view(s: Seq<ChannelTool>) -> Seq<ToolView> {
    s.map_values(|t: ChannelTool| t@)
}

/// Why the contact book was refused.
#[derive(Debug)]
pub enum ConfigError {
    /// There is no `[[to]]` entry at all.
    NoEntries,
    /// An entry has a blank name.
    BlankName,
    /// Two names give the same slug and so ambiguous tool names.
    SlugCollision { existing: String, name: String, slug: String },
    /// An entry has fields that no channel knows; sorted.
    UnknownFields { contact: String, fields: Vec<String> },
    /// An address was refused by its channel.
    InvalidValue { contact: String, key: String, cause: ChannelValueError },
    /// An entry configures no channel at all.
    NoChannel { contact: String },
}

/// The same refusals, as plain text values; `UnknownFields` lists the
/// fields in the order in which the entry names them.
pub enum ConfigIssue {
    NoEntries,
    BlankName,
    SlugCollision { existing: Seq<char>, name: Seq<char>, slug: Seq<char> },
    UnknownFields { contact: Seq<char>, fields: Seq<Seq<char>> },
    InvalidValue { contact: Seq<char>, key: Seq<char>, problem: ValueProblem, value: Seq<char> },
    NoChannel { contact: Seq<char> },
}

pub open spec fn error_matches(e: ConfigError, i: ConfigIssue) -> bool {
    match (e, i) {
        (ConfigError::NoEntries, ConfigIssue::NoEntries) => true,
        (ConfigError::BlankName, ConfigIssue::BlankName) => true,
        (
            ConfigError::SlugCollision { existing, name, slug },
            ConfigIssue::SlugCollision { existing: x, name: n, slug: s },
        ) => existing@ == x && name@ == n && slug@ == s,
        (
            ConfigError::UnknownFields { contact, fields },
            ConfigIssue::UnknownFields { contact: c, fields: f },
        ) => contact@ == c && strs_view(fields@) == f.sort_by(lex_order()),
        (
            ConfigError::InvalidValue { contact, key, cause },
            ConfigIssue::InvalidValue { contact: c, key: k, problem, value },
        ) => contact@ == c && key@ == k && cause.problem == problem && cause.value@ == value,
        (ConfigError::NoChannel { contact }, ConfigIssue::NoChannel { contact: c }) => contact@
            == c,
        _ => false,
    }
}

pub open spec fn outcome_matches(
    r: Result<Vec<ChannelTool>, ConfigError>,
    s: Result<Seq<ToolView>, ConfigIssue>,
) -> bool {
    match (r, s) {
        (Ok(ts), Ok(vs)) => tools_view(ts@) == vs,
        (Err(e), Err(i)) => error_matches(e, i),
        _ => false,
    }
}

pub type FieldsView = Seq<(Seq<char>, Seq<char>)>;

pub open spec fn fields_view(f: Seq<(String, String)>) -> FieldsView {
    f.map_values(|p: (String, String)| (p.0@, p.1@))
}

pub open spec fn entries_view(es: Seq<ContactEntry>) -> Seq<(Seq<char>, FieldsView)> {
    es.map_values(|e: ContactEntry| (e.name@, fields_view(e.fields@)))
}

/// The value of the first pair with `key`.
pub open spec fn lookup(pairs: FieldsView, key: Seq<char>) -> Option<Seq<char>>
    decreases pairs.len(),
{
    if pairs.len() == 0 {
        None
    } else if pairs[0].0 == key {
        Some(pairs[0].1)
    } else {
        lookup(pairs.drop_first(), key)
    }
}

/// `send_to_<slug>_via_<channel>`
pub open spec fn tool_name_of(slug: Seq<char>, channel: Seq<char>) -> Seq<char> {
    "send_to_"@ + slug + "_via_"@ + channel
}

/// `<name> — <channel display name>`
pub open spec fn title_of(name: Seq<char>, display: Seq<char>) -> Seq<char> {
    name + " — "@ + display
}

pub open spec fn tool_for(d: ChannelDef, name: Seq<char>, address: Seq<char>) -> ToolView {
    ToolView {
        contact: name,
        channel: d.slug@,
        display: d.display_name@,
        address,
        tool_name: tool_name_of(slug_of(name), d.slug@),
        title: title_of(name, d.display_name@),
    }
}

pub open spec fn prepend<E>(acc: Seq<ToolView>, r: Result<Seq<ToolView>, E>) -> Result<
    Seq<ToolView>,
    E,
> {
    match r {
        Ok(s) => Ok(acc + s),
        Err(e) => Err(e),
    }
}

/// The tools of one contact for the definitions from `j` on: a channel whose
/// field is missing or blank is skipped; the first refused address stops.
pub open spec fn entry_tools(defs: Seq<ChannelDef>, name: Seq<char>, fields: FieldsView, j: int) -> Result<
    Seq<ToolView>,
    ConfigIssue,
>
    decreases defs.len() - j,
{
    if j >= defs.len() || j < 0 {
        Ok(seq![])
    } else {
        let d = defs[j];
        match lookup(fields, d.config_key@) {
            None => entry_tools(defs, name, fields, j + 1),
            Some(raw) => {
                let address = trim(raw);
                if address.len() == 0 {
                    entry_tools(defs, name, fields, j + 1)
                } else {
                    match value_problem(d.kind, address) {
                        Some(p) => Err(
                            ConfigIssue::InvalidValue {
                                contact: name,
                                key: d.config_key@,
                                problem: p,
                                value: address,
                            },
                        ),
                        None => prepend(
                            seq![tool_for(d, name, address)],
                            entry_tools(defs, name, fields, j + 1),
                        ),
                    }
                }
            },
        }
    }
}

pub open spec fn is_known_key(defs: Seq<ChannelDef>, key: Seq<char>) -> bool {
    exists|j: int| 0 <= j < defs.len() && (#[trigger] defs[j]).config_key@ == key
}

/// The keys of `fields` that no definition knows, in their order.
pub open spec fn unknown_keys(defs: Seq<ChannelDef>, fields: FieldsView) -> Seq<Seq<char>>
    decreases fields.len(),
{
    if fields.len() == 0 {
        seq![]
    } else {
        (if is_known_key(defs, fields[0].0) {
            seq![]
        } else {
            seq![fields[0].0]
        }) + unknown_keys(defs, fields.drop_first())
    }
}

/// The tools of one entry, given the slugs (with their names) of the
/// entries before it.
pub open spec fn process_entry(
    defs: Seq<ChannelDef>,
    raw_name: Seq<char>,
    fields: FieldsView,
    seen: FieldsView,
) -> Result<Seq<ToolView>, ConfigIssue> {
    let name = trim(raw_name);
    if name.len() == 0 {
        Err(ConfigIssue::BlankName)
    } else {
        let slug = slug_of(name);
        match lookup(seen, slug) {
            Some(existing) => Err(ConfigIssue::SlugCollision { existing, name, slug }),
            None => {
                let unknown = unknown_keys(defs, fields);
                if unknown.len() > 0 {
                    Err(ConfigIssue::UnknownFields { contact: name, fields: unknown })
                } else {
                    match entry_tools(defs, name, fields, 0) {
                        Err(x) => Err(x),
                        Ok(ts) => if ts.len() == 0 {
                            Err(ConfigIssue::NoChannel { contact: name })
                        } else {
                            Ok(ts)
                        },
                    }
                }
            },
        }
    }
}

/// The tools of the entries from `i` on.
pub open spec fn load_from(
    defs: Seq<ChannelDef>,
    entries: Seq<(Seq<char>, FieldsView)>,
    i: int,
    seen: FieldsView,
) -> Result<Seq<ToolView>, ConfigIssue>
    decreases entries.len() - i,
{
    if i >= entries.len() || i < 0 {
        Ok(seq![])
    } else {
        match process_entry(defs, entries[i].0, entries[i].1, seen) {
            Err(x) => Err(x),
            Ok(ts) => {
                let name = trim(entries[i].0);
                prepend(ts, load_from(defs, entries, i + 1, seen.push((slug_of(name), name))))
            },
        }
    }
}

/// What the contact book yields: all tools in entry order and, within an
/// entry, in definition order; or the first refusal.
pub open spec fn contacts_outcome(defs: Seq<ChannelDef>, entries: Seq<(Seq<char>, FieldsView)>) -> Result<
    Seq<ToolView>,
    ConfigIssue,
> {
    if entries.len() == 0 {
        Err(ConfigIssue::NoEntries)
    } else {
        load_from(defs, entries, 0, seq![])
    }
}

proof fn lemma_prepend_assoc<E>(a: Seq<ToolView>, b: Seq<ToolView>, r: Result<Seq<ToolView>, E>)
    ensures
        prepend(a, prepend(b, r)) == prepend(a + b, r),
{
    if let Ok(s) = r {
        assert(a + (b + s) =~= (a + b) + s);
    }
}

fn find_value(pairs: &Vec<(String, String)>, key: &str) -> (r: Option<String>)
    ensures
        match r {
            Some(v) => lookup(fields_view(pairs@), key@) == Some(v@),
            None => lookup(fields_view(pairs@), key@) is None,
        },
{
    let ghost all = fields_view(pairs@);
    let mut i: usize = 0;
    assert(all.skip(0) =~= all);
    while i < pairs.len()
        invariant
            i <= pairs.len(),
            all == fields_view(pairs@),
            lookup(all, key@) == lookup(all.skip(i as int), key@),
        decreases pairs.len() - i,
    {
        let ghost rest = all.skip(i as int);
        assert(rest[0] == (pairs@[i as int].0@, pairs@[i as int].1@));
        if str_eq(pairs[i].0.as_str(), key) {
            return Some(pairs[i].1.clone());
        }
        assert(rest.drop_first() =~= all.skip(i + 1));
        i += 1;
    }
    None
}

fn is_known(defs: &Vec<ChannelDef>, key: &str) -> (r: bool)
    ensures
        r == is_known_key(defs@, key@),
{
    let mut j: usize = 0;
    while j < defs.len()
        invariant
            j <= defs.len(),
            forall|k: int| 0 <= k < j ==> (#[trigger] defs@[k]).config_key@ != key@,
        decreases defs.len() - j,
    {
        if str_eq(defs[j].config_key, key) {
            assert(defs@[j as int].config_key@ == key@);
            return true;
        }
        j += 1;
    }
    false
}

fn collect_unknown(defs: &Vec<ChannelDef>, fields: &Vec<(String, String)>) -> (r: Vec<String>)
    ensures
        strs_view(r@) == unknown_keys(defs@, fields_view(fields@)),
{
    let ghost all = fields_view(fields@);
    let mut r: Vec<String> = Vec::new();
    let mut i: usize = 0;
    assert(all.skip(0) =~= all);
    assert(strs_view(r@) =~= Seq::<Seq<char>>::empty());
    while i < fields.len()
        invariant
            i <= fields.len(),
            all == fields_view(fields@),
            strs_view(r@) + unknown_keys(defs@, all.skip(i as int)) == unknown_keys(defs@, all),
        decreases fields.len() - i,
    {
        let ghost rest = all.skip(i as int);
        let ghost before = strs_view(r@);
        assert(rest[0].0 == fields@[i as int].0@);
        assert(rest.drop_first() =~= all.skip(i + 1));
        if !is_known(defs, fields[i].0.as_str()) {
            r.push(fields[i].0.clone());
            assert(strs_view(r@) =~= before + seq![rest[0].0]);
        }
        assert(strs_view(r@) + unknown_keys(defs@, all.skip(i + 1)) =~= before + unknown_keys(
            defs@,
            rest,
        ));
        i += 1;
    }
    assert(all.skip(fields.len() as int) =~= FieldsView::empty());
    assert(strs_view(r@) =~= unknown_keys(defs@, all));
    r
}

/// The tool name of a contact slug and a channel slug.
pub fn make_tool_name(slug: &str, channel: &str) -> (r: String)
    ensures
        r@ == tool_name_of(slug@, channel@),
{
    let mut r = String::new();
    push_str(&mut r, "send_to_");
    push_str(&mut r, slug);
    push_str(&mut r, "_via_");
    push_str(&mut r, channel);
    r
}

/// The tool title of a contact name and a channel display name.
pub fn make_title(name: &str, display: &str) -> (r: String)
    ensures
        r@ == title_of(name@, display@),
{
    let mut r = String::new();
    push_str(&mut r, name);
    push_str(&mut r, " — ");
    push_str(&mut r, display);
    r
}

fn channel_tools(defs: &Vec<ChannelDef>, name: &String, slug: &String, fields: &Vec<
    (String, String),
>) -> (r: Result<Vec<ChannelTool>, ConfigError>)
    requires
        slug@ == slug_of(name@),
    ensures
        outcome_matches(r, entry_tools(defs@, name@, fields_view(fields@), 0)),
{
    let ghost fv = fields_view(fields@);
    let mut tools: Vec<ChannelTool> = Vec::new();
    let mut j: usize = 0;
    assert(tools_view(tools@) =~= Seq::<ToolView>::empty());
    assert(entry_tools(defs@, name@, fv, 0) =~= prepend(
        tools_view(tools@),
        entry_tools(defs@, name@, fv, 0),
    ));
    while j < defs.len()
        invariant
            j <= defs.len(),
            fv == fields_view(fields@),
            slug@ == slug_of(name@),
            entry_tools(defs@, name@, fv, 0) == prepend(
                tools_view(tools@),
                entry_tools(defs@, name@, fv, j as int),
            ),
        decreases defs.len() - j,
    {
        let def = &defs[j];
        let ghost before = tools_view(tools@);
        match find_value(fields, def.config_key) {
            None => {},
            Some(raw) => {
                let address = trim_str(raw.as_str());
                if !address.as_str().is_empty() {
                    match def.validate(address.as_str()) {
                        Err(cause) => {
                            return Err(
                                ConfigError::InvalidValue {
                                    contact: name.clone(),
                                    key: def.config_key.to_owned(),
                                    cause,
                                },
                            );
                        },
                        Ok(()) => {
                            let tool = ChannelTool {
                                contact_name: name.clone(),
                                channel_slug: def.slug,
                                channel_display_name: def.display_name,
                                tool_name: make_tool_name(slug.as_str(), def.slug),
                                title: make_title(name.as_str(), def.display_name),
                                address,
                            };
                            assert(tool@ == tool_for(defs@[j as int], name@, tool@.address));
                            let ghost t = tool_for(defs@[j as int], name@, tool@.address);
                            tools.push(tool);
                            assert(tools_view(tools@) =~= before + seq![t]);
                            proof {
                                lemma_prepend_assoc(
                                    before,
                                    seq![t],
                                    entry_tools(defs@, name@, fv, j + 1),
                                );
                            }
                        },
                    }
                }
            },
        }
        j += 1;
    }
    Ok(tools)
}

/// The tools of one entry, and its trimmed name and slug.
fn entry_channel_tools(
    defs: &Vec<ChannelDef>,
    entry: &ContactEntry,
    seen: &Vec<(String, String)>,
) -> (r: Result<(String, String, Vec<ChannelTool>), ConfigError>)
    ensures
        match r {
            Ok((name, slug, ts)) => {
                &&& name@ == trim(entry.name@)
                &&& slug@ == slug_of(name@)
                &&& process_entry(defs@, entry.name@, fields_view(entry.fields@), fields_view(seen@))
                    == Ok::<Seq<ToolView>, ConfigIssue>(tools_view(ts@))
            },
            Err(e) => {
                &&& process_entry(defs@, entry.name@, fields_view(entry.fields@), fields_view(seen@)) is Err
                &&& error_matches(
                    e,
                    process_entry(
                        defs@,
                        entry.name@,
                        fields_view(entry.fields@),
                        fields_view(seen@),
                    )->Err_0,
                )
            },
        },
{
    let name = trim_str(entry.name.as_str());
    if name.as_str().is_empty() {
        return Err(ConfigError::BlankName);
    }
    let slug = slugify(name.as_str());
    match find_value(seen, slug.as_str()) {
        Some(existing) => {
            return Err(ConfigError::SlugCollision { existing, name, slug });
        },
        None => {},
    }
    let unknown = collect_unknown(defs, &entry.fields);
    if unknown.len() > 0 {
        let fields = sort_strings(&unknown);
        return Err(ConfigError::UnknownFields { contact: name, fields });
    }
    match channel_tools(defs, &name, &slug, &entry.fields) {
        Err(e) => Err(e),
        Ok(ts) => {
            if ts.len() == 0 {
                Err(ConfigError::NoChannel { contact: name })
            } else {
                Ok((name, slug, ts))
            }
        },
    }
}

/// Builds one tool per contact and configured channel from the entries of
/// the contact book, or reports the first reason to refuse it.
pub fn build_channel_tools(defs: &Vec<ChannelDef>, entries: &Vec<ContactEntry>) -> (r: Result<
    Vec<ChannelTool>,
    ConfigError,
>)
    ensures
        outcome_matches(r, contacts_outcome(defs@, entries_view(entries@))),
{
    if entries.len() == 0 {
        return Err(ConfigError::NoEntries);
    }
    let ghost ev = entries_view(entries@);
    let mut seen: Vec<(String, String)> = Vec::new();
    let mut tools: Vec<ChannelTool> = Vec::new();
    let mut i: usize = 0;
    assert(tools_view(tools@) =~= Seq::<ToolView>::empty());
    assert(fields_view(seen@) =~= FieldsView::empty());
    assert(load_from(defs@, ev, 0, seq![]) =~= prepend(
        tools_view(tools@),
        load_from(defs@, ev, 0, fields_view(seen@)),
    ));
    while i < entries.len()
        invariant
            i <= entries.len(),
            ev == entries_view(entries@),
            load_from(defs@, ev, 0, seq![]) == prepend(
                tools_view(tools@),
                load_from(defs@, ev, i as int, fields_view(seen@)),
            ),
        decreases entries.len() - i,
    {
        let entry = &entries[i];
        assert(ev[i as int] == (entry.name@, fields_view(entry.fields@)));
        let ghost before = tools_view(tools@);
        let ghost seen_before = fields_view(seen@);
        match entry_channel_tools(defs, entry, &seen) {
            Err(e) => {
                return Err(e);
            },
            Ok((name, slug, ts)) => {
                let ghost added = tools_view(ts@);
                let mut ts = ts;
                tools.append(&mut ts);
                seen.push((slug, name));
                assert(tools_view(tools@) =~= before + added);
                proof {
                    lemma_prepend_assoc(
                        before,
                        added,
                        load_from(
                            defs@,
                            ev,
                            i + 1,
                            seen_before.push((slug_of(trim(entry.name@)), trim(entry.name@))),
                        ),
                    );
                }
                assert(fields_view(seen@) =~= seen_before.push(
                    (slug_of(trim(entry.name@)), trim(entry.name@)),
                ));
            },
        }
        i += 1;
    }
    Ok(tools)
}

/// The contact book with the channels of the registry.
pub fn load_contacts(entries: &Vec<ContactEntry>) -> (r: Result<Vec<ChannelTool>, ConfigError>)
    ensures
        outcome_matches(r, contacts_outcome(crate::channels::registry_spec(), entries_view(entries@))),
{
    let defs = crate::channels::registry();
    build_channel_tools(&defs, entries)
}

/// The config keys of the definitions, in their order.
pub open spec fn config_keys(defs: Seq<ChannelDef>) -> Seq<Seq<char>> {
    defs.map_values(|d: ChannelDef| d.config_key@)
}

/// The text that a refusal is reported with; `keys` are the known
/// channel fields.
pub open spec fn config_error_text(e: ConfigError, keys: Seq<Seq<char>>) -> Seq<char> {
    match e {
        ConfigError::NoEntries => "config.toml enthält keinen einzigen [[to]]-Eintrag — es gäbe kein einziges Tool zum Versenden"@,
        ConfigError::BlankName => "ein [[to]]-Eintrag hat einen leeren name"@,
        ConfigError::SlugCollision { existing, name, slug } => "Namenskollision in config.toml: '"@
            + existing@ + "' und '"@ + name@ + "' ergeben denselben Slug '"@ + slug@
            + "' und damit mehrdeutige Tool-Namen. Bitte einen der beiden Namen eindeutig machen (z.B. Nachname ergänzen) — der Server startet bewusst nicht mit mehrdeutigen Tool-Namen."@,
        ConfigError::UnknownFields { contact, fields } => "Kontakt '"@ + contact@
            + "' hat unbekannte Felder: "@ + join(strs_view(fields@), ", "@)
            + " (bekannte Kanal-Felder: "@ + join(keys, ", "@) + ")"@,
        ConfigError::InvalidValue { contact, key, cause } => "Kontakt '"@ + contact@
            + "' hat einen ungültigen Wert für '"@ + key@ + "'"@,
        ConfigError::NoChannel { contact } => "Kontakt '"@ + contact@
            + "' hat keinen einzigen Kanal konfiguriert (bekannte Kanal-Felder: "@ + join(
            keys,
            ", "@,
        ) + ")"@,
    }
}

fn known_keys(defs: &Vec<ChannelDef>) -> (r: Vec<String>)
    ensures
        strs_view(r@) == config_keys(defs@),
{
    let mut r: Vec<String> = Vec::new();
    let mut j: usize = 0;
    while j < defs.len()
        invariant
            j <= defs.len(),
            strs_view(r@) == config_keys(defs@).take(j as int),
        decreases defs.len() - j,
    {
        let ghost before = strs_view(r@);
        let key = defs[j].config_key.to_owned();
        assert(key@ == config_keys(defs@)[j as int]);
        r.push(key);
        assert(strs_view(r@) =~= before.push(config_keys(defs@)[j as int]));
        j += 1;
        assert(strs_view(r@) =~= config_keys(defs@).take(j as int));
    }
    assert(config_keys(defs@).take(defs.len() as int) =~= config_keys(defs@));
    r
}

impl ConfigError {
    /// The report of the refusal, naming the known channel fields of `defs`
    /// where that helps.
    pub fn message(&self, defs: &Vec<ChannelDef>) -> (r: String)
        ensures
            r@ == config_error_text(*self, config_keys(defs@)),
    {
        let mut r = String::new();
        match self {
            ConfigError::NoEntries => {
                push_str(
                    &mut r,
                    "config.toml enthält keinen einzigen [[to]]-Eintrag — es gäbe kein einziges Tool zum Versenden",
                );
            },
            ConfigError::BlankName => {
                push_str(&mut r, "ein [[to]]-Eintrag hat einen leeren name");
            },
            ConfigError::SlugCollision { existing, name, slug } => {
                push_str(&mut r, "Namenskollision in config.toml: '");
                push_str(&mut r, existing.as_str());
                push_str(&mut r, "' und '");
                push_str(&mut r, name.as_str());
                push_str(&mut r, "' ergeben denselben Slug '");
                push_str(&mut r, slug.as_str());
                push_str(
                    &mut r,
                    "' und damit mehrdeutige Tool-Namen. Bitte einen der beiden Namen eindeutig machen (z.B. Nachname ergänzen) — der Server startet bewusst nicht mit mehrdeutigen Tool-Namen.",
                );
            },
            ConfigError::UnknownFields { contact, fields } => {
                push_str(&mut r, "Kontakt '");
                push_str(&mut r, contact.as_str());
                push_str(&mut r, "' hat unbekannte Felder: ");
                let listed = join_strings(fields, ", ");
                push_str(&mut r, listed.as_str());
                push_str(&mut r, " (bekannte Kanal-Felder: ");
                let keys = join_strings(&known_keys(defs), ", ");
                push_str(&mut r, keys.as_str());
                push_str(&mut r, ")");
            },
            ConfigError::InvalidValue { contact, key, cause } => {
                push_str(&mut r, "Kontakt '");
                push_str(&mut r, contact.as_str());
                push_str(&mut r, "' hat einen ungültigen Wert für '");
                push_str(&mut r, key.as_str());
                push_str(&mut r, "'");
            },
            ConfigError::NoChannel { contact } => {
                push_str(&mut r, "Kontakt '");
                push_str(&mut r, contact.as_str());
                push_str(&mut r, "' hat keinen einzigen Kanal konfiguriert (bekannte Kanal-Felder: ");
                let keys = join_strings(&known_keys(defs), ", ");
                push_str(&mut r, keys.as_str());
                push_str(&mut r, ")");
            },
        }
        r
    }

    /// The report with its cause, for a refused address the channel's own
    /// report after a colon.
    pub fn full_message(&self, defs: &Vec<ChannelDef>) -> (r: String)
        ensures
            r@ == match *self {
                ConfigError::InvalidValue { cause, .. } => config_error_text(
                    *self,
                    config_keys(defs@),
                ) + ": "@ + crate::channels::value_error_text(cause.problem, cause.value@),
                _ => config_error_text(*self, config_keys(defs@)),
            },
    {
        let mut r = self.message(defs);
        match self {
            ConfigError::InvalidValue { cause, .. } => {
                push_str(&mut r, ": ");
                let m = cause.message();
                push_str(&mut r, m.as_str());
            },
            _ => {},
        }
        r
    }
}

/// A tool that the channel `defs[k]` yields for the contact: its fields
/// follow from the definition, the contact name and a non-empty address
/// that the channel's check accepts.
pub open spec fn produced_by(defs: Seq<ChannelDef>, k: int, t: ToolView) -> bool {
    &&& 0 <= k < defs.len()
    &&& t == tool_for(defs[k], t.contact, t.address)
    &&& t.address.len() > 0
    &&& value_problem(defs[k].kind, t.address) is None
}

pub open spec fn well_produced(defs: Seq<ChannelDef>, t: ToolView) -> bool {
    exists|k: int| #[trigger] produced_by(defs, k, t)
}

/// `t` comes from a definition at `j` or later, for the contact `name`.
pub open spec fn made_from(defs: Seq<ChannelDef>, j: int, name: Seq<char>, t: ToolView) -> bool {
    exists|k: int| j <= k && #[trigger] produced_by(defs, k, t) && t.contact == name
}

proof fn lemma_entry_tools_shape(
    defs: Seq<ChannelDef>,
    name: Seq<char>,
    fields: FieldsView,
    j: int,
)
    requires
        defs_well_formed(defs),
        0 <= j,
        entry_tools(defs, name, fields, j) is Ok,
    ensures
        ({
            let ts = entry_tools(defs, name, fields, j)->Ok_0;
            &&& forall|a: int| 0 <= a < ts.len() ==> made_from(defs, j, name, #[trigger] ts[a])
            &&& forall|a: int, b: int|
                0 <= a < b < ts.len() ==> (#[trigger] ts[a]).channel != (#[trigger] ts[b]).channel
        }),
    decreases defs.len() - j,
{
    if j < defs.len() {
        lemma_entry_tools_shape(defs, name, fields, j + 1);
        let d = defs[j];
        let rest = entry_tools(defs, name, fields, j + 1)->Ok_0;
        let ts = entry_tools(defs, name, fields, j)->Ok_0;
        let skipped = match lookup(fields, d.config_key@) {
            None => true,
            Some(raw) => trim(raw).len() == 0,
        };
        if skipped {
            assert(ts == rest);
            assert forall|a: int| 0 <= a < ts.len() implies made_from(defs, j, name, #[trigger] ts[a]) by {
                assert(made_from(defs, j + 1, name, rest[a]));
                let k = choose|k: int|
                    j + 1 <= k && #[trigger] produced_by(defs, k, rest[a]) && rest[a].contact
                        == name;
                assert(produced_by(defs, k, ts[a]));
            }
        } else {
            let address = trim(lookup(fields, d.config_key@)->Some_0);
            let t = tool_for(d, name, address);
            assert(ts == seq![t] + rest);
            assert(produced_by(defs, j, t));
            assert forall|a: int| 0 <= a < ts.len() implies made_from(defs, j, name, #[trigger] ts[a]) by {
                if a == 0 {
                    assert(produced_by(defs, j, ts[0]));
                } else {
                    assert(ts[a] == rest[a - 1]);
                    assert(made_from(defs, j + 1, name, rest[a - 1]));
                    let k = choose|k: int|
                        j + 1 <= k && #[trigger] produced_by(defs, k, rest[a - 1])
                            && rest[a - 1].contact == name;
                    assert(produced_by(defs, k, ts[a]));
                }
            }
            assert forall|a: int, b: int|
                0 <= a < b < ts.len() implies (#[trigger] ts[a]).channel != (
                #[trigger] ts[b]).channel by {
                assert(ts[b] == rest[b - 1]);
                if a == 0 {
                    assert(made_from(defs, j + 1, name, rest[b - 1]));
                    let k = choose|k: int|
                        j + 1 <= k && #[trigger] produced_by(defs, k, rest[b - 1])
                            && rest[b - 1].contact == name;
                    assert(defs[k].slug@ != defs[j].slug@);
                } else {
                    assert(ts[a] == rest[a - 1]);
                }
            }
        }
    }
}

proof fn lemma_lookup_push(pairs: FieldsView, key: Seq<char>, value: Seq<char>, x: Seq<char>)
    requires
        lookup(pairs.push((key, value)), x) is None,
    ensures
        x != key,
        lookup(pairs, x) is None,
    decreases pairs.len(),
{
    if pairs.len() > 0 {
        assert(pairs.push((key, value)).drop_first() =~= pairs.drop_first().push((key, value)));
        if pairs[0].0 != x {
            lemma_lookup_push(pairs.drop_first(), key, value, x);
        }
    } else {
        assert(pairs.push((key, value))[0] == (key, value));
    }
}

proof fn lemma_load_from_shape(
    defs: Seq<ChannelDef>,
    entries: Seq<(Seq<char>, FieldsView)>,
    i: int,
    seen: FieldsView,
)
    requires
        defs_well_formed(defs),
        0 <= i,
        load_from(defs, entries, i, seen) is Ok,
    ensures
        ({
            let ts = load_from(defs, entries, i, seen)->Ok_0;
            &&& forall|a: int| 0 <= a < ts.len() ==> lookup(seen, slug_of((#[trigger] ts[a]).contact)) is None
            &&& forall|a: int| 0 <= a < ts.len() ==> well_produced(defs, #[trigger] ts[a])
            &&& forall|a: int, b: int|
                0 <= a < b < ts.len() ==> slug_of((#[trigger] ts[a]).contact) != slug_of(
                    (#[trigger] ts[b]).contact,
                ) || ts[a].channel != ts[b].channel
            &&& forall|e: int|
                i <= e < entries.len() ==> exists|a: int|
                    0 <= a < ts.len() && (#[trigger] ts[a]).contact == trim(
                        (#[trigger] entries[e]).0,
                    )
        }),
    decreases entries.len() - i,
{
    if i < entries.len() {
        let name = trim(entries[i].0);
        let s = slug_of(name);
        let seen2 = seen.push((s, name));
        let ets = process_entry(defs, entries[i].0, entries[i].1, seen)->Ok_0;
        lemma_load_from_shape(defs, entries, i + 1, seen2);
        let rest = load_from(defs, entries, i + 1, seen2)->Ok_0;
        let ts = load_from(defs, entries, i, seen)->Ok_0;
        assert(ts == ets + rest);
        lemma_entry_tools_shape(defs, name, entries[i].1, 0);
        assert(ets == entry_tools(defs, name, entries[i].1, 0)->Ok_0);
        assert(lookup(seen, s) is None);
        assert forall|a: int| 0 <= a < ts.len() implies lookup(seen, slug_of((#[trigger] ts[a]).contact)) is None by {
            if a >= ets.len() {
                assert(ts[a] == rest[a - ets.len()]);
                lemma_lookup_push(seen, s, name, slug_of(rest[a - ets.len()].contact));
            } else {
                assert(ts[a] == ets[a]);
            }
        }
        assert forall|a: int| 0 <= a < ts.len() implies well_produced(defs, #[trigger] ts[a]) by {
            if a >= ets.len() {
                assert(ts[a] == rest[a - ets.len()]);
            } else {
                assert(ts[a] == ets[a]);
                assert(made_from(defs, 0, name, ets[a]));
                let k = choose|k: int| 0 <= k && #[trigger] produced_by(defs, k, ets[a]) && ets[a].contact == name;
                assert(produced_by(defs, k, ts[a]));
            }
        }
        assert forall|a: int, b: int|
            0 <= a < b < ts.len() implies slug_of((#[trigger] ts[a]).contact) != slug_of(
                (#[trigger] ts[b]).contact,
            ) || ts[a].channel != ts[b].channel by {
            if b < ets.len() {
                assert(ts[a] == ets[a] && ts[b] == ets[b]);
            } else if a < ets.len() {
                assert(ts[a] == ets[a] && ts[b] == rest[b - ets.len()]);
                lemma_lookup_push(seen, s, name, slug_of(rest[b - ets.len()].contact));
            } else {
                assert(ts[a] == rest[a - ets.len()] && ts[b] == rest[b - ets.len()]);
            }
        }
        assert forall|e: int|
            i <= e < entries.len() implies exists|a: int|
                0 <= a < ts.len() && (#[trigger] ts[a]).contact == trim((#[trigger] entries[e]).0) by {
            if e == i {
                assert(ts[0] == ets[0]);
                assert(ts[0].contact == trim(entries[e].0));
            } else {
                let a = choose|a: int|
                    0 <= a < rest.len() && (#[trigger] rest[a]).contact == trim(entries[e].0);
                assert(ts[ets.len() + a] == rest[a]);
            }
        }
    }
}

/// Two tool names agree only when contact slug and channel slug agree, as
/// long as the channel slugs hold no `_`.
pub proof fn lemma_tool_name_injective(s1: Seq<char>, c1: Seq<char>, s2: Seq<char>, c2: Seq<char>)
    requires
        forall|k: int| 0 <= k < c1.len() ==> c1[k] != '_',
        forall|k: int| 0 <= k < c2.len() ==> c2[k] != '_',
        tool_name_of(s1, c1) == tool_name_of(s2, c2),
    ensures
        s1 == s2,
        c1 == c2,
{
    reveal_strlit("_via_");
    reveal_strlit("send_to_");
    let x = tool_name_of(s1, c1);
    let y = tool_name_of(s2, c2);
    let n = x.len();
    if c1.len() < c2.len() {
        let p = n - c1.len() - 1;
        assert(x[p] == '_');
        assert(y[p] == c2[c2.len() - c1.len() - 1]);
    } else if c2.len() < c1.len() {
        let p = n - c2.len() - 1;
        assert(y[p] == '_');
        assert(x[p] == c1[c1.len() - c2.len() - 1]);
    } else {
        assert(c1 =~= x.skip(n - c1.len()));
        assert(c2 =~= y.skip(n - c2.len()));
        assert(s1 =~= x.subrange(8, n - c1.len() - 5));
        assert(s2 =~= y.subrange(8, n - c2.len() - 5));
    }
}

/// No two tools share a name, whatever the contact book holds: contacts
/// whose names give the same slug are refused, and the channels of one
/// contact have different slugs.
pub proof fn lemma_tool_names_distinct(defs: Seq<ChannelDef>, entries: Seq<(Seq<char>, FieldsView)>)
    requires
        defs_well_formed(defs),
        contacts_outcome(defs, entries) is Ok,
    ensures
        ({
            let ts = contacts_outcome(defs, entries)->Ok_0;
            forall|a: int, b: int|
                0 <= a < b < ts.len() ==> (#[trigger] ts[a]).tool_name != (#[trigger] ts[b]).tool_name
        }),
{
    lemma_load_from_shape(defs, entries, 0, seq![]);
    let ts = contacts_outcome(defs, entries)->Ok_0;
    assert forall|a: int, b: int|
        0 <= a < b < ts.len() implies (#[trigger] ts[a]).tool_name != (#[trigger] ts[b]).tool_name by {
        assert(well_produced(defs, ts[a]));
        assert(well_produced(defs, ts[b]));
        let ka = choose|k: int| #[trigger] produced_by(defs, k, ts[a]);
        let kb = choose|k: int| #[trigger] produced_by(defs, k, ts[b]);
        if ts[a].tool_name == ts[b].tool_name {
            lemma_tool_name_injective(
                slug_of(ts[a].contact),
                defs[ka].slug@,
                slug_of(ts[b].contact),
                defs[kb].slug@,
            );
        }
    }
}

/// Every tool is `send_to_<slug>_via_<channel>` for the slug of its contact
/// (an identifier of `[a-z0-9_]`) and a channel of the definitions, carries
/// that channel's display name in its title, and has a non-empty address
/// that the channel's check accepts; and every entry of the contact book
/// has at least one tool.
pub proof fn lemma_tools_well_formed(defs: Seq<ChannelDef>, entries: Seq<(Seq<char>, FieldsView)>)
    requires
        defs_well_formed(defs),
        contacts_outcome(defs, entries) is Ok,
    ensures
        ({
            let ts = contacts_outcome(defs, entries)->Ok_0;
            &&& forall|a: int|
                0 <= a < ts.len() ==> exists|k: int|
                    0 <= k < defs.len() && (#[trigger] ts[a]).tool_name == tool_name_of(
                        slug_of(ts[a].contact),
                        defs[k].slug@,
                    ) && ts[a].title == title_of(ts[a].contact, defs[k].display_name@)
                        && ts[a].address.len() > 0 && value_problem(defs[k].kind, ts[a].address) is None
            &&& forall|a: int| 0 <= a < ts.len() ==> is_slug(slug_of((#[trigger] ts[a]).contact))
            &&& forall|e: int|
                0 <= e < entries.len() ==> exists|a: int|
                    0 <= a < ts.len() && (#[trigger] ts[a]).contact == trim((#[trigger] entries[e]).0)
        }),
{
    lemma_load_from_shape(defs, entries, 0, seq![]);
    let ts = contacts_outcome(defs, entries)->Ok_0;
    assert forall|a: int|
        0 <= a < ts.len() implies exists|k: int|
            0 <= k < defs.len() && (#[trigger] ts[a]).tool_name == tool_name_of(
                slug_of(ts[a].contact),
                defs[k].slug@,
            ) && ts[a].title == title_of(ts[a].contact, defs[k].display_name@)
                && ts[a].address.len() > 0 && value_problem(defs[k].kind, ts[a].address) is None by {
        assert(well_produced(defs, ts[a]));
        let k = choose|k: int| #[trigger] produced_by(defs, k, ts[a]);
        assert(produced_by(defs, k, ts[a]));
    }
    assert forall|a: int| 0 <= a < ts.len() implies is_slug(slug_of((#[trigger] ts[a]).contact)) by {
        lemma_slug_shape(ts[a].contact);
    }
}

/// The name and the title of a tool depend on the contact and the channel
/// only, never on the address: the agent sees who and how, not where.
pub proof fn lemma_tool_identity_hides_address(
    d: ChannelDef,
    name: Seq<char>,
    a1: Seq<char>,
    a2: Seq<char>,
)
    ensures
        tool_for(d, name, a1).tool_name == tool_for(d, name, a2).tool_name,
        tool_for(d, name, a1).title == tool_for(d, name, a2).title,
{
}

/// With the channels of the registry, no two loaded tools share a name.
pub proof fn lemma_loaded_tool_names_distinct(entries: Seq<(Seq<char>, FieldsView)>)
    requires
        contacts_outcome(crate::channels::registry_spec(), entries) is Ok,
    ensures
        ({
            let ts = contacts_outcome(crate::channels::registry_spec(), entries)->Ok_0;
            forall|a: int, b: int|
                0 <= a < b < ts.len() ==> (#[trigger] ts[a]).tool_name != (#[trigger] ts[b]).tool_name
        }),
{
    crate::channels::lemma_registry_well_formed();
    lemma_tool_names_distinct(crate::channels::registry_spec(), entries);
}

proof fn lemma_unknown_keys_lists(defs: Seq<ChannelDef>, fields: FieldsView, i: int)
    requires
        0 <= i < fields.len(),
        forall|j: int| 0 <= j < defs.len() ==> (#[trigger] defs[j]).config_key@ != fields[i].0,
    ensures
        unknown_keys(defs, fields).contains(fields[i].0),
    decreases fields.len(),
{
    let u = unknown_keys(defs, fields);
    let head = if is_known_key(defs, fields[0].0) {
        Seq::<Seq<char>>::empty()
    } else {
        seq![fields[0].0]
    };
    let rest = unknown_keys(defs, fields.drop_first());
    assert(u == head + rest);
    if i == 0 {
        assert(!is_known_key(defs, fields[0].0));
        assert(u[0] == fields[0].0);
    } else {
        assert(fields.drop_first()[i - 1] == fields[i]);
        lemma_unknown_keys_lists(defs, fields.drop_first(), i - 1);
        let k = choose|k: int| 0 <= k < rest.len() && rest[k] == fields[i].0;
        assert(u[head.len() + k] == fields[i].0);
    }
}

/// A field is known only when its key equals the config key of a channel:
/// an entry (with a non-blank name whose slug is new) that has a field
/// whose key equals none of them is refused with `UnknownFields`, and the
/// refusal names that key.
pub proof fn lemma_unknown_field_refused(
    defs: Seq<ChannelDef>,
    raw_name: Seq<char>,
    fields: FieldsView,
    seen: FieldsView,
    i: int,
)
    requires
        0 <= i < fields.len(),
        forall|j: int| 0 <= j < defs.len() ==> (#[trigger] defs[j]).config_key@ != fields[i].0,
        trim(raw_name).len() > 0,
        lookup(seen, slug_of(trim(raw_name))) is None,
    ensures
        process_entry(defs, raw_name, fields, seen) matches Err(
            ConfigIssue::UnknownFields { contact, fields: listed },
        ) && contact == trim(raw_name) && listed.contains(fields[i].0),
{
    lemma_unknown_keys_lists(defs, fields, i);
}

/// The same for the whole book: when the first entry has a non-blank name
/// and a field whose key is no channel's config key, the book is refused
/// with `UnknownFields` for that contact, naming the key.
pub proof fn lemma_unknown_field_refuses_book(
    defs: Seq<ChannelDef>,
    entries: Seq<(Seq<char>, FieldsView)>,
    i: int,
)
    requires
        entries.len() > 0,
        0 <= i < entries[0].1.len(),
        forall|j: int| 0 <= j < defs.len() ==> (#[trigger] defs[j]).config_key@
            != entries[0].1[i].0,
        trim(entries[0].0).len() > 0,
    ensures
        contacts_outcome(defs, entries) matches Err(
            ConfigIssue::UnknownFields { contact, fields: listed },
        ) && contact == trim(entries[0].0) && listed.contains(entries[0].1[i].0),
{
    let empty = FieldsView::empty();
    assert(lookup(empty, slug_of(trim(entries[0].0))) is None);
    lemma_unknown_field_refused(defs, entries[0].0, entries[0].1, empty, i);
}

} // verus!
