//! Edits of the cloud configuration as a TOML document, which keep its comments
//! and its layout.

use vstd::prelude::*;

use crate::text::str_eq;
use crate::types::{super_text, SvcKind};

verus! {

/// A TOML document.
#[verifier::external_type_specification]
#[verifier::external_body]
pub struct ExDocumentMut(toml_edit::DocumentMut);

/// What the table of a server says of its name, and of the names of its inbounds.
pub struct ServerTable {
    pub name: Option<String>,
    /// Nothing where the table holds no array of tables for its inbounds.
    pub inbounds: Option<Vec<Option<String>>>,
}

#[verifier::ext_equal]
pub struct ServerTableView {
    pub name: Option<Seq<char>>,
    pub inbounds: Option<Seq<Option<Seq<char>>>>,
}

pub open spec fn name_views(s: Seq<Option<String>>) -> Seq<Option<Seq<char>>> {
    s.map_values(|n: Option<String>| crate::text::opt_text(n))
}

impl View for ServerTable {
    type V = ServerTableView;

    open spec fn view(&self) -> ServerTableView {
        ServerTableView {
            name: crate::text::opt_text(self.name),
            inbounds: match self.inbounds {
                Some(v) => Some(name_views(v@)),
                None => None,
            },
        }
    }
}

pub open spec fn table_views(s: Seq<ServerTable>) -> Seq<ServerTableView> {
    s.map_values(|t: ServerTable| t@)
}

/// The document that a text stands for, or the message of the error.
pub uninterp spec fn toml_of(text: Seq<char>) -> Result<toml_edit::DocumentMut, Seq<char>>;

/// The tables of the array under `servers`; nothing where there is no such array.
pub uninterp spec fn config_servers(doc: toml_edit::DocumentMut) -> Option<Seq<ServerTableView>>;

/// The document with another state in the table of a server.
pub uninterp spec fn with_state(
    doc: toml_edit::DocumentMut,
    i: int,
    state: Seq<char>,
) -> toml_edit::DocumentMut;

/// The document with the inbounds of a server that are kept, and no others.
pub uninterp spec fn with_kept(doc: toml_edit::DocumentMut, i: int) -> toml_edit::DocumentMut;

/// The document as a text.
pub uninterp spec fn toml_text(doc: toml_edit::DocumentMut) -> Seq<char>;

/// `toml_edit::DocumentMut::from_str`: the document, or the message of the error,
/// is a function of the text.
#[verifier::external_body]
fn parse_config(text: &str) -> (r: Result<toml_edit::DocumentMut, String>)
    ensures
        match r {
            Ok(doc) => toml_of(text@) == Ok::<toml_edit::DocumentMut, Seq<char>>(doc),
            Err(e) => toml_of(text@) == Err::<toml_edit::DocumentMut, Seq<char>>(e@),
        },
{
    text.parse::<toml_edit::DocumentMut>().map_err(|e| e.to_string())
}

/// `toml_edit::Table::get`, `as_array_of_tables` and `as_str`: the names in the
/// tables of the servers, where they are texts.
#[verifier::external_body]
fn server_tables(doc: &toml_edit::DocumentMut) -> (r: Option<Vec<ServerTable>>)
    ensures
        match r {
            Some(v) => config_servers(*doc) == Some(table_views(v@)),
            None => config_servers(*doc) is None,
        },
{
    let name = |t: &toml_edit::Table| t.get("name").and_then(|n| n.as_str()).map(|n| n.to_owned());
    let tables = doc.get("servers").and_then(|s| s.as_array_of_tables())?;
    Some(tables.iter().map(|t| ServerTable {
        name: name(t),
        inbounds: t.get("inbounds").and_then(|i| i.as_array_of_tables()).map(
            |a| a.iter().map(name).collect(),
        ),
    }).collect())
}

/// Assignment through `toml_edit`'s mutable index: the table of a server gets the
/// state, and its name and inbounds and all other tables stay.
#[verifier::external_body]
fn set_state(doc: &mut toml_edit::DocumentMut, i: usize, state: &str)
    requires
        config_servers(*old(doc)) is Some,
        i < config_servers(*old(doc))->Some_0.len(),
    ensures
        *final(doc) == with_state(*old(doc), i as int, state@),
        config_servers(*final(doc)) == config_servers(*old(doc)),
{
    doc["servers"][i]["state"] = toml_edit::value(state);
}

/// `toml_edit::ArrayOfTables::retain`: of the inbounds of a server those that are
/// kept stay, in order, and everything else stays too.
#[verifier::external_body]
fn keep_inbounds(doc: &mut toml_edit::DocumentMut, i: usize)
    requires
        config_servers(*old(doc)) is Some,
        i < config_servers(*old(doc))->Some_0.len(),
        config_servers(*old(doc))->Some_0[i as int].inbounds is Some,
    ensures
        *final(doc) == with_kept(*old(doc), i as int),
        config_servers(*final(doc)) == Some(
            config_servers(*old(doc))->Some_0.update(
                i as int,
                kept_table(config_servers(*old(doc))->Some_0[i as int]),
            ),
        ),
{
    if let Some(inbounds) = doc["servers"][i]["inbounds"].as_array_of_tables_mut() {
        inbounds.retain(|inb| is_kept(inb.get("name").and_then(|n| n.as_str())));
    }
}

/// `toml_edit::DocumentMut::to_string`: the text is a function of the document.
#[verifier::external_body]
fn print_config(doc: &toml_edit::DocumentMut) -> (r: String)
    ensures
        r@ == toml_text(*doc),
{
    doc.to_string()
}

/// The name is not that of the supervisor's inbound.
pub open spec fn kept_name(name: Option<Seq<char>>) -> bool {
    name != Some(super_text())
}

/// Is an inbound of this name kept? All are but the supervisor's.
pub fn is_kept(name: Option<&str>) -> (r: bool)
    ensures
        r == kept_name(match name {
            Some(n) => Some(n@),
            None => None,
        }),
{
    match name {
        Some(n) => {
            let s = SvcKind::super_name();
            !str_eq(n, s.as_str())
        },
        None => true,
    }
}

/// The kept ones among the first `k` names.
pub open spec fn kept_upto(names: Seq<Option<Seq<char>>>, k: int) -> Seq<Option<Seq<char>>>
    decreases k,
{
    if k <= 0 {
        Seq::empty()
    } else if kept_name(names[k - 1]) {
        kept_upto(names, k - 1).push(names[k - 1])
    } else {
        kept_upto(names, k - 1)
    }
}

/// The table of a server with the inbounds that are kept.
pub open spec fn kept_table(t: ServerTableView) -> ServerTableView {
    ServerTableView {
        name: t.name,
        inbounds: match t.inbounds {
            Some(names) => Some(kept_upto(names, names.len() as int)),
            None => None,
        },
    }
}

// ---------------------------------------------------------------- production

/// The first table from a place on that has the name.
pub open spec fn table_named(tables: Seq<ServerTableView>, name: Seq<char>, i: int) -> Option<int>
    decreases tables.len() - i,
{
    if i >= tables.len() {
        None
    } else if tables[i].name == Some(name) {
        Some(i)
    } else {
        table_named(tables, name, i + 1)
    }
}

/// Finds the table of a server.
pub fn find_table(tables: &Vec<ServerTable>, name: &str) -> (r: Option<usize>)
    ensures
        match r {
            Some(i) => i < tables@.len() && table_named(table_views(tables@), name@, 0) == Some(
                i as int,
            ),
            None => table_named(table_views(tables@), name@, 0) is None,
        },
{
    let ghost views = table_views(tables@);
    let mut i: usize = 0;
    while i < tables.len()
        invariant
            i <= tables@.len(),
            views == table_views(tables@),
            table_named(views, name@, 0) == table_named(views, name@, i as int),
        decreases tables@.len() - i,
    {
        assert(views[i as int] == tables@[i as int]@);
        if let Some(n) = &tables[i].name {
            if str_eq(n.as_str(), name) {
                return Some(i);
            }
        }
        i += 1;
    }
    None
}

pub open spec fn no_servers_text() -> Seq<char> {
    "servers must be an array of tables in cloud config."@
}

/// The configuration with a server marked as Production, or why it cannot be.
pub open spec fn marked(text: Seq<char>, name: Seq<char>) -> Result<Seq<char>, Seq<char>> {
    match toml_of(text) {
        Err(e) => Err(e),
        Ok(doc) => match config_servers(doc) {
            None => Err(no_servers_text()),
            Some(tables) => match table_named(tables, name, 0) {
                Some(i) => Ok(toml_text(with_state(doc, i, "Production"@))),
                None => Ok(toml_text(doc)),
            },
        },
    }
}

/// Marks a server as Production in the configuration; one that is not declared
/// there leaves it as it is.
pub fn mark_production(text: &str, name: &str) -> (r: Result<String, String>)
    ensures
        match r {
            Ok(t) => marked(text@, name@) == Ok::<Seq<char>, Seq<char>>(t@),
            Err(e) => marked(text@, name@) == Err::<Seq<char>, Seq<char>>(e@),
        },
{
    let mut doc = match parse_config(text) {
        Ok(d) => d,
        Err(e) => return Err(e),
    };
    let tables = match server_tables(&doc) {
        Some(t) => t,
        None => return Err("servers must be an array of tables in cloud config.".to_owned()),
    };
    assert(table_views(tables@).len() == tables@.len());
    if let Some(i) = find_table(&tables, name) {
        set_state(&mut doc, i, "Production");
    }
    Ok(print_config(&doc))
}

// ---------------------------------------------------------------- the backup

/// The document without the supervisor's inbounds in the first `k` servers.
pub open spec fn stripped_upto(doc: toml_edit::DocumentMut, k: int) -> toml_edit::DocumentMut
    decreases k,
{
    if k <= 0 {
        doc
    } else {
        let before = stripped_upto(doc, k - 1);
        if config_servers(doc)->Some_0[k - 1].inbounds is Some {
            with_kept(before, k - 1)
        } else {
            before
        }
    }
}

/// The document without the supervisor's inbounds.
pub open spec fn stripped(doc: toml_edit::DocumentMut) -> toml_edit::DocumentMut {
    stripped_upto(doc, config_servers(doc)->Some_0.len() as int)
}

/// Removes the supervisor's inbounds, which no user declares, and nothing else.
pub fn strip_super(doc: &mut toml_edit::DocumentMut) -> (r: Result<(), String>)
    ensures
        match config_servers(*old(doc)) {
            None => r matches Err(e) && e@ == no_servers_text() && *final(doc) == *old(doc),
            Some(tables) => {
                &&& r is Ok
                &&& *final(doc) == stripped(*old(doc))
                &&& config_servers(*final(doc)) is Some
                &&& config_servers(*final(doc))->Some_0.len() == tables.len()
                &&& forall|i: int|
                    0 <= i < tables.len() ==> #[trigger] config_servers(*final(doc))->Some_0[i]
                        == kept_table(tables[i])
            },
        },
{
    let tables = match server_tables(doc) {
        Some(t) => t,
        None => return Err("servers must be an array of tables in cloud config.".to_owned()),
    };
    let ghost start = *doc;
    let ghost all = table_views(tables@);
    let mut i: usize = 0;
    while i < tables.len()
        invariant
            i <= tables@.len(),
            start == *old(doc),
            all == table_views(tables@),
            config_servers(start) == Some(all),
            *doc == stripped_upto(start, i as int),
            config_servers(*doc) is Some,
            config_servers(*doc)->Some_0.len() == all.len(),
            forall|j: int| i <= j < all.len() ==> #[trigger] config_servers(*doc)->Some_0[j] == all[j],
            forall|j: int|
                0 <= j < i ==> #[trigger] config_servers(*doc)->Some_0[j] == kept_table(all[j]),
        decreases tables@.len() - i,
    {
        assert(all[i as int] == tables@[i as int]@);
        assert(config_servers(*doc)->Some_0[i as int] == all[i as int]);
        if tables[i].inbounds.is_some() {
            keep_inbounds(doc, i);
        }
        i += 1;
    }
    Ok(())
}

/// The text of a backup of the configuration.
pub fn backup_text(text: &str) -> (r: Result<String, String>)
    ensures
        match toml_of(text@) {
            Err(e) => r matches Err(m) && m@ == e,
            Ok(doc) => if config_servers(doc) is None {
                r matches Err(m) && m@ == no_servers_text()
            } else {
                r matches Ok(t) && t@ == toml_text(stripped(doc))
            },
        },
{
    let mut doc = match parse_config(text) {
        Ok(d) => d,
        Err(e) => return Err(e),
    };
    match strip_super(&mut doc) {
        Ok(_) => Ok(print_config(&doc)),
        Err(e) => Err(e),
    }
}

/// No table that was stripped names the supervisor's inbound, and every other
/// inbound is still named.
pub proof fn law_stripped_tables_keep_the_rest(
    names: Seq<Option<Seq<char>>>,
    name: Option<Seq<char>>,
)
    ensures
        kept_upto(names, names.len() as int).contains(name) <==> names.contains(name) && name
            != Some(super_text()),
{
    lemma_kept(names, names.len() as int, name);
    assert(names.take(names.len() as int) =~= names);
}

proof fn lemma_kept(names: Seq<Option<Seq<char>>>, k: int, name: Option<Seq<char>>)
    requires
        0 <= k <= names.len(),
    ensures
        kept_upto(names, k).contains(name) <==> exists|i: int|
            0 <= i < k && #[trigger] names[i] == name && kept_name(name),
    decreases k,
{
    if k > 0 {
        lemma_kept(names, k - 1, name);
        let before = kept_upto(names, k - 1);
        let now = kept_upto(names, k);
        if kept_name(names[k - 1]) {
            assert(now[before.len() as int] == names[k - 1]);
            if before.contains(name) {
                let i = choose|i: int| 0 <= i < before.len() && before[i] == name;
                assert(now[i] == name);
            }
            if now.contains(name) && name != names[k - 1] {
                let i = choose|i: int| 0 <= i < now.len() && now[i] == name;
                assert(before[i] == name);
            }
        }
    }
}

/// The first table with the name of a server is the one that is marked; without one the
/// configuration stays as it is, and what is no configuration is refused.
pub proof fn law_first_table_is_marked(text: Seq<char>, name: Seq<char>, i: int)
    requires
        toml_of(text) is Ok,
    ensures
        ({
            let doc = toml_of(text)->Ok_0;
            let tables = config_servers(doc)->Some_0;
            &&& config_servers(doc) is None ==> marked(text, name) == Err::<Seq<char>, Seq<char>>(
                "servers must be an array of tables in cloud config."@,
            )
            &&& config_servers(doc) is Some && 0 <= i < tables.len() && tables[i].name == Some(name)
                && (forall|j: int| 0 <= j < i ==> (#[trigger] tables[j]).name != Some(name))
                ==> marked(text, name) == Ok::<Seq<char>, Seq<char>>(
                toml_text(with_state(doc, i, "Production"@)),
            )
            &&& config_servers(doc) is Some && (forall|j: int|
                0 <= j < tables.len() ==> (#[trigger] tables[j]).name != Some(name)) ==> marked(
                text,
                name,
            ) == Ok::<Seq<char>, Seq<char>>(toml_text(doc))
        }),
{
    let doc = toml_of(text)->Ok_0;
    let tables = config_servers(doc)->Some_0;
    if 0 <= i < tables.len() && tables[i].name == Some(name) && (forall|j: int|
        0 <= j < i ==> (#[trigger] tables[j]).name != Some(name)) {
        lemma_table_found(tables, name, 0, i);
    }
    if forall|j: int| 0 <= j < tables.len() ==> (#[trigger] tables[j]).name != Some(name) {
        lemma_no_table(tables, name, 0);
    }
}

proof fn lemma_table_found(tables: Seq<ServerTableView>, name: Seq<char>, k: int, i: int)
    requires
        0 <= k <= i < tables.len(),
        tables[i].name == Some(name),
        forall|j: int| 0 <= j < i ==> (#[trigger] tables[j]).name != Some(name),
    ensures
        table_named(tables, name, k) == Some(i),
    decreases i - k,
{
    if k < i {
        assert(tables[k].name != Some(name));
        lemma_table_found(tables, name, k + 1, i);
    }
}

proof fn lemma_no_table(tables: Seq<ServerTableView>, name: Seq<char>, k: int)
    requires
        0 <= k,
        forall|j: int| 0 <= j < tables.len() ==> (#[trigger] tables[j]).name != Some(name),
    ensures
        table_named(tables, name, k) is None,
    decreases tables.len() - k,
{
    if k < tables.len() {
        assert(tables[k].name != Some(name));
        lemma_no_table(tables, name, k + 1);
    }
}

/// The inbounds that are kept stay in their order: one more name is kept behind the others
/// unless it is that of the supervisor.
pub proof fn law_kept_inbounds_stay_in_order(t: ServerTableView, u: ServerTableView, name: Option<Seq<char>>)
    requires
        t.inbounds is Some,
        u.inbounds == Some(t.inbounds->Some_0.push(name)),
    ensures
        kept_table(t).name == t.name,
        kept_table(t).inbounds is Some,
        kept_table(u).inbounds == Some(
            if name == Some("super"@) {
                kept_table(t).inbounds->Some_0
            } else {
                kept_table(t).inbounds->Some_0.push(name)
            },
        ),
{
    let a = t.inbounds->Some_0;
    lemma_kept_prefix(a.push(name), a, a.len() as int);
}

proof fn lemma_kept_prefix(a: Seq<Option<Seq<char>>>, b: Seq<Option<Seq<char>>>, k: int)
    requires
        k <= a.len(),
        k <= b.len(),
        forall|i: int| 0 <= i < k ==> #[trigger] a[i] == b[i],
    ensures
        kept_upto(a, k) == kept_upto(b, k),
    decreases k,
{
    if k > 0 {
        lemma_kept_prefix(a, b, k - 1);
        assert(a[k - 1] == b[k - 1]);
    }
}

} // verus!
