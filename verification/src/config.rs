//! Settings, and what they default to.
use vstd::prelude::*;

use crate::text::same_text;

verus! {

/// How to open the database.
#[derive(Debug, Clone, Copy, PartialEq, Eq, Structural)]
pub struct PoolSettings {
    /// How many connections to open at most.
    pub max_connections: u32,
    /// Whether to write ahead of the database file.
    pub write_ahead: bool,
}

/// The setting, or what it defaults to.
pub open spec fn or_default(value: Option<Seq<char>>, default: Seq<char>) -> Seq<char> {
    match value {
        Some(v) => v,
        None => default,
    }
}

fn or_else(value: Option<String>, default: &str) -> (r: String)
    ensures
        r@ == or_default(crate::message::optional_text(value), default@),
{
    match value {
        Some(v) => v,
        None => default.to_owned(),
    }
}

/// The address of the database: what the environment sets, or a file in the
/// working directory.
pub fn database_url(set: Option<String>) -> (r: String)
    ensures
        r@ == or_default(crate::message::optional_text(set), "sqlite://./georuggine.db"@),
{
    or_else(set, "sqlite://./georuggine.db")
}

/// The address on which the server listens.
pub open spec fn server_address(set: Option<Seq<char>>) -> Seq<char> {
    or_default(set, "127.0.0.1:7878"@)
}

/// The address to which a client connects.
pub open spec fn client_address(set: Option<Seq<char>>) -> Seq<char> {
    or_default(set, "ws://127.0.0.1:7878/ws"@)
}

/// How to open the database at an address.
pub open spec fn settings_for(url: Seq<char>) -> PoolSettings {
    if url == "sqlite::memory:"@ {
        PoolSettings { max_connections: 1, write_ahead: false }
    } else {
        PoolSettings { max_connections: 8, write_ahead: true }
    }
}

/// The address on which the server listens. Unless the environment sets it, it can
/// be reached from the same machine only.
pub fn server_addr(set: Option<String>) -> (r: String)
    ensures
        r@ == server_address(crate::message::optional_text(set)),
        r@ == or_default(crate::message::optional_text(set), "127.0.0.1:7878"@),
{
    or_else(set, "127.0.0.1:7878")
}

/// The address to which a client connects.
pub fn client_addr(set: Option<String>) -> (r: String)
    ensures
        r@ == client_address(crate::message::optional_text(set)),
        r@ == or_default(crate::message::optional_text(set), "ws://127.0.0.1:7878/ws"@),
{
    or_else(set, "ws://127.0.0.1:7878/ws")
}

/// How to open the database at an address. One in memory has a single connection,
/// or each would see another one.
pub fn pool_settings(url: &str) -> (r: PoolSettings)
    ensures
        r == settings_for(url@),
        r == if url@ == "sqlite::memory:"@ {
            PoolSettings { max_connections: 1, write_ahead: false }
        } else {
            PoolSettings { max_connections: 8, write_ahead: true }
        },
{
    if same_text(url, "sqlite::memory:") {
        PoolSettings { max_connections: 1, write_ahead: false }
    } else {
        PoolSettings { max_connections: 8, write_ahead: true }
    }
}

/// The folder of the web pages: the first of two that holds a page, when it is
/// known of each whether it does.
pub fn web_base(here: bool, above: bool) -> (r: &'static str)
    ensures
        r@ == if !here && above {
            "../web"@
        } else {
            "web"@
        },
{
    if here {
        "web"
    } else if above {
        "../web"
    } else {
        "web"
    }
}

/// The page to show: the one that was read, or a note that there is none.
pub fn index_page(body: Option<String>) -> (r: String)
    ensures
        r@ == or_default(
            crate::message::optional_text(body),
            "<h1>georuggine</h1><p>web/index.html not found</p>"@,
        ),
{
    or_else(body, "<h1>georuggine</h1><p>web/index.html not found</p>")
}

/// What is set counts; what is not set is the default.
pub proof fn law_settings(v: Seq<char>, default: Seq<char>)
    ensures
        or_default(Some(v), default) == v,
        or_default(None, default) == default,
{
}

/// Without settings a client finds the server: it connects to the address on which the
/// server listens, over the path `/ws`.
pub proof fn law_client_finds_the_server()
    ensures
        client_address(None) == "ws://"@ + server_address(None) + "/ws"@,
        server_address(None) == "127.0.0.1:7878"@,
{
    reveal_strlit("ws://127.0.0.1:7878/ws");
    reveal_strlit("ws://");
    reveal_strlit("127.0.0.1:7878");
    reveal_strlit("/ws");
    assert("ws://127.0.0.1:7878/ws"@ =~= "ws://"@ + "127.0.0.1:7878"@ + "/ws"@);
}

/// A database in memory has one connection and no file to write ahead of; every other has
/// up to eight, and is written ahead of.
pub proof fn law_databases(url: Seq<char>)
    ensures
        settings_for(url).write_ahead <==> url != "sqlite::memory:"@,
        settings_for(url).max_connections == if settings_for(url).write_ahead {
            8u32
        } else {
            1
        },
{
}

} // verus!
