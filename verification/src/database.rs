//! The sticker index is an SQLite table; this module says which statement, with
//! which parameters, each operation runs, and how a row becomes a `Sticker`.
use vstd::prelude::*;
use vstd::string::StringExecFns;
use crate::models::Sticker;
use crate::text::{decimal, push_decimal, same_text};

verus! {

/// A statement parameter.
#[derive(Clone, Debug)]
pub enum SqlValue {
    Int(i64),
    Text(String),
}

/// A parameter as the contracts see it.
pub enum Param {
    Int(int),
    Text(Seq<char>),
}

impl View for SqlValue {
    type V = Param;

    open spec fn view(&self) -> Param {
        match self {
            SqlValue::Int(i) => Param::Int(*i as int),
            SqlValue::Text(t) => Param::Text(t@),
        }
    }
}

/// An SQL statement with its positional parameters (`?1` is the first).
#[derive(Clone, Debug)]
pub struct SqlStatement {
    pub sql: String,
    pub params: Vec<SqlValue>,
}

impl View for SqlStatement {
    type V = (Seq<char>, Seq<Param>);

    open spec fn view(&self) -> (Seq<char>, Seq<Param>) {
        (self.sql@, self.params@.map_values(|p: SqlValue| p@))
    }
}

/// A statement without parameters.
fn plain(sql: &str) -> (r: SqlStatement)
    ensures
        r@ == (sql@, Seq::<Param>::empty()),
{
    let r = SqlStatement { sql: String::from_str(sql), params: Vec::new() };
    assert(r@.1 =~= Seq::<Param>::empty());
    r
}

/// A text parameter.
fn text(s: &str) -> (r: SqlValue)
    ensures
        r@ == Param::Text(s@),
{
    SqlValue::Text(String::from_str(s))
}

/// The statement that creates the sticker table when it does not exist.
pub fn schema_statement() -> (r: SqlStatement)
    ensures
        r@ == (
            "CREATE TABLE IF NOT EXISTS stickers (
            id INTEGER PRIMARY KEY,
            path TEXT UNIQUE NOT NULL,
            name TEXT NOT NULL,
            pack TEXT NOT NULL,
            format TEXT NOT NULL,
            thumbnail_path TEXT,
            width INTEGER,
            height INTEGER,
            is_favorite INTEGER DEFAULT 0,
            last_used INTEGER DEFAULT 0,
            use_count INTEGER DEFAULT 0
        )"@,
            Seq::<Param>::empty(),
        ),
{
    plain(
        "CREATE TABLE IF NOT EXISTS stickers (
            id INTEGER PRIMARY KEY,
            path TEXT UNIQUE NOT NULL,
            name TEXT NOT NULL,
            pack TEXT NOT NULL,
            format TEXT NOT NULL,
            thumbnail_path TEXT,
            width INTEGER,
            height INTEGER,
            is_favorite INTEGER DEFAULT 0,
            last_used INTEGER DEFAULT 0,
            use_count INTEGER DEFAULT 0
        )",
    )
}

/// The rows a tab's search ranks; every query selects id, name, path, thumbnail
/// path, format, pack, favourite flag, width and height. `Recents` lists the
/// `limit` (`?1`) most recently used stickers, most recent first; `Favorites`
/// lists the favourites, `All` every sticker, and any other tab is a pack name
/// (`?1`) whose stickers it lists; these three come in id order, and the query
/// is matched against them afterwards (see `search::search_ranking`).
pub open spec fn search_spec(tab: Seq<char>, limit: usize) -> (Seq<char>, Seq<Param>) {
    if tab == "Recents"@ {
        (
            "SELECT id, name, path, thumbnail_path, format, pack, is_favorite, width, height FROM stickers WHERE use_count > 0 ORDER BY last_used DESC LIMIT ?1"@,
            seq![Param::Int((limit as i64) as int)],
        )
    } else if tab == "Favorites"@ {
        (
            "SELECT id, name, path, thumbnail_path, format, pack, is_favorite, width, height FROM stickers WHERE is_favorite = 1 ORDER BY id"@,
            Seq::<Param>::empty(),
        )
    } else if tab == "All"@ {
        (
            "SELECT id, name, path, thumbnail_path, format, pack, is_favorite, width, height FROM stickers ORDER BY id"@,
            Seq::<Param>::empty(),
        )
    } else {
        (
            "SELECT id, name, path, thumbnail_path, format, pack, is_favorite, width, height FROM stickers WHERE pack = ?1 ORDER BY id"@,
            seq![Param::Text(tab)],
        )
    }
}

/// The statement that reads a tab's rows, as `search_spec` says.
pub fn search_statement(tab: &str, limit: usize) -> (r: SqlStatement)
    ensures
        r@ == search_spec(tab@, limit),
{
    let mut params: Vec<SqlValue> = Vec::new();
    let sql = if same_text(tab, "Recents") {
        params.push(SqlValue::Int(#[verifier::truncate] (limit as i64)));
        "SELECT id, name, path, thumbnail_path, format, pack, is_favorite, width, height FROM stickers WHERE use_count > 0 ORDER BY last_used DESC LIMIT ?1"
    } else if same_text(tab, "Favorites") {
        "SELECT id, name, path, thumbnail_path, format, pack, is_favorite, width, height FROM stickers WHERE is_favorite = 1 ORDER BY id"
    } else if same_text(tab, "All") {
        "SELECT id, name, path, thumbnail_path, format, pack, is_favorite, width, height FROM stickers ORDER BY id"
    } else {
        params.push(text(tab));
        "SELECT id, name, path, thumbnail_path, format, pack, is_favorite, width, height FROM stickers WHERE pack = ?1 ORDER BY id"
    };
    let r = SqlStatement { sql: String::from_str(sql), params };
    proof {
        let s = search_spec(tab@, limit);
        assert(r@.1 =~= s.1);
    }
    r
}

/// The statement listing the distinct packs in name order.
pub fn packs_statement() -> (r: SqlStatement)
    ensures
        r@ == ("SELECT DISTINCT pack FROM stickers ORDER BY pack"@, Seq::<Param>::empty()),
{
    plain("SELECT DISTINCT pack FROM stickers ORDER BY pack")
}

/// A sticker's columns as one row gives them: each value that could be read, or
/// `None` where the column is NULL or does not convert.
pub struct StickerRow {
    pub id: i64,
    pub name: String,
    pub path: String,
    pub thumbnail_path: Option<String>,
    pub format: String,
    pub pack: String,
    pub is_favorite: i32,
    pub width: Option<u32>,
    pub height: Option<u32>,
}

/// A row as a sticker: a missing thumbnail falls back to the sticker's own path,
/// `is_favorite` is true exactly when the column holds 1, and a missing width or
/// height is 0.
pub fn sticker_from_row(row: StickerRow) -> (r: Sticker)
    ensures
        r.id == row.id,
        r.name == row.name,
        r.path == row.path,
        r.thumbnail_path == match row.thumbnail_path {
            Some(t) => t,
            None => row.path,
        },
        r.format == row.format,
        r.pack == row.pack,
        r.is_favorite == (row.is_favorite == 1),
        r.width == match row.width {
            Some(w) => w,
            None => 0u32,
        },
        r.height == match row.height {
            Some(h) => h,
            None => 0u32,
        },
{
    let thumbnail_path = match row.thumbnail_path {
        Some(t) => t,
        None => row.path.clone(),
    };
    Sticker {
        id: row.id,
        name: row.name,
        path: row.path,
        thumbnail_path,
        format: row.format,
        pack: row.pack,
        is_favorite: row.is_favorite == 1,
        width: match row.width {
            Some(w) => w,
            None => 0,
        },
        height: match row.height {
            Some(h) => h,
            None => 0,
        },
    }
}

/// The query reading whether a sticker is a favourite.
pub fn favorite_query(path: &str) -> (r: SqlStatement)
    ensures
        r@ == ("SELECT is_favorite FROM stickers WHERE path = ?1"@, seq![Param::Text(path@)]),
{
    let mut params: Vec<SqlValue> = Vec::new();
    params.push(text(path));
    let r = SqlStatement {
        sql: String::from_str("SELECT is_favorite FROM stickers WHERE path = ?1"),
        params,
    };
    assert(r@.1 =~= seq![Param::Text(path@)]);
    r
}

/// Toggling a favourite: a sticker whose flag could not be read counts as not a
/// favourite. The update writes the flipped flag (1 or 0) and the call reports
/// the new state.
pub fn toggle_favorite_plan(path: &str, current: Option<bool>) -> (r: (SqlStatement, bool))
    ensures
        r.1 == toggled(current),
        r.0@ == (
            "UPDATE stickers SET is_favorite = ?1 WHERE path = ?2"@,
            seq![Param::Int(flag_value(r.1)), Param::Text(path@)],
        ),
{
    let is_fav = match current {
        Some(b) => b,
        None => false,
    };
    let new_val: i64 = if is_fav { 0 } else { 1 };
    let mut params: Vec<SqlValue> = Vec::new();
    params.push(SqlValue::Int(new_val));
    params.push(text(path));
    let r = SqlStatement {
        sql: String::from_str("UPDATE stickers SET is_favorite = ?1 WHERE path = ?2"),
        params,
    };
    assert(r@.1 =~= seq![Param::Int(if !is_fav { 1int } else { 0int }), Param::Text(path@)]);
    (r, !is_fav)
}

/// The favourite state after a toggle, given the state that could be read.
pub open spec fn toggled(current: Option<bool>) -> bool {
    !(current == Some(true))
}

/// The flag value a toggle writes for its new state.
pub open spec fn flag_value(favorite: bool) -> int {
    if favorite {
        1
    } else {
        0
    }
}

/// Toggling twice gives back the starting state and writes back the flag it
/// started from; a sticker whose state could not be read becomes a favourite.
pub proof fn law_toggle_twice_restores(start: bool)
    ensures
        toggled(Some(toggled(Some(start)))) == start,
        flag_value(toggled(Some(toggled(Some(start))))) == flag_value(start),
        toggled(None),
{
}

/// Recording a use: the use count goes up by one and the last-used time becomes
/// `timestamp`.
pub fn usage_statement(path: &str, timestamp: i64) -> (r: SqlStatement)
    ensures
        r@ == (
            "UPDATE stickers SET use_count = use_count + 1, last_used = ?1 WHERE path = ?2"@,
            seq![Param::Int(timestamp as int), Param::Text(path@)],
        ),
{
    let mut params: Vec<SqlValue> = Vec::new();
    params.push(SqlValue::Int(timestamp));
    params.push(text(path));
    let r = SqlStatement {
        sql: String::from_str(
            "UPDATE stickers SET use_count = use_count + 1, last_used = ?1 WHERE path = ?2",
        ),
        params,
    };
    assert(r@.1 =~= seq![Param::Int(timestamp as int), Param::Text(path@)]);
    r
}

/// What a wipe request clears.
#[derive(PartialEq, Eq, Structural, Clone, Copy, Debug)]
pub enum WipeKind {
    /// `history`: use counts and last-used times.
    History,
    /// `favorites`: every favourite flag.
    Favorites,
    /// `db`: the whole index (and the thumbnails); the image files stay.
    Library,
    /// Anything else: nothing.
    Nothing,
}

/// The kind of a wipe request by its name.
pub fn wipe_kind(data_type: &str) -> (r: WipeKind)
    ensures
        r == if data_type@ == "history"@ {
            WipeKind::History
        } else if data_type@ == "favorites"@ {
            WipeKind::Favorites
        } else if data_type@ == "db"@ {
            WipeKind::Library
        } else {
            WipeKind::Nothing
        },
{
    if same_text(data_type, "history") {
        WipeKind::History
    } else if same_text(data_type, "favorites") {
        WipeKind::Favorites
    } else if same_text(data_type, "db") {
        WipeKind::Library
    } else {
        WipeKind::Nothing
    }
}

/// The statements a wipe runs, in order.
pub fn wipe_statements(kind: WipeKind) -> (r: Vec<SqlStatement>)
    ensures
        kind == WipeKind::History ==> r@.len() == 1 && r@[0]@ == (
            "UPDATE stickers SET use_count = 0, last_used = 0"@,
            Seq::<Param>::empty(),
        ),
        kind == WipeKind::Favorites ==> r@.len() == 1 && r@[0]@ == (
            "UPDATE stickers SET is_favorite = 0"@,
            Seq::<Param>::empty(),
        ),
        kind == WipeKind::Library ==> r@.len() == 2 && r@[0]@ == (
            "DELETE FROM stickers"@,
            Seq::<Param>::empty(),
        ) && r@[1]@ == ("VACUUM"@, Seq::<Param>::empty()),
        kind == WipeKind::Nothing ==> r@.len() == 0,
{
    let mut r: Vec<SqlStatement> = Vec::new();
    match kind {
        WipeKind::History => r.push(plain("UPDATE stickers SET use_count = 0, last_used = 0")),
        WipeKind::Favorites => r.push(plain("UPDATE stickers SET is_favorite = 0")),
        WipeKind::Library => {
            r.push(plain("DELETE FROM stickers"));
            r.push(plain("VACUUM"));
        },
        WipeKind::Nothing => {},
    }
    r
}

/// What a wipe request reports: a history or favourites wipe succeeds when its
/// statement ran; a library wipe and an unknown request always report success.
pub fn wipe_succeeded(kind: WipeKind, statements_ok: bool) -> (r: bool)
    ensures
        r == (kind == WipeKind::Library || kind == WipeKind::Nothing || statements_ok),
{
    match kind {
        WipeKind::History | WipeKind::Favorites => statements_ok,
        _ => true,
    }
}

/// Whether a library wipe also empties the thumbnail folder.
pub fn wipe_clears_thumbnails(kind: WipeKind) -> (r: bool)
    ensures
        r == (kind == WipeKind::Library),
{
    kind == WipeKind::Library
}

/// Removing a sticker from the index.
pub fn delete_statement(path: &str) -> (r: SqlStatement)
    ensures
        r@ == ("DELETE FROM stickers WHERE path = ?1"@, seq![Param::Text(path@)]),
{
    let mut params: Vec<SqlValue> = Vec::new();
    params.push(text(path));
    let r = SqlStatement { sql: String::from_str("DELETE FROM stickers WHERE path = ?1"), params };
    assert(r@.1 =~= seq![Param::Text(path@)]);
    r
}

/// Recording a renamed file: its new path and name.
pub fn rename_statement(old_path: &str, new_path: &str, new_name: &str) -> (r: SqlStatement)
    ensures
        r@ == (
            "UPDATE stickers SET path = ?1, name = ?2 WHERE path = ?3"@,
            seq![Param::Text(new_path@), Param::Text(new_name@), Param::Text(old_path@)],
        ),
{
    let mut params: Vec<SqlValue> = Vec::new();
    params.push(text(new_path));
    params.push(text(new_name));
    params.push(text(old_path));
    let r = SqlStatement {
        sql: String::from_str("UPDATE stickers SET path = ?1, name = ?2 WHERE path = ?3"),
        params,
    };
    assert(r@.1 =~= seq![Param::Text(new_path@), Param::Text(new_name@), Param::Text(old_path@)]);
    r
}

/// Recording a sticker moved to another pack: its new path, pack and thumbnail.
/// The row keeps its favourite flag and usage history.
pub fn move_statement(old_path: &str, new_path: &str, pack: &str, thumbnail: &str) -> (r:
    SqlStatement)
    ensures
        r@ == (
            "UPDATE stickers SET path = ?1, pack = ?2, thumbnail_path = ?3 WHERE path = ?4"@,
            seq![
                Param::Text(new_path@),
                Param::Text(pack@),
                Param::Text(thumbnail@),
                Param::Text(old_path@),
            ],
        ),
{
    let mut params: Vec<SqlValue> = Vec::new();
    params.push(text(new_path));
    params.push(text(pack));
    params.push(text(thumbnail));
    params.push(text(old_path));
    let r = SqlStatement {
        sql: String::from_str(
            "UPDATE stickers SET path = ?1, pack = ?2, thumbnail_path = ?3 WHERE path = ?4",
        ),
        params,
    };
    assert(r@.1 =~= seq![
        Param::Text(new_path@),
        Param::Text(pack@),
        Param::Text(thumbnail@),
        Param::Text(old_path@),
    ]);
    r
}

/// The query for the path of some sticker already in a pack; its folder is the
/// pack's folder.
pub fn pack_path_query(pack: &str) -> (r: SqlStatement)
    ensures
        r@ == ("SELECT path FROM stickers WHERE pack = ?1 LIMIT 1"@, seq![Param::Text(pack@)]),
{
    let mut params: Vec<SqlValue> = Vec::new();
    params.push(text(pack));
    let r = SqlStatement {
        sql: String::from_str("SELECT path FROM stickers WHERE pack = ?1 LIMIT 1"),
        params,
    };
    assert(r@.1 =~= seq![Param::Text(pack@)]);
    r
}

/// The number of optional columns an edit sets.
pub open spec fn flag(b: bool) -> nat {
    if b {
        1
    } else {
        0
    }
}

/// The text of the statement that records an edited sticker: the new path and
/// thumbnail always (`?1`, `?2`), then the new name and the new pack when there
/// are, numbered on from `?3`, and last the old path that picks the row.
pub open spec fn edit_sql(has_name: bool, has_pack: bool) -> Seq<char> {
    "UPDATE stickers SET path = ?1, thumbnail_path = ?2"@ + (if has_name {
        ", name = ?3"@
    } else {
        Seq::<char>::empty()
    }) + (if has_pack {
        ", pack = ?"@ + decimal(3 + flag(has_name))
    } else {
        Seq::<char>::empty()
    }) + " WHERE path = ?"@ + decimal(3 + flag(has_name) + flag(has_pack))
}

/// The parameters of that statement, in placeholder order.
pub open spec fn edit_params(
    new_path: Seq<char>,
    thumbnail: Seq<char>,
    name: Option<Seq<char>>,
    pack: Option<Seq<char>>,
    old_path: Seq<char>,
) -> Seq<Param> {
    seq![Param::Text(new_path), Param::Text(thumbnail)] + (match name {
        Some(n) => seq![Param::Text(n)],
        None => Seq::<Param>::empty(),
    }) + (match pack {
        Some(p) => seq![Param::Text(p)],
        None => Seq::<Param>::empty(),
    }) + seq![Param::Text(old_path)]
}

/// The statement that records an edited sticker (new name and/or new pack).
pub fn edit_statement(
    new_path: &str,
    thumbnail: &str,
    name: Option<&str>,
    pack: Option<&str>,
    old_path: &str,
) -> (r: SqlStatement)
    ensures
        r@ == (
            edit_sql(name is Some, pack is Some),
            edit_params(
                new_path@,
                thumbnail@,
                match name {
                    Some(n) => Some(n@),
                    None => None,
                },
                match pack {
                    Some(p) => Some(p@),
                    None => None,
                },
                old_path@,
            ),
        ),
        r.params@.len() == 3 + flag(name is Some) + flag(pack is Some),
{
    let mut sql = String::from_str("UPDATE stickers SET path = ?1, thumbnail_path = ?2");
    let mut params: Vec<SqlValue> = Vec::new();
    params.push(text(new_path));
    params.push(text(thumbnail));
    let mut idx: u64 = 3;
    let ghost s0 = sql@;
    if let Some(n) = name {
        sql.append(", name = ?");
        push_decimal(&mut sql, idx);
        params.push(text(n));
        idx = idx + 1;
    }
    let ghost s1 = sql@;
    if let Some(p) = pack {
        sql.append(", pack = ?");
        push_decimal(&mut sql, idx);
        params.push(text(p));
        idx = idx + 1;
    }
    let ghost s2 = sql@;
    sql.append(" WHERE path = ?");
    push_decimal(&mut sql, idx);
    params.push(text(old_path));
    let r = SqlStatement { sql, params };
    proof {
        reveal_strlit(", name = ?3");
        reveal_strlit(", name = ?");
        assert(decimal(3) == seq!['3']);
        assert(", name = ?"@ + decimal(3) =~= ", name = ?3"@);
        let nm = match name {
            Some(n) => Some(n@),
            None => None::<Seq<char>>,
        };
        let pk = match pack {
            Some(p) => Some(p@),
            None => None::<Seq<char>>,
        };
        assert(r@.0 =~= edit_sql(name is Some, pack is Some));
        assert(r@.1 =~= edit_params(new_path@, thumbnail@, nm, pk, old_path@));
    }
    r
}

/// The query for every indexed path.
pub fn indexed_paths_query() -> (r: SqlStatement)
    ensures
        r@ == ("SELECT path FROM stickers"@, Seq::<Param>::empty()),
{
    plain("SELECT path FROM stickers")
}

/// Adding a newly found sticker to the index.
pub fn insert_statement(path: &str, name: &str, pack: &str, format: &str, thumbnail: &str) -> (r:
    SqlStatement)
    ensures
        r@ == (
            "INSERT INTO stickers (path, name, pack, format, thumbnail_path) VALUES (?1, ?2, ?3, ?4, ?5)"@,
            seq![
                Param::Text(path@),
                Param::Text(name@),
                Param::Text(pack@),
                Param::Text(format@),
                Param::Text(thumbnail@),
            ],
        ),
{
    let mut params: Vec<SqlValue> = Vec::new();
    params.push(text(path));
    params.push(text(name));
    params.push(text(pack));
    params.push(text(format));
    params.push(text(thumbnail));
    let r = SqlStatement {
        sql: String::from_str(
            "INSERT INTO stickers (path, name, pack, format, thumbnail_path) VALUES (?1, ?2, ?3, ?4, ?5)",
        ),
        params,
    };
    assert(r@.1 =~= seq![
        Param::Text(path@),
        Param::Text(name@),
        Param::Text(pack@),
        Param::Text(format@),
        Param::Text(thumbnail@),
    ]);
    r
}

/// Recording a regenerated thumbnail for an indexed sticker.
pub fn thumbnail_update_statement(path: &str, thumbnail: &str) -> (r: SqlStatement)
    ensures
        r@ == (
            "UPDATE stickers SET thumbnail_path = ?1 WHERE path = ?2"@,
            seq![Param::Text(thumbnail@), Param::Text(path@)],
        ),
{
    let mut params: Vec<SqlValue> = Vec::new();
    params.push(text(thumbnail));
    params.push(text(path));
    let r = SqlStatement {
        sql: String::from_str("UPDATE stickers SET thumbnail_path = ?1 WHERE path = ?2"),
        params,
    };
    assert(r@.1 =~= seq![Param::Text(thumbnail@), Param::Text(path@)]);
    r
}

} // verus!
