//! The command line of the fetch benchmark.

use vstd::prelude::*;
use vstd::string::*;

use crate::text::{cut, cuts_put_together_again, same, split_at_char};
use crate::text_map::TextMap;

verus! {

// Options.

/// What an argument names as an option: what follows two leading dashes.
pub open spec fn option_text(arg: Seq<char>) -> Option<Seq<char>> {
    if arg.len() >= 2 && arg[0] == '-' && arg[1] == '-' {
        Some(arg.skip(2))
    } else {
        None
    }
}

/// The options that arguments add to those already read. `--key=value` and
/// `--key value` are the same; a key at the end has an empty value; arguments
/// that are neither are skipped; a later option replaces an earlier one.
pub open spec fn parsed(options: Map<Seq<char>, Seq<char>>, args: Seq<String>) -> Map<
    Seq<char>,
    Seq<char>,
>
    decreases args.len(),
{
    if args.len() == 0 {
        options
    } else {
        match option_text(args[0]@) {
            None => parsed(options, args.skip(1)),
            Some(option) => match cut(option, '=') {
                Some((key, value)) => parsed(options.insert(key, value), args.skip(1)),
                None => if args.len() > 1 {
                    parsed(options.insert(option, args[1]@), args.skip(2))
                } else {
                    options.insert(option, Seq::empty())
                },
            },
        }
    }
}

/// The options of a map with their values as characters.
pub open spec fn options_of(map: Map<Seq<char>, String>) -> Map<Seq<char>, Seq<char>> {
    map.map_values(|value: String| value@)
}

/// What an argument names as an option.
fn option_name(arg: &str) -> (r: Option<String>)
    ensures
        (match r {
            Some(text) => Some(text@),
            None => None,
        }) == option_text(arg@),
{
    let len: usize = arg.unicode_len();
    if len >= 2 && arg.get_char(0) == '-' && arg.get_char(1) == '-' {
        proof {
            assert(arg@.subrange(2, len as int) =~= arg@.skip(2));
        }
        Some(arg.substring_char(2, len).to_owned())
    } else {
        None
    }
}

/// Read the options of a command line, given without the program's name.
pub fn parse_args(argv: &Vec<String>) -> (r: TextMap<String>)
    ensures
        options_of(r@) == parsed(Map::empty(), argv@),
{
    let mut map: TextMap<String> = TextMap::new();
    let ghost goal = parsed(Map::empty(), argv@);
    let mut i: usize = 0;
    proof {
        assert(argv@.skip(0) =~= argv@);
        assert(options_of(map@) =~= Map::empty());
    }
    while i < argv.len()
        invariant
            i <= argv@.len(),
            parsed(options_of(map@), argv@.skip(i as int)) == goal,
        decreases argv.len() - i,
    {
        let ghost rest = argv@.skip(i as int);
        let ghost before = map@;
        proof {
            assert(rest[0] == argv@[i as int]);
            assert(rest.skip(1) =~= argv@.skip(i + 1));
        }
        if let Some(option) = option_name(argv[i].as_str()) {
            match split_at_char(option.as_str(), '=') {
                Some((key, value)) => {
                    let ghost (k, v) = (key@, value);
                    map.insert(key, value);
                    proof {
                        assert(options_of(map@) =~= options_of(before).insert(k, v@));
                    }
                },
                None => {
                    if i + 1 < argv.len() {
                        let value = argv[i + 1].clone();
                        let ghost (k, v) = (option@, value);
                        map.insert(option, value);
                        i = i + 1;
                        proof {
                            assert(options_of(map@) =~= options_of(before).insert(k, v@));
                            assert(rest.skip(2) =~= argv@.skip(i + 1));
                        }
                    } else {
                        let value = String::new();
                        let ghost (k, v) = (option@, value);
                        map.insert(option, value);
                        proof {
                            assert(v@ =~= Seq::<char>::empty());
                            assert(options_of(map@) =~= options_of(before).insert(k, v@));
                            assert(parsed(options_of(map@), argv@.skip(i + 1)) == options_of(map@));
                        }
                    }
                },
            }
        }
        i = i + 1;
    }
    proof {
        assert(argv@.skip(i as int).len() == 0);
    }
    map
}

// Connections.

/// The value of an option, or a default.
pub open spec fn value_or(
    options: Map<Seq<char>, Seq<char>>,
    key: Seq<char>,
    default: Seq<char>,
) -> Seq<char> {
    if options.contains_key(key) {
        options[key]
    } else {
        default
    }
}

/// The database that options name, as `database` or as `dbname`.
pub open spec fn database_of(options: Map<Seq<char>, Seq<char>>) -> Seq<char> {
    value_or(options, "database"@, value_or(options, "dbname"@, "test_db"@))
}

/// The value of an option, or a default.
fn get_or(args: &TextMap<String>, key: &str, default: &str) -> (r: String)
    ensures
        r@ == value_or(options_of(args@), key@, default@),
{
    match args.get(key) {
        Some(value) => value.clone(),
        None => default.to_owned(),
    }
}

/// The database that options name.
fn database(args: &TextMap<String>) -> (r: String)
    ensures
        r@ == database_of(options_of(args@)),
{
    match args.get("database") {
        Some(name) => name.clone(),
        None => get_or(args, "dbname", "test_db"),
    }
}

/// The connection URI that options describe.
pub open spec fn uri_text(options: Map<Seq<char>, Seq<char>>) -> Seq<char> {
    "postgresql://"@ + value_or(options, "user"@, "postgres"@) + (if options.contains_key(
        "password"@,
    ) {
        ":"@ + options["password"@]
    } else {
        Seq::empty()
    }) + "@"@ + value_or(options, "host"@, "localhost"@) + ":"@ + value_or(
        options,
        "port"@,
        "5432"@,
    ) + "/"@ + database_of(options)
}

/// The connection URI that options describe.
pub fn uri(args: &TextMap<String>) -> (r: String)
    ensures
        r@ == uri_text(options_of(args@)),
{
    let mut out = "postgresql://".to_owned();
    out.append(get_or(args, "user", "postgres").as_str());
    if let Some(password) = args.get("password") {
        out.append(":");
        out.append(password.as_str());
    }
    out.append("@");
    out.append(get_or(args, "host", "localhost").as_str());
    out.append(":");
    out.append(get_or(args, "port", "5432").as_str());
    out.append("/");
    out.append(database(args).as_str());
    proof {
        assert(out@ =~= uri_text(options_of(args@)));
    }
    out
}

/// The connection string that options describe.
pub open spec fn conn_text(options: Map<Seq<char>, Seq<char>>) -> Seq<char> {
    "host="@ + value_or(options, "host"@, "localhost"@) + " port="@ + value_or(
        options,
        "port"@,
        "5432"@,
    ) + " user="@ + value_or(options, "user"@, "postgres"@) + " dbname="@ + database_of(options) + (
    if options.contains_key("password"@) {
        " password="@ + options["password"@]
    } else {
        Seq::empty()
    })
}

/// The connection string that options describe.
pub fn conn_string(args: &TextMap<String>) -> (r: String)
    ensures
        r@ == conn_text(options_of(args@)),
{
    let mut out = "host=".to_owned();
    out.append(get_or(args, "host", "localhost").as_str());
    out.append(" port=");
    out.append(get_or(args, "port", "5432").as_str());
    out.append(" user=");
    out.append(get_or(args, "user", "postgres").as_str());
    out.append(" dbname=");
    out.append(database(args).as_str());
    if let Some(password) = args.get("password") {
        out.append(" password=");
        out.append(password.as_str());
    }
    proof {
        assert(out@ =~= conn_text(options_of(args@)));
    }
    out
}

// What to run.

/// A benchmark to run.
#[derive(Debug)]
pub enum Mode {
    /// Show how to call the program.
    Help,
    /// The DuckDB experiment, which needs no connection.
    DuckDb,
    /// The DataFusion experiment, which needs no connection.
    DataFusion,
    /// Fetch over ADBC, merge in DataFusion.
    AdbcDataFusion { driver: String, uri: String, sql: String },
    /// Fetch over ADBC, merge in DuckDB.
    AdbcDuckDb { driver: String, uri: String, sql: String },
    /// A query over Postgres and a DuckDB file.
    Federated { driver: String, uri: String, duck_path: String },
    /// The ways of fetching one query, side by side.
    Compare { conn: String, driver: String, uri: String, sql: String },
}

/// A mode with its texts as characters.
pub enum ModeView {
    Help,
    DuckDb,
    DataFusion,
    AdbcDataFusion { driver: Seq<char>, uri: Seq<char>, sql: Seq<char> },
    AdbcDuckDb { driver: Seq<char>, uri: Seq<char>, sql: Seq<char> },
    Federated { driver: Seq<char>, uri: Seq<char>, duck_path: Seq<char> },
    Compare { conn: Seq<char>, driver: Seq<char>, uri: Seq<char>, sql: Seq<char> },
}

impl View for Mode {
    type V = ModeView;

    open spec fn view(&self) -> ModeView {
        match *self {
            Mode::Help => ModeView::Help,
            Mode::DuckDb => ModeView::DuckDb,
            Mode::DataFusion => ModeView::DataFusion,
            Mode::AdbcDataFusion { driver, uri, sql } => ModeView::AdbcDataFusion {
                driver: driver@,
                uri: uri@,
                sql: sql@,
            },
            Mode::AdbcDuckDb { driver, uri, sql } => ModeView::AdbcDuckDb {
                driver: driver@,
                uri: uri@,
                sql: sql@,
            },
            Mode::Federated { driver, uri, duck_path } => ModeView::Federated {
                driver: driver@,
                uri: uri@,
                duck_path: duck_path@,
            },
            Mode::Compare { conn, driver, uri, sql } => ModeView::Compare {
                conn: conn@,
                driver: driver@,
                uri: uri@,
                sql: sql@,
            },
        }
    }
}

/// The driver that is used when none is named.
pub open spec fn default_driver() -> Seq<char> {
    "/workspace/venv-fedq/lib/python3.13/site-packages/adbc_driver_postgresql/libadbc_driver_postgresql.so"@
}

/// The query that is run when none is given.
pub open spec fn default_query() -> Seq<char> {
    "SELECT id, table_id, path, file_type, file_size_bytes, file_hash, created_at FROM perf_files"@
}

/// Whether an argument asks for help.
pub open spec fn asks_for_help(arg: Seq<char>) -> bool {
    arg == "--help"@ || arg == "-h"@
}

/// What a command line asks to run. An experiment is chosen by the presence of
/// its option; among several the first of this list counts.
pub open spec fn mode_of(argv: Seq<String>) -> ModeView {
    let options = parsed(Map::empty(), argv);
    let driver = value_or(options, "adbc-driver"@, default_driver());
    let sql = value_or(options, "sql"@, default_query());
    let uri = uri_text(options);
    if exists|i: int| 0 <= i < argv.len() && asks_for_help((#[trigger] argv[i])@) {
        ModeView::Help
    } else if options.contains_key("duckdb"@) {
        ModeView::DuckDb
    } else if options.contains_key("datafusion"@) {
        ModeView::DataFusion
    } else if options.contains_key("adbc-df"@) {
        ModeView::AdbcDataFusion { driver, uri, sql }
    } else if options.contains_key("adbc-duckdb"@) {
        ModeView::AdbcDuckDb { driver, uri, sql }
    } else if options.contains_key("federated"@) {
        ModeView::Federated {
            driver,
            uri,
            duck_path: value_or(options, "duckdb-path"@, "/tmp/fedq_source.duckdb"@),
        }
    } else {
        ModeView::Compare { conn: conn_text(options), driver, uri, sql }
    }
}

/// Whether any argument asks for help.
fn wants_help(argv: &Vec<String>) -> (r: bool)
    ensures
        r == exists|i: int| 0 <= i < argv@.len() && asks_for_help((#[trigger] argv@[i])@),
{
    for i in 0..argv.len()
        invariant
            forall|j: int| 0 <= j < i ==> !asks_for_help((#[trigger] argv@[j])@),
    {
        if same(argv[i].as_str(), "--help") || same(argv[i].as_str(), "-h") {
            proof {
                assert(asks_for_help(argv@[i as int]@));
            }
            return true;
        }
    }
    false
}

/// What a command line asks to run, given without the program's name.
pub fn choose_mode(argv: &Vec<String>) -> (r: Mode)
    ensures
        r@ == mode_of(argv@),
{
    if wants_help(argv) {
        return Mode::Help;
    }
    let args = parse_args(argv);
    if args.contains_key("duckdb") {
        return Mode::DuckDb;
    }
    if args.contains_key("datafusion") {
        return Mode::DataFusion;
    }
    let sql = get_or(
        &args,
        "sql",
        "SELECT id, table_id, path, file_type, file_size_bytes, file_hash, created_at FROM perf_files",
    );
    let conn = conn_string(&args);
    let source = uri(&args);
    let driver = get_or(
        &args,
        "adbc-driver",
        "/workspace/venv-fedq/lib/python3.13/site-packages/adbc_driver_postgresql/libadbc_driver_postgresql.so",
    );
    if args.contains_key("adbc-df") {
        return Mode::AdbcDataFusion { driver, uri: source, sql };
    }
    if args.contains_key("adbc-duckdb") {
        return Mode::AdbcDuckDb { driver, uri: source, sql };
    }
    if args.contains_key("federated") {
        let duck_path = get_or(&args, "duckdb-path", "/tmp/fedq_source.duckdb");
        return Mode::Federated { driver, uri: source, duck_path };
    }
    Mode::Compare { conn, driver, uri: source, sql }
}

/// The two ways of writing an option are the same: `--key=value` and
/// `--key value`, for a key without an equals sign.
pub proof fn both_option_forms_agree(
    options: Map<Seq<char>, Seq<char>>,
    key: Seq<char>,
    value: Seq<char>,
    short: Seq<String>,
    long: Seq<String>,
)
    requires
        cut(key, '=') is None,
        short.len() == 1,
        short[0]@ == "--"@ + key + seq!['='] + value,
        long.len() == 2,
        long[0]@ == "--"@ + key,
        long[1]@ == value,
    ensures
        parsed(options, short) == options.insert(key, value),
        parsed(options, long) == options.insert(key, value),
{
    reveal_strlit("--");
    assert(option_text(long[0]@) == Some(key)) by {
        assert(("--"@ + key).skip(2) =~= key);
    }
    assert(option_text(short[0]@) == Some(key + seq!['='] + value)) by {
        assert(("--"@ + key + seq!['='] + value).skip(2) =~= key + seq!['='] + value);
    }
    lemma_cut_at_end(key, value);
    assert(short.skip(1).len() == 0);
    assert(long.skip(2).len() == 0);
    assert(parsed(options.insert(key, value), short.skip(1)) == options.insert(key, value));
    assert(parsed(options.insert(key, value), long.skip(2)) == options.insert(key, value));
}

/// A text without an equals sign, followed by one, is cut there.
proof fn lemma_cut_at_end(key: Seq<char>, value: Seq<char>)
    requires
        cut(key, '=') is None,
    ensures
        cut(key + seq!['='] + value, '=') == Some((key, value)),
    decreases key.len(),
{
    let whole = key + seq!['='] + value;
    if key.len() == 0 {
        assert(whole =~= seq!['='] + value);
        assert(whole.skip(1) =~= value);
        assert(key =~= Seq::<char>::empty());
    } else {
        lemma_cut_at_end(key.skip(1), value);
        assert(whole.skip(1) =~= key.skip(1) + seq!['='] + value);
        assert(seq![key[0]] + key.skip(1) =~= key);
    }
}

// What arguments mean.

/// An argument that begins with two dashes is an option, and no other is: with
/// an equals sign it holds its value; else the next argument is its value; at
/// the end its value is empty. The arguments behind are read on from there, and
/// a later value replaces an earlier one.
pub proof fn arguments_are_read_one_by_one(
    options: Map<Seq<char>, Seq<char>>,
    first: String,
    rest: Seq<String>,
    key: Seq<char>,
    value: Seq<char>,
)
    requires
        !key.contains('='),
    ensures
        !(first@.len() >= 2 && first@[0] == '-' && first@[1] == '-') ==> parsed(
            options,
            seq![first] + rest,
        ) == parsed(options, rest),
        first@ == "--"@ + key + "="@ + value ==> parsed(options, seq![first] + rest) == parsed(
            options.insert(key, value),
            rest,
        ),
        first@ == "--"@ + key && rest.len() > 0 ==> parsed(options, seq![first] + rest) == parsed(
            options.insert(key, rest[0]@),
            rest.skip(1),
        ),
        first@ == "--"@ + key && rest.len() == 0 ==> parsed(options, seq![first] + rest)
            == options.insert(key, Seq::empty()),
        parsed(options, Seq::empty()) == options,
{
    let args = seq![first] + rest;
    assert(args.skip(1) =~= rest);
    assert(args[0] == first);
    reveal_strlit("--");
    reveal_strlit("=");
    assert("="@ =~= seq!['=']);
    cuts_put_together_again(key, '=');
    if let Some((before, behind)) = cut(key, '=') {
        assert(key[before.len() as int] == '=');
    }
    lemma_cut_at_end(key, value);
    if first@ == "--"@ + key + "="@ + value {
        assert(first@.skip(2) =~= key + seq!['='] + value);
        assert(first@[0] == '-' && first@[1] == '-');
    }
    if first@ == "--"@ + key {
        assert(first@.skip(2) =~= key);
        assert(first@[0] == '-' && first@[1] == '-');
        if rest.len() > 0 {
            assert(args.skip(2) =~= rest.skip(1));
            assert(args[1] == rest[0]);
        }
    }
}

/// An option that is given counts, and one that is not has its default; the
/// database goes by two names, of which the longer one counts first.
pub proof fn options_replace_defaults(
    options: Map<Seq<char>, Seq<char>>,
    key: Seq<char>,
    default: Seq<char>,
)
    ensures
        options.contains_key(key) ==> value_or(options, key, default) == options[key],
        !options.contains_key(key) ==> value_or(options, key, default) == default,
        options.contains_key("database"@) ==> database_of(options) == options["database"@],
        !options.contains_key("database"@) && options.contains_key("dbname"@) ==> database_of(
            options,
        ) == options["dbname"@],
        !options.contains_key("database"@) && !options.contains_key("dbname"@) ==> database_of(
            options,
        ) == "test_db"@,
{
}

/// A connection is made to the host, port, user and database of the options,
/// with the password exactly where one is given.
pub proof fn connections_follow_the_options(options: Map<Seq<char>, Seq<char>>)
    ensures
        ({
            let user = value_or(options, "user"@, "postgres"@);
            let host = value_or(options, "host"@, "localhost"@);
            let port = value_or(options, "port"@, "5432"@);
            let place = "@"@ + host + ":"@ + port + "/"@ + database_of(options);
            let parts = "host="@ + host + " port="@ + port + " user="@ + user + " dbname="@
                + database_of(options);
            if options.contains_key("password"@) {
                &&& uri_text(options) == "postgresql://"@ + user + ":"@ + options["password"@]
                    + place
                &&& conn_text(options) == parts + " password="@ + options["password"@]
            } else {
                &&& uri_text(options) == "postgresql://"@ + user + place
                &&& conn_text(options) == parts
            }
        }),
{
    let user = value_or(options, "user"@, "postgres"@);
    let host = value_or(options, "host"@, "localhost"@);
    let port = value_or(options, "port"@, "5432"@);
    let place = "@"@ + host + ":"@ + port + "/"@ + database_of(options);
    let parts = "host="@ + host + " port="@ + port + " user="@ + user + " dbname="@ + database_of(
        options,
    );
    if options.contains_key("password"@) {
        assert(uri_text(options) =~= "postgresql://"@ + user + ":"@ + options["password"@] + place);
        assert(conn_text(options) =~= parts + " password="@ + options["password"@]);
    } else {
        assert(uri_text(options) =~= "postgresql://"@ + user + place);
        assert(conn_text(options) =~= parts);
    }
}

/// What runs is what the command line asks for: help before all else, then the
/// first experiment that is named, and the comparison where none is; each with
/// the driver, the connection and the query of the options.
pub proof fn modes_follow_the_command_line(argv: Seq<String>)
    ensures
        ({
            let options = parsed(Map::empty(), argv);
            let help = exists|i: int|
                0 <= i < argv.len() && ((#[trigger] argv[i])@ == "--help"@ || argv[i]@ == "-h"@);
            let duckdb = options.contains_key("duckdb"@);
            let datafusion = options.contains_key("datafusion"@);
            let adbc_df = options.contains_key("adbc-df"@);
            let adbc_duckdb = options.contains_key("adbc-duckdb"@);
            let federated = options.contains_key("federated"@);
            let driver_is = value_or(
                options,
                "adbc-driver"@,
                "/workspace/venv-fedq/lib/python3.13/site-packages/adbc_driver_postgresql/libadbc_driver_postgresql.so"@,
            );
            let sql_is = value_or(
                options,
                "sql"@,
                "SELECT id, table_id, path, file_type, file_size_bytes, file_hash, created_at FROM perf_files"@,
            );
            match mode_of(argv) {
                ModeView::Help => help,
                ModeView::DuckDb => !help && duckdb,
                ModeView::DataFusion => !help && !duckdb && datafusion,
                ModeView::AdbcDataFusion { driver, uri, sql } => !help && !duckdb && !datafusion
                    && adbc_df && driver == driver_is && uri == uri_text(options) && sql == sql_is,
                ModeView::AdbcDuckDb { driver, uri, sql } => !help && !duckdb && !datafusion
                    && !adbc_df && adbc_duckdb && driver == driver_is && uri == uri_text(options)
                    && sql == sql_is,
                ModeView::Federated { driver, uri, duck_path } => !help && !duckdb && !datafusion
                    && !adbc_df && !adbc_duckdb && federated && driver == driver_is && uri
                    == uri_text(options) && duck_path == value_or(
                    options,
                    "duckdb-path"@,
                    "/tmp/fedq_source.duckdb"@,
                ),
                ModeView::Compare { conn, driver, uri, sql } => !help && !duckdb && !datafusion
                    && !adbc_df && !adbc_duckdb && !federated && conn == conn_text(options)
                    && driver == driver_is && uri == uri_text(options) && sql == sql_is,
            }
        }),
{
    let options = parsed(Map::empty(), argv);
    if exists|i: int|
        0 <= i < argv.len() && ((#[trigger] argv[i])@ == "--help"@ || argv[i]@ == "-h"@) {
        let i = choose|i: int|
            0 <= i < argv.len() && ((#[trigger] argv[i])@ == "--help"@ || argv[i]@ == "-h"@);
        assert(asks_for_help(argv[i]@));
    }
    if exists|i: int| 0 <= i < argv.len() && asks_for_help((#[trigger] argv[i])@) {
        let i = choose|i: int| 0 <= i < argv.len() && asks_for_help((#[trigger] argv[i])@);
        assert(argv[i]@ == "--help"@ || argv[i]@ == "-h"@);
    }
}

/// A mode shows its texts, and options their values.
pub proof fn modes_show_their_texts(mode: Mode, map: Map<Seq<char>, String>, key: Seq<char>)
    ensures
        match mode {
            Mode::Help => mode@ is Help,
            Mode::DuckDb => mode@ is DuckDb,
            Mode::DataFusion => mode@ is DataFusion,
            Mode::AdbcDataFusion { driver, uri, sql } => mode@ == (ModeView::AdbcDataFusion {
                driver: driver@,
                uri: uri@,
                sql: sql@,
            }),
            Mode::AdbcDuckDb { driver, uri, sql } => mode@ == (ModeView::AdbcDuckDb {
                driver: driver@,
                uri: uri@,
                sql: sql@,
            }),
            Mode::Federated { driver, uri, duck_path } => mode@ == (ModeView::Federated {
                driver: driver@,
                uri: uri@,
                duck_path: duck_path@,
            }),
            Mode::Compare { conn, driver, uri, sql } => mode@ == (ModeView::Compare {
                conn: conn@,
                driver: driver@,
                uri: uri@,
                sql: sql@,
            }),
        },
        options_of(map).contains_key(key) <==> map.contains_key(key),
        map.contains_key(key) ==> options_of(map)[key] == map[key]@,
{
}

} // verus!
