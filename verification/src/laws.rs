//! What the parts of the gateway are for: which statements may run, what is bound for
//! a parameter, what is counted and reported, what settings and arguments mean.
use vstd::prelude::*;

use crate::args;
use crate::args::{ArgumentErrorView, Given};
use crate::client;
use crate::config;
use crate::config::{GatewayConfig, JournalMode, OverflowPolicy, SyncMode};
use crate::error;
use crate::error::ErrorView;
use crate::http;
use crate::http::ScreenedView;
use crate::json;
use crate::json::JsonView;
use crate::jsonrpc;
use crate::latency;
use crate::params;
use crate::params::{SqlValue, SqlView};
use crate::queue;
use crate::queue::Command;
use crate::request::{ResponseView, SqlOperation, WriteRequest, WriteResponse, WriteStatus};
use crate::sidecar;
use crate::sql;
use crate::stats;
use crate::stats::{Stats, StatsSnapshot};
use crate::submission;
use crate::submission::Handover;
use crate::text;

verus! {

/// A statement may run if and only if SQL text is allowed, its first word does not
/// control transactions or settings, and the flag for its first word is set, where
/// there is one: no other word is refused.
pub proof fn only_listed_words_are_refused(s: Seq<char>, config: GatewayConfig)
    ensures
        ({
            let word = text::ascii_upper(text::first_token(s));
            sql::refusal(s, config) is None <==> {
                &&& config.allow_raw_sql
                &&& word != "BEGIN"@ && word != "COMMIT"@ && word != "END"@
                &&& word != "ROLLBACK"@ && word != "SAVEPOINT"@ && word != "RELEASE"@
                &&& word != "PRAGMA"@
                &&& word == "DROP"@ ==> config.allow_drop && config.allow_schema_write
                &&& word == "DELETE"@ ==> config.allow_delete
                &&& word == "CREATE"@ || word == "ALTER"@ || word == "TRUNCATE"@
                    ==> config.allow_schema_write
            }
        }),
{
}

/// The words that statements begin with differ.
proof fn words_differ()
    ensures
        forall|i: int, j: int|
            0 <= i < j < words().len() ==> #[trigger] words()[i] != #[trigger] words()[j],
{
    reveal_strlit("BEGIN");
    reveal_strlit("COMMIT");
    reveal_strlit("END");
    reveal_strlit("ROLLBACK");
    reveal_strlit("SAVEPOINT");
    reveal_strlit("RELEASE");
    reveal_strlit("PRAGMA");
    reveal_strlit("CREATE");
    reveal_strlit("ALTER");
    reveal_strlit("DROP");
    reveal_strlit("TRUNCATE");
    reveal_strlit("DELETE");
    reveal_strlit("INSERT");
    reveal_strlit("UPDATE");
    reveal_strlit("REPLACE");
    reveal_strlit("WITH");
    reveal_strlit("SELECT");
    assert("END"@.len() == 3 && "DROP"@.len() == 4 && "WITH"@.len() == 4);
    assert("BEGIN"@.len() == 5 && "ALTER"@.len() == 5);
    assert("COMMIT"@.len() == 6 && "PRAGMA"@.len() == 6 && "CREATE"@.len() == 6);
    assert("DELETE"@.len() == 6 && "INSERT"@.len() == 6 && "UPDATE"@.len() == 6);
    assert("SELECT"@.len() == 6 && "RELEASE"@.len() == 7 && "REPLACE"@.len() == 7);
    assert("ROLLBACK"@.len() == 8 && "TRUNCATE"@.len() == 8 && "SAVEPOINT"@.len() == 9);
    assert("DROP"@[0] == 'D' && "WITH"@[0] == 'W' && "BEGIN"@[0] == 'B' && "ALTER"@[0] == 'A');
    assert("COMMIT"@[0] == 'C' && "PRAGMA"@[0] == 'P' && "CREATE"@[0] == 'C');
    assert("COMMIT"@[1] == 'O' && "CREATE"@[1] == 'R');
    assert("DELETE"@[0] == 'D' && "INSERT"@[0] == 'I' && "UPDATE"@[0] == 'U');
    assert("SELECT"@[0] == 'S' && "ROLLBACK"@[0] == 'R' && "TRUNCATE"@[0] == 'T');
    assert("RELEASE"@[2] == 'L' && "REPLACE"@[2] == 'P');
}

/// Words that statements begin with.
spec fn words() -> Seq<Seq<char>> {
    seq![
        "BEGIN"@, "COMMIT"@, "END"@, "ROLLBACK"@, "SAVEPOINT"@, "RELEASE"@, "PRAGMA"@,
        "CREATE"@, "ALTER"@, "DROP"@, "TRUNCATE"@, "DELETE"@, "INSERT"@, "UPDATE"@,
        "REPLACE"@, "WITH"@, "SELECT"@,
    ]
}

/// Statements that read or change rows run under every configuration that allows SQL
/// text, and a deletion does if and only if it is allowed.
pub proof fn ordinary_statements_run(s: Seq<char>, config: GatewayConfig)
    requires
        config.allow_raw_sql,
    ensures
        ({
            let word = text::ascii_upper(text::first_token(s));
            &&& word == "INSERT"@ || word == "UPDATE"@ || word == "REPLACE"@ || word == "WITH"@
                || word == "SELECT"@ ==> sql::refusal(s, config) is None
            &&& word == "DELETE"@ ==> (sql::refusal(s, config) is None <==> config.allow_delete)
            &&& word == "DROP"@ ==> (sql::refusal(s, config) is None <==> config.allow_drop
                && config.allow_schema_write)
            &&& word == "CREATE"@ || word == "ALTER"@ || word == "TRUNCATE"@ ==> (sql::refusal(
                s,
                config,
            ) is None <==> config.allow_schema_write)
        }),
{
    words_differ();
    let w = words();
    assert(w[0] == "BEGIN"@ && w[1] == "COMMIT"@ && w[2] == "END"@ && w[3] == "ROLLBACK"@);
    assert(w[4] == "SAVEPOINT"@ && w[5] == "RELEASE"@ && w[6] == "PRAGMA"@ && w[7] == "CREATE"@);
    assert(w[8] == "ALTER"@ && w[9] == "DROP"@ && w[10] == "TRUNCATE"@ && w[11] == "DELETE"@);
    assert(w[12] == "INSERT"@ && w[13] == "UPDATE"@ && w[14] == "REPLACE"@ && w[15] == "WITH"@);
    assert(w[16] == "SELECT"@);
}

/// A refusal names its reason: the flag that is not set, or the word that no client may
/// use, as the client wrote it.
pub proof fn refusals_name_their_reason(s: Seq<char>, config: GatewayConfig)
    ensures
        ({
            let first = text::first_token(s);
            let word = text::ascii_upper(first);
            let control = word == "BEGIN"@ || word == "COMMIT"@ || word == "END"@ || word
                == "ROLLBACK"@ || word == "SAVEPOINT"@ || word == "RELEASE"@ || word == "PRAGMA"@;
            &&& !config.allow_raw_sql ==> sql::refusal(s, config) == Some(
                "raw SQL is disabled (allow_raw_sql = false)"@,
            )
            &&& config.allow_raw_sql && control ==> sql::refusal(s, config) == Some(
                "statement starts with forbidden keyword '"@ + first + "'"@,
            )
            &&& config.allow_raw_sql && word == "DROP"@ && !config.allow_drop ==> sql::refusal(
                s,
                config,
            ) == Some("DROP statements are disabled (allow_drop = false)"@)
            &&& config.allow_raw_sql && word == "DELETE"@ && !config.allow_delete
                ==> sql::refusal(s, config) == Some(
                "DELETE statements are disabled (allow_delete = false)"@,
            )
            &&& config.allow_raw_sql && !config.allow_schema_write && (word == "CREATE"@ || word
                == "ALTER"@ || word == "TRUNCATE"@ || word == "DROP"@ && config.allow_drop)
                ==> sql::refusal(s, config) == Some(
                "schema-write statements are disabled (allow_schema_write = false); statement starts with '"@
                    + first + "'"@,
            )
        }),
{
    words_differ();
    let w = words();
    assert(w[0] == "BEGIN"@ && w[1] == "COMMIT"@ && w[2] == "END"@ && w[3] == "ROLLBACK"@);
    assert(w[4] == "SAVEPOINT"@ && w[5] == "RELEASE"@ && w[6] == "PRAGMA"@ && w[7] == "CREATE"@);
    assert(w[8] == "ALTER"@ && w[9] == "DROP"@ && w[10] == "TRUNCATE"@ && w[11] == "DELETE"@);
}

/// The first word of a text is the word that stands first in it, whatever blanks stand
/// before it and whatever else than a letter, a digit, `_` or `$` stands behind it.
pub proof fn first_word_stands_first(blanks: Seq<char>, word: Seq<char>, rest: Seq<char>)
    requires
        forall|i: int|
            0 <= i < blanks.len() ==> (#[trigger] blanks[i] == ' ' || blanks[i] == '\t'
                || blanks[i] == '\n' || blanks[i] == '\r'),
        word.len() > 0,
        forall|i: int|
            0 <= i < word.len() ==> ('a' <= #[trigger] word[i] <= 'z' || 'A' <= word[i] <= 'Z'
                || '0' <= word[i] <= '9' || word[i] == '_'),
        rest.len() > 0 ==> {
            let c = rest[0];
            !('a' <= c <= 'z' || 'A' <= c <= 'Z' || '0' <= c <= '9' || c == '_' || c == '$'
                || c as u32 >= 128)
        },
    ensures
        text::first_token(blanks + word + rest) == word,
{
    blanks_are_skipped(blanks, word + rest);
    assert(blanks + word + rest =~= blanks + (word + rest));
    assert((word + rest)[0] == word[0]);
    word_is_taken(word, rest);
}

proof fn blanks_are_skipped(blanks: Seq<char>, s: Seq<char>)
    requires
        forall|i: int|
            0 <= i < blanks.len() ==> (#[trigger] blanks[i] == ' ' || blanks[i] == '\t'
                || blanks[i] == '\n' || blanks[i] == '\r'),
    ensures
        text::trim_start(blanks + s) == text::trim_start(s),
    decreases blanks.len(),
{
    if blanks.len() == 0 {
        assert(blanks + s =~= s);
    } else {
        assert((blanks + s)[0] == blanks[0]);
        assert((blanks + s).drop_first() =~= blanks.drop_first() + s);
        blanks_are_skipped(blanks.drop_first(), s);
    }
}

proof fn word_is_taken(word: Seq<char>, rest: Seq<char>)
    requires
        forall|i: int|
            0 <= i < word.len() ==> ('a' <= #[trigger] word[i] <= 'z' || 'A' <= word[i] <= 'Z'
                || '0' <= word[i] <= '9' || word[i] == '_'),
        rest.len() > 0 ==> {
            let c = rest[0];
            !('a' <= c <= 'z' || 'A' <= c <= 'Z' || '0' <= c <= '9' || c == '_' || c == '$'
                || c as u32 >= 128)
        },
    ensures
        text::leading_word(word + rest) == word,
    decreases word.len(),
{
    if word.len() == 0 {
        assert(word + rest =~= rest);
        assert(text::leading_word(rest) =~= word);
    } else {
        assert((word + rest)[0] == word[0]);
        assert((word + rest).drop_first() =~= word.drop_first() + rest);
        word_is_taken(word.drop_first(), rest);
        assert(seq![word[0]] + word.drop_first() =~= word);
    }
}

/// Upper case changes the letters `a` to `z` into `A` to `Z`, in their places, and
/// nothing else.
pub proof fn upper_case_changes_letters_only(s: Seq<char>)
    ensures
        text::ascii_upper(s).len() == s.len(),
        forall|i: int|
            0 <= i < s.len() ==> {
                let c = #[trigger] text::ascii_upper(s)[i];
                if 'a' <= s[i] <= 'z' {
                    c as u32 - 'A' as u32 == s[i] as u32 - 'a' as u32
                } else {
                    c == s[i]
                }
            },
{
}

/// Every parameter is bound as what it is: an integer as that integer, a text as that
/// text, `true` as one, `false` as zero, `null` as null, and any other number as that
/// number. The numbers of different integers are taken to differ, as
/// [`crate::json::Json::integer`] makes them.
pub proof fn parameters_are_bound_as_they_are(i: i64, s: Seq<char>, n: serde_json::Number)
    requires
        forall|j: i64| #[trigger] json::int_number(j) == json::int_number(i) ==> j == i,
        forall|j: i64| n != #[trigger] json::int_number(j),
    ensures
        params::sql_value_of(JsonView::Number(json::int_number(i))) == Ok::<SqlView, ErrorView>(
            SqlView::Integer(i),
        ),
        params::sql_value_of(JsonView::Number(n)) == Ok::<SqlView, ErrorView>(SqlView::Real(n)),
        params::sql_value_of(JsonView::Text(s)) == Ok::<SqlView, ErrorView>(SqlView::Text(s)),
        params::sql_value_of(JsonView::Bool(true)) == Ok::<SqlView, ErrorView>(SqlView::Integer(1)),
        params::sql_value_of(JsonView::Bool(false)) == Ok::<SqlView, ErrorView>(
            SqlView::Integer(0),
        ),
        params::sql_value_of(JsonView::Null) == Ok::<SqlView, ErrorView>(SqlView::Null),
{
    assert(json::is_int(json::int_number(i)));
}

/// A list or an object is bound as its JSON text. Only an object whose one member is
/// `$blob` with a text is bound as bytes: those that the text decodes to.
pub proof fn structures_are_bound_as_text(
    a: Seq<JsonView>,
    o: Seq<(Seq<char>, JsonView)>,
    s: Seq<char>,
)
    requires
        !(o.len() == 1 && o[0].0 == "$blob"@ && o[0].1 is Text),
    ensures
        params::sql_value_of(JsonView::Array(a)) == Ok::<SqlView, ErrorView>(
            SqlView::Text(json::json_text(JsonView::Array(a))),
        ),
        params::sql_value_of(JsonView::Object(o)) == Ok::<SqlView, ErrorView>(
            SqlView::Text(json::json_text(JsonView::Object(o))),
        ),
        params::sql_value_of(JsonView::Object(seq![("$blob"@, JsonView::Text(s))])) == (
        match params::base64_bytes(s) {
            Ok(b) => Ok::<SqlView, ErrorView>(SqlView::Blob(b)),
            Err(e) => Err(ErrorView::InvalidParam("$blob base64 decode failed: "@ + e)),
        }),
{
}

/// The values of a statement's parameters stand in the places of the parameters. There
/// are none if and only if some parameter has none, and the error is that of the first
/// of these.
pub proof fn parameters_keep_their_places(p: Seq<JsonView>)
    ensures
        match params::sql_values_of(p) {
            Ok(v) => v.len() == p.len() && forall|i: int|
                0 <= i < p.len() ==> params::sql_value_of(#[trigger] p[i]) == Ok::<
                    SqlView,
                    ErrorView,
                >(v[i]),
            Err(e) => exists|i: int|
                0 <= i < p.len() && params::sql_value_of(#[trigger] p[i]) == Err::<
                    SqlView,
                    ErrorView,
                >(e) && forall|j: int|
                    0 <= j < i ==> params::sql_value_of(#[trigger] p[j]) is Ok,
        },
    decreases p.len(),
{
    if p.len() > 0 {
        let q = p.drop_last();
        parameters_keep_their_places(q);
        assert(forall|i: int| 0 <= i < q.len() ==> q[i] == p[i]);
        match params::sql_values_of(q) {
            Ok(v) => match params::sql_value_of(p.last()) {
                Ok(x) => {
                    assert forall|i: int| 0 <= i < p.len() implies params::sql_value_of(
                        #[trigger] p[i],
                    ) == Ok::<SqlView, ErrorView>(v.push(x)[i]) by {
                        if i < q.len() {
                            assert(q[i] == p[i]);
                        }
                    }
                },
                Err(e) => {
                    let i = p.len() - 1;
                    assert forall|j: int| 0 <= j < i implies params::sql_value_of(#[trigger] p[j])
                        is Ok by {
                        assert(q[j] == p[j]);
                    }
                    assert(params::sql_value_of(p[i]) == Err::<SqlView, ErrorView>(e));
                },
            },
            Err(e) => {
                let i = choose|i: int|
                    0 <= i < q.len() && params::sql_value_of(#[trigger] q[i]) == Err::<
                        SqlView,
                        ErrorView,
                    >(e) && forall|j: int|
                        0 <= j < i ==> params::sql_value_of(#[trigger] q[j]) is Ok;
                assert(params::sql_value_of(p[i]) == Err::<SqlView, ErrorView>(e));
                assert forall|j: int| 0 <= j < i implies params::sql_value_of(#[trigger] p[j])
                    is Ok by {
                    assert(q[j] == p[j]);
                }
            },
        }
    }
}

/// The counters and sizes of a snapshot are found under their names in its JSON.
pub proof fn snapshot_is_found_by_name(s: StatsSnapshot)
    ensures
        ({
            let o = stats::snapshot_json(s)->Object_0;
            &&& stats::snapshot_json(s) is Object
            &&& json::distinct_keys(o)
            &&& json::field(o, "accepted"@) == Some(
                JsonView::Number(json::uint_number(s.accepted)),
            )
            &&& json::field(o, "committed"@) == Some(
                JsonView::Number(json::uint_number(s.committed)),
            )
            &&& json::field(o, "failed"@) == Some(JsonView::Number(json::uint_number(s.failed)))
            &&& json::field(o, "rejected"@) == Some(
                JsonView::Number(json::uint_number(s.rejected)),
            )
            &&& json::field(o, "queue_depth"@) == Some(
                JsonView::Number(json::uint_number(s.queue_depth as u64)),
            )
            &&& json::field(o, "queue_capacity"@) == Some(
                JsonView::Number(json::uint_number(s.queue_capacity as u64)),
            )
            &&& json::field(o, "current_wal_size_bytes"@) == Some(
                match s.current_wal_size_bytes {
                    Some(n) => JsonView::Number(json::uint_number(n)),
                    None => JsonView::Null,
                },
            )
            &&& json::field(o, "avg_commit_latency"@) == Some(
                JsonView::Number(s.avg_commit_latency),
            )
            &&& json::field(o, "p95_commit_latency"@) == Some(
                JsonView::Number(json::uint_number(s.p95_commit_latency)),
            )
        }),
{
    reveal_strlit("accepted");
    reveal_strlit("committed");
    reveal_strlit("failed");
    reveal_strlit("rejected");
    reveal_strlit("queue_depth");
    reveal_strlit("queue_capacity");
    reveal_strlit("current_wal_size_bytes");
    reveal_strlit("avg_commit_latency");
    reveal_strlit("p95_commit_latency");
    assert("accepted"@.len() == 8 && "accepted"@[0] == 'a');
    assert("committed"@.len() == 9 && "failed"@.len() == 6);
    assert("rejected"@.len() == 8 && "rejected"@[0] == 'r');
    assert("queue_depth"@.len() == 11 && "queue_capacity"@.len() == 14);
    assert("current_wal_size_bytes"@.len() == 22);
    assert("avg_commit_latency"@.len() == 18 && "avg_commit_latency"@[0] == 'a');
    assert("p95_commit_latency"@.len() == 18 && "p95_commit_latency"@[0] == 'p');
    let o = stats::snapshot_json(s)->Object_0;
    assert(json::distinct_keys(o));
    json::member_is_found(o, 0);
    json::member_is_found(o, 1);
    json::member_is_found(o, 2);
    json::member_is_found(o, 3);
    json::member_is_found(o, 4);
    json::member_is_found(o, 5);
    json::member_is_found(o, 6);
    json::member_is_found(o, 7);
    json::member_is_found(o, 8);
}

/// A client that asks for the counters reads each under its name: what it makes of the
/// answer holds the numbers of the snapshot.
pub proof fn client_reads_the_snapshot(id: JsonView, s: StatsSnapshot, reply: Seq<char>)
    requires
        json::reads_as(reply, jsonrpc::ok_envelope(id, stats::snapshot_json(s))),
    ensures
        client::wanted_result(reply) is Ok,
        ({
            let read = client::wanted_result(reply)->Ok_0;
            &&& client::member(read, "accepted"@) == Some(
                JsonView::Number(json::uint_number(s.accepted)),
            )
            &&& client::member(read, "committed"@) == Some(
                JsonView::Number(json::uint_number(s.committed)),
            )
            &&& client::member(read, "failed"@) == Some(
                JsonView::Number(json::uint_number(s.failed)),
            )
            &&& client::member(read, "rejected"@) == Some(
                JsonView::Number(json::uint_number(s.rejected)),
            )
            &&& client::member(read, "queue_depth"@) == Some(
                JsonView::Number(json::uint_number(s.queue_depth as u64)),
            )
            &&& client::member(read, "queue_capacity"@) == Some(
                JsonView::Number(json::uint_number(s.queue_capacity as u64)),
            )
            &&& client::member(read, "avg_commit_latency"@) == Some(
                JsonView::Number(s.avg_commit_latency),
            )
            &&& client::member(read, "p95_commit_latency"@) == Some(
                JsonView::Number(json::uint_number(s.p95_commit_latency)),
            )
        }),
{
    snapshot_is_found_by_name(s);
    let o = jsonrpc::ok_envelope(id, stats::snapshot_json(s))->Object_0;
    reveal_strlit("jsonrpc");
    reveal_strlit("id");
    reveal_strlit("result");
    assert("jsonrpc"@.len() == 7 && "id"@.len() == 2 && "result"@.len() == 6);
    json::member_is_found(o, 2);
    json::field_of_ordered(o, "result"@);
    let p = stats::snapshot_json(s)->Object_0;
    json::field_of_ordered(p, "accepted"@);
    json::field_of_ordered(p, "committed"@);
    json::field_of_ordered(p, "failed"@);
    json::field_of_ordered(p, "rejected"@);
    json::field_of_ordered(p, "queue_depth"@);
    json::field_of_ordered(p, "queue_capacity"@);
    json::field_of_ordered(p, "avg_commit_latency"@);
    json::field_of_ordered(p, "p95_commit_latency"@);
}

/// What became of a request is counted under its own name: a commit as committed, a
/// failure as failed, and what the queue did not take as rejected. Nothing else is
/// counted.
pub proof fn outcomes_are_counted_by_name(s: Stats, result: Result<ResponseView, ErrorView>)
    ensures
        ({
            let after = jsonrpc::counted(s, result);
            let taken = match result {
                Ok(_) => true,
                Err(e) => !(e is GatewayOverloaded || e is GatewayClosed),
            };
            let committed = result matches Ok(response) && response.status is Committed;
            &&& after.accepted == s.accepted
            &&& after.committed == (if committed {
                s.committed.wrapping_add(1)
            } else {
                s.committed
            })
            &&& after.failed == (if taken && !committed {
                s.failed.wrapping_add(1)
            } else {
                s.failed
            })
            &&& after.rejected == (if taken {
                s.rejected
            } else {
                s.rejected.wrapping_add(1)
            })
        }),
{
}

/// Every error says what kind it is and keeps the text that it came with.
pub proof fn errors_say_their_kind(s: Seq<char>)
    ensures
        error::error_text(ErrorView::Sqlite(s)) == "sqlite error: "@ + s,
        error::error_text(ErrorView::Json(s)) == "json error: "@ + s,
        error::error_text(ErrorView::Migration(s)) == "migration error: "@ + s,
        error::error_text(ErrorView::SqlRejected(s)) == "sql rejected: "@ + s,
        error::error_text(ErrorView::GatewayClosed) == "gateway is closed"@,
        error::error_text(ErrorView::GatewayOverloaded) == "gateway overloaded"@,
        error::error_text(ErrorView::IdempotencyConflict(s)) == "idempotency conflict: key '"@ + s
            + "' already used with a different request hash"@,
        error::error_text(ErrorView::InvalidParam(s)) == "invalid parameter: "@ + s,
        error::error_text(ErrorView::Io(s)) == "io error: "@ + s,
        error::error_text(ErrorView::Protocol(s)) == "protocol error: "@ + s,
{
}

/// The defaults of a gateway: safe settings, commits and keys tracked, no schema
/// changes, five seconds of waiting for a place or a lock, no batches.
pub proof fn defaults_are_safe(path: std::path::PathBuf)
    ensures
        ({
            let c = config::default_config(path);
            &&& c.db_path == path
            &&& c.journal_mode is Wal
            &&& c.synchronous is Normal
            &&& c.queue_capacity == 1024
            &&& c.track_commits && c.idempotency && c.foreign_keys
            &&& c.busy_timeout_ms == 5000
            &&& c.allow_raw_sql && c.allow_delete
            &&& !c.allow_schema_write && !c.allow_drop
            &&& c.overflow == OverflowPolicy::WaitTimeout { millis: 5000 }
            &&& c.batch is None
        }),
        config::DEFAULT_SOCKET_MODE == 6 * 64,
        JournalMode::Wal.pragma_value() == "WAL"@,
        JournalMode::Delete.pragma_value() == "DELETE"@,
        SyncMode::Normal.pragma_value() == "NORMAL"@,
        SyncMode::Full.pragma_value() == "FULL"@,
{
}

/// For a JSON number that is bound as an integer, that integer is the one whose number
/// it is; any number of an integer is bound so.
pub proof fn integers_are_bound_as_their_own(n: serde_json::Number, i: i64)
    ensures
        params::sql_value_of(JsonView::Number(n)) is Ok,
        params::sql_value_of(JsonView::Number(n)) matches Ok(SqlView::Integer(j))
            ==> json::int_number(j) == n,
        params::sql_value_of(JsonView::Number(n)) matches Ok(v) ==> v is Integer || v
            == SqlView::Real(n),
        params::sql_value_of(JsonView::Number(json::int_number(i)))->Ok_0 is Integer,
{
    if json::is_int(n) {
        let j = choose|j: i64| n == json::int_number(j);
        assert(json::int_number(j) == n);
    }
    assert(json::is_int(json::int_number(i)));
}

/// A request that is answered as failed raises the member `failed` of the counters that
/// a client reads by one, and leaves the others alone; one that is committed raises
/// `committed`; and one that the queue did not take raises `rejected`.
pub proof fn outcome_raises_its_member(
    s: Stats,
    result: Result<ResponseView, ErrorView>,
    before: StatsSnapshot,
    after: StatsSnapshot,
)
    requires
        before.accepted == s.accepted,
        before.committed == s.committed,
        before.failed == s.failed,
        before.rejected == s.rejected,
        after.accepted == jsonrpc::counted(s, result).accepted,
        after.committed == jsonrpc::counted(s, result).committed,
        after.failed == jsonrpc::counted(s, result).failed,
        after.rejected == jsonrpc::counted(s, result).rejected,
        s.committed < u64::MAX,
        s.failed < u64::MAX,
        s.rejected < u64::MAX,
    ensures
        ({
            let o = stats::snapshot_json(before)->Object_0;
            let p = stats::snapshot_json(after)->Object_0;
            let raised = match result {
                Ok(response) => match response.status {
                    WriteStatus::Committed => "committed"@,
                    WriteStatus::Failed => "failed"@,
                },
                Err(e) => if e is GatewayOverloaded || e is GatewayClosed {
                    "rejected"@
                } else {
                    "failed"@
                },
            };
            &&& json::field(p, "accepted"@) == json::field(o, "accepted"@)
            &&& json::field(o, "committed"@) == Some(
                JsonView::Number(json::uint_number(s.committed)),
            )
            &&& json::field(o, "failed"@) == Some(JsonView::Number(json::uint_number(s.failed)))
            &&& json::field(o, "rejected"@) == Some(
                JsonView::Number(json::uint_number(s.rejected)),
            )
            &&& raised == "committed"@ ==> json::field(p, "committed"@) == Some(
                JsonView::Number(json::uint_number((s.committed + 1) as u64)),
            )
            &&& raised != "committed"@ ==> json::field(p, "committed"@) == json::field(
                o,
                "committed"@,
            )
            &&& raised == "failed"@ ==> json::field(p, "failed"@) == Some(
                JsonView::Number(json::uint_number((s.failed + 1) as u64)),
            )
            &&& raised != "failed"@ ==> json::field(p, "failed"@) == json::field(o, "failed"@)
            &&& raised == "rejected"@ ==> json::field(p, "rejected"@) == Some(
                JsonView::Number(json::uint_number((s.rejected + 1) as u64)),
            )
            &&& raised != "rejected"@ ==> json::field(p, "rejected"@) == json::field(
                o,
                "rejected"@,
            )
        }),
{
    snapshot_is_found_by_name(before);
    snapshot_is_found_by_name(after);
    reveal_strlit("committed");
    reveal_strlit("failed");
    reveal_strlit("rejected");
    assert("committed"@.len() == 9 && "failed"@.len() == 6 && "rejected"@.len() == 8);
}

/// The log of a database file lies beside it, under its name with `-wal` behind it.
pub proof fn log_lies_beside_the_file(path: Seq<char>)
    ensures
        stats::log_path(path) is None <==> path.len() == 0 || path == ":memory:"@,
        stats::log_path(path) matches Some(p) ==> p == path + "-wal"@,
{
}

/// The number that some decimal digits write.
pub open spec fn number_of(s: Seq<char>) -> int
    decreases s.len(),
{
    if s.len() == 0 {
        0
    } else {
        10 * number_of(s.drop_last()) + (s.last() as u32 - '0' as u32)
    }
}

/// A number in decimal is made of the digits `0` to `9`, does not begin with a zero
/// unless it is zero, and writes that number.
pub proof fn decimal_writes_the_number(n: nat)
    ensures
        text::decimal(n).len() > 0,
        forall|i: int| 0 <= i < text::decimal(n).len() ==> '0' <= #[trigger] text::decimal(n)[i] <= '9',
        n > 0 ==> text::decimal(n)[0] != '0',
        number_of(text::decimal(n)) == n,
    decreases n,
{
    let s = text::decimal(n);
    if n < 10 {
        assert(s.drop_last() =~= Seq::<char>::empty());
        assert(number_of(s.drop_last()) == 0);
        assert(s.last() as u32 == '0' as u32 + n);
    } else {
        decimal_writes_the_number(n / 10);
        assert(s.drop_last() =~= text::decimal(n / 10));
        assert(s.last() as u32 == '0' as u32 + n % 10);
        assert(s[0] == text::decimal(n / 10)[0]);
    }
}

/// Base eight: a digit alone is its value, one more digit counts eight times what stands
/// before it and itself, a plus sign before the digits changes nothing, and a number
/// with anything else in it, without digits or beyond 32 bits is none.
pub proof fn octal_reads_the_number(s: Seq<char>, c: char)
    ensures
        text::octal(Seq::empty()) is None,
        '0' <= c <= '7' ==> text::octal(seq![c]) == Some((c as u32 - '0' as u32) as u32),
        '0' <= c <= '7' && text::octal(s) is Some ==> text::octal(s.push(c)) == (if 8
            * text::octal(s)->0 + (c as u32 - '0' as u32) <= u32::MAX {
            Some((8 * text::octal(s)->0 + (c as u32 - '0' as u32)) as u32)
        } else {
            None
        }),
        !('0' <= c <= '7') ==> text::octal(s.push(c)) is None,
        s.len() > 0 && s[0] != '+' ==> text::octal(seq!['+'] + s) == text::octal(s),
{
    reveal_with_fuel(text::octal_digits, 2);
    let one = seq![c];
    assert(one.drop_last() =~= Seq::<char>::empty());
    if c == '+' {
        assert(one.drop_first() =~= Seq::<char>::empty());
    }
    let t = s.push(c);
    assert(t.drop_last() =~= s);
    if s.len() > 0 && s[0] == '+' {
        assert(t.drop_first() =~= s.drop_first().push(c));
        assert(t.drop_first().drop_last() =~= s.drop_first());
    }
    if s.len() == 0 && c == '+' {
        assert(t.drop_first() =~= Seq::<char>::empty());
    }
    assert((seq!['+'] + s).drop_first() =~= s);
}

/// Texts are ordered by the first character in which they differ, and a text comes
/// before those that it begins.
pub proof fn texts_are_ordered_by_their_characters(p: Seq<char>, a: Seq<char>, b: Seq<char>)
    requires
        a.len() > 0 && b.len() > 0 ==> a[0] != b[0],
    ensures
        text::is_before(p + a, p + b) == (if b.len() == 0 {
            false
        } else if a.len() == 0 {
            true
        } else {
            a[0] < b[0]
        }),
    decreases p.len(),
{
    if p.len() == 0 {
        assert(p + a =~= a && p + b =~= b);
    } else {
        assert((p + a).drop_first() =~= p.drop_first() + a);
        assert((p + b).drop_first() =~= p.drop_first() + b);
        assert((p + a)[0] == (p + b)[0]);
        texts_are_ordered_by_their_characters(p.drop_first(), a, b);
    }
}

/// The line feeds at the end of a text are taken off, and nothing else.
pub proof fn only_line_feeds_are_taken_off(s: Seq<char>, n: nat)
    requires
        s.len() > 0 ==> s.last() != '\n',
    ensures
        text::trim_line_end(s + Seq::new(n, |i: int| '\n')) == s,
    decreases n,
{
    let t = s + Seq::new(n, |i: int| '\n');
    if n == 0 {
        assert(t =~= s);
    } else {
        assert(t.drop_last() =~= s + Seq::new((n - 1) as nat, |i: int| '\n'));
        only_line_feeds_are_taken_off(s, (n - 1) as nat);
    }
}

/// What follows a prefix is what has to be put behind it to give the text.
pub proof fn prefix_and_rest_give_the_text(s: Seq<char>, prefix: Seq<char>, rest: Seq<char>)
    ensures
        text::after_prefix(s, prefix) == Some(rest) <==> s == prefix + rest,
        text::after_prefix(s, prefix) is None <==> !prefix.is_prefix_of(s),
{
    if s == prefix + rest {
        assert(prefix =~= s.subrange(0, prefix.len() as int));
        assert(s.skip(prefix.len() as int) =~= rest);
    }
    if text::after_prefix(s, prefix) == Some(rest) {
        assert(s =~= prefix + rest);
    }
}

/// Blanks, and the characters of an SQL word: within ASCII, the blanks are the space, the
/// line feed, the carriage return and the three tabs and feeds between; beyond it, they
/// are those that Unicode names.
pub proof fn blanks_and_word_characters(c: char)
    ensures
        (c as u32) >= 128 ==> (text::is_white_space(c) <==> c as u32 == 0x85 || c as u32 == 0xa0
            || c as u32 == 0x1680 || 0x2000 <= c as u32 <= 0x200a || c as u32 == 0x2028 || c as u32
            == 0x2029 || c as u32 == 0x202f || c as u32 == 0x205f || c as u32 == 0x3000),
        (c as u32) < 128 ==> (text::is_white_space(c) <==> c == ' ' || c == '\t' || c == '\n' || c
            == '\r' || c as u32 == 11 || c as u32 == 12),
        text::is_word_char(c) <==> c as u32 >= 128 || c == '_' || c == '$' || 'a' <= c <= 'z'
            || 'A' <= c <= 'Z' || '0' <= c <= '9',
{
}

/// The last 1024 measurements are kept, the oldest first.
pub proof fn last_measurements_are_kept(s: Seq<u64>, micros: u64)
    requires
        s.len() <= 1024,
    ensures
        s.len() < 1024 ==> latency::pushed(s, micros) == s + seq![micros],
        s.len() == 1024 ==> latency::pushed(s, micros) == s.subrange(1, 1024) + seq![micros],
{
    assert(s.push(micros) =~= s + seq![micros]);
    if s.len() == 1024 {
        assert(s.drop_first().push(micros) =~= s.subrange(1, 1024) + seq![micros]);
    }
}

/// The sum of measurements counts each of them once.
pub proof fn each_measurement_is_added(s: Seq<u64>, t: Seq<u64>, micros: u64)
    ensures
        latency::total(Seq::empty()) == 0,
        latency::total(seq![micros]) == micros,
        latency::total(s + t) == latency::total(s) + latency::total(t),
    decreases t.len(),
{
    reveal_with_fuel(latency::total, 2);
    assert(seq![micros].drop_last() =~= Seq::<u64>::empty());
    if t.len() == 0 {
        assert(s + t =~= s);
    } else {
        each_measurement_is_added(s, t.drop_last(), micros);
        assert((s + t).drop_last() =~= s + t.drop_last());
    }
}

/// At least 95 of 100 measurements are at most the 95th percentile, and it is the
/// smallest rank of which that holds.
pub proof fn percentile_covers_95_of_100(n: nat)
    requires
        n > 0,
    ensures
        1 <= latency::p95_rank(n) <= n,
        100 * latency::p95_rank(n) >= 95 * n,
        100 * (latency::p95_rank(n) - 1) < 95 * n,
{
}

/// What has a rank is one of the measurements; that with the first rank is the smallest,
/// and that with the last rank the greatest.
pub proof fn ranks_go_from_smallest_to_greatest(s: Seq<u64>, rank: nat, v: u64)
    requires
        latency::is_ranked(s, rank, v),
    ensures
        s.contains(v),
        rank == 1 ==> forall|i: int| 0 <= i < s.len() ==> v <= #[trigger] s[i],
        rank == s.len() ==> forall|i: int| 0 <= i < s.len() ==> #[trigger] s[i] <= v,
{
    broadcast use vstd::seq_lib::group_to_multiset_ensures;

    let a = choose|a: Seq<u64>| #[trigger]
        latency::ascending(a) && a.to_multiset() == s.to_multiset() && 0 < rank <= a.len() && v
            == a[rank - 1];
    assert(a.contains(v));
    assert(a.to_multiset().count(v) > 0);
    assert(s.contains(v));
    vstd::seq_lib::to_multiset_len(a);
    vstd::seq_lib::to_multiset_len(s);
    assert forall|i: int| 0 <= i < s.len() implies a.contains(#[trigger] s[i]) by {
        assert(s.contains(s[i]));
        assert(s.to_multiset().count(s[i]) > 0);
    }
}

/// Requests share a transaction only where that is asked for and the first has a single
/// operation; any other is alone in its own.
pub proof fn only_single_operations_share<W, C>(c: Command<W, C>, config: GatewayConfig)
    ensures
        config.batch is None ==> queue::batch_limit(c, config) == 1,
        c is Shutdown || c is Checkpoint ==> queue::batch_limit(c, config) == 1
            && !queue::may_share(c),
        c matches Command::Write { request, .. } ==> {
            &&& queue::may_share(c) <==> request.operations@.len() == 1
            &&& request.operations@.len() != 1 ==> queue::batch_limit(c, config) == 1
            &&& request.operations@.len() == 1 && config.batch is Some ==> queue::batch_limit(
                c,
                config,
            ) == config.batch->0.max_size
        },
{
}

/// A call is allowed if and only if no token is asked for, or its header is the word
/// `Bearer`, one space and the token. Any other is refused with status 401, whatever its
/// body is; an allowed call is dispatched with its body as it is, if that is a text.
pub proof fn calls_need_the_token(
    expected: Option<Seq<char>>,
    header: Option<Seq<char>>,
    body: Seq<u8>,
)
    ensures
        http::is_allowed(expected, header) <==> expected is None || header == Some(
            "Bearer "@ + expected->0,
        ),
        http::is_allowed(expected, header) && vstd::utf8::valid_utf8(body) ==> http::screening(
            expected,
            header,
            body,
        ) == ScreenedView::Dispatch(vstd::utf8::decode_utf8(body)),
        !http::is_allowed(expected, header) ==> http::screening(expected, header, body) == (
        ScreenedView::Answer {
            status: 401,
            body: JsonView::Object(seq![("error"@, JsonView::Text("unauthorized"@))]),
        }),
        http::is_allowed(expected, header) && !vstd::utf8::valid_utf8(body) ==> http::screening(
            expected,
            header,
            body,
        ) == (ScreenedView::Answer {
            status: 200,
            body: jsonrpc::err_envelope(
                JsonView::Null,
                -32700 as i64,
                "request body is not valid UTF-8"@,
                None,
            ),
        }),
{
    if let (Some(token), Some(h)) = (expected, header) {
        prefix_and_rest_give_the_text(h, "Bearer "@, token);
    }
}

/// A reply that is no JSON is reported as an internal error.
pub proof fn unreadable_reply_is_an_internal_error(reply: Seq<char>)
    ensures
        match json::json_read(reply) {
            Ok(j) => http::answer_body(reply) == j,
            Err(_) => http::answer_body(reply) == jsonrpc::err_envelope(
                JsonView::Null,
                -32603 as i64,
                "internal error"@,
                None,
            ),
        },
{
}

/// A line holds at most 1048576 bytes, and the line feeds at its end do not count.
pub proof fn lines_hold_a_mebibyte(s: Seq<char>, n: nat, bytes: nat)
    requires
        s.len() > 0 ==> s.last() != '\n',
    ensures
        jsonrpc::MAX_LINE_BYTES == 1048576,
        sidecar::payload_bytes(s + Seq::new(n, |i: int| '\n')) == vstd::utf8::encode_utf8(s).len()
            as usize,
        sidecar::too_long(bytes) == "line too long: "@ + text::decimal(bytes)
            + " bytes exceeds limit ("@ + text::decimal(1048576) + " bytes)"@,
{
    only_line_feeds_are_taken_off(s, n);
}

/// What the sender of a request learns: the response of the writer that took it, that
/// the gateway is overloaded where the queue had no room, and that it is closed where
/// the writer has stopped before it took the request or before it answered.
pub proof fn sender_learns_what_became_of_it(response: Option<ResponseView>, r: ResponseView)
    ensures
        submission::outcome(Handover::Taken, Some(r)) == Ok::<ResponseView, ErrorView>(r),
        submission::outcome(Handover::Taken, None) == Err::<ResponseView, ErrorView>(
            ErrorView::GatewayClosed,
        ),
        submission::outcome(Handover::Full, response) == Err::<ResponseView, ErrorView>(
            ErrorView::GatewayOverloaded,
        ),
        submission::outcome(Handover::TimedOut, response) == Err::<ResponseView, ErrorView>(
            ErrorView::GatewayOverloaded,
        ),
        submission::outcome(Handover::Closed, response) == Err::<ResponseView, ErrorView>(
            ErrorView::GatewayClosed,
        ),
        submission::obstacle(Handover::Taken) is None,
        submission::obstacle(Handover::Full) == Some(ErrorView::GatewayOverloaded),
        submission::obstacle(Handover::TimedOut) == Some(ErrorView::GatewayOverloaded),
        submission::obstacle(Handover::Closed) == Some(ErrorView::GatewayClosed),
{
}

/// Each option sets its own argument to the word behind it, the last one counts, and a
/// word that is no option is passed over. The permission bits are in base eight.
pub proof fn options_set_their_arguments(words: Seq<Seq<char>>, i: int, g: Given)
    requires
        0 <= i,
        i + 1 < words.len(),
    ensures
        ({
            let word = words[i];
            let value = words[i + 1];
            &&& word == "--db"@ ==> args::given(words, i, g) == args::given(
                words,
                i + 2,
                Given { db: Some(value), ..g },
            )
            &&& word == "--socket"@ ==> args::given(words, i, g) == args::given(
                words,
                i + 2,
                Given { socket: Some(value), ..g },
            )
            &&& word == "--http"@ ==> args::given(words, i, g) == args::given(
                words,
                i + 2,
                Given { http: Some(value), ..g },
            )
            &&& word == "--http-token"@ ==> args::given(words, i, g) == args::given(
                words,
                i + 2,
                Given { http_token: Some(value), ..g },
            )
            &&& word == "--socket-mode"@ && text::octal(value) is Some ==> args::given(words, i, g)
                == args::given(words, i + 2, Given { socket_mode: text::octal(value), ..g })
            &&& word == "--socket-mode"@ && text::octal(value) is None ==> args::given(words, i, g)
                == Err::<Given, ArgumentErrorView>(ArgumentErrorView::SocketMode(value))
            &&& word != "--db"@ && word != "--socket"@ && word != "--http"@ && word
                != "--http-token"@ && word != "--socket-mode"@ ==> args::given(words, i, g)
                == args::given(words, i + 1, g)
        }),
        args::given(words, words.len() as int, g) == Ok::<Given, ArgumentErrorView>(g),
        args::given(words, words.len() - 1, g) == Ok::<Given, ArgumentErrorView>(g),
{
    reveal_strlit("--db");
    reveal_strlit("--socket");
    reveal_strlit("--socket-mode");
    reveal_strlit("--http");
    reveal_strlit("--http-token");
    assert("--db"@.len() == 4 && "--socket"@.len() == 8 && "--socket-mode"@.len() == 13);
    assert("--http"@.len() == 6 && "--http-token"@.len() == 12);
    reveal_with_fuel(args::given, 2);
}

/// The program needs a database, and a socket or an address for HTTP. Its own name is
/// not looked at, and what is not given stays unset.
pub proof fn program_needs_a_database_and_an_address(words: Seq<Seq<char>>)
    ensures
        args::given(
            words,
            1,
            (Given { db: None, socket: None, socket_mode: None, http: None, http_token: None }),
        ) matches Ok(g) ==> args::arguments_of(words) == (if g.db is Some && (g.socket is Some
            || g.http is Some) {
            Ok::<Given, ArgumentErrorView>(g)
        } else {
            Err(ArgumentErrorView::Usage)
        }),
        args::given(
            words,
            1,
            (Given { db: None, socket: None, socket_mode: None, http: None, http_token: None }),
        ) matches Err(e) ==> args::arguments_of(words) == Err::<Given, ArgumentErrorView>(e),
{
}

/// Commands and words are what they are made of, in order.
pub proof fn lists_are_seen_in_order<W, C>(
    batch: Seq<(WriteRequest, W)>,
    c: Command<W, C>,
    words: Seq<String>,
    bound: Seq<SqlValue>,
    s: &str,
    w: WriteResponse,
    i: int,
)
    ensures
        queue::as_commands::<W, C>(batch).len() == batch.len(),
        0 <= i < batch.len() ==> queue::as_commands::<W, C>(batch)[i] == (Command::<
            W,
            C,
        >::Write { request: batch[i].0, respond_to: batch[i].1 }),
        queue::as_seq(Some(c)) == seq![c],
        queue::as_seq(None::<Command<W, C>>).len() == 0,
        args::word_views(words).len() == words.len(),
        0 <= i < words.len() ==> args::word_views(words)[i] == words[i]@,
        params::sql_values(bound).len() == bound.len(),
        0 <= i < bound.len() ==> params::sql_values(bound)[i] == bound[i]@,
        text::opt_str(Some(s)) == Some(s@),
        text::opt_str(None) is None,
        submission::opt_response(Some(w)) == Some(w@),
        submission::opt_response(None) is None,
{
}

/// Requests and responses are what their fields are.
pub proof fn fields_are_seen_as_they_are(
    r: WriteRequest,
    op: SqlOperation,
    w: WriteResponse,
    i: int,
    j: int,
)
    requires
        0 <= i < r.operations@.len(),
        0 <= j < op.params@.len(),
    ensures
        r@.request_id == r.request_id@,
        r@.actor_id == r.actor_id@,
        r@.run_id == (match r.run_id {
            Some(s) => Some(s@),
            None => None,
        }),
        r@.idempotency_key == (match r.idempotency_key {
            Some(s) => Some(s@),
            None => None,
        }),
        r@.operations.len() == r.operations@.len(),
        r@.operations[i] == r.operations@[i]@,
        op@.sql == op.sql@,
        op@.params.len() == op.params@.len(),
        op@.params[j] == op.params@[j]@,
        w@.request_id == w.request_id@,
        w@.status == w.status,
        w@.commit_seq == w.commit_seq,
        w@.error == (match w.error {
            Some(s) => Some(s@),
            None => None,
        }),
{
}

} // verus!
