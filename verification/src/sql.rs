//! Which statements a client may send.
use vstd::prelude::*;

use crate::config::GatewayConfig;
use crate::error::{joined, Error, ErrorView};
use crate::text;
use crate::text::{first_word, is_keyword};

verus! {

/// Whether `word` begins a statement that no client may send: the writer alone
/// controls transactions and settings. `END` is SQLite's other word for `COMMIT`.
pub open spec fn controls_transaction(word: Seq<char>) -> bool {
    ||| word == "BEGIN"@
    ||| word == "COMMIT"@
    ||| word == "END"@
    ||| word == "ROLLBACK"@
    ||| word == "SAVEPOINT"@
    ||| word == "RELEASE"@
    ||| word == "PRAGMA"@
}

/// Whether `word` begins a statement that changes the schema.
pub open spec fn changes_schema(word: Seq<char>) -> bool {
    ||| word == "CREATE"@
    ||| word == "ALTER"@
    ||| word == "DROP"@
    ||| word == "TRUNCATE"@
}

/// Why a statement is refused, or `None` if it may run. Only its first word
/// counts, whatever the case of its letters.
pub open spec fn refusal(sql: Seq<char>, config: GatewayConfig) -> Option<Seq<char>> {
    let first = text::first_token(sql);
    let word = text::ascii_upper(first);
    if !config.allow_raw_sql {
        Some("raw SQL is disabled (allow_raw_sql = false)"@)
    } else if controls_transaction(word) {
        Some("statement starts with forbidden keyword '"@ + first + "'"@)
    } else if word == "DROP"@ && !config.allow_drop {
        Some("DROP statements are disabled (allow_drop = false)"@)
    } else if word == "DELETE"@ && !config.allow_delete {
        Some("DELETE statements are disabled (allow_delete = false)"@)
    } else if changes_schema(word) && !config.allow_schema_write {
        Some(
            "schema-write statements are disabled (allow_schema_write = false); statement starts with '"@
                + first + "'"@,
        )
    } else {
        None
    }
}

/// Decides whether a statement may run under a configuration.
///
/// The first word alone is looked at. A comment before it, or a keyword inside
/// the statement, is not seen.
pub fn validate_sql(sql: &str, config: &GatewayConfig) -> (r: Result<(), Error>)
    ensures
        match r {
            Ok(_) => refusal(sql@, *config) is None,
            Err(e) => refusal(sql@, *config) is Some && e@ == ErrorView::SqlRejected(
                refusal(sql@, *config)->0,
            ),
        },
{
    if !config.allow_raw_sql {
        return Err(Error::SqlRejected("raw SQL is disabled (allow_raw_sql = false)".to_owned()));
    }
    let first = first_word(sql);
    if is_keyword(&first, "BEGIN") || is_keyword(&first, "COMMIT") || is_keyword(&first, "END")
        || is_keyword(&first, "ROLLBACK") || is_keyword(&first, "SAVEPOINT")
        || is_keyword(&first, "RELEASE") || is_keyword(&first, "PRAGMA") {
        return Err(
            Error::SqlRejected(
                joined(&joined("statement starts with forbidden keyword '", &first), "'"),
            ),
        );
    }
    if is_keyword(&first, "DROP") && !config.allow_drop {
        return Err(
            Error::SqlRejected("DROP statements are disabled (allow_drop = false)".to_owned()),
        );
    }
    if is_keyword(&first, "DELETE") && !config.allow_delete {
        return Err(
            Error::SqlRejected("DELETE statements are disabled (allow_delete = false)".to_owned()),
        );
    }
    if (is_keyword(&first, "CREATE") || is_keyword(&first, "ALTER") || is_keyword(&first, "DROP")
        || is_keyword(&first, "TRUNCATE")) && !config.allow_schema_write {
        return Err(
            Error::SqlRejected(
                joined(
                    &joined(
                        "schema-write statements are disabled (allow_schema_write = false); statement starts with '",
                        &first,
                    ),
                    "'",
                ),
            ),
        );
    }
    Ok(())
}

/// A statement that begins with a word for transactions or settings is refused
/// under every configuration, whatever stands behind the word.
pub proof fn transaction_control_is_always_refused(sql: Seq<char>, config: GatewayConfig)
    requires
        controls_transaction(text::ascii_upper(text::first_token(sql))),
    ensures
        refusal(sql, config) is Some,
{
}

/// The case of the letters of the first word does not matter to the decision.
pub proof fn letter_case_does_not_matter(a: Seq<char>, b: Seq<char>, config: GatewayConfig)
    requires
        text::ascii_upper(text::first_token(a)) == text::ascii_upper(text::first_token(b)),
    ensures
        refusal(a, config) is None <==> refusal(b, config) is None,
{
}

/// A drop needs both its own flag and that for schema changes.
pub proof fn drop_needs_both_flags(sql: Seq<char>, config: GatewayConfig)
    requires
        text::ascii_upper(text::first_token(sql)) == "DROP"@,
    ensures
        refusal(sql, config) is None <==> config.allow_raw_sql && config.allow_drop
            && config.allow_schema_write,
{
    reveal_strlit("DROP");
    reveal_strlit("BEGIN");
    reveal_strlit("COMMIT");
    reveal_strlit("END");
    reveal_strlit("ROLLBACK");
    reveal_strlit("SAVEPOINT");
    reveal_strlit("RELEASE");
    reveal_strlit("PRAGMA");
    reveal_strlit("DELETE");
    assert("END"@.len() == 3);
    assert("DROP"@.len() == 4 && "BEGIN"@.len() == 5 && "COMMIT"@.len() == 6);
    assert("ROLLBACK"@.len() == 8 && "SAVEPOINT"@.len() == 9 && "RELEASE"@.len() == 7);
    assert("PRAGMA"@.len() == 6 && "DELETE"@.len() == 6);
}

/// What is allowed under one configuration stays allowed under another that
/// allows at least as much.
pub proof fn more_permission_refuses_no_more(sql: Seq<char>, less: GatewayConfig, more: GatewayConfig)
    requires
        less.allow_raw_sql ==> more.allow_raw_sql,
        less.allow_drop ==> more.allow_drop,
        less.allow_delete ==> more.allow_delete,
        less.allow_schema_write ==> more.allow_schema_write,
    ensures
        refusal(sql, less) is None ==> refusal(sql, more) is None,
{
}

} // verus!
