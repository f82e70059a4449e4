use vstd::prelude::*;

use crate::sqlite::error_text;
use crate::text::starts_with;

verus! {

/// Prefix of the message reporting a storage failure.
pub const DB_ERROR_PREFIX: &'static str = "数据库错误: ";

/// `e` reports a storage failure.
pub open spec fn is_db_error(e: Seq<char>) -> bool {
    starts_with(e, DB_ERROR_PREFIX@)
}

/// The message reporting a storage failure: the prefix, then the error's text.
pub fn db_error(e: rusqlite::Error) -> (r: String)
    ensures
        is_db_error(r@),
{
    let mut out = DB_ERROR_PREFIX.to_owned();
    let detail = error_text(&e);
    let ghost prefix = out@;
    out.append(detail.as_str());
    assert(out@.take(prefix.len() as int) =~= prefix);
    out
}

} // verus!
