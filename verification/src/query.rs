//! The text of the list statement for a relational backend that keeps the
//! tasks in a single table `tasks(id, title, completed, created_at)`.

use vstd::prelude::*;
use vstd::string::*;
use crate::models::task::{TaskFilter, Pagination};

verus! {

/// The character of a decimal digit.
pub open spec fn digit_char(d: int) -> char {
    if d == 0 {
        '0'
    } else if d == 1 {
        '1'
    } else if d == 2 {
        '2'
    } else if d == 3 {
        '3'
    } else if d == 4 {
        '4'
    } else if d == 5 {
        '5'
    } else if d == 6 {
        '6'
    } else if d == 7 {
        '7'
    } else if d == 8 {
        '8'
    } else {
        '9'
    }
}

/// The decimal numeral of `n`, without leading zeros.
pub open spec fn decimal_text(n: nat) -> Seq<char>
    decreases n,
{
    if n < 10 {
        seq![digit_char(n as int)]
    } else {
        decimal_text(n / 10).push(digit_char((n % 10) as int))
    }
}

/// The condition of the statement under a completion filter.
pub open spec fn where_text(filter: Option<bool>) -> Seq<char> {
    match filter {
        Some(true) => " WHERE completed = "@ + "1"@,
        Some(false) => " WHERE completed = "@ + "0"@,
        None => Seq::empty(),
    }
}

/// The row limit of the statement. An offset cannot stand without a limit,
/// so an offset alone is given the limit `-1`, which bounds nothing.
pub open spec fn limit_text(pagination: Pagination) -> Seq<char> {
    match pagination.limit {
        Some(n) => " LIMIT "@ + decimal_text(n as nat),
        None => if pagination.offset is Some {
            " LIMIT -1"@
        } else {
            Seq::empty()
        },
    }
}

/// The row offset of the statement.
pub open spec fn offset_text(offset: Option<u64>) -> Seq<char> {
    match offset {
        Some(n) => " OFFSET "@ + decimal_text(n as nat),
        None => Seq::empty(),
    }
}

/// The whole list statement: the selection, the condition where a filter is
/// given, the order (newest first), then the limit and the offset where given.
/// It asks the backend for what `window(matching(..))` is of the stored
/// records.
pub open spec fn list_query_text(filter: TaskFilter, pagination: Pagination) -> Seq<char> {
    "SELECT id, title, completed, created_at FROM tasks"@ + where_text(filter.completed)
        + " ORDER BY created_at DESC"@ + limit_text(pagination) + offset_text(
        pagination.offset,
    )
}

/// Returns the one-character text of a decimal digit.
fn digit_str(d: u64) -> (r: &'static str)
    requires
        d < 10,
    ensures
        r@ == seq![digit_char(d as int)],
{
    proof {
        reveal_strlit("0");
        reveal_strlit("1");
        reveal_strlit("2");
        reveal_strlit("3");
        reveal_strlit("4");
        reveal_strlit("5");
        reveal_strlit("6");
        reveal_strlit("7");
        reveal_strlit("8");
        reveal_strlit("9");
    }
    let r = if d == 0 {
        "0"
    } else if d == 1 {
        "1"
    } else if d == 2 {
        "2"
    } else if d == 3 {
        "3"
    } else if d == 4 {
        "4"
    } else if d == 5 {
        "5"
    } else if d == 6 {
        "6"
    } else if d == 7 {
        "7"
    } else if d == 8 {
        "8"
    } else {
        "9"
    };
    assert(r@ =~= seq![digit_char(d as int)]);
    r
}

/// Writes `n` as a decimal numeral.
pub fn decimal(n: u64) -> (r: String)
    ensures
        r@ == decimal_text(n as nat),
    decreases n,
{
    if n < 10 {
        String::from_str(digit_str(n))
    } else {
        let mut s = decimal(n / 10);
        s.append(digit_str(n % 10));
        assert(s@ =~= decimal_text((n / 10) as nat).push(digit_char((n % 10) as int)));
        s
    }
}

/// Builds the list statement for a filter and a pagination.
pub fn list_query(filter: &TaskFilter, pagination: &Pagination) -> (r: String)
    ensures
        r@ == list_query_text(*filter, *pagination),
{
    let mut query = String::from_str("SELECT id, title, completed, created_at FROM tasks");
    if let Some(completed) = filter.completed {
        query.append(" WHERE completed = ");
        query.append(if completed { "1" } else { "0" });
    }
    assert(query@ =~= "SELECT id, title, completed, created_at FROM tasks"@ + where_text(
        filter.completed,
    ));
    query.append(" ORDER BY created_at DESC");
    if let Some(limit) = pagination.limit {
        query.append(" LIMIT ");
        query.append(decimal(limit).as_str());
    } else if pagination.offset.is_some() {
        query.append(" LIMIT -1");
    }
    assert(query@ =~= "SELECT id, title, completed, created_at FROM tasks"@ + where_text(
        filter.completed,
    ) + " ORDER BY created_at DESC"@ + limit_text(*pagination));
    if let Some(offset) = pagination.offset {
        query.append(" OFFSET ");
        query.append(decimal(offset).as_str());
    }
    assert(query@ =~= list_query_text(*filter, *pagination));
    query
}

} // verus!
