//! The user's database of tokens: what loading a row gives, and what becomes of a row.

use crate::codec::{
    copies, encodes_to, reads_token, token_decoding, token_from_bytes, token_to_bytes,
};
use crate::commands::session::{not_found, touches};
use crate::commands::token_not_found;
use crate::protocol::ClientError;
use anonymous_credit_tokens::CreditToken;
use vstd::prelude::*;

verus! {

/// What loading a token gives, with the bytes of its row, where there is one.
pub open spec fn loads(
    id: i64,
    row: Option<Seq<u8>>,
    token: Result<CreditToken, ClientError>,
) -> bool {
    match row {
        Some(bytes) => reads_token(bytes, token),
        None => token matches Err(ClientError::Io(detail)) && detail@ == not_found(id),
    }
}

/// Loads a token, with the bytes of its row, where there is one.
pub fn load_token(id: i64, row: Option<Vec<u8>>) -> (token: Result<CreditToken, ClientError>)
    ensures
        loads(
            id,
            match row {
                Some(bytes) => Some(bytes@),
                None => None,
            },
            token,
        ),
{
    match row {
        Some(bytes) => token_from_bytes(bytes.as_slice()),
        None => Err(token_not_found(id)),
    }
}

/// Whether the bytes of every row are those of a token.
pub open spec fn all_readable(rows: Seq<(i64, Vec<u8>)>) -> bool {
    forall|i: int| 0 <= i < rows.len() ==> token_decoding((#[trigger] rows[i]).1@) is Ok
}

/// What loading all tokens gives: each with its identifier, in the order of the rows, or an error
/// where one of the rows holds no token.
pub open spec fn loads_all(
    rows: Seq<(i64, Vec<u8>)>,
    tokens: Result<Vec<(i64, CreditToken)>, ClientError>,
) -> bool {
    if all_readable(rows) {
        &&& tokens matches Ok(tokens)
        &&& tokens.len() == rows.len()
        &&& forall|i: int|
            #![trigger tokens@[i]]
            0 <= i < rows.len() ==> tokens@[i].0 == rows[i].0 && reads_token(
                rows[i].1@,
                Ok(tokens@[i].1),
            )
    } else {
        &&& tokens matches Err(ClientError::Database(detail))
        &&& detail@ == "Invalid column type Blob at index: 1, name: "@
    }
}

/// Loads all tokens, with the identifiers and the bytes of their rows.
pub fn load_all(rows: Vec<(i64, Vec<u8>)>) -> (tokens: Result<Vec<(i64, CreditToken)>, ClientError>)
    ensures
        loads_all(rows@, tokens),
{
    let mut tokens: Vec<(i64, CreditToken)> = Vec::new();
    let mut i: usize = 0;
    while i < rows.len()
        invariant
            i <= rows.len(),
            tokens.len() == i,
            forall|j: int| 0 <= j < i ==> token_decoding((#[trigger] rows@[j]).1@) is Ok,
            forall|j: int|
                #![trigger tokens@[j]]
                0 <= j < i ==> tokens@[j].0 == rows@[j].0 && reads_token(
                    rows@[j].1@,
                    Ok(tokens@[j].1),
                ),
        decreases rows.len() - i,
    {
        match token_from_bytes(rows[i].1.as_slice()) {
            Ok(token) => {
                tokens.push((rows[i].0, token));
            },
            Err(_) => {
                assert(token_decoding(rows@[i as int].1@) is Err);
                return Err(
                    ClientError::Database(
                        String::from_str("Invalid column type Blob at index: 1, name: "),
                    ),
                );
            },
        }
        i = i + 1;
    }
    Ok(tokens)
}

/// Among all tokens that are loaded, each row gives the token that was stored there.
pub proof fn law_listed_tokens_are_those_stored(
    rows: Seq<(i64, Vec<u8>)>,
    tokens: Vec<(i64, CreditToken)>,
    i: int,
    token: CreditToken,
)
    requires
        loads_all(rows, Ok(tokens)),
        0 <= i < rows.len(),
        encodes_to(token, rows[i].1@),
    ensures
        tokens.len() == rows.len(),
        tokens@[i].0 == rows[i].0,
        copies(token, Ok::<CreditToken, ClientError>(tokens@[i].1)),
{
}

/// A change to the database.
pub enum Change {
    /// A new row.
    Store(i64, Seq<u8>),
    /// Other bytes for a row.
    Update(i64, Seq<u8>),
    /// A row is taken away.
    Delete(i64),
}

impl Change {
    /// The row that a change is about.
    pub open spec fn id(self) -> i64 {
        match self {
            Change::Store(id, _) => id,
            Change::Update(id, _) => id,
            Change::Delete(id) => id,
        }
    }
}

/// The bytes of a row, where there is one.
pub open spec fn row(table: Map<i64, Seq<u8>>, id: i64) -> Option<Seq<u8>> {
    if table.contains_key(id) {
        Some(table[id])
    } else {
        None
    }
}

/// How many rows have an identifier.
pub open spec fn rows(table: Map<i64, Seq<u8>>, id: i64) -> nat {
    if table.contains_key(id) {
        1
    } else {
        0
    }
}

/// The rows after a change. Only a row that is there can be updated.
pub open spec fn changed(table: Map<i64, Seq<u8>>, change: Change) -> Map<i64, Seq<u8>> {
    match change {
        Change::Store(id, bytes) => table.insert(id, bytes),
        Change::Update(id, bytes) => if table.contains_key(id) {
            table.insert(id, bytes)
        } else {
            table
        },
        Change::Delete(id) => table.remove(id),
    }
}

/// The rows after some changes.
pub open spec fn after(table: Map<i64, Seq<u8>>, changes: Seq<Change>) -> Map<i64, Seq<u8>>
    decreases changes.len(),
{
    if changes.len() == 0 {
        table
    } else {
        changed(after(table, changes.drop_last()), changes.last())
    }
}

/// Whether no change is about this row.
pub open spec fn spares(changes: Seq<Change>, id: i64) -> bool {
    forall|i: int| 0 <= i < changes.len() ==> (#[trigger] changes[i]).id() != id
}

/// Changes to other rows leave a row as it is.
pub proof fn law_other_rows_do_not_matter(
    table: Map<i64, Seq<u8>>,
    changes: Seq<Change>,
    id: i64,
)
    requires
        spares(changes, id),
    ensures
        row(after(table, changes), id) == row(table, id),
    decreases changes.len(),
{
    if changes.len() > 0 {
        let earlier = changes.drop_last();
        assert forall|i: int| 0 <= i < earlier.len() implies (#[trigger] earlier[i]).id() != id by {
            assert(earlier[i] == changes[i]);
        }
        law_other_rows_do_not_matter(table, earlier, id);
        assert(changes.last() == changes[changes.len() - 1]);
    }
}

/// A token that was stored, or that was put in the place of another one, is loaded again as it
/// was, whatever has become of other rows.
pub proof fn law_stored_token_is_loaded(
    table: Map<i64, Seq<u8>>,
    change: Change,
    others: Seq<Change>,
    id: i64,
    token: CreditToken,
    bytes: Seq<u8>,
    loaded: Result<CreditToken, ClientError>,
)
    requires
        encodes_to(token, bytes),
        change == Change::Store(id, bytes) || (change == Change::Update(id, bytes)
            && table.contains_key(id)),
        spares(others, id),
        loads(id, row(after(changed(table, change), others), id), loaded),
    ensures
        copies(token, loaded),
{
    law_other_rows_do_not_matter(changed(table, change), others, id);
}

/// A token that was deleted is not found any more, whatever has become of other rows.
pub proof fn law_deleted_token_is_not_found(
    table: Map<i64, Seq<u8>>,
    others: Seq<Change>,
    id: i64,
    loaded: Result<CreditToken, ClientError>,
)
    requires
        spares(others, id),
        loads(id, row(after(changed(table, Change::Delete(id)), others), id), loaded),
    ensures
        loaded matches Err(ClientError::Io(detail)) && detail@ == not_found(id),
{
    law_other_rows_do_not_matter(changed(table, Change::Delete(id)), others, id);
}

/// Updating or deleting a token that is not there is an error and changes nothing; where the
/// token is there, it succeeds.
pub proof fn law_changes_need_a_row(
    table: Map<i64, Seq<u8>>,
    change: Change,
    outcome: Result<(), ClientError>,
)
    requires
        !(change is Store),
        touches(rows(table, change.id()), change.id(), outcome),
    ensures
        outcome is Ok <==> table.contains_key(change.id()),
        outcome matches Err(error) ==> {
            &&& error matches ClientError::Io(detail)
            &&& detail@ == not_found(change.id())
            &&& changed(table, change) == table
        },
{
    if !table.contains_key(change.id()) {
        assert(changed(table, change) =~= table);
    }
}

/// The bytes into which a token is turned for its row give a copy of that token when the row is
/// loaded; without a row, the token is not found.
pub proof fn law_rows_give_tokens_back(
    id: i64,
    token: CreditToken,
    bytes: Vec<u8>,
    loaded: Result<CreditToken, ClientError>,
    missing: Result<CreditToken, ClientError>,
)
    requires
        call_ensures(token_to_bytes, (&token,), Ok(bytes)),
        call_ensures(load_token, (id, Some(bytes)), loaded),
        call_ensures(load_token, (id, None::<Vec<u8>>), missing),
    ensures
        copies(token, loaded),
        missing matches Err(ClientError::Io(detail)) && detail@ == not_found(id),
{
    assert(encodes_to(token, bytes@));
}

/// All tokens are loaded just where every row holds one; else none is.
pub proof fn law_all_tokens_are_listed_or_none(
    rows: Vec<(i64, Vec<u8>)>,
    tokens: Result<Vec<(i64, CreditToken)>, ClientError>,
)
    requires
        call_ensures(load_all, (rows,), tokens),
    ensures
        tokens is Ok <==> forall|i: int|
            0 <= i < rows.len() ==> token_decoding((#[trigger] rows@[i]).1@) is Ok,
        tokens matches Ok(tokens) ==> {
            &&& tokens.len() == rows.len()
            &&& forall|i: int|
                0 <= i < rows.len() ==> (#[trigger] tokens@[i]).0 == rows@[i].0 && token_decoding(
                    rows@[i].1@,
                ) == Ok::<CreditToken, bincode::error::DecodeError>(tokens@[i].1)
        },
{
}

} // verus!
