use vstd::prelude::*;
use vstd::string::StrSliceExecFns;
use vstd::string::StringExecFns;

use crate::classify::{is_private, spec_is_private, IpAddress};

verus! {

/// Width of the name column of a result line.
pub const NAME_WIDTH: usize = 40;

/// Width of the record-type and local-address columns.
pub const FIELD_WIDTH: usize = 10;

/// One answer of a lookup: the host name, the record type as text
/// (`A`, `AAAA`, ...), and the address it carries, if any.
#[derive(Clone, Debug)]
pub struct ResolvedRecord {
    pub name: String,
    pub record_type: String,
    pub address: Option<IpAddress>,
}

pub open spec fn spaces(k: nat) -> Seq<char> {
    Seq::new(k, |_i: int| ' ')
}

/// `s` left-justified in a column of `width` characters; never truncated.
pub open spec fn pad(s: Seq<char>, width: nat) -> Seq<char> {
    if s.len() >= width {
        s
    } else {
        s + spaces((width - s.len()) as nat)
    }
}

pub open spec fn separator() -> Seq<char> {
    seq![' ', '|', ' ']
}

/// Three columns of 40, 10 and 10 characters, separated by `" | "`.
pub open spec fn table_row(a: Seq<char>, b: Seq<char>, c: Seq<char>) -> Seq<char> {
    pad(a, NAME_WIDTH as nat) + separator() + pad(b, FIELD_WIDTH as nat) + separator() + pad(
        c,
        FIELD_WIDTH as nat,
    )
}

pub open spec fn bool_text(b: bool) -> Seq<char> {
    if b {
        seq!['t', 'r', 'u', 'e']
    } else {
        seq!['f', 'a', 'l', 's', 'e']
    }
}

/// The header line: `Name | Record | Local ip` in the table's columns.
pub open spec fn header_row() -> Seq<char> {
    table_row(
        seq!['N', 'a', 'm', 'e'],
        seq!['R', 'e', 'c', 'o', 'r', 'd'],
        seq!['L', 'o', 'c', 'a', 'l', ' ', 'i', 'p'],
    )
}

/// Whether a record's address is internal; records without an address are not.
pub open spec fn record_is_local(rec: ResolvedRecord) -> bool {
    match rec.address {
        Some(a) => spec_is_private(a),
        None => false,
    }
}

/// The result line of a record: name, record type, and its classification.
pub open spec fn record_row(rec: ResolvedRecord) -> Seq<char> {
    table_row(rec.name@, rec.record_type@, bool_text(record_is_local(rec)))
}

/// Left-justifies `s` in a column of `width` characters.
pub fn pad_right(s: &str, width: usize) -> (r: String)
    ensures
        r@ == pad(s@, width as nat),
{
    let mut r = String::from_str(s);
    let len = s.unicode_len();
    if len < width {
        let mut k: usize = len;
        while k < width
            invariant
                len == s@.len(),
                len <= k <= width,
                r@ == s@ + spaces((k - len) as nat),
            decreases width - k,
        {
            r.append(" ");
            proof {
                reveal_strlit(" ");
            }
            k = k + 1;
            assert(r@ =~= s@ + spaces((k - len) as nat));
        }
    } else {
        assert(r@ =~= pad(s@, width as nat));
    }
    r
}

/// Formats three cells as a table row.
pub fn format_row(a: &str, b: &str, c: &str) -> (r: String)
    ensures
        r@ == table_row(a@, b@, c@),
{
    let mut r = pad_right(a, NAME_WIDTH);
    r.append(" | ");
    let b_cell = pad_right(b, FIELD_WIDTH);
    r.append(b_cell.as_str());
    r.append(" | ");
    let c_cell = pad_right(c, FIELD_WIDTH);
    r.append(c_cell.as_str());
    proof {
        reveal_strlit(" | ");
        assert(" | "@ =~= separator());
    }
    r
}

/// The table header line, without a line end.
pub fn header_line() -> (r: String)
    ensures
        r@ == header_row(),
{
    proof {
        reveal_strlit("Name");
        reveal_strlit("Record");
        reveal_strlit("Local ip");
        assert("Name"@ =~= seq!['N', 'a', 'm', 'e']);
        assert("Record"@ =~= seq!['R', 'e', 'c', 'o', 'r', 'd']);
        assert("Local ip"@ =~= seq!['L', 'o', 'c', 'a', 'l', ' ', 'i', 'p']);
    }
    format_row("Name", "Record", "Local ip")
}

/// Whether a record's address falls in an internal range.
pub fn record_local(rec: &ResolvedRecord) -> (r: bool)
    ensures
        r == record_is_local(*rec),
{
    match &rec.address {
        Some(a) => is_private(a),
        None => false,
    }
}

/// The result line of a record, followed by a line end when `add_nl` is set.
pub fn record_to_string(record: &ResolvedRecord, add_nl: bool) -> (r: String)
    ensures
        r@ == if add_nl {
            record_row(*record) + seq!['\n']
        } else {
            record_row(*record)
        },
{
    let local = record_local(record);
    let mut r = if local {
        proof {
            reveal_strlit("true");
            assert("true"@ =~= bool_text(true));
        }
        format_row(record.name.as_str(), record.record_type.as_str(), "true")
    } else {
        proof {
            reveal_strlit("false");
            assert("false"@ =~= bool_text(false));
        }
        format_row(record.name.as_str(), record.record_type.as_str(), "false")
    };
    if add_nl {
        r.append("\n");
        proof {
            reveal_strlit("\n");
            assert("\n"@ =~= seq!['\n']);
        }
    }
    r
}

} // verus!
