//! The record factory: a parsed sign-in gains its identity — an id derived
//! from the clock's millisecond reading and a `day/month/year` date — and
//! becomes a storable record.

use vstd::prelude::*;
use crate::clock::Timestamp;
use crate::digits::{dec_of, u64_to_string, lemma_dec_of_injective};
use crate::parse::{NameTag, NameTagView};
use vstd::string::StringExecFns;

verus! {

/// One stored attendance row, immutable once created.
pub struct NameTagDB {
    pub id: String,
    pub first_name: String,
    pub last_name: String,
    pub grad_year: i64,
    pub badge: bool,
    pub creation_date: String,
}

/// The mathematical content of a stored row.
pub ghost struct NameTagDBView {
    pub id: Seq<char>,
    pub first_name: Seq<char>,
    pub last_name: Seq<char>,
    pub grad_year: int,
    pub badge: bool,
    pub creation_date: Seq<char>,
}

impl View for NameTagDB {
    type V = NameTagDBView;

    open spec fn view(&self) -> NameTagDBView {
        NameTagDBView {
            id: self.id@,
            first_name: self.first_name@,
            last_name: self.last_name@,
            grad_year: self.grad_year as int,
            badge: self.badge,
            creation_date: self.creation_date@,
        }
    }
}

/// The views of a sequence of rows, row by row.
pub open spec fn records_view(rs: Seq<NameTagDB>) -> Seq<NameTagDBView> {
    rs.map_values(|r: NameTagDB| r@)
}

/// The `day/month/year` spelling of a snapshot's calendar date.
pub open spec fn date_str(t: Timestamp) -> Seq<char> {
    dec_of(t.day as nat) + "/"@ + dec_of(t.month as nat) + "/"@ + dec_of(t.year as nat)
}

/// What materializing a parsed sign-in at a given instant yields: the id is
/// the decimal millisecond reading, the date is the calendar reading, and
/// the parsed fields carry over, the year widened to sixty-four bits.
pub open spec fn materialized(v: NameTagView, t: Timestamp) -> NameTagDBView {
    NameTagDBView {
        id: dec_of(t.millis as nat),
        first_name: v.first_name,
        last_name: v.last_name,
        grad_year: v.grad_year as int,
        badge: v.badge,
        creation_date: date_str(t),
    }
}

impl NameTagDB {
    /// Give a parsed sign-in its identity, from one clock snapshot.
    pub fn materialize(t: NameTag, now: &Timestamp) -> (r: NameTagDB)
        ensures
            r@ == materialized(t@, *now),
    {
        let mut creation_date = u64_to_string(now.day as u64);
        creation_date.append("/");
        let month = u64_to_string(now.month as u64);
        creation_date.append(month.as_str());
        creation_date.append("/");
        let year = u64_to_string(now.year as u64);
        creation_date.append(year.as_str());
        let r = NameTagDB {
            id: u64_to_string(now.millis),
            first_name: t.first_name,
            last_name: t.last_name,
            grad_year: t.grad_year as i64,
            badge: t.badge,
            creation_date,
        };
        r
    }

    /// Rebuild a stored row from its six raw column values, exactly as they
    /// came back from the store.
    pub fn from_row(
        id: String,
        first_name: String,
        last_name: String,
        grad_year: i64,
        badge: bool,
        creation_date: String,
    ) -> (r: NameTagDB)
        ensures
            r@.id == id@,
            r@.first_name == first_name@,
            r@.last_name == last_name@,
            r@.grad_year == grad_year as int,
            r@.badge == badge,
            r@.creation_date == creation_date@,
    {
        NameTagDB { id, first_name, last_name, grad_year, badge, creation_date }
    }

    /// A field-for-field copy of this row.
    pub fn duplicate(&self) -> (r: NameTagDB)
        ensures
            r@ == self@,
    {
        NameTagDB {
            id: self.id.clone(),
            first_name: self.first_name.clone(),
            last_name: self.last_name.clone(),
            grad_year: self.grad_year,
            badge: self.badge,
            creation_date: self.creation_date.clone(),
        }
    }
}

/// Law: records materialized at distinct millisecond instants never share
/// an id, whatever was signed in.
pub proof fn lemma_materialize_injective(
    a: NameTagView,
    ta: Timestamp,
    b: NameTagView,
    tb: Timestamp,
)
    requires
        ta.millis != tb.millis,
    ensures
        materialized(a, ta).id != materialized(b, tb).id,
{
    if materialized(a, ta).id == materialized(b, tb).id {
        lemma_dec_of_injective(ta.millis as nat, tb.millis as nat);
    }
}

} // verus!
