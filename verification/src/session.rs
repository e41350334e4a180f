//! The session controller as a pure reducer: one struct holds the store,
//! the export log, the live input buffer and the admin flag, and each UI
//! event is a method from state to state. The shell only forwards events
//! and mirrors the decisions onto its screen, database file and disk.

use vstd::prelude::*;
use crate::clock::Timestamp;
use crate::digits::{dec_of, u64_to_string};
use crate::errors::ExportError;
use crate::export::{export_path, log_after, payload_of, ExportLog};
use crate::parse::{parse, parse_u16, spec_parse, tokenize_from, tokens_of, u16_of, views_of};
use crate::record::{materialized, NameTagDB};
use crate::store::Store;
use crate::text::{chars_of, chars_to_string, lower_of};
use vstd::string::StringExecFns;

verus! {

/// The greeting shown for the current input buffer: a full three-token
/// preview when the third token reads as a positive year, a plain welcome
/// for any other non-empty buffer, and nothing for an empty one.
pub open spec fn greeting_spec(b: Seq<char>) -> Seq<char> {
    let ts = tokens_of(b);
    if ts.len() == 3 && match u16_of(ts[2]) {
        Some(y) => y > 0,
        None => false,
    } {
        "Welcome "@ + ts[0] + " "@ + ts[1] + ", Graduation year: "@ + dec_of(
            (u16_of(ts[2])->Some_0) as nat,
        )
    } else if b.len() > 0 {
        "Welcome "@ + b
    } else {
        Seq::<char>::empty()
    }
}

/// Render the greeting for an input buffer.
pub fn greeting(buffer: &String) -> (r: String)
    ensures
        r@ == greeting_spec(buffer@),
{
    let cs = chars_of(buffer.as_str());
    proof {
        assert(cs@.subrange(0, cs@.len() as int) =~= buffer@);
    }
    let tokens = tokenize_from(&cs, 0);
    let ghost ts = tokens_of(buffer@);
    if tokens.len() == 3 {
        proof {
            assert(views_of(tokens@)[0] == tokens@[0]@);
            assert(views_of(tokens@)[1] == tokens@[1]@);
            assert(views_of(tokens@)[2] == tokens@[2]@);
        }
        let y_opt = parse_u16(&tokens[2]);
        if let Some(y) = y_opt {
            if y > 0 {
                let mut out = String::from_str("Welcome ");
                let t0 = chars_to_string(&tokens[0]);
                out.append(t0.as_str());
                out.append(" ");
                let t1 = chars_to_string(&tokens[1]);
                out.append(t1.as_str());
                out.append(", Graduation year: ");
                let ystr = u64_to_string(y as u64);
                out.append(ystr.as_str());
                return out;
            }
        }
    }
    if buffer.as_str().is_empty() {
        String::new()
    } else {
        let mut out = String::from_str("Welcome ");
        out.append(buffer.as_str());
        out
    }
}

/// One kiosk session: everything the controller owns.
pub struct Session {
    pub store: Store,
    pub exports: ExportLog,
    pub buffer: String,
    pub admin: bool,
}

impl Session {
    /// A fresh session: nothing stored, nothing exported, an empty buffer,
    /// no admin.
    pub fn new() -> (s: Session)
        ensures
            s.store@.len() == 0,
            s.exports@.len() == 0,
            s.buffer@.len() == 0,
            !s.admin,
    {
        Session { store: Store::new(), exports: ExportLog::new(), buffer: String::new(), admin: false }
    }

    /// The user edited the input line: the buffer follows it.
    pub fn set_input(&mut self, text: String)
        ensures
            final(self).buffer == text,
            final(self).store == old(self).store,
            final(self).exports == old(self).exports,
            final(self).admin == old(self).admin,
    {
        self.buffer = text;
    }

    /// One submission: parse the buffer, store what parses with an identity
    /// from the given instant, drop what does not, and clear the buffer
    /// either way.
    pub fn submit(&mut self, now: &Timestamp)
        ensures
            final(self).buffer@.len() == 0,
            final(self).admin == old(self).admin,
            final(self).exports == old(self).exports,
            match spec_parse(lower_of(old(self).buffer@)) {
                Some(v) => final(self).store@ == old(self).store@.push(materialized(v, *now)),
                None => final(self).store@ == old(self).store@,
            },
    {
        match parse(self.buffer.as_str()) {
            Ok(t) => {
                let r = NameTagDB::materialize(t, now);
                let _ = self.store.insert(r);
            },
            Err(_) => {},
        }
        self.buffer = String::new();
    }

    /// One frame of the label logic, in the original's order: the admin
    /// flag follows whether the buffer equals the admin password, a buffer
    /// ending in the `%` sentinel is submitted at once (the badge path,
    /// with no button), and the greeting for the buffer that remains is
    /// handed back.
    pub fn frame(&mut self, admin_pass: &str, now: &Timestamp) -> (greet: String)
        ensures
            final(self).admin == (old(self).buffer@ == admin_pass@),
            final(self).exports == old(self).exports,
            if old(self).buffer@.len() > 0 && old(self).buffer@.last() == '%' {
                final(self).buffer@.len() == 0 && match spec_parse(lower_of(old(self).buffer@)) {
                    Some(v) => final(self).store@ == old(self).store@.push(materialized(v, *now)),
                    None => final(self).store@ == old(self).store@,
                }
            } else {
                final(self).buffer == old(self).buffer && final(self).store == old(self).store
            },
            greet@ == greeting_spec(final(self).buffer@),
    {
        let pass = String::from_str(admin_pass);
        self.admin = self.buffer == pass;
        let n = self.buffer.as_str().unicode_len();
        if n > 0 {
            let c = self.buffer.as_str().get_char(n - 1);
            if c == '%' {
                self.submit(now);
            }
        }
        greeting(&self.buffer)
    }

    /// The admin export action: scan everything stored and append the whole
    /// payload to the artifact of this instant's minute.
    pub fn export_all(&mut self, now: &Timestamp) -> (r: Result<(), ExportError>)
        ensures
            r is Ok,
            final(self).store == old(self).store,
            final(self).buffer == old(self).buffer,
            final(self).admin == old(self).admin,
            final(self).exports@ == log_after(
                old(self).exports@,
                export_path(*now),
                payload_of(old(self).store@),
            ),
    {
        let records = match self.store.scan_all() {
            Ok(v) => v,
            Err(_) => unreached(),
        };
        let _ = self.exports.export(&records, now);
        Ok(())
    }
}

} // verus!
