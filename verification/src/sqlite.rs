//! The embedded SQL engine stand-in.
//!
//! The engine itself is out of scope; this module gives the adapter's demo
//! surface a faithful mock: connections accept any statement, a prepared
//! statement yields one fixed row and then nothing, and a row decodes its
//! columns from fixed backing strings.  The decoding - including a full
//! decimal parser for 64-bit signed integers - is verified.

use vstd::prelude::*;

verus! {

/// A decimal digit.
pub open spec fn is_dec_digit(c: char) -> bool {
    48 <= c as int && c as int <= 57
}

/// The value of a decimal digit.
pub open spec fn digit_val(c: char) -> nat {
    (c as int - 48) as nat
}

/// Every character is a decimal digit.
pub open spec fn all_dec_digits(s: Seq<char>) -> bool {
    forall|i: int| 0 <= i < s.len() ==> is_dec_digit(s[i])
}

/// The number a sequence of decimal digits denotes.
pub open spec fn dec_val(s: Seq<char>) -> nat
    decreases s.len(),
{
    if s.len() == 0 {
        0
    } else {
        dec_val(s.drop_last()) * 10 + digit_val(s.last())
    }
}

/// The digit part of a decimal integer literal: all of it, or what follows
/// one leading minus sign.
pub open spec fn int_digits(s: Seq<char>) -> Seq<char> {
    if s.len() > 0 && s[0] == '-' {
        s.skip(1)
    } else {
        s
    }
}

/// Whether `s` is a decimal integer literal that fits a 64-bit signed
/// integer: an optional leading minus sign, then at least one digit and
/// nothing else, denoting a value within bounds.
pub open spec fn parse_i64_ok(s: Seq<char>) -> bool {
    let ds = int_digits(s);
    &&& ds.len() > 0
    &&& all_dec_digits(ds)
    &&& (if s.len() > 0 && s[0] == '-' {
        dec_val(ds) <= 0x8000_0000_0000_0000
    } else {
        dec_val(ds) <= 0x7fff_ffff_ffff_ffff
    })
}

/// The value such a literal denotes.
pub open spec fn parse_i64_val(s: Seq<char>) -> int {
    if s.len() > 0 && s[0] == '-' {
        -(dec_val(int_digits(s)) as int)
    } else {
        dec_val(int_digits(s)) as int
    }
}

/// A digit string's value never falls when digits are appended: any prefix
/// denotes at most what the whole denotes.
proof fn lemma_dec_val_take_le(s: Seq<char>, j: int)
    requires
        0 <= j <= s.len(),
    ensures
        dec_val(s.take(j)) <= dec_val(s),
    decreases s.len(),
{
    if j == s.len() {
        assert(s.take(j) =~= s);
    } else {
        let t = s.drop_last();
        assert(t.take(j) =~= s.take(j));
        lemma_dec_val_take_le(t, j);
    }
}

/// Parses a decimal integer literal; succeeds exactly on the literals
/// [`parse_i64_ok`] admits and then returns their value.
fn parse_i64(s: &str) -> (r: Result<i64, &'static str>)
    ensures
        r is Ok <==> parse_i64_ok(s@),
        r matches Ok(v) ==> v == parse_i64_val(s@),
{
    let n: usize = s.unicode_len();
    if n == 0 {
        return Err("Failed to parse i64");
    }
    let neg: bool = s.get_char(0) == '-';
    let start: usize = if neg {
        1
    } else {
        0
    };
    let ghost ds = int_digits(s@);
    proof {
        assert(ds =~= s@.skip(start as int));
    }
    if n == start {
        return Err("Failed to parse i64");
    }
    let mut mag: u64 = 0;
    let mut i: usize = start;
    while i < n
        invariant
            n == s@.len(),
            start <= i <= n,
            start <= 1,
            neg <==> (s@.len() > 0 && s@[0] == '-'),
            ds == int_digits(s@),
            ds =~= s@.skip(start as int),
            mag == dec_val(ds.take((i - start) as int)),
            mag <= 0x8000_0000_0000_0000u64,
            all_dec_digits(ds.take((i - start) as int)),
        decreases n - i,
    {
        let c: char = s.get_char(i);
        let cu: u32 = c as u32;
        proof {
            assert(ds[(i - start) as int] == s@[i as int]);
        }
        if cu < 48 || cu > 57 {
            proof {
                assert(!is_dec_digit(ds[(i - start) as int]));
            }
            return Err("Failed to parse i64");
        }
        let d: u64 = (cu - 48) as u64;
        proof {
            let j = (i + 1 - start) as int;
            assert(ds.take(j).drop_last() =~= ds.take(j - 1));
            assert(ds.take(j).last() == s@[i as int]);
            assert(dec_val(ds.take(j)) == mag * 10 + d);
        }
        if mag > 922337203685477580u64 || (mag == 922337203685477580u64 && d > 8) {
            proof {
                lemma_dec_val_take_le(ds, (i + 1 - start) as int);
            }
            return Err("Failed to parse i64");
        }
        mag = mag * 10 + d;
        i = i + 1;
    }
    proof {
        assert(ds.take((n - start) as int) =~= ds);
    }
    if neg {
        if mag == 0x8000_0000_0000_0000u64 {
            Ok(i64::MIN)
        } else {
            Ok(-(mag as i64))
        }
    } else {
        if mag > 0x7fff_ffff_ffff_ffffu64 {
            Err("Failed to parse i64")
        } else {
            Ok(mag as i64)
        }
    }
}

/// How a column type decodes itself from a row's backing string.
pub trait FromDummyRow: Sized {
    /// On which backing strings decoding succeeds.
    spec fn dummy_ok(s: Seq<char>) -> bool;

    /// Whether `v` is the value the backing string decodes to.
    spec fn dummy_matches(s: Seq<char>, v: Self) -> bool;

    /// Decodes a column's backing string.
    fn from_dummy(s: &str) -> (r: Result<Self, &'static str>)
        ensures
            r is Ok <==> Self::dummy_ok(s@),
            r matches Ok(v) ==> Self::dummy_matches(s@, v),
    ;
}

impl FromDummyRow for i64 {
    open spec fn dummy_ok(s: Seq<char>) -> bool {
        parse_i64_ok(s)
    }

    open spec fn dummy_matches(s: Seq<char>, v: i64) -> bool {
        parse_i64_ok(s) && v == parse_i64_val(s)
    }

    fn from_dummy(s: &str) -> Result<i64, &'static str> {
        parse_i64(s)
    }
}

impl FromDummyRow for String {
    open spec fn dummy_ok(s: Seq<char>) -> bool {
        true
    }

    open spec fn dummy_matches(s: Seq<char>, v: String) -> bool {
        v@ == s
    }

    fn from_dummy(s: &str) -> Result<String, &'static str> {
        Ok(s.to_owned())
    }
}

/// The one row the mock engine ever yields.
pub struct Row;

impl Row {
    /// Decodes column `idx` of the mock row: column 0 is backed by `"1"`,
    /// column 1 by `"Alice"`, and no other column exists.
    pub fn get<T: FromDummyRow>(&self, idx: usize) -> (r: Result<T, &'static str>)
        ensures
            idx == 0 ==> ((r is Ok <==> T::dummy_ok("1"@)) && (r matches Ok(v)
                ==> T::dummy_matches("1"@, v))),
            idx == 1 ==> ((r is Ok <==> T::dummy_ok("Alice"@)) && (r matches Ok(v)
                ==> T::dummy_matches("Alice"@, v))),
            idx >= 2 ==> r is Err,
    {
        let s: &str = match idx {
            0 => "1",
            1 => "Alice",
            _ => {
                return Err("Index out of bounds");
            },
        };
        T::from_dummy(s)
    }
}

/// A prepared statement of the mock engine: yields one row, then nothing.
pub struct Statement {
    called: bool,
}

impl Statement {
    /// Whether the one mock row was already handed out.
    pub closed spec fn done(&self) -> bool {
        self.called
    }

    pub fn new() -> (r: Self)
        ensures
            !r.done(),
    {
        Statement { called: false }
    }

    /// Steps the statement: the first call yields the one mock row, every
    /// later call yields nothing, and neither is an error.
    pub fn next(&mut self) -> (r: Result<Option<Row>, &'static str>)
        ensures
            r is Ok,
            final(self).done(),
            old(self).done() ==> r matches Ok(None),
            !old(self).done() ==> r matches Ok(Some(_)),
    {
        if !self.called {
            self.called = true;
            Ok(Some(Row))
        } else {
            Ok(None)
        }
    }
}

/// A connection to the mock engine.
pub struct Connection;

impl Connection {
    /// Accepts any statement text; the mock engine executes nothing.
    pub fn execute(&self, _sql: &str) -> (r: Result<(), &'static str>)
        ensures
            r is Ok,
    {
        Ok(())
    }

    /// Prepares the mock query: a fresh statement that has not yet yielded
    /// its row.
    pub fn prepare(&self, _sql: &str) -> (r: Result<Statement, &'static str>)
        ensures
            r matches Ok(st) ==> !st.done(),
            r is Ok,
    {
        Ok(Statement::new())
    }
}

/// Opens a connection to the mock engine; any path is accepted.
pub fn open(_path: &str) -> (r: Result<Connection, &'static str>)
    ensures
        r is Ok,
{
    Ok(Connection)
}

/// Flags for opening a database through the engine.
pub struct OpenFlags;

impl OpenFlags {
    pub fn new() -> (r: Self) {
        OpenFlags
    }
}

} // verus!
