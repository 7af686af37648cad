use vstd::prelude::*;
use vstd::string::StringExecFns;

use chrono::{Datelike, Timelike};

verus! {

/// A UTC date and time, to the second.
#[derive(Debug, Clone, Copy, PartialEq, Eq, Structural)]
pub struct Timestamp {
    pub year: i32,
    pub month: u32,
    pub day: u32,
    pub hour: u32,
    pub minute: u32,
    pub second: u32,
}

impl Timestamp {
    /// Each field within its calendar range.
    pub open spec fn wf(&self) -> bool {
        &&& 1 <= self.month <= 12
        &&& 1 <= self.day <= 31
        &&& self.hour < 24
        &&& self.minute < 60
        &&& self.second < 60
    }
}

/// Relies on chrono's `Utc::now` with the `Datelike` and `Timelike` accessors:
/// the current UTC time, each field in the range those accessors document.
#[verifier::external_body]
fn utc_now() -> (r: Timestamp)
    ensures
        r.wf(),
{
    let now = chrono::Utc::now();
    Timestamp {
        year: now.year(),
        month: now.month(),
        day: now.day(),
        hour: now.hour(),
        minute: now.minute(),
        second: now.second(),
    }
}

pub open spec fn digit_char(d: nat) -> char {
    if d < 10 {
        ((d + 48) as u32) as char
    } else {
        '?'
    }
}

/// The decimal digits of `n`, most significant first.
pub open spec fn decimal(n: nat) -> Seq<char>
    decreases n,
{
    if n < 10 {
        seq![digit_char(n)]
    } else {
        decimal(n / 10).push(digit_char(n % 10))
    }
}

/// `n` in decimal, with leading zeros up to `width` digits.
pub open spec fn zero_padded(n: nat, width: nat) -> Seq<char> {
    let d = decimal(n);
    if d.len() < width {
        Seq::new((width - d.len()) as nat, |i: int| '0') + d
    } else {
        d
    }
}

/// The year as `%Y` writes it: four digits from 0 to 9999, otherwise a sign
/// and at least four digits.
pub open spec fn year_text(y: int) -> Seq<char> {
    if 0 <= y <= 9999 {
        zero_padded(y as nat, 4)
    } else if y < 0 {
        "-"@ + zero_padded((-y) as nat, 4)
    } else {
        "+"@ + zero_padded(y as nat, 4)
    }
}

/// `YYYYMMDDHHMMSS`: the timestamp that starts a migration identifier.
pub open spec fn stamp_text(t: Timestamp) -> Seq<char> {
    year_text(t.year as int) + zero_padded(t.month as nat, 2) + zero_padded(t.day as nat, 2)
        + zero_padded(t.hour as nat, 2) + zero_padded(t.minute as nat, 2) + zero_padded(
        t.second as nat,
        2,
    )
}

/// The identifier of a migration named `name` created at `t`: `<YYYYMMDDHHMMSS>_<name>`.
pub open spec fn migration_id(t: Timestamp, name: Seq<char>) -> Seq<char> {
    stamp_text(t) + "_"@ + name
}

/// The body placed below the header of a new script.
pub open spec fn placeholder_sql() -> Seq<char> {
    "\n\n    -- Write your SQL code here \n"@
}

/// A new script: a header comment naming the migration and the file, then the placeholder.
pub open spec fn script_template(id: Seq<char>, file: Seq<char>) -> Seq<char> {
    "-- "@ + id + " - "@ + file + "\n"@ + placeholder_sql()
}

/// A migration to be created on disk: its directory name and its two scripts.
#[derive(Debug)]
pub struct NewMigration {
    pub id: String,
    pub up_sql: String,
    pub down_sql: String,
}

fn digit_str(d: u64) -> (r: &'static str)
    requires
        d < 10,
    ensures
        r@ == seq![digit_char(d as nat)],
{
    proof {
        reveal_strlit("0");
        reveal_strlit("1");
        reveal_strlit("2");
        reveal_strlit("3");
        reveal_strlit("4");
        reveal_strlit("5");
        reveal_strlit("6");
        reveal_strlit("7");
        reveal_strlit("8");
        reveal_strlit("9");
    }
    let r = match d {
        0 => "0",
        1 => "1",
        2 => "2",
        3 => "3",
        4 => "4",
        5 => "5",
        6 => "6",
        7 => "7",
        8 => "8",
        _ => "9",
    };
    proof {
        assert(r@ =~= seq![digit_char(d as nat)]);
    }
    r
}

fn decimal_string(n: u64) -> (r: String)
    ensures
        r@ == decimal(n as nat),
    decreases n,
{
    if n < 10 {
        String::from_str(digit_str(n))
    } else {
        let head = decimal_string(n / 10);
        let r = head.concat(digit_str(n % 10));
        proof {
            assert(r@ =~= decimal((n / 10) as nat).push(digit_char((n % 10) as nat)));
        }
        r
    }
}

proof fn lemma_decimal_len(n: nat)
    ensures
        n < 10 ==> decimal(n).len() == 1,
        10 <= n < 100 ==> decimal(n).len() == 2,
        100 <= n < 1000 ==> decimal(n).len() == 3,
        1000 <= n ==> decimal(n).len() >= 4,
    decreases n,
{
    if n >= 10 {
        lemma_decimal_len(n / 10);
    }
}

fn zeros(k: usize) -> (r: String)
    ensures
        r@ == Seq::new(k as nat, |i: int| '0'),
    decreases k,
{
    if k == 0 {
        let r = String::new();
        proof {
            assert(r@ =~= Seq::new(0, |i: int| '0'));
        }
        r
    } else {
        let r = zeros(k - 1).concat("0");
        proof {
            reveal_strlit("0");
            assert(r@ =~= Seq::new(k as nat, |i: int| '0'));
        }
        r
    }
}

/// `n` in decimal, with leading zeros up to `width` digits.
fn padded(n: u64, width: usize) -> (r: String)
    requires
        width <= 4,
    ensures
        r@ == zero_padded(n as nat, width as nat),
{
    let d = decimal_string(n);
    proof {
        lemma_decimal_len(n as nat);
    }
    let count: usize = if n < 10 {
        1
    } else if n < 100 {
        2
    } else if n < 1000 {
        3
    } else {
        4
    };
    if count < width {
        zeros(width - count).concat(d.as_str())
    } else {
        d
    }
}

fn year_string(y: i32) -> (r: String)
    ensures
        r@ == year_text(y as int),
{
    if 0 <= y && y <= 9999 {
        padded(y as u64, 4)
    } else if y < 0 {
        let a: u64 = (-(y as i64)) as u64;
        String::from_str("-").concat(padded(a, 4).as_str())
    } else {
        String::from_str("+").concat(padded(y as u64, 4).as_str())
    }
}

/// The identifier of a migration named `name` created at `now`.
pub fn migration_identifier(now: &Timestamp, name: &str) -> (r: String)
    ensures
        r@ == migration_id(*now, name@),
{
    let r = year_string(now.year).concat(padded(now.month as u64, 2).as_str()).concat(
        padded(now.day as u64, 2).as_str(),
    ).concat(padded(now.hour as u64, 2).as_str()).concat(padded(now.minute as u64, 2).as_str()).concat(
        padded(now.second as u64, 2).as_str(),
    ).concat("_").concat(name);
    r
}

fn template(id: &str, file: &str) -> (r: String)
    ensures
        r@ == script_template(id@, file@),
{
    String::from_str("-- ").concat(id).concat(" - ").concat(file).concat("\n").concat(
        "\n\n    -- Write your SQL code here \n",
    )
}

/// The migration `name` as created at `now`: its identifier, and two scripts
/// that hold a header comment and a placeholder.
pub fn new_migration_at(name: &str, now: &Timestamp) -> (r: NewMigration)
    ensures
        r.id@ == migration_id(*now, name@),
        r.up_sql@ == script_template(r.id@, "up.sql"@),
        r.down_sql@ == script_template(r.id@, "down.sql"@),
{
    let id = migration_identifier(now, name);
    let up_sql = template(id.as_str(), "up.sql");
    let down_sql = template(id.as_str(), "down.sql");
    NewMigration { id, up_sql, down_sql }
}

/// The migration `name` as created now, by the UTC clock.
pub fn new_migration(name: &str) -> (r: NewMigration)
    ensures
        exists|t: Timestamp|
            t.wf() && r.id@ == migration_id(t, name@) && r.up_sql@ == script_template(
                r.id@,
                "up.sql"@,
            ) && r.down_sql@ == script_template(r.id@, "down.sql"@),
{
    let now = utc_now();
    new_migration_at(name, &now)
}

} // verus!
