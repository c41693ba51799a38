//! Building the database connection strings.
//!
//! Establishing connections and pooling them is the binary's work; what the
//! library owns is the exact text of the URI handed to the driver.

use vstd::prelude::*;
use crate::settings::Database;

verus! {

/// The decimal digit for one value below ten.
pub open spec fn digit_char(d: int) -> char {
    if d == 0 {
        '0'
    } else if d == 1 {
        '1'
    } else if d == 2 {
        '2'
    } else if d == 3 {
        '3'
    } else if d == 4 {
        '4'
    } else if d == 5 {
        '5'
    } else if d == 6 {
        '6'
    } else if d == 7 {
        '7'
    } else if d == 8 {
        '8'
    } else {
        '9'
    }
}

/// The decimal writing of a number, most significant digit first, with no
/// leading zero except on zero itself.
pub open spec fn dec_chars(n: nat) -> Seq<char>
    decreases n,
{
    if n < 10 {
        seq![digit_char(n as int)]
    } else {
        dec_chars(n / 10).push(digit_char((n % 10) as int))
    }
}

/// Appends one decimal digit.
fn push_digit(s: &mut String, d: u16)
    requires
        d < 10,
    ensures
        final(s)@ == old(s)@ + seq![digit_char(d as int)],
{
    let t = match d {
        0 => "0",
        1 => "1",
        2 => "2",
        3 => "3",
        4 => "4",
        5 => "5",
        6 => "6",
        7 => "7",
        8 => "8",
        _ => "9",
    };
    proof {
        reveal_strlit("0");
        reveal_strlit("1");
        reveal_strlit("2");
        reveal_strlit("3");
        reveal_strlit("4");
        reveal_strlit("5");
        reveal_strlit("6");
        reveal_strlit("7");
        reveal_strlit("8");
        reveal_strlit("9");
        assert(t@ =~= seq![digit_char(d as int)]);
    }
    s.append(t);
}

/// Appends the decimal writing of a number.
fn push_dec(s: &mut String, n: u16)
    ensures
        final(s)@ == old(s)@ + dec_chars(n as nat),
    decreases n,
{
    if n < 10 {
        push_digit(s, n);
    } else {
        proof {
            assert(n / 10 < n) by (nonlinear_arith)
                requires
                    n >= 10,
            ;
        }
        push_dec(s, n / 10);
        push_digit(s, n % 10);
    }
}

/// The port a configuration names, or the default.
pub open spec fn spec_port(d: Database) -> nat {
    match d.port {
        Some(p) => p as nat,
        None => 5432,
    }
}

/// The connection URI for the configured database.
pub open spec fn spec_db_uri(d: Database) -> Seq<char> {
    "postgres://"@ + d.username@ + ":"@ + d.password@ + "@"@ + d.host@ + ":"@ + dec_chars(
        spec_port(d),
    ) + "/"@ + d.name@
}

/// The connection URI for the server's administrative database, used when
/// the configured one does not exist yet.
pub open spec fn spec_default_uri(d: Database) -> Seq<char> {
    "postgres://"@ + d.username@ + ":"@ + d.password@ + "@"@ + d.host@ + ":"@ + dec_chars(
        spec_port(d),
    ) + "/postgres"@
}

/// Appends everything up to and including the port.
fn push_uri_head(s: &mut String, db_settings: &Database)
    ensures
        final(s)@ == old(s)@ + "postgres://"@ + db_settings.username@ + ":"@
            + db_settings.password@ + "@"@ + db_settings.host@ + ":"@ + dec_chars(
            spec_port(*db_settings),
        ),
{
    s.append("postgres://");
    s.append(db_settings.username.as_str());
    s.append(":");
    s.append(db_settings.password.as_str());
    s.append("@");
    s.append(db_settings.host.as_str());
    s.append(":");
    let port = match db_settings.port {
        Some(p) => p,
        None => 5432,
    };
    push_dec(s, port);
}

/// Builds a Postgres URI for the configured database.
pub fn build_uri(db_settings: &Database) -> (r: String)
    ensures
        r@ == spec_db_uri(*db_settings),
{
    let mut s = String::new();
    push_uri_head(&mut s, db_settings);
    s.append("/");
    s.append(db_settings.name.as_str());
    s
}

/// Builds a Postgres URI for the administrative database of the same server.
pub fn build_default_uri(db_settings: &Database) -> (r: String)
    ensures
        r@ == spec_default_uri(*db_settings),
{
    let mut s = String::new();
    push_uri_head(&mut s, db_settings);
    s.append("/postgres");
    s
}

} // verus!
