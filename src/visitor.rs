use vstd::prelude::*;

use crate::fields::{field_map, keys_sorted, SystemdFieldStorage};

verus! {

/// The text of one decimal digit.
pub open spec fn digit_text(d: nat) -> Seq<char> {
    if d == 0 {
        "0"@
    } else if d == 1 {
        "1"@
    } else if d == 2 {
        "2"@
    } else if d == 3 {
        "3"@
    } else if d == 4 {
        "4"@
    } else if d == 5 {
        "5"@
    } else if d == 6 {
        "6"@
    } else if d == 7 {
        "7"@
    } else if d == 8 {
        "8"@
    } else {
        "9"@
    }
}

/// The base-10 text of a natural number, without leading zeros.
pub open spec fn decimal(n: nat) -> Seq<char>
    decreases n,
{
    if n < 10 {
        digit_text(n)
    } else {
        decimal(n / 10) + digit_text(n % 10)
    }
}

/// The base-10 text of an integer, with a leading `-` when it is negative.
pub open spec fn signed_decimal(n: int) -> Seq<char> {
    if n < 0 {
        "-"@ + decimal((-n) as nat)
    } else {
        decimal(n as nat)
    }
}

/// The text of a boolean.
pub open spec fn bool_text(b: bool) -> Seq<char> {
    if b {
        "true"@
    } else {
        "false"@
    }
}

fn digit_str(d: u64) -> (r: &'static str)
    requires
        d < 10,
    ensures
        r@ == digit_text(d as nat),
{
    if d == 0 {
        "0"
    } else if d == 1 {
        "1"
    } else if d == 2 {
        "2"
    } else if d == 3 {
        "3"
    } else if d == 4 {
        "4"
    } else if d == 5 {
        "5"
    } else if d == 6 {
        "6"
    } else if d == 7 {
        "7"
    } else if d == 8 {
        "8"
    } else {
        "9"
    }
}

/// Renders an unsigned integer in base 10.
pub fn decimal_string(n: u64) -> (r: String)
    ensures
        r@ == decimal(n as nat),
    decreases n,
{
    if n < 10 {
        String::from_str(digit_str(n))
    } else {
        let mut r = decimal_string(n / 10);
        r.append(digit_str(n % 10));
        r
    }
}

/// Renders a signed integer in base 10.
pub fn signed_decimal_string(n: i64) -> (r: String)
    ensures
        r@ == signed_decimal(n as int),
{
    if n < 0 {
        let magnitude: u64 = (-(n + 1)) as u64 + 1;
        let digits = decimal_string(magnitude);
        let mut r = String::from_str("-");
        r.append(digits.as_str());
        r
    } else {
        decimal_string(n as u64)
    }
}

/// Captures typed field values into a field record as text.
pub struct SystemdVisitor(pub SystemdFieldStorage);

impl SystemdVisitor {
    /// A visitor over an empty record.
    pub fn new() -> (r: SystemdVisitor)
        ensures
            r.0@ == Seq::<(Seq<char>, Seq<char>)>::empty(),
    {
        SystemdVisitor(SystemdFieldStorage::new())
    }

    /// Records a boolean as `true` or `false`.
    pub fn record_bool(&mut self, field: &str, value: bool)
        ensures
            keys_sorted(final(self).0@),
            final(self).0@.len() == old(self).0@.len() + if field_map(old(self).0@).dom().contains(field@) {
                0int
            } else {
                1int
            },
            field_map(final(self).0@) == field_map(old(self).0@).insert(field@, bool_text(value)),
    {
        let text = if value {
            String::from_str("true")
        } else {
            String::from_str("false")
        };
        self.0.insert(String::from_str(field), text);
    }

    /// Records a signed integer in base 10.
    pub fn record_i64(&mut self, field: &str, value: i64)
        ensures
            keys_sorted(final(self).0@),
            final(self).0@.len() == old(self).0@.len() + if field_map(old(self).0@).dom().contains(field@) {
                0int
            } else {
                1int
            },
            field_map(final(self).0@) == field_map(old(self).0@).insert(field@, signed_decimal(value as int)),
    {
        self.0.insert(String::from_str(field), signed_decimal_string(value));
    }

    /// Records an unsigned integer in base 10.
    pub fn record_u64(&mut self, field: &str, value: u64)
        ensures
            keys_sorted(final(self).0@),
            final(self).0@.len() == old(self).0@.len() + if field_map(old(self).0@).dom().contains(field@) {
                0int
            } else {
                1int
            },
            field_map(final(self).0@) == field_map(old(self).0@).insert(field@, decimal(value as nat)),
    {
        self.0.insert(String::from_str(field), decimal_string(value));
    }

    /// Records a text verbatim. Values of other kinds (floating point, debug
    /// or error renderings) come here once rendered as text.
    pub fn record_str(&mut self, field: &str, value: &str)
        ensures
            keys_sorted(final(self).0@),
            final(self).0@.len() == old(self).0@.len() + if field_map(old(self).0@).dom().contains(field@) {
                0int
            } else {
                1int
            },
            field_map(final(self).0@) == field_map(old(self).0@).insert(field@, value@),
    {
        self.0.insert(String::from_str(field), String::from_str(value));
    }
}

} // verus!
