//! Errors of the sketch's fallible operations.
use vstd::prelude::*;
use vstd::string::StringExecFns;

verus! {

/// Why an operation on a sketch was refused.
#[derive(Clone, Debug)]
pub enum HyperLogLogError {
    /// The two sketches of a merge have different precisions: this one's, then the other's.
    MisMatchedPrecision(u32, u32),
    /// A merge failed for the reason given.
    MergeFailed(String),
    /// The precision is below the minimum of 4.
    PrecisionBelowThreshold,
    /// The register count `2^p` does not fit in a `usize`.
    PrecisionTooLarge,
    /// A serialized sketch was written with another hash family or element type.
    HasherMismatch,
    /// A serialized sketch whose fields do not describe a sketch.
    InvalidRecord,
}

impl PartialEq for HyperLogLogError {
    fn eq(&self, other: &HyperLogLogError) -> (r: bool) {
        match (self, other) {
            (
                HyperLogLogError::MisMatchedPrecision(a, b),
                HyperLogLogError::MisMatchedPrecision(c, d),
            ) => *a == *c && *b == *d,
            (HyperLogLogError::MergeFailed(a), HyperLogLogError::MergeFailed(b)) => a.eq(b),
            (
                HyperLogLogError::PrecisionBelowThreshold,
                HyperLogLogError::PrecisionBelowThreshold,
            ) => true,
            (HyperLogLogError::PrecisionTooLarge, HyperLogLogError::PrecisionTooLarge) => true,
            (HyperLogLogError::HasherMismatch, HyperLogLogError::HasherMismatch) => true,
            (HyperLogLogError::InvalidRecord, HyperLogLogError::InvalidRecord) => true,
            _ => false,
        }
    }
}

impl vstd::std_specs::cmp::PartialEqSpecImpl for HyperLogLogError {
    open spec fn obeys_eq_spec() -> bool {
        true
    }

    open spec fn eq_spec(&self, other: &HyperLogLogError) -> bool {
        match (*self, *other) {
            (
                HyperLogLogError::MisMatchedPrecision(a, b),
                HyperLogLogError::MisMatchedPrecision(c, d),
            ) => a == c && b == d,
            (HyperLogLogError::MergeFailed(a), HyperLogLogError::MergeFailed(b)) => a@ == b@,
            (
                HyperLogLogError::PrecisionBelowThreshold,
                HyperLogLogError::PrecisionBelowThreshold,
            ) => true,
            (HyperLogLogError::PrecisionTooLarge, HyperLogLogError::PrecisionTooLarge) => true,
            (HyperLogLogError::HasherMismatch, HyperLogLogError::HasherMismatch) => true,
            (HyperLogLogError::InvalidRecord, HyperLogLogError::InvalidRecord) => true,
            _ => false,
        }
    }
}

impl Eq for HyperLogLogError {

}

/// The character of a decimal digit.
pub open spec fn digit_char(d: int) -> char {
    if d == 0 {
        '0'
    } else if d == 1 {
        '1'
    } else if d == 2 {
        '2'
    } else if d == 3 {
        '3'
    } else if d == 4 {
        '4'
    } else if d == 5 {
        '5'
    } else if d == 6 {
        '6'
    } else if d == 7 {
        '7'
    } else if d == 8 {
        '8'
    } else {
        '9'
    }
}

/// The decimal digits of `n`, most significant first, without leading zeros.
pub open spec fn decimal(n: nat) -> Seq<char>
    decreases n,
{
    if n < 10 {
        seq![digit_char(n as int)]
    } else {
        decimal(n / 10).push(digit_char((n % 10) as int))
    }
}

/// Appends the decimal digits of `n` to `text`.
pub fn append_decimal(text: &mut String, n: u32)
    ensures
        final(text)@ == old(text)@ + decimal(n as nat),
    decreases n,
{
    if n >= 10 {
        append_decimal(text, n / 10);
    }
    let d = n % 10;
    let digit: &str = if d == 0 {
        "0"
    } else if d == 1 {
        "1"
    } else if d == 2 {
        "2"
    } else if d == 3 {
        "3"
    } else if d == 4 {
        "4"
    } else if d == 5 {
        "5"
    } else if d == 6 {
        "6"
    } else if d == 7 {
        "7"
    } else if d == 8 {
        "8"
    } else {
        "9"
    };
    proof {
        reveal_strlit("0");
        reveal_strlit("1");
        reveal_strlit("2");
        reveal_strlit("3");
        reveal_strlit("4");
        reveal_strlit("5");
        reveal_strlit("6");
        reveal_strlit("7");
        reveal_strlit("8");
        reveal_strlit("9");
        assert(digit@ =~= seq![digit_char(d as int)]);
    }
    text.append(digit);
    proof {
        assert(text@ =~= old(text)@ + decimal(n as nat));
    }
}

impl HyperLogLogError {
    /// A sentence that describes the error.
    pub fn message(&self) -> (r: String)
        ensures
            self matches HyperLogLogError::MisMatchedPrecision(a, b) ==> r@
                == "Precision mismatch: expected "@ + decimal(a as nat) + ", found "@ + decimal(
                b as nat,
            ),
            self matches HyperLogLogError::MergeFailed(why) ==> r@ == "Merge failed "@ + why@,
            *self == HyperLogLogError::PrecisionBelowThreshold ==> r@
                == "Precision p must be at least 4"@,
            *self == HyperLogLogError::PrecisionTooLarge ==> r@ == "Precision too large, reduce p"@,
            *self == HyperLogLogError::HasherMismatch ==> r@
                == "Hasher mismatch: incompatible hasher or datatype used during deserialization"@,
            *self == HyperLogLogError::InvalidRecord ==> r@
                == "Invalid record: its fields do not describe a sketch"@,
    {
        match self {
            HyperLogLogError::MisMatchedPrecision(expected, actual) => {
                let mut text = String::from_str("Precision mismatch: expected ");
                append_decimal(&mut text, *expected);
                text.append(", found ");
                append_decimal(&mut text, *actual);
                text
            },
            HyperLogLogError::MergeFailed(why) => {
                let mut text = String::from_str("Merge failed ");
                text.append(why.as_str());
                text
            },
            HyperLogLogError::PrecisionBelowThreshold => String::from_str(
                "Precision p must be at least 4",
            ),
            HyperLogLogError::PrecisionTooLarge => String::from_str("Precision too large, reduce p"),
            HyperLogLogError::HasherMismatch => String::from_str(
                "Hasher mismatch: incompatible hasher or datatype used during deserialization",
            ),
            HyperLogLogError::InvalidRecord => String::from_str(
                "Invalid record: its fields do not describe a sketch",
            ),
        }
    }
}

} // verus!
