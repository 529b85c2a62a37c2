//! Sizes in bytes, as people read them.
use vstd::prelude::*;

verus! {

/// The unit a size of `bytes` is shown in: bytes below 1024, then kilobytes,
/// megabytes and gigabytes below the next power of 1024, terabytes from there on.
pub open spec fn unit_of(bytes: nat) -> nat {
    if bytes < 1024 {
        0
    } else if bytes < 1024 * 1024 {
        1
    } else if bytes < 1024 * 1024 * 1024 {
        2
    } else if bytes < 1024 * 1024 * 1024 * 1024 {
        3
    } else {
        4
    }
}

/// The names of the units, from bytes up.
pub open spec fn unit_names() -> Seq<Seq<char>> {
    seq!["B"@, "KB"@, "MB"@, "GB"@, "TB"@]
}

/// The unit, as an index into [`unit_names`], that a size of `bytes` is shown in: the
/// size is divided by 1024 while it is at least 1024, at most four times.
pub fn size_unit(bytes: usize) -> (r: usize)
    ensures
        r == unit_of(bytes as nat),
{
    let b = bytes as u64;
    let mut unit: usize = 0;
    let mut limit: u64 = 1024;
    while unit < 4 && b >= limit
        invariant
            unit <= 4,
            b == bytes,
            limit == (if unit == 0 {
                1024int
            } else if unit == 1 {
                1024int * 1024
            } else if unit == 2 {
                1024int * 1024 * 1024
            } else {
                1024int * 1024 * 1024 * 1024
            }),
            unit_of(bytes as nat) >= unit,
        decreases 4 - unit,
    {
        unit = unit + 1;
        if unit < 4 {
            limit = limit * 1024;
        }
    }
    unit
}

/// The name of unit `unit`.
pub fn unit_name(unit: usize) -> (r: &'static str)
    requires
        unit < 5,
    ensures
        r@ == unit_names()[unit as int],
{
    proof {
        reveal_strlit("B");
        reveal_strlit("KB");
        reveal_strlit("MB");
        reveal_strlit("GB");
        reveal_strlit("TB");
    }
    if unit == 0 {
        "B"
    } else if unit == 1 {
        "KB"
    } else if unit == 2 {
        "MB"
    } else if unit == 3 {
        "GB"
    } else {
        "TB"
    }
}

} // verus!
