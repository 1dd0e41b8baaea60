use vstd::layout::*;
use vstd::prelude::*;

verus! {

/// Number of bytes taken by a `usize` header field on this machine.
pub open spec fn word_bytes() -> nat {
    size_of::<usize>()
}

/// Smallest multiple of `align` that is at least `n`.
pub open spec fn round_up(n: nat, align: nat) -> nat
    recommends
        align > 0,
{
    if n % align == 0 {
        n
    } else {
        n + (align - n % align) as nat
    }
}

/// Byte offset of the first payload slot of a dynamic array of `T`,
/// measured from the start of its block: the two header words
/// (length, capacity), padded up to the alignment of `T`.
pub open spec fn spec_data_offset<T>() -> nat {
    round_up(2 * word_bytes(), align_of::<T>())
}

/// Offset from the start of a dynamic array block of `T` to its first element.
pub fn data_offset<T: crate::FFISafe>() -> (r: isize)
    requires
        spec_data_offset::<T>() <= isize::MAX,
    ensures
        r as int == spec_data_offset::<T>(),
        r >= 2 * word_bytes(),
        r as int % align_of::<T>() as int == 0,
{
    layout_for_type_is_valid::<T>();
    layout_for_type_is_valid::<usize>();
    broadcast use vstd::layout::layout_of_primitives;
    let align = core::mem::align_of::<T>();
    let word = core::mem::size_of::<usize>();
    assert(word == 4 || word == 8) by {
        assert(word as int * 8 == usize::BITS);
    }
    let header = 2 * word;
    let rem = header % align;
    let off = if rem == 0 { header } else { header + (align - rem) };
    assert(off as int % align as int == 0) by (nonlinear_arith)
        requires
            rem == header % align,
            align > 0,
            off == (if rem == 0 { header as int } else { header + (align - rem) }),
    {
    }
    off as isize
}

/// Negative offset from the first element of a dynamic array of `T` back to
/// its header.
pub fn header_offset<T: crate::FFISafe>() -> (r: isize)
    requires
        spec_data_offset::<T>() <= isize::MAX,
    ensures
        r as int == -(spec_data_offset::<T>() as int),
{
    -data_offset::<T>()
}

} // verus!
