//! Non-consuming length reads: peek a wire integer at an offset and
//! carry the result around with its prefix width, so callers can ask
//! for the total with the header included without re-reading.

use crate::bytebuf::{bm_as_slice, bm_seq};
use crate::errors::WireError;
use crate::wire::{be_decode, be_value_of, lemma_be_value_of_bound};
use vstd::prelude::*;
use vstd::slice::slice_subrange;

verus! {

/// A peeked length: whether enough bytes were present, the value read,
/// and the width of the prefix it was read from.
#[derive(Debug)]
pub struct PeekLength {
    ready: bool,
    length: usize,
    width: usize,
}

impl PeekLength {
    /// Whether the buffer held the whole prefix.
    pub closed spec fn spec_ready(&self) -> bool {
        self.ready
    }

    /// The value read (zero when not ready).
    pub closed spec fn spec_length(&self) -> usize {
        self.length
    }

    /// The prefix width the value was read from.
    pub closed spec fn spec_width(&self) -> usize {
        self.width
    }

    /// Whether the buffer held the whole prefix.
    pub fn is_ready(&self) -> (r: bool)
        ensures
            r == self.spec_ready(),
    {
        self.ready
    }

    /// The length read, if the prefix was present.
    pub fn get(&self) -> (r: Option<usize>)
        ensures
            r == (if self.spec_ready() {
                Some(self.spec_length())
            } else {
                None::<usize>
            }),
    {
        if self.ready {
            Some(self.length)
        } else {
            None
        }
    }

    /// The length plus its own prefix width, if present and not past
    /// `usize`.
    pub fn get_with_header(&self) -> (r: Option<usize>)
        ensures
            r == (if self.spec_ready() && self.spec_length() + self.spec_width() <= usize::MAX {
                Some((self.spec_length() + self.spec_width()) as usize)
            } else {
                None::<usize>
            }),
    {
        self.checked_add(self.width)
    }

    /// As `get_with_header`.
    pub fn get_total(&self) -> (r: Option<usize>)
        ensures
            r == (if self.spec_ready() && self.spec_length() + self.spec_width() <= usize::MAX {
                Some((self.spec_length() + self.spec_width()) as usize)
            } else {
                None::<usize>
            }),
    {
        self.checked_add(self.width)
    }

    /// The length and its prefix width, separately.
    pub fn get_total_separated(&self) -> (r: Option<(usize, usize)>)
        ensures
            r == (if self.spec_ready() {
                Some((self.spec_length(), self.spec_width()))
            } else {
                None::<(usize, usize)>
            }),
    {
        if self.ready {
            Some((self.length, self.width))
        } else {
            None
        }
    }

    /// The length plus `right_side`, saturating at `usize::MAX`.
    pub fn saturating_add(&self, right_side: usize) -> (r: Option<usize>)
        ensures
            r == (if self.spec_ready() {
                if self.spec_length() + right_side <= usize::MAX {
                    Some((self.spec_length() + right_side) as usize)
                } else {
                    Some(usize::MAX)
                }
            } else {
                None::<usize>
            }),
    {
        if self.ready {
            if self.length <= usize::MAX - right_side {
                Some(self.length + right_side)
            } else {
                Some(usize::MAX)
            }
        } else {
            None
        }
    }

    /// The length plus `right_side`, or `None` past `usize::MAX`.
    pub fn checked_add(&self, right_side: usize) -> (r: Option<usize>)
        ensures
            r == (if self.spec_ready() && self.spec_length() + right_side <= usize::MAX {
                Some((self.spec_length() + right_side) as usize)
            } else {
                None::<usize>
            }),
    {
        if self.ready {
            if self.length <= usize::MAX - right_side {
                Some(self.length + right_side)
            } else {
                None
            }
        } else {
            None
        }
    }
}

/// Reads the unsigned big-endian integer of `width` bytes at `offset`
/// in `source` without consuming anything. Not ready when the buffer is
/// too short; a value past `usize` is a hard error.
pub fn peek_at(source: &bytes::BytesMut, offset: usize, width: usize, field_name: &'static str) -> (r:
    Result<PeekLength, WireError>)
    requires
        1 <= width <= 16,
        offset + width <= usize::MAX,
    ensures
        ({
            let b = bm_seq(*source);
            match r {
                Ok(p) => {
                    &&& p.spec_width() == width
                    &&& p.spec_ready() == (offset + width <= b.len())
                    &&& p.spec_ready() ==> p.spec_length() == be_value_of(
                        b.subrange(offset as int, offset + width),
                    )
                    &&& !p.spec_ready() ==> p.spec_length() == 0
                },
                Err(e) => offset + width <= b.len() && be_value_of(
                    b.subrange(offset as int, offset + width),
                ) > usize::MAX && e == WireError::LengthOverflow(
                    field_name,
                    be_value_of(b.subrange(offset as int, offset + width)) as u128,
                ),
            }
        }),
{
    let source_slice = bm_as_slice(source);
    if source_slice.len() < offset + width {
        return Ok(PeekLength { ready: false, length: 0, width });
    }
    let prefix = slice_subrange(source_slice, offset, offset + width);
    let raw = be_decode(prefix);
    proof {
        lemma_be_value_of_bound(prefix@);
    }
    if raw > (usize::MAX as u128) {
        return Err(WireError::LengthOverflow(field_name, raw));
    }
    Ok(PeekLength { ready: true, length: raw as usize, width })
}

/// Length addition that reports which field overflowed.
pub trait CheckedAddWire: Sized {
    /// `self + right_side`, or an `ArithmeticOverflow` naming both
    /// operands' fields.
    fn checked_add_wire(
        self,
        field_name_left_side: &'static str,
        right_side: Self,
        field_name_right_side: &'static str,
    ) -> Result<Self, WireError>;
}

impl CheckedAddWire for usize {
    fn checked_add_wire(
        self,
        field_name_left_side: &'static str,
        right_side: Self,
        field_name_right_side: &'static str,
    ) -> (r: Result<Self, WireError>)
        ensures
            r == (if self + right_side <= usize::MAX {
                Ok::<usize, WireError>((self + right_side) as usize)
            } else {
                Err(
                    WireError::ArithmeticOverflow(
                        self,
                        field_name_left_side,
                        right_side,
                        field_name_right_side,
                    ),
                )
            }),
    {
        match self.checked_add(right_side) {
            Some(total) => Ok(total),
            None => Err(
                WireError::ArithmeticOverflow(
                    self,
                    field_name_left_side,
                    right_side,
                    field_name_right_side,
                ),
            ),
        }
    }
}

} // verus!
