//! Declarative field layouts: an ordered list of fixed-width and
//! length-prefixed fields is resolved, at declaration time, into
//! per-field offsets and the two aggregate constants every codec is
//! built on: the fixed part's length and the maximum total length.

use crate::bytestring::WiredStringPolicyKind;
use vstd::prelude::*;

verus! {

/// How a declared field is laid out on the wire.
#[derive(Clone, Copy, Debug, PartialEq, Eq, Structural)]
pub enum FieldKind {
    /// Exactly `width` bytes.
    Fixed,
    /// A `width`-byte length prefix followed by up to `max_length`
    /// payload bytes.
    LengthPrefix { max_length: usize },
    /// As `LengthPrefix`, with the payload validated under a policy.
    LengthPrefixString { max_length: usize, policy: WiredStringPolicyKind },
}

/// One field as declared: its name, its width (the prefix width for
/// length-prefixed fields), an optional explicit offset overriding the
/// running one, and its kind.
#[derive(Clone, Copy, Debug)]
pub struct FieldDef {
    pub name: &'static str,
    pub width: usize,
    pub explicit_offset: Option<usize>,
    pub kind: FieldKind,
}

/// One field as resolved: its declaration plus its final offset.
#[derive(Clone, Copy, Debug)]
pub struct WiredField {
    pub field_name: &'static str,
    pub offset: usize,
    pub width: usize,
    pub kind: FieldKind,
}

/// Why a declaration is rejected.
#[derive(Clone, Copy, Debug, PartialEq, Eq)]
pub enum LayoutError {
    /// A length prefix must be 1, 2, 4, 8 or 16 bytes wide.
    UnsupportedPrefixWidth(&'static str, usize),
    /// Offsets or lengths ran past `usize`.
    Overflow(&'static str),
}

/// A resolved layout with its aggregates.
#[derive(Debug)]
pub struct Layout {
    pub fields: Vec<WiredField>,
    pub fixed_part_length: usize,
    pub max_length: usize,
}

/// The implicit offset right after the first `i` fields: each field
/// ends `width` bytes after its own offset, explicit or implicit.
pub open spec fn next_offset(defs: Seq<FieldDef>, i: int) -> int
    decreases i,
{
    if i <= 0 {
        0
    } else {
        let d = defs[i - 1];
        (match d.explicit_offset {
            Some(o) => o as int,
            None => next_offset(defs, i - 1),
        }) + d.width
    }
}

/// The offset of field `i`: explicit if declared, the running offset
/// otherwise.
pub open spec fn field_offset(defs: Seq<FieldDef>, i: int) -> int {
    match defs[i].explicit_offset {
        Some(o) => o as int,
        None => next_offset(defs, i),
    }
}

/// The sum of the first `i` declared widths (prefix widths included,
/// length-prefixed payloads excluded): the fixed part's length.
pub open spec fn widths_total(defs: Seq<FieldDef>, i: int) -> int
    decreases i,
{
    if i <= 0 {
        0
    } else {
        widths_total(defs, i - 1) + defs[i - 1].width
    }
}

/// The sum of the first `i` fields' maximum payload lengths.
pub open spec fn max_lengths_total(defs: Seq<FieldDef>, i: int) -> int
    decreases i,
{
    if i <= 0 {
        0
    } else {
        widths_max_term(defs[i - 1]) + max_lengths_total(defs, i - 1)
    }
}

/// What one field contributes beyond its declared width.
pub open spec fn widths_max_term(d: FieldDef) -> int {
    match d.kind {
        FieldKind::Fixed => 0,
        FieldKind::LengthPrefix { max_length } => max_length as int,
        FieldKind::LengthPrefixString { max_length, policy } => max_length as int,
    }
}

/// A width a wire integer prefix may have.
pub open spec fn supported_prefix_width(w: usize) -> bool {
    w == 1 || w == 2 || w == 4 || w == 8 || w == 16
}

/// Whether a field's declaration is acceptable.
pub open spec fn def_acceptable(d: FieldDef) -> bool {
    d.kind is Fixed || supported_prefix_width(d.width)
}

/// Resolves a declaration into offsets and aggregates. Accepted exactly
/// when every length-prefixed field has a supported prefix width and no
/// offset or length runs past `usize`.
pub fn resolve_layout(defs: &Vec<FieldDef>) -> (r: Result<Layout, LayoutError>)
    ensures
        match r {
            Ok(layout) => {
                &&& forall|i: int| 0 <= i < defs@.len() ==> def_acceptable(#[trigger] defs@[i])
                &&& layout.fields@.len() == defs@.len()
                &&& forall|i: int|
                    0 <= i < defs@.len() ==> (#[trigger] layout.fields@[i]).offset == field_offset(
                        defs@,
                        i,
                    ) && layout.fields@[i].field_name == defs@[i].name && layout.fields@[i].width
                        == defs@[i].width && layout.fields@[i].kind == defs@[i].kind
                &&& layout.fixed_part_length == widths_total(defs@, defs@.len() as int)
                &&& layout.max_length == widths_total(defs@, defs@.len() as int)
                    + max_lengths_total(defs@, defs@.len() as int)
            },
            Err(e) => match e {
                LayoutError::UnsupportedPrefixWidth(name, w) => exists|i: int|
                    0 <= i < defs@.len() && !def_acceptable(#[trigger] defs@[i]) && defs@[i].name
                        == name && defs@[i].width == w,
                LayoutError::Overflow(_) => exists|i: int|
                    #![trigger next_offset(defs@, i)]
                    #![trigger widths_total(defs@, i)]
                    #![trigger max_lengths_total(defs@, i)]
                    0 <= i <= defs@.len() && (next_offset(defs@, i) > usize::MAX || widths_total(
                        defs@,
                        i,
                    ) > usize::MAX || max_lengths_total(defs@, i) > usize::MAX || widths_total(
                        defs@,
                        i,
                    ) + max_lengths_total(defs@, i) > usize::MAX),
            },
        },
{
    let mut fields: Vec<WiredField> = Vec::new();
    let mut current_offset: usize = 0;
    let mut fixed_sum: usize = 0;
    let mut max_sum: usize = 0;
    let mut i: usize = 0;
    let n = defs.len();
    while i < n
        invariant
            n == defs@.len(),
            i <= n,
            fields@.len() == i,
            current_offset == next_offset(defs@, i as int),
            fixed_sum == widths_total(defs@, i as int),
            fixed_sum + max_sum == widths_total(defs@, i as int) + max_lengths_total(
                defs@,
                i as int,
            ),
            fixed_sum + max_sum <= usize::MAX,
            forall|j: int| 0 <= j < i ==> def_acceptable(#[trigger] defs@[j]),
            forall|j: int|
                0 <= j < i ==> (#[trigger] fields@[j]).offset == field_offset(defs@, j)
                    && fields@[j].field_name == defs@[j].name && fields@[j].width == defs@[j].width
                    && fields@[j].kind == defs@[j].kind,
        decreases n - i,
    {
        let d = defs[i];
        let prefix_ok = match d.kind {
            FieldKind::Fixed => true,
            _ => d.width == 1 || d.width == 2 || d.width == 4 || d.width == 8 || d.width == 16,
        };
        if !prefix_ok {
            return Err(LayoutError::UnsupportedPrefixWidth(d.name, d.width));
        }
        let offset = match d.explicit_offset {
            Some(o) => o,
            None => current_offset,
        };
        current_offset = match offset.checked_add(d.width) {
            Some(next) => next,
            None => {
                proof {
                    let w = i + 1 as int;
                    assert(0 <= w <= defs@.len() && next_offset(defs@, w) > usize::MAX);
                }
                return Err(LayoutError::Overflow(d.name));
            },
        };
        fixed_sum = match fixed_sum.checked_add(d.width) {
            Some(s) => s,
            None => {
                proof {
                    let w = i + 1 as int;
                    assert(0 <= w <= defs@.len() && widths_total(defs@, w) > usize::MAX);
                }
                return Err(LayoutError::Overflow(d.name));
            },
        };
        let term: usize = match d.kind {
            FieldKind::Fixed => 0,
            FieldKind::LengthPrefix { max_length } => max_length,
            FieldKind::LengthPrefixString { max_length, policy: _ } => max_length,
        };
        max_sum = match max_sum.checked_add(term) {
            Some(s) => {
                if s > usize::MAX - fixed_sum {
                    proof {
                        let w = i + 1 as int;
                        assert(0 <= w <= defs@.len() && widths_total(defs@, w) + max_lengths_total(
                            defs@,
                            w,
                        ) > usize::MAX);
                    }
                    return Err(LayoutError::Overflow(d.name));
                }
                s
            },
            None => {
                proof {
                    let w = i + 1 as int;
                    assert(0 <= w <= defs@.len() && max_lengths_total(defs@, w) > usize::MAX);
                }
                return Err(LayoutError::Overflow(d.name));
            },
        };
        fields.push(WiredField { field_name: d.name, offset, width: d.width, kind: d.kind });
        i = i + 1;
    }
    Ok(Layout { fields, fixed_part_length: fixed_sum, max_length: fixed_sum + max_sum })
}

} // verus!
