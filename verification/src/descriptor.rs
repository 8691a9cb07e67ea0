//! The handle by which one buffer of a shared data region is named.

use vstd::prelude::*;

verus! {

/// The bytes that a descriptor names: `length` bytes of a data region,
/// starting `offset` bytes into it.
pub struct Span {
    pub offset: nat,
    pub length: nat,
}

impl Span {
    /// The offset of the first byte behind the span.
    pub open spec fn end(self) -> nat {
        self.offset + self.length
    }

    /// Whether the span lies inside a region of `region_len` bytes.
    pub open spec fn within(self, region_len: nat) -> bool {
        self.end() <= region_len
    }
}

/// Names one buffer inside a shared data region by its offset and length.
///
/// A descriptor is a plain value. Nothing here checks it against a region:
/// that is up to whoever reads or writes the bytes it names.
#[derive(Copy, Clone, Debug, PartialOrd, Ord, PartialEq, Eq, Structural)]
pub struct Descriptor {
    io_or_offset: usize,
    len: u16,
}

impl View for Descriptor {
    type V = Span;

    closed spec fn view(&self) -> Span {
        Span { offset: self.io_or_offset as nat, length: self.len as nat }
    }
}

impl Descriptor {
    /// The descriptor with this offset and this length.
    pub closed spec fn spec_new(io_or_offset: usize, len: u16) -> Descriptor {
        Descriptor { io_or_offset, len }
    }

    /// This descriptor with its offset replaced.
    pub closed spec fn with_io_or_offset(self, io_or_offset: usize) -> Descriptor {
        Descriptor { io_or_offset, len: self.len }
    }

    /// This descriptor with its length replaced.
    pub closed spec fn with_len(self, len: u16) -> Descriptor {
        Descriptor { io_or_offset: self.io_or_offset, len }
    }

    pub fn new(io_or_offset: usize, len: u16) -> (desc: Self)
        ensures
            desc == Self::spec_new(io_or_offset, len),
            desc@ == (Span { offset: io_or_offset as nat, length: len as nat }),
    {
        Self { io_or_offset, len }
    }

    pub fn io_or_offset(&self) -> (offset: usize)
        ensures
            offset == self@.offset,
    {
        self.io_or_offset
    }

    pub fn set_io_or_offset(&mut self, io_or_offset: usize)
        ensures
            *final(self) == old(self).with_io_or_offset(io_or_offset),
            final(self)@ == (Span { offset: io_or_offset as nat, length: old(self)@.length }),
    {
        self.io_or_offset = io_or_offset;
    }

    pub fn len(&self) -> (len: u16)
        ensures
            len == self@.length,
    {
        self.len
    }

    pub fn set_len(&mut self, len: u16)
        ensures
            *final(self) == old(self).with_len(len),
            final(self)@ == (Span { offset: old(self)@.offset, length: len as nat }),
    {
        self.len = len;
    }

    /// The offset of a descriptor fits a `usize` and its length a `u16`.
    pub proof fn lemma_view_bounds(self)
        ensures
            self@.offset <= usize::MAX,
            self@.length <= u16::MAX,
    {
    }

    /// Two descriptors that name the same span are the same descriptor.
    pub proof fn lemma_view_injective(self, other: Descriptor)
        requires
            self@ == other@,
        ensures
            self == other,
    {
    }

    /// The spans of a descriptor built from its parts, and of one with its
    /// offset or its length replaced.
    pub proof fn lemma_constructed_views(self, io_or_offset: usize, len: u16)
        ensures
            Self::spec_new(io_or_offset, len)@ == (Span {
                offset: io_or_offset as nat,
                length: len as nat,
            }),
            self.with_io_or_offset(io_or_offset)@ == (Span {
                offset: io_or_offset as nat,
                length: self@.length,
            }),
            self.with_len(len)@ == (Span { offset: self@.offset, length: len as nat }),
    {
    }
}

} // verus!
