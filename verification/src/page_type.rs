//! The kinds of page, and the one-byte tag that names a kind on disk.

use vstd::prelude::*;
use crate::error::PageError;

verus! {

/// The kind of a page. `Overflow` is reserved and not used yet.
#[derive(Clone, Copy, Debug, PartialEq, Eq, Structural)]
pub enum PageType {
    Metadata,
    Data,
    Index,
    Overflow,
    FreeList,
}

impl PageType {
    /// The tag that stands for the kind on disk.
    pub open spec fn tag(self) -> nat {
        match self {
            PageType::Metadata => 0,
            PageType::Data => 1,
            PageType::Index => 2,
            PageType::Overflow => 3,
            PageType::FreeList => 4,
        }
    }

    /// The kind that a tag stands for; tags above 4 stand for none.
    pub open spec fn of_tag(tag: nat) -> Result<PageType, PageError> {
        if tag == 0 {
            Ok(PageType::Metadata)
        } else if tag == 1 {
            Ok(PageType::Data)
        } else if tag == 2 {
            Ok(PageType::Index)
        } else if tag == 3 {
            Ok(PageType::Overflow)
        } else if tag == 4 {
            Ok(PageType::FreeList)
        } else {
            Err(PageError::InvalidPageType)
        }
    }

    /// The tag of the kind, as the one byte that is stored.
    pub fn to_be_bytes(&self) -> (bytes: [u8; 1])
        ensures
            bytes@ == seq![self.tag() as u8],
    {
        let tag: u8 = match self {
            PageType::Metadata => 0,
            PageType::Data => 1,
            PageType::Index => 2,
            PageType::Overflow => 3,
            PageType::FreeList => 4,
        };
        let bytes: [u8; 1] = [tag];
        assert(bytes@ =~= seq![self.tag() as u8]);
        bytes
    }

    /// The kind that a stored tag byte stands for. A byte above 4 is an
    /// `InvalidPageType` error.
    pub fn from_be_bytes(bytes: [u8; 1]) -> (kind: Result<PageType, PageError>)
        ensures
            kind == PageType::of_tag(bytes@[0] as nat),
    {
        PageType::from_tag(bytes[0] as u16)
    }

    /// The kind that a numeric tag stands for. A tag above 4 is an
    /// `InvalidPageType` error: no kind is put in its place.
    pub fn from_tag(value: u16) -> (kind: Result<PageType, PageError>)
        ensures
            kind == PageType::of_tag(value as nat),
    {
        match value {
            0 => Ok(PageType::Metadata),
            1 => Ok(PageType::Data),
            2 => Ok(PageType::Index),
            3 => Ok(PageType::Overflow),
            4 => Ok(PageType::FreeList),
            _ => Err(PageError::InvalidPageType),
        }
    }
}

/// A tag names at most one kind, and each kind has a tag.
pub proof fn lemma_tag_round_trip(kind: PageType)
    ensures
        kind.tag() <= 4,
        PageType::of_tag(kind.tag()) == Ok::<PageType, PageError>(kind),
{
}

/// A tag that names a kind is the tag of that kind.
pub proof fn lemma_of_tag_is_tag(tag: nat)
    ensures
        match PageType::of_tag(tag) {
            Ok(kind) => kind.tag() == tag,
            Err(error) => tag > 4 && error == PageError::InvalidPageType,
        },
{
}

} // verus!
