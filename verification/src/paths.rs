//! The remote path model: a homework number qualified by a file name or
//! glob pattern. An empty name means the whole homework. A destination
//! may leave the homework number out and inherit it from the source.

use vstd::prelude::*;
use vstd::string::*;
use crate::digits::digits_of;

verus! {

/// A homework qualifier paired with a name: the base shape shared by
/// patterns (number required) and destinations (number optional).
#[derive(Debug, PartialEq, Eq)]
pub struct HwQualBase<H, N> {
    pub hw: H,
    pub name: N,
}

pub type HwQual<T> = HwQualBase<usize, T>;

pub type HwOptQual<T> = HwQualBase<Option<usize>, T>;

/// A remote file pattern, written `hw<N>:<name>`; an empty name selects
/// the whole homework.
pub type RemotePattern = HwQual<String>;

/// A copy/move target: `hw` may be omitted when it is inherited from the
/// source.
pub type RemoteDestination = HwOptQual<String>;

/// One token of a copy command: a local path or a remote pattern.
#[derive(Debug, PartialEq, Eq)]
pub enum CpArg {
    Local(String),
    Remote(RemotePattern),
}

/// The rendered form of a remote pattern: `hw<N>:<name>`.
pub open spec fn rpat_text(hw: nat, name: Seq<char>) -> Seq<char> {
    seq!['h', 'w'] + digits_of(hw) + seq![':'] + name
}

/// The rendered form of a destination: `hw<N>:<name>`, or `:<name>` when
/// the homework number is left out.
pub open spec fn dest_text(hw: Option<usize>, name: Seq<char>) -> Seq<char> {
    match hw {
        Some(h) => rpat_text(h as nat, name),
        None => seq![':'] + name,
    }
}

/// A string, unless it is empty.
pub fn non_empty(s: String) -> (r: Option<String>)
    ensures
        s@.len() == 0 ==> r is None,
        s@.len() > 0 ==> r == Some(s),
{
    if s.as_str().is_empty() {
        None
    } else {
        Some(s)
    }
}

impl Clone for HwQualBase<usize, String> {
    fn clone(&self) -> (r: Self)
        ensures
            r == *self,
    {
        HwQualBase { hw: self.hw, name: self.name.clone() }
    }
}

impl Clone for HwQualBase<Option<usize>, String> {
    fn clone(&self) -> (r: Self)
        ensures
            r == *self,
    {
        HwQualBase { hw: self.hw, name: self.name.clone() }
    }
}

impl Clone for CpArg {
    fn clone(&self) -> (r: Self)
        ensures
            r == *self,
    {
        match self {
            CpArg::Local(path) => CpArg::Local(path.clone()),
            CpArg::Remote(rpat) => CpArg::Remote(rpat.clone()),
        }
    }
}

impl RemotePattern {
    /// Pair a homework number with a name or pattern.
    pub fn hw_name(hw: usize, name: String) -> (r: Self)
        ensures
            r.hw == hw,
            r.name == name,
    {
        HwQualBase { hw, name }
    }

    /// The whole homework: an empty name.
    pub fn just_hw(hw: usize) -> (r: Self)
        ensures
            r.hw == hw,
            r.name@ == Seq::<char>::empty(),
    {
        HwQualBase { hw, name: String::new() }
    }

    /// The same homework with another name.
    pub fn with_name(&self, name: String) -> (r: Self)
        ensures
            r.hw == self.hw,
            r.name == name,
    {
        HwQualBase { hw: self.hw, name }
    }

    /// Whether the pattern selects the whole homework.
    pub fn is_whole_hw(&self) -> (r: bool)
        ensures
            r == (self.name@.len() == 0),
    {
        self.name.as_str().is_empty()
    }

    /// Render as `hw<N>:<name>`.
    pub fn to_text(&self) -> (r: String)
        ensures
            r@ == rpat_text(self.hw as nat, self.name@),
    {
        let mut s = String::new();
        s.append("hw");
        let ds = crate::digits::usize_to_string(self.hw);
        s.append(ds.as_str());
        s.append(":");
        s.append(self.name.as_str());
        proof {
            reveal_strlit("hw");
            reveal_strlit(":");
            assert(s@ =~= rpat_text(self.hw as nat, self.name@));
        }
        s
    }

    /// Forget that the homework number is present.
    pub fn into_destination(self) -> (r: RemoteDestination)
        ensures
            r.hw == Some(self.hw),
            r.name == self.name,
    {
        HwQualBase { hw: Some(self.hw), name: self.name }
    }
}

impl RemoteDestination {
    /// Pair a homework number with a name.
    pub fn hw_name(hw: usize, name: String) -> (r: Self)
        ensures
            r.hw == Some(hw),
            r.name == name,
    {
        HwQualBase { hw: Some(hw), name }
    }

    /// Only a homework number.
    pub fn just_hw(hw: usize) -> (r: Self)
        ensures
            r.hw == Some(hw),
            r.name@ == Seq::<char>::empty(),
    {
        HwQualBase { hw: Some(hw), name: String::new() }
    }

    /// Only a name.
    pub fn just_name(name: String) -> (r: Self)
        ensures
            r.hw is None,
            r.name == name,
    {
        HwQualBase { hw: None, name }
    }

    /// Whether the destination names no file of its own.
    pub fn is_whole_hw(&self) -> (r: bool)
        ensures
            r == (self.name@.len() == 0),
    {
        self.name.as_str().is_empty()
    }

    /// Fill what is missing from a fully qualified default. A destination
    /// with nothing at all to say is excluded by the caller.
    pub fn unwrap_or(self, default: RemotePattern) -> (r: RemotePattern)
        requires
            self.hw is Some || self.name@.len() > 0,
        ensures
            r.hw == if self.hw is Some {
                self.hw->0
            } else {
                default.hw
            },
            r.name == if self.name@.len() > 0 {
                self.name
            } else {
                default.name
            },
    {
        match (self.hw, non_empty(self.name)) {
            (Some(hw), Some(name)) => RemotePattern::hw_name(hw, name),
            (Some(hw), None) => RemotePattern::hw_name(hw, default.name),
            (None, Some(name)) => RemotePattern::hw_name(default.hw, name),
            (None, None) => RemotePattern::hw_name(default.hw, default.name),
        }
    }

    /// Render as `hw<N>:<name>`, or `:<name>` without a homework number.
    pub fn to_text(&self) -> (r: String)
        ensures
            r@ == dest_text(self.hw, self.name@),
    {
        match self.hw {
            Some(hw) => {
                let qual = RemotePattern { hw, name: self.name.clone() };
                qual.to_text()
            },
            None => {
                let mut s = String::new();
                s.append(":");
                s.append(self.name.as_str());
                proof {
                    reveal_strlit(":");
                    assert(s@ =~= dest_text(self.hw, self.name@));
                }
                s
            },
        }
    }
}

impl CpArg {
    /// Whether the argument is a remote pattern for a whole homework.
    pub fn is_whole_hw(&self) -> (r: bool)
        ensures
            r == match self {
                CpArg::Local(_) => false,
                CpArg::Remote(rpat) => rpat.name@.len() == 0,
            },
    {
        match self {
            CpArg::Local(_) => false,
            CpArg::Remote(rpat) => rpat.is_whole_hw(),
        }
    }
}

} // verus!
