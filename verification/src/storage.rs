//! S3 storage classes as the browser shows them.
use vstd::prelude::*;
use vstd::std_specs::cmp::PartialEqSpecImpl;
use crate::text::{same_text, copy_str};

verus! {

broadcast use vstd::string::group_string_axioms;

/// Storage class of a listed object, or `Folder` for a common prefix.
#[derive(Debug)]
pub enum StorageClass {
    Folder,
    Standard,
    ReducedRedundancy,
    IntelligentTiering,
    Glacier,
    GlacierIr,
    StandardIa,
    OneZoneIa,
    ExpressOnezone,
    Outposts,
    DeepArchive,
    Snow,
    Unknown(String),
}

/// Colour family a storage class is drawn with.
#[derive(Debug, Clone, Copy, PartialEq, Eq, Structural)]
pub enum Tint {
    Blue,
    Green,
    Cyan,
    Magenta,
    Yellow,
    DarkGray,
}

impl StorageClass {
    /// Position of the variant in the declaration.
    pub open spec fn tag(self) -> int {
        match self {
            StorageClass::Folder => 0,
            StorageClass::Standard => 1,
            StorageClass::ReducedRedundancy => 2,
            StorageClass::IntelligentTiering => 3,
            StorageClass::Glacier => 4,
            StorageClass::GlacierIr => 5,
            StorageClass::StandardIa => 6,
            StorageClass::OneZoneIa => 7,
            StorageClass::ExpressOnezone => 8,
            StorageClass::Outposts => 9,
            StorageClass::DeepArchive => 10,
            StorageClass::Snow => 11,
            StorageClass::Unknown(_) => 12,
        }
    }

    /// Variant and, for an unknown class, its name: what equality compares.
    pub open spec fn key(self) -> (int, Seq<char>) {
        match self {
            StorageClass::Unknown(s) => (12, s@),
            _ => (self.tag(), Seq::empty()),
        }
    }

    /// The label shown for the class: the S3 name, `FOLDER` for a folder, or
    /// the name an unknown class came with.
    pub open spec fn label_spec(self) -> Seq<char> {
        match self {
            StorageClass::Folder => "FOLDER"@,
            StorageClass::Standard => "STANDARD"@,
            StorageClass::ReducedRedundancy => "REDUCED_REDUNDANCY"@,
            StorageClass::IntelligentTiering => "INTELLIGENT_TIERING"@,
            StorageClass::Glacier => "GLACIER"@,
            StorageClass::GlacierIr => "GLACIER_IR"@,
            StorageClass::StandardIa => "STANDARD_IA"@,
            StorageClass::OneZoneIa => "ONEZONE_IA"@,
            StorageClass::ExpressOnezone => "EXPRESS_ONEZONE"@,
            StorageClass::Outposts => "OUTPOSTS"@,
            StorageClass::DeepArchive => "DEEP_ARCHIVE"@,
            StorageClass::Snow => "SNOW"@,
            StorageClass::Unknown(s) => s@,
        }
    }

    /// The classes a batch upload can write objects with, in display order.
    pub open spec fn uploadable_spec() -> Seq<StorageClass> {
        seq![
            StorageClass::Standard,
            StorageClass::StandardIa,
            StorageClass::IntelligentTiering,
            StorageClass::OneZoneIa,
            StorageClass::Glacier,
            StorageClass::GlacierIr,
            StorageClass::DeepArchive,
            StorageClass::ReducedRedundancy,
        ]
    }

    /// Colour family of the class.
    pub open spec fn tint_spec(self) -> Tint {
        match self {
            StorageClass::Folder => Tint::Blue,
            StorageClass::Standard => Tint::Green,
            StorageClass::IntelligentTiering => Tint::Cyan,
            StorageClass::Glacier | StorageClass::GlacierIr | StorageClass::DeepArchive => Tint::Magenta,
            StorageClass::StandardIa | StorageClass::OneZoneIa | StorageClass::ReducedRedundancy => Tint::Yellow,
            _ => Tint::DarkGray,
        }
    }

    /// Storage classes a batch upload can write objects with, in display order.
    pub fn uploadable() -> (v: Vec<StorageClass>)
        ensures
            v@ == Self::uploadable_spec(),
    {
        let v = vec![
            StorageClass::Standard,
            StorageClass::StandardIa,
            StorageClass::IntelligentTiering,
            StorageClass::OneZoneIa,
            StorageClass::Glacier,
            StorageClass::GlacierIr,
            StorageClass::DeepArchive,
            StorageClass::ReducedRedundancy,
        ];
        assert(v@ =~= Self::uploadable_spec());
        v
    }

    /// The label shown for the class.
    pub fn label(&self) -> (r: String)
        ensures
            r@ == self.label_spec(),
    {
        match self {
            StorageClass::Folder => "FOLDER".to_string(),
            StorageClass::Standard => "STANDARD".to_string(),
            StorageClass::ReducedRedundancy => "REDUCED_REDUNDANCY".to_string(),
            StorageClass::IntelligentTiering => "INTELLIGENT_TIERING".to_string(),
            StorageClass::Glacier => "GLACIER".to_string(),
            StorageClass::GlacierIr => "GLACIER_IR".to_string(),
            StorageClass::StandardIa => "STANDARD_IA".to_string(),
            StorageClass::OneZoneIa => "ONEZONE_IA".to_string(),
            StorageClass::ExpressOnezone => "EXPRESS_ONEZONE".to_string(),
            StorageClass::Outposts => "OUTPOSTS".to_string(),
            StorageClass::DeepArchive => "DEEP_ARCHIVE".to_string(),
            StorageClass::Snow => "SNOW".to_string(),
            StorageClass::Unknown(s) => copy_str(s.as_str()),
        }
    }

    /// Colour family the class is drawn with.
    pub fn tint(&self) -> (t: Tint)
        ensures
            t == self.tint_spec(),
    {
        match self {
            StorageClass::Folder => Tint::Blue,
            StorageClass::Standard => Tint::Green,
            StorageClass::IntelligentTiering => Tint::Cyan,
            StorageClass::Glacier | StorageClass::GlacierIr | StorageClass::DeepArchive => Tint::Magenta,
            StorageClass::StandardIa | StorageClass::OneZoneIa | StorageClass::ReducedRedundancy => Tint::Yellow,
            _ => Tint::DarkGray,
        }
    }

    fn tag_exec(&self) -> (t: u8)
        ensures
            t as int == self.tag(),
    {
        match self {
            StorageClass::Folder => 0,
            StorageClass::Standard => 1,
            StorageClass::ReducedRedundancy => 2,
            StorageClass::IntelligentTiering => 3,
            StorageClass::Glacier => 4,
            StorageClass::GlacierIr => 5,
            StorageClass::StandardIa => 6,
            StorageClass::OneZoneIa => 7,
            StorageClass::ExpressOnezone => 8,
            StorageClass::Outposts => 9,
            StorageClass::DeepArchive => 10,
            StorageClass::Snow => 11,
            StorageClass::Unknown(_) => 12,
        }
    }

    /// Whether the two classes are the same variant (with the same name, for
    /// unknown classes).
    pub fn same_as(&self, other: &StorageClass) -> (r: bool)
        ensures
            r == (self.key() == other.key()),
    {
        match (self, other) {
            (StorageClass::Unknown(a), StorageClass::Unknown(b)) => same_text(a.as_str(), b.as_str()),
            _ => self.tag_exec() == other.tag_exec(),
        }
    }
}

impl Clone for StorageClass {
    fn clone(&self) -> (r: Self)
        ensures
            r == *self,
    {
        match self {
            StorageClass::Folder => StorageClass::Folder,
            StorageClass::Standard => StorageClass::Standard,
            StorageClass::ReducedRedundancy => StorageClass::ReducedRedundancy,
            StorageClass::IntelligentTiering => StorageClass::IntelligentTiering,
            StorageClass::Glacier => StorageClass::Glacier,
            StorageClass::GlacierIr => StorageClass::GlacierIr,
            StorageClass::StandardIa => StorageClass::StandardIa,
            StorageClass::OneZoneIa => StorageClass::OneZoneIa,
            StorageClass::ExpressOnezone => StorageClass::ExpressOnezone,
            StorageClass::Outposts => StorageClass::Outposts,
            StorageClass::DeepArchive => StorageClass::DeepArchive,
            StorageClass::Snow => StorageClass::Snow,
            StorageClass::Unknown(s) => StorageClass::Unknown(s.clone()),
        }
    }
}

impl PartialEq for StorageClass {
    fn eq(&self, other: &Self) -> (r: bool) {
        self.same_as(other)
    }
}

impl PartialEqSpecImpl for StorageClass {
    open spec fn obeys_eq_spec() -> bool {
        true
    }

    open spec fn eq_spec(&self, other: &StorageClass) -> bool {
        self.key() == other.key()
    }
}

impl Eq for StorageClass {
}

impl Default for StorageClass {
    fn default() -> (r: Self)
        ensures
            r == StorageClass::Standard,
    {
        StorageClass::Standard
    }
}

} // verus!
