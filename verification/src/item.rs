//! The inventory entry type and its identity equality.
//!
//! An inventory entry describes one distributable file announced by a
//! manifest line.  Two entries are the *same item* exactly when their
//! `(filename, size, product, digest)` fields agree; the `downloaded` and
//! `checked` flags are run-local bookkeeping and excluded from identity.
//!
//! Text is modelled as bytes throughout the library: the manifest format is
//! pure ASCII, and every field of an entry holds the bytes of the token it
//! was parsed from.

use vstd::prelude::*;

use crate::ascii::DIGIT_4;
use crate::ascii::DIGIT_6;
use crate::ascii::DIGIT_8;
use crate::ascii::LOWER_E;
use crate::ascii::LOWER_M;
use crate::ascii::LOWER_O;
use crate::ascii::LOWER_S;
use crate::ascii::LOWER_T;
use crate::ascii::LOWER_V;
use crate::ascii::LOWER_X;
use crate::ascii::UPPER_C;
use crate::ascii::UPPER_D;
use crate::ascii::UPPER_T;

verus! {

/// Target architecture of a run; gates which manifest lines are eligible.
#[derive(Clone, Copy, PartialEq, Eq, Structural, Debug)]
pub enum Arch {
    X64,
    X86,
}

/// Access level of a run; gates which manifest lines are eligible.
#[derive(Clone, Copy, PartialEq, Eq, Structural, Debug)]
pub enum Level {
    Com,
    Test,
    Dev,
}

/// The manifest token of an architecture, as bytes.
pub open spec fn arch_bytes(a: Arch) -> Seq<u8> {
    match a {
        Arch::X64 => seq![LOWER_X, DIGIT_6, DIGIT_4],
        Arch::X86 => seq![LOWER_X, DIGIT_8, DIGIT_6],
    }
}

/// The manifest token of an access level, as bytes.
pub open spec fn level_bytes(l: Level) -> Seq<u8> {
    match l {
        Level::Com => seq![UPPER_C, LOWER_O, LOWER_M],
        Level::Test => seq![UPPER_T, LOWER_E, LOWER_S, LOWER_T],
        Level::Dev => seq![UPPER_D, LOWER_E, LOWER_V],
    }
}

impl Arch {
    /// The manifest token of this architecture, as a byte vector.
    pub fn token(&self) -> (r: Vec<u8>)
        ensures
            r@ == arch_bytes(*self),
    {
        match self {
            Arch::X64 => {
                let mut v: Vec<u8> = Vec::new();
                v.push(LOWER_X);
                v.push(DIGIT_6);
                v.push(DIGIT_4);
                proof { assert(v@ =~= arch_bytes(Arch::X64)); }
                v
            },
            Arch::X86 => {
                let mut v: Vec<u8> = Vec::new();
                v.push(LOWER_X);
                v.push(DIGIT_8);
                v.push(DIGIT_6);
                proof { assert(v@ =~= arch_bytes(Arch::X86)); }
                v
            },
        }
    }

    /// The manifest token of this architecture, as text.
    pub fn as_text<'a>(self: &Arch) -> (r: &'a str)
        ensures
            r@ == match *self {
                Arch::X64 => "x64"@,
                Arch::X86 => "x86"@,
            },
    {
        match *self {
            Arch::X64 => "x64",
            Arch::X86 => "x86",
        }
    }
}

impl Level {
    /// The manifest token of this access level, as a byte vector.
    pub fn token(&self) -> (r: Vec<u8>)
        ensures
            r@ == level_bytes(*self),
    {
        match self {
            Level::Com => {
                let mut v: Vec<u8> = Vec::new();
                v.push(UPPER_C);
                v.push(LOWER_O);
                v.push(LOWER_M);
                proof { assert(v@ =~= level_bytes(Level::Com)); }
                v
            },
            Level::Test => {
                let mut v: Vec<u8> = Vec::new();
                v.push(UPPER_T);
                v.push(LOWER_E);
                v.push(LOWER_S);
                v.push(LOWER_T);
                proof { assert(v@ =~= level_bytes(Level::Test)); }
                v
            },
            Level::Dev => {
                let mut v: Vec<u8> = Vec::new();
                v.push(UPPER_D);
                v.push(LOWER_E);
                v.push(LOWER_V);
                proof { assert(v@ =~= level_bytes(Level::Dev)); }
                v
            },
        }
    }

    /// The manifest token of this access level, as text.
    pub fn as_text<'a>(self: &Level) -> (r: &'a str)
        ensures
            r@ == match *self {
                Level::Com => "Com"@,
                Level::Test => "Test"@,
                Level::Dev => "Dev"@,
            },
    {
        match *self {
            Level::Test => "Test",
            Level::Dev => "Dev",
            Level::Com => "Com",
        }
    }
}

/// Mathematical model of an inventory entry.
pub ghost struct ItemModel {
    pub product: Seq<u8>,
    pub filename: Seq<u8>,
    pub size: int,
    pub digest: Seq<u8>,
    pub downloaded: bool,
    pub checked: bool,
}

/// One distributable file announced by a manifest line.
///
/// `digest` holds the upper-cased hexadecimal MD5 checksum declared for the
/// file, or is empty when the manifest line declared none.
#[derive(Debug)]
pub struct UpdateItem {
    pub product: Vec<u8>,
    pub filename: Vec<u8>,
    pub size: u32,
    pub digest: Vec<u8>,
    pub downloaded: bool,
    pub checked: bool,
}

impl View for UpdateItem {
    type V = ItemModel;

    open spec fn view(&self) -> ItemModel {
        ItemModel {
            product: self.product@,
            filename: self.filename@,
            size: self.size as int,
            digest: self.digest@,
            downloaded: self.downloaded,
            checked: self.checked,
        }
    }
}

/// Identity equality of entries: the `(filename, size, product, digest)`
/// fields agree; the run-local flags are ignored.
pub open spec fn same_item(a: ItemModel, b: ItemModel) -> bool {
    &&& a.filename == b.filename
    &&& a.size == b.size
    &&& a.product == b.product
    &&& a.digest == b.digest
}

impl PartialEq for UpdateItem {
    /// Entries compare by identity: flags do not take part.
    fn eq(&self, other: &UpdateItem) -> (r: bool) {
        let fe = self.filename == other.filename;
        let se = self.size == other.size;
        let pe = self.product == other.product;
        let de = self.digest == other.digest;
        proof {
            if fe {
                assert(self.filename@ =~= other.filename@);
            }
            if pe {
                assert(self.product@ =~= other.product@);
            }
            if de {
                assert(self.digest@ =~= other.digest@);
            }
        }
        fe && se && pe && de
    }
}

impl vstd::std_specs::cmp::PartialEqSpecImpl for UpdateItem {
    open spec fn obeys_eq_spec() -> bool {
        true
    }

    open spec fn eq_spec(&self, other: &UpdateItem) -> bool {
        same_item(self@, other@)
    }
}

/// Two entries whose identity fields agree are the same item, whatever
/// their run-local `downloaded` and `checked` flags hold.
pub proof fn lemma_identity_ignores_flags(a: ItemModel, b: ItemModel)
    requires
        a.filename == b.filename,
        a.size == b.size,
        a.product == b.product,
        a.digest == b.digest,
    ensures
        same_item(a, b),
{
}

} // verus!
