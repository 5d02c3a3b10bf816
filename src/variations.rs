use vstd::prelude::*;
use crate::error::Error;
use vstd::string::StringSliceAdditionalSpecFns;

verus! {

/// The identity variation: it maps every point to itself and takes no
/// parameters.
#[derive(Debug, Clone, Copy, PartialEq, Eq)]
pub struct Linear;

/// The variations that a system definition can name.
#[derive(Debug, Clone, Copy, PartialEq, Eq)]
pub enum VariationKind {
    Linear,
    DeJong,
    Trigonometric,
    Unnamed,
}

/// Number of parameters that a variation of kind `k` reads.
pub open spec fn param_count_of(k: VariationKind) -> nat {
    match k {
        VariationKind::Linear => 0,
        VariationKind::DeJong => 4,
        VariationKind::Trigonometric => 8,
        VariationKind::Unnamed => 4,
    }
}

/// The ASCII name of a variation ("Linear", "DeJong", "Trigonometric",
/// "Unnamed"), as bytes.
pub open spec fn name_bytes(k: VariationKind) -> Seq<u8> {
    match k {
        VariationKind::Linear => seq![76u8, 105, 110, 101, 97, 114],
        VariationKind::DeJong => seq![68u8, 101, 74, 111, 110, 103],
        VariationKind::Trigonometric => seq![84u8, 114, 105, 103, 111, 110, 111, 109, 101, 116, 114, 105, 99],
        VariationKind::Unnamed => seq![85u8, 110, 110, 97, 109, 101, 100],
    }
}

/// The variation that the UTF-8 name `name` denotes, if any.
pub open spec fn kind_named(name: Seq<u8>) -> Option<VariationKind> {
    if name == name_bytes(VariationKind::Linear) {
        Some(VariationKind::Linear)
    } else if name == name_bytes(VariationKind::DeJong) {
        Some(VariationKind::DeJong)
    } else if name == name_bytes(VariationKind::Trigonometric) {
        Some(VariationKind::Trigonometric)
    } else if name == name_bytes(VariationKind::Unnamed) {
        Some(VariationKind::Unnamed)
    } else {
        None
    }
}

impl VariationKind {
    /// The name of this variation, as bytes.
    pub fn name(&self) -> (r: Vec<u8>)
        ensures
            r@ == name_bytes(*self),
    {
        let r: Vec<u8> = match self {
            VariationKind::Linear => vec![76u8, 105, 110, 101, 97, 114],
            VariationKind::DeJong => vec![68u8, 101, 74, 111, 110, 103],
            VariationKind::Trigonometric => vec![84u8, 114, 105, 103, 111, 110, 111, 109, 101, 116, 114, 105, 99],
            VariationKind::Unnamed => vec![85u8, 110, 110, 97, 109, 101, 100],
        };
        assert(r@ =~= name_bytes(*self));
        r
    }

    /// Number of parameters that this variation reads.
    pub fn param_count(&self) -> (r: usize)
        ensures
            r == param_count_of(*self),
    {
        match self {
            VariationKind::Linear => 0,
            VariationKind::DeJong => 4,
            VariationKind::Trigonometric => 8,
            VariationKind::Unnamed => 4,
        }
    }
}

fn same_bytes(a: &[u8], b: &[u8]) -> (r: bool)
    ensures
        r == (a@ == b@),
{
    if a.len() != b.len() {
        return false;
    }
    let mut i: usize = 0;
    while i < a.len()
        invariant
            a@.len() == b@.len(),
            i <= a@.len(),
            forall|j: int| 0 <= j < i ==> a@[j] == b@[j],
        decreases a@.len() - i,
    {
        if a[i] != b[i] {
            return false;
        }
        i = i + 1;
    }
    assert(a@ =~= b@);
    true
}

/// Resolves a variation by name and checks that enough parameters came with
/// it: an unknown name is an invalid variation, and a known one with fewer
/// parameters than it reads is short of parameters. Extra parameters are
/// ignored.
pub fn resolve_variation(name: &str, param_count: usize) -> (r: Result<VariationKind, Error>)
    ensures
        kind_named(name.spec_bytes()) is None ==> r == Err::<VariationKind, Error>(
            Error { description: "Invalid variation" },
        ),
        kind_named(name.spec_bytes()) matches Some(k) ==> if param_count < param_count_of(k) {
            r == Err::<VariationKind, Error>(Error { description: "Not enough parameters" })
        } else {
            r == Ok::<VariationKind, Error>(k)
        },
{
    let bytes = name.as_bytes();
    let kind = if same_bytes(bytes, VariationKind::Linear.name().as_slice()) {
        VariationKind::Linear
    } else if same_bytes(bytes, VariationKind::DeJong.name().as_slice()) {
        VariationKind::DeJong
    } else if same_bytes(bytes, VariationKind::Trigonometric.name().as_slice()) {
        VariationKind::Trigonometric
    } else if same_bytes(bytes, VariationKind::Unnamed.name().as_slice()) {
        VariationKind::Unnamed
    } else {
        return Err(Error::new("Invalid variation"));
    };
    if param_count < kind.param_count() {
        Err(Error::new("Not enough parameters"))
    } else {
        Ok(kind)
    }
}

} // verus!
