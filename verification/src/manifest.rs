//! The asset manifest: what the generator is given.

use vstd::prelude::*;

verus! {

/// The two kinds of asset a manifest can list.
#[derive(Clone, Copy, Debug, PartialEq, Eq, Structural)]
pub enum AssetType {
    Texture,
    Sound,
}

/// One asset: its kind, the name of its key, and where it is stored
/// (relative to the kind's directory, without the extension).
#[derive(Debug)]
pub struct Asset {
    pub t: AssetType,
    pub name: String,
    pub path: String,
}

/// A manifest is the ordered list of its assets.
pub type Input = Vec<Asset>;

/// What an asset is, as plain values.
pub struct AssetView {
    pub t: AssetType,
    pub name: Seq<char>,
    pub path: Seq<char>,
}

impl View for Asset {
    type V = AssetView;

    open spec fn view(&self) -> AssetView {
        AssetView { t: self.t, name: self.name@, path: self.path@ }
    }
}

/// The manifest as a sequence of asset views, in manifest order.
pub open spec fn manifest_view(input: Seq<Asset>) -> Seq<AssetView> {
    Seq::new(input.len(), |i: int| input[i]@)
}

/// Builds an asset from its storage path, its name and its kind.
pub fn make_asset(path: &str, name: &str, t: AssetType) -> (asset: Asset)
    ensures
        asset@ == (AssetView { t: t, name: name@, path: path@ }),
{
    Asset { t, name: name.to_owned(), path: path.to_owned() }
}

} // verus!
