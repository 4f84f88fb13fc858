//! A GitHub release as the hub uses it.

use vstd::prelude::*;
use crate::text::{first_index_of, lemma_first_index_absent, lemma_first_index_unique};

verus! {

/// A downloadable file attached to a release.
#[derive(Clone, Debug)]
pub struct ReleaseAsset {
    /// File name.
    pub name: String,
    /// Where to download it.
    pub browser_download_url: String,
    /// Size in bytes.
    pub size: u64,
}

/// A published release of a program.
#[derive(Clone, Debug)]
pub struct Release {
    /// The git tag, such as `v1.2.3`.
    pub tag_name: String,
    /// Release title; empty when it has none.
    pub name: String,
    /// Release notes; empty when there are none.
    pub body: String,
    /// The release's web page.
    pub html_url: String,
    /// Publication time; empty when unknown.
    pub published_at: String,
    /// Attached files.
    pub assets: Vec<ReleaseAsset>,
}

/// The names of a list of assets, in order.
pub open spec fn asset_names(assets: Seq<ReleaseAsset>) -> Seq<Seq<char>> {
    assets.map_values(|a: ReleaseAsset| a.name@)
}

impl ReleaseAsset {
    /// An exact copy of this asset.
    pub fn duplicate(&self) -> (a: ReleaseAsset)
        ensures
            a == *self,
    {
        ReleaseAsset {
            name: self.name.clone(),
            browser_download_url: self.browser_download_url.clone(),
            size: self.size,
        }
    }
}

impl Release {
    /// Whether `other` holds the same fields and the same assets, in order.
    pub open spec fn same_as(&self, other: &Release) -> bool {
        &&& self.tag_name == other.tag_name
        &&& self.name == other.name
        &&& self.body == other.body
        &&& self.html_url == other.html_url
        &&& self.published_at == other.published_at
        &&& self.assets@ == other.assets@
    }

    /// An exact copy of this release.
    pub fn duplicate(&self) -> (r: Release)
        ensures
            r.same_as(self),
    {
        let mut assets: Vec<ReleaseAsset> = Vec::new();
        let mut i: usize = 0;
        while i < self.assets.len()
            invariant
                i <= self.assets@.len(),
                assets@ == self.assets@.subrange(0, i as int),
            decreases self.assets@.len() - i,
        {
            assets.push(self.assets[i].duplicate());
            proof {
                assert(assets@ =~= self.assets@.subrange(0, i + 1));
            }
            i += 1;
        }
        assert(assets@ =~= self.assets@);
        Release {
            tag_name: self.tag_name.clone(),
            name: self.name.clone(),
            body: self.body.clone(),
            html_url: self.html_url.clone(),
            published_at: self.published_at.clone(),
            assets,
        }
    }

    /// Position of the first asset named `name`, if any.
    pub fn asset_position(&self, name: &str) -> (r: Option<usize>)
        ensures
            match r {
                Some(i) => i < self.assets@.len() && i as int == first_index_of(asset_names(self.assets@), name@),
                None => first_index_of(asset_names(self.assets@), name@) == -1,
            },
    {
        let key = crate::text::owned(name);
        let mut i: usize = 0;
        while i < self.assets.len()
            invariant
                i <= self.assets@.len(),
                key@ == name@,
                forall|m: int| 0 <= m < i ==> asset_names(self.assets@)[m] != name@,
            decreases self.assets@.len() - i,
        {
            if self.assets[i].name == key {
                proof {
                    lemma_first_index_unique(asset_names(self.assets@), name@, i as int);
                }
                return Some(i);
            }
            i += 1;
        }
        proof {
            lemma_first_index_absent(asset_names(self.assets@), name@);
        }
        None
    }
}

} // verus!
