//! Picking the asset of a release that a package asks for.

use crate::github::Asset;
use crate::text::ends_with;
use vstd::prelude::*;

verus! {

/// An asset answers a suffix where its name ends with it.
pub open spec fn answers(asset: Asset, suffix: Seq<char>) -> bool {
    suffix.is_suffix_of(asset.name@)
}

/// The position of the first of `assets` that answers `suffix`.
pub open spec fn first_match(assets: Seq<Asset>, suffix: Seq<char>) -> Option<int>
    decreases assets.len(),
{
    if assets.len() == 0 {
        None
    } else {
        match first_match(assets.drop_last(), suffix) {
            Some(at) => Some(at),
            None => if answers(assets.last(), suffix) {
                Some(assets.len() - 1)
            } else {
                None
            },
        }
    }
}

/// `first_match` names an asset that answers the suffix and that no
/// answering asset precedes; it names none exactly where no asset answers.
pub proof fn lemma_first_match(assets: Seq<Asset>, suffix: Seq<char>)
    ensures
        match first_match(assets, suffix) {
            Some(at) => {
                &&& 0 <= at < assets.len()
                &&& answers(assets[at], suffix)
                &&& forall|j: int| 0 <= j < at ==> !answers(#[trigger] assets[j], suffix)
            },
            None => forall|j: int| 0 <= j < assets.len() ==> !answers(#[trigger] assets[j], suffix),
        },
    decreases assets.len(),
{
    if assets.len() > 0 {
        let front = assets.drop_last();
        lemma_first_match(front, suffix);
        assert forall|j: int| 0 <= j < front.len() implies front[j] == assets[j] by {}
    }
}

/// An asset that answers the suffix and that no answering asset precedes
/// is the one that is picked.
pub proof fn lemma_first_match_is(assets: Seq<Asset>, suffix: Seq<char>, at: int)
    requires
        0 <= at < assets.len(),
        answers(assets[at], suffix),
        forall|j: int| 0 <= j < at ==> !answers(#[trigger] assets[j], suffix),
    ensures
        first_match(assets, suffix) == Some(at),
{
    lemma_first_match(assets, suffix);
}

/// Where exactly one asset answers the suffix, that asset is picked.
pub proof fn lemma_only_match_is_picked(assets: Seq<Asset>, suffix: Seq<char>, at: int)
    requires
        0 <= at < assets.len(),
        answers(assets[at], suffix),
        forall|j: int| 0 <= j < assets.len() && j != at ==> !answers(#[trigger] assets[j], suffix),
    ensures
        first_match(assets, suffix) == Some(at),
{
    lemma_first_match_is(assets, suffix, at);
}

/// Where no asset answers the suffix, none is picked.
pub proof fn lemma_no_match(assets: Seq<Asset>, suffix: Seq<char>)
    requires
        forall|j: int| 0 <= j < assets.len() ==> !answers(#[trigger] assets[j], suffix),
    ensures
        first_match(assets, suffix) is None,
{
    lemma_first_match(assets, suffix);
}

/// The position of the asset to install: the first of `assets`, in the
/// order of the release, whose name ends with `suffix`.
pub fn select_asset(assets: &Vec<Asset>, suffix: &str) -> (picked: Option<usize>)
    ensures
        match picked {
            Some(at) => at < assets.len() && first_match(assets@, suffix@) == Some(at as int),
            None => first_match(assets@, suffix@) is None,
        },
{
    let mut i: usize = 0;
    while i < assets.len()
        invariant
            i <= assets.len(),
            forall|j: int| 0 <= j < i ==> !answers(#[trigger] assets@[j], suffix@),
        decreases assets.len() - i,
    {
        if ends_with(assets[i].name.as_str(), suffix) {
            proof {
                lemma_first_match_is(assets@, suffix@, i as int);
            }
            return Some(i);
        }
        i += 1;
    }
    proof {
        lemma_no_match(assets@, suffix@);
    }
    None
}

} // verus!
