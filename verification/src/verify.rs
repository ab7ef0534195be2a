//! Which rendered artifact a scene has.
use vstd::prelude::*;
use crate::paths::{join, joined, path_exists};

verus! {

pub open spec fn gif_path(id: Seq<char>, dir: Seq<char>) -> Seq<char> {
    joined(dir, id + ".gif"@)
}

pub open spec fn mp4_path(id: Seq<char>, dir: Seq<char>) -> Seq<char> {
    joined(dir, id + ".mp4"@)
}

/// The artifact given which files exist: the GIF first, else the MP4.
pub fn artifact_choice(id: &str, assets_dir: &str, gif_exists: bool, mp4_exists: bool) -> (r: Option<String>)
    ensures
        gif_exists ==> (r matches Some(p) && p@ == gif_path(id@, assets_dir@)),
        !gif_exists && mp4_exists ==> (r matches Some(p) && p@ == mp4_path(id@, assets_dir@)),
        !gif_exists && !mp4_exists ==> r is None,
{
    if gif_exists {
        Some(join(assets_dir, String::from_str(id).concat(".gif").as_str()))
    } else if mp4_exists {
        Some(join(assets_dir, String::from_str(id).concat(".mp4").as_str()))
    } else {
        None
    }
}

/// The rendered artifact to verify for `id`: the GIF when it exists, else
/// the MP4; `None` when neither has been rendered.
pub fn artifact_for(id: &str, assets_dir: &str) -> (r: Option<String>)
    ensures
        r matches Some(p) ==> p@ == gif_path(id@, assets_dir@) || p@ == mp4_path(id@, assets_dir@),
{
    let gif = join(assets_dir, String::from_str(id).concat(".gif").as_str());
    let gif_exists = path_exists(gif.as_str());
    let mp4_exists = if gif_exists {
        false
    } else {
        let mp4 = join(assets_dir, String::from_str(id).concat(".mp4").as_str());
        path_exists(mp4.as_str())
    };
    artifact_choice(id, assets_dir, gif_exists, mp4_exists)
}

} // verus!
