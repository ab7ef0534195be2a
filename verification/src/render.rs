//! Which cast to render for a scene, and the environment for the renderer.
use vstd::prelude::*;
use crate::manifest::Manifest;
use crate::paths::{join, joined, path_exists};
use crate::text::{decimal, decimal_string, trim, trim_str};

verus! {

/// `<dir>/<id>.min.cast`, the idle-trimmed cast.
pub open spec fn min_cast_path(id: Seq<char>, dir: Seq<char>) -> Seq<char> {
    joined(dir, id + ".min.cast"@)
}

/// `<dir>/<id>.cast`, the raw cast.
pub open spec fn raw_cast_path(id: Seq<char>, dir: Seq<char>) -> Seq<char> {
    joined(dir, id + ".cast"@)
}

/// `<dir>/<id>.<which>`, the rendered artifact.
pub open spec fn artifact_path(id: Seq<char>, which: Seq<char>, dir: Seq<char>) -> Seq<char> {
    joined(dir, id + "."@ + which)
}

/// The cast to render and the output path, given whether the trimmed cast exists.
pub fn render_target_given(id: &str, which: &str, assets_dir: &str, min_exists: bool) -> (r: (
    String,
    String,
))
    ensures
        r.0@ == if min_exists {
            min_cast_path(id@, assets_dir@)
        } else {
            raw_cast_path(id@, assets_dir@)
        },
        r.1@ == artifact_path(id@, which@, assets_dir@),
{
    let cast = if min_exists {
        join(assets_dir, String::from_str(id).concat(".min.cast").as_str())
    } else {
        join(assets_dir, String::from_str(id).concat(".cast").as_str())
    };
    let out = join(assets_dir, String::from_str(id).concat(".").concat(which).as_str());
    (cast, out)
}

/// Resolve which cast file to render for `id` (the trimmed `<id>.min.cast`
/// when it exists, else `<id>.cast`) and the output path `<id>.<which>`.
pub fn render_target(id: &str, which: &str, assets_dir: &str) -> (r: (String, String))
    ensures
        r.0@ == min_cast_path(id@, assets_dir@) || r.0@ == raw_cast_path(id@, assets_dir@),
        r.1@ == artifact_path(id@, which@, assets_dir@),
{
    let min_cast = join(assets_dir, String::from_str(id).concat(".min.cast").as_str());
    let exists = path_exists(min_cast.as_str());
    render_target_given(id, which, assets_dir, exists)
}

/// Where the agg theme of the manifest lives under `home`: `themes/<theme>.agg`.
pub open spec fn agg_theme_path_of(m: Manifest, home: Seq<char>) -> Seq<char> {
    joined(joined(home, "themes"@), m.theme@ + ".agg"@)
}

pub fn agg_theme_path(m: &Manifest, home: &str) -> (r: String)
    ensures
        r@ == agg_theme_path_of(*m, home@),
{
    let themes = join(home, "themes");
    join(themes.as_str(), m.theme.clone().concat(".agg").as_str())
}

/// The view of environment pairs.
pub open spec fn pairs_view(v: Seq<(String, String)>) -> Seq<(Seq<char>, Seq<char>)> {
    v.map_values(|p: (String, String)| (p.0@, p.1@))
}

/// The renderer environment: `AGG_THEME` (the trimmed theme file text, when
/// present and not blank), then `AGG_FPS_CAP`, `AGG_FONT_SIZE`, `AGG_SPEED`
/// for the render defaults that are set.
pub open spec fn agg_env_of(m: Manifest, theme_text: Option<Seq<char>>) -> Seq<(Seq<char>, Seq<char>)> {
    let theme = match theme_text {
        Some(t) => if trim(t).len() > 0 {
            seq![("AGG_THEME"@, trim(t))]
        } else {
            Seq::empty()
        },
        None => Seq::empty(),
    };
    let opts = match m.defaults.render {
        None => Seq::empty(),
        Some(r) => {
            let fps = match r.fps_cap {
                Some(f) => seq![("AGG_FPS_CAP"@, decimal(f as nat))],
                None => Seq::empty(),
            };
            let font = match r.font_size {
                Some(f) => seq![("AGG_FONT_SIZE"@, decimal(f as nat))],
                None => Seq::empty(),
            };
            let speed = match r.speed {
                Some(s) => seq![("AGG_SPEED"@, s.text@)],
                None => Seq::empty(),
            };
            fps + font + speed
        },
    };
    theme + opts
}

fn push_pair(env: &mut Vec<(String, String)>, k: &str, v: String)
    ensures
        pairs_view(final(env)@) == pairs_view(old(env)@).push((k@, v@)),
{
    let ghost before = env@;
    env.push((String::from_str(k), v));
    assert(pairs_view(env@) =~= pairs_view(before).push((k@, v@)));
}

/// Environment pairs for the renderer, given the text of the theme file
/// (`None` when there is none).
pub fn agg_env(m: &Manifest, theme_text: Option<&str>) -> (env: Vec<(String, String)>)
    ensures
        pairs_view(env@) == agg_env_of(*m, match theme_text {
            Some(t) => Some(t@),
            None => None,
        }),
{
    let mut env: Vec<(String, String)> = Vec::new();
    let ghost e0 = pairs_view(env@);
    match theme_text {
        Some(t) => {
            let s = trim_str(t);
            if !s.as_str().is_empty() {
                push_pair(&mut env, "AGG_THEME", s);
            }
        },
        None => {},
    }
    let ghost theme_part = pairs_view(env@);
    match &m.defaults.render {
        Some(r) => {
            match r.fps_cap {
                Some(f) => push_pair(&mut env, "AGG_FPS_CAP", decimal_string(f as u64)),
                None => {},
            }
            let ghost after_fps = pairs_view(env@);
            match r.font_size {
                Some(f) => push_pair(&mut env, "AGG_FONT_SIZE", decimal_string(f as u64)),
                None => {},
            }
            let ghost after_font = pairs_view(env@);
            match &r.speed {
                Some(s) => push_pair(&mut env, "AGG_SPEED", s.text.clone()),
                None => {},
            }
            proof {
                let spec = agg_env_of(*m, match theme_text {
                    Some(t) => Some(t@),
                    None => None,
                });
                assert(pairs_view(env@) =~= spec);
            }
        },
        None => {
            assert(pairs_view(env@) =~= theme_part + Seq::empty());
        },
    }
    env
}

} // verus!
