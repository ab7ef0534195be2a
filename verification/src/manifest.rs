//! The declarative demo manifest: its model, `wait_for` desugaring and validation.
use vstd::prelude::*;
use crate::text::{chars_of, join, join_strings, views};

verus! {

/// Tiered readiness gate (same shape on servers and panes).
#[derive(Debug)]
pub struct Ready {
    /// Tier 1: regex against the server's log.
    pub log: Option<String>,
    /// Tier 2: HTTP endpoint to poll.
    pub health_url: Option<String>,
    /// JSON field on the health response that must be truthy.
    pub ready_field: Option<String>,
    /// Expected `runner_in_use` on the health response.
    pub runner_key: Option<String>,
    /// Hard timeout, e.g. `360s`.
    pub timeout: Option<String>,
}

impl Default for Ready {
    fn default() -> (r: Ready)
        ensures
            r.log is None,
            r.health_url is None,
            r.ready_field is None,
            r.runner_key is None,
            r.timeout is None,
    {
        Ready { log: None, health_url: None, ready_field: None, runner_key: None, timeout: None }
    }
}

/// One terminal pane of a scene.
#[derive(Debug)]
pub struct Pane {
    pub run: String,
    pub ready: Option<Ready>,
    /// Sugar: `wait_for: "regex"` is `ready: { log: "regex" }`.
    pub wait_for: Option<String>,
    pub keys: Option<Vec<String>>,
}

/// Capture engine of a scene.
#[derive(Debug, Clone, Copy, PartialEq, Eq, Structural)]
pub enum Engine {
    Auto,
    Vhs,
    Asciinema,
}

impl Default for Engine {
    fn default() -> (e: Engine)
        ensures
            e == Engine::Auto,
    {
        Engine::Auto
    }
}

/// Pane layout of a scene.
#[derive(Debug, Clone, Copy, PartialEq, Eq, Structural)]
pub enum Layout {
    Single,
    Split,
}

impl Default for Layout {
    fn default() -> (l: Layout)
        ensures
            l == Layout::Single,
    {
        Layout::Single
    }
}

/// A named exclusive server.
#[derive(Debug)]
pub struct ServerDef {
    pub start: String,
    pub stop: Option<String>,
    pub ready: Option<Ready>,
}

/// One scene of the manifest.
#[derive(Debug)]
pub struct Scene {
    pub id: String,
    pub title: Option<String>,
    pub engine: Engine,
    pub layout: Layout,
    pub server: Option<String>,
    pub left: Option<Pane>,
    pub right: Option<Pane>,
    pub split_ratio: Option<u8>,
    pub duration: Option<String>,
    pub caption: Option<String>,
    pub outputs: Option<Vec<String>>,
    pub raw_tape: Option<String>,
    pub raw_script: Option<String>,
}

/// A 32-bit float setting, held as its IEEE-754 bit pattern together with
/// its decimal text (as `f32`'s `Display` writes it).
#[derive(Debug)]
pub struct Speed {
    pub bits: u32,
    pub text: String,
}

/// Encoding knobs for rendering (agg flags).
#[derive(Debug)]
pub struct RenderOpts {
    pub fps_cap: Option<u16>,
    pub font_size: Option<u16>,
    pub speed: Option<Speed>,
}

/// Scene-wide defaults.
#[derive(Debug)]
pub struct Defaults {
    pub cols: Option<u16>,
    pub rows: Option<u16>,
    pub backend: Option<String>,
    pub outputs: Option<Vec<String>>,
    pub padding: Option<u16>,
    pub typing_speed: Option<String>,
    /// VHS playback speed, as the number is printed into a template.
    pub playback_speed: Option<String>,
    pub render: Option<RenderOpts>,
}

impl Default for Defaults {
    fn default() -> (d: Defaults)
        ensures
            d.cols is None,
            d.rows is None,
            d.backend is None,
            d.outputs is None,
            d.padding is None,
            d.typing_speed is None,
            d.playback_speed is None,
            d.render is None,
    {
        Defaults {
            cols: None,
            rows: None,
            backend: None,
            outputs: None,
            padding: None,
            typing_speed: None,
            playback_speed: None,
            render: None,
        }
    }
}

/// The whole manifest. `servers` is the server registry, a map from name to
/// server: validation accepts it only with each name once, in name order.
#[derive(Debug)]
pub struct Manifest {
    pub project: String,
    pub theme: String,
    pub defaults: Defaults,
    pub servers: Vec<(String, ServerDef)>,
    pub scenes: Vec<Scene>,
}

/// Why a manifest was refused.
#[derive(Debug)]
pub enum ManifestError {
    FpsCapZero,
    FontSizeZero,
    SpeedNotPositive,
    ServerOutOfOrder(String),
    EmptySceneId,
    DuplicateSceneId(String),
    BothDeclarativeAndRaw(String),
    BothRawHatches(String),
    MissingRightPane(String),
    UnknownServer { scene: String, server: String },
}

/// `ManifestError` over string views.
pub enum ManifestErrorView {
    FpsCapZero,
    FontSizeZero,
    SpeedNotPositive,
    ServerOutOfOrder(Seq<char>),
    EmptySceneId,
    DuplicateSceneId(Seq<char>),
    BothDeclarativeAndRaw(Seq<char>),
    BothRawHatches(Seq<char>),
    MissingRightPane(Seq<char>),
    UnknownServer { scene: Seq<char>, server: Seq<char> },
}

impl View for ManifestError {
    type V = ManifestErrorView;

    open spec fn view(&self) -> ManifestErrorView {
        match self {
            ManifestError::FpsCapZero => ManifestErrorView::FpsCapZero,
            ManifestError::FontSizeZero => ManifestErrorView::FontSizeZero,
            ManifestError::SpeedNotPositive => ManifestErrorView::SpeedNotPositive,
            ManifestError::ServerOutOfOrder(n) => ManifestErrorView::ServerOutOfOrder(n@),
            ManifestError::EmptySceneId => ManifestErrorView::EmptySceneId,
            ManifestError::DuplicateSceneId(id) => ManifestErrorView::DuplicateSceneId(id@),
            ManifestError::BothDeclarativeAndRaw(id) => ManifestErrorView::BothDeclarativeAndRaw(
                id@,
            ),
            ManifestError::BothRawHatches(id) => ManifestErrorView::BothRawHatches(id@),
            ManifestError::MissingRightPane(id) => ManifestErrorView::MissingRightPane(id@),
            ManifestError::UnknownServer { scene, server } => ManifestErrorView::UnknownServer {
                scene: scene@,
                server: server@,
            },
        }
    }
}

/// The text of each refusal.
pub open spec fn error_message(e: ManifestErrorView) -> Seq<char> {
    match e {
        ManifestErrorView::FpsCapZero => "defaults.render.fps_cap must be >= 1"@,
        ManifestErrorView::FontSizeZero => "defaults.render.font_size must be >= 1"@,
        ManifestErrorView::SpeedNotPositive => "defaults.render.speed must be a positive number"@,
        ManifestErrorView::ServerOutOfOrder(n) => "servers: `"@ + n
            + "` is listed twice or out of name order"@,
        ManifestErrorView::EmptySceneId => "scene with empty id"@,
        ManifestErrorView::DuplicateSceneId(id) => "duplicate scene id: "@ + id,
        ManifestErrorView::BothDeclarativeAndRaw(id) => "scene "@ + id
            + ": has both declarative panes and a raw hatch"@,
        ManifestErrorView::BothRawHatches(id) => "scene "@ + id
            + ": has both raw_tape and raw_script; use exactly one raw hatch"@,
        ManifestErrorView::MissingRightPane(id) => "scene "@ + id
            + ": needs a `right` pane or a raw hatch"@,
        ManifestErrorView::UnknownServer { scene, server } => "scene "@ + scene
            + ": references unknown server `"@ + server + "`"@,
    }
}

impl ManifestError {
    /// The human-readable refusal.
    pub fn message(&self) -> (r: String)
        ensures
            r@ == error_message(self@),
    {
        match self {
            ManifestError::FpsCapZero => String::from_str("defaults.render.fps_cap must be >= 1"),
            ManifestError::FontSizeZero => String::from_str(
                "defaults.render.font_size must be >= 1",
            ),
            ManifestError::SpeedNotPositive => String::from_str(
                "defaults.render.speed must be a positive number",
            ),
            ManifestError::ServerOutOfOrder(n) => String::from_str("servers: `").concat(
                n.as_str(),
            ).concat("` is listed twice or out of name order"),
            ManifestError::EmptySceneId => String::from_str("scene with empty id"),
            ManifestError::DuplicateSceneId(id) => String::from_str("duplicate scene id: ").concat(
                id.as_str(),
            ),
            ManifestError::BothDeclarativeAndRaw(id) => String::from_str("scene ").concat(
                id.as_str(),
            ).concat(": has both declarative panes and a raw hatch"),
            ManifestError::BothRawHatches(id) => String::from_str("scene ").concat(
                id.as_str(),
            ).concat(": has both raw_tape and raw_script; use exactly one raw hatch"),
            ManifestError::MissingRightPane(id) => String::from_str("scene ").concat(
                id.as_str(),
            ).concat(": needs a `right` pane or a raw hatch"),
            ManifestError::UnknownServer { scene, server } => String::from_str("scene ").concat(
                scene.as_str(),
            ).concat(": references unknown server `").concat(server.as_str()).concat("`"),
        }
    }
}

// ---------------------------------------------------------------------------
// Engine resolution

pub open spec fn scene_is_raw(s: Scene) -> bool {
    s.raw_tape is Some || s.raw_script is Some
}

pub open spec fn scene_is_declarative(s: Scene) -> bool {
    s.left is Some || s.right is Some
}

/// The right pane injects at least one key.
pub open spec fn scene_has_keys(s: Scene) -> bool {
    match s.right {
        Some(p) => match p.keys {
            Some(k) => k@.len() > 0,
            None => false,
        },
        None => false,
    }
}

/// `engine: auto` resolved: asciinema for live timing (split layout, injected
/// keys, raw_script), vhs otherwise (raw_tape first); explicit engines stay.
pub open spec fn resolved_engine_of(s: Scene) -> Engine {
    match s.engine {
        Engine::Auto => if s.raw_tape is Some {
            Engine::Vhs
        } else if s.raw_script is Some {
            Engine::Asciinema
        } else if s.layout == Layout::Split || scene_has_keys(s) {
            Engine::Asciinema
        } else {
            Engine::Vhs
        },
        e => e,
    }
}

impl Scene {
    /// The scene uses a raw escape hatch.
    pub fn is_raw(&self) -> (b: bool)
        ensures
            b == scene_is_raw(*self),
    {
        self.raw_tape.is_some() || self.raw_script.is_some()
    }

    fn has_keys(&self) -> (b: bool)
        ensures
            b == scene_has_keys(*self),
    {
        match &self.right {
            Some(p) => match &p.keys {
                Some(k) => k.len() > 0,
                None => false,
            },
            None => false,
        }
    }

    /// Resolve `engine: auto` to a concrete engine; never `Auto`.
    pub fn resolved_engine(&self) -> (e: Engine)
        ensures
            e == resolved_engine_of(*self),
            e != Engine::Auto,
    {
        match self.engine {
            Engine::Vhs => Engine::Vhs,
            Engine::Asciinema => Engine::Asciinema,
            Engine::Auto => {
                if self.raw_tape.is_some() {
                    return Engine::Vhs;
                }
                if self.raw_script.is_some() {
                    return Engine::Asciinema;
                }
                if self.layout == Layout::Split || self.has_keys() {
                    Engine::Asciinema
                } else {
                    Engine::Vhs
                }
            },
        }
    }
}

// ---------------------------------------------------------------------------
// wait_for desugaring

/// `wait_for: w` moved into `ready.log` (an existing `ready.log` wins).
pub open spec fn desugared_pane(p: Pane) -> Pane {
    match p.wait_for {
        None => p,
        Some(w) => Pane {
            wait_for: None,
            ready: Some(
                match p.ready {
                    None => Ready {
                        log: Some(w),
                        health_url: None,
                        ready_field: None,
                        runner_key: None,
                        timeout: None,
                    },
                    Some(r) => match r.log {
                        None => Ready { log: Some(w), ..r },
                        Some(_) => r,
                    },
                },
            ),
            ..p
        },
    }
}

pub open spec fn desugared_opt_pane(p: Option<Pane>) -> Option<Pane> {
    match p {
        None => None,
        Some(p) => Some(desugared_pane(p)),
    }
}

pub open spec fn desugared_scene(s: Scene) -> Scene {
    Scene { left: desugared_opt_pane(s.left), right: desugared_opt_pane(s.right), ..s }
}

pub open spec fn desugared(m: Manifest) -> Seq<Scene> {
    m.scenes@.map_values(|s: Scene| desugared_scene(s))
}

fn desugar_pane(p: Pane) -> (q: Pane)
    ensures
        q == desugared_pane(p),
{
    let Pane { run, ready, wait_for, keys } = p;
    match wait_for {
        None => Pane { run, ready, wait_for: None, keys },
        Some(w) => {
            let r = match ready {
                None => Ready {
                    log: Some(w),
                    health_url: None,
                    ready_field: None,
                    runner_key: None,
                    timeout: None,
                },
                Some(r) => {
                    let Ready { log, health_url, ready_field, runner_key, timeout } = r;
                    match log {
                        None => Ready { log: Some(w), health_url, ready_field, runner_key, timeout },
                        Some(l) => Ready { log: Some(l), health_url, ready_field, runner_key, timeout },
                    }
                },
            };
            Pane { run, ready: Some(r), wait_for: None, keys }
        },
    }
}

fn desugar_opt_pane(p: Option<Pane>) -> (q: Option<Pane>)
    ensures
        q == desugared_opt_pane(p),
{
    match p {
        None => None,
        Some(p) => Some(desugar_pane(p)),
    }
}

fn desugar_scene(s: Scene) -> (t: Scene)
    ensures
        t == desugared_scene(s),
{
    let Scene {
        id,
        title,
        engine,
        layout,
        server,
        left,
        right,
        split_ratio,
        duration,
        caption,
        outputs,
        raw_tape,
        raw_script,
    } = s;
    Scene {
        id,
        title,
        engine,
        layout,
        server,
        left: desugar_opt_pane(left),
        right: desugar_opt_pane(right),
        split_ratio,
        duration,
        caption,
        outputs,
        raw_tape,
        raw_script,
    }
}

// ---------------------------------------------------------------------------
// Validation

/// An `f32` bit pattern of a finite number greater than zero.
pub open spec fn positive_finite(bits: u32) -> bool {
    0 < bits < 0x7f80_0000
}

pub open spec fn render_error(d: Defaults) -> Option<ManifestErrorView> {
    match d.render {
        None => None,
        Some(r) => if r.fps_cap == Some(0u16) {
            Some(ManifestErrorView::FpsCapZero)
        } else if r.font_size == Some(0u16) {
            Some(ManifestErrorView::FontSizeZero)
        } else if r.speed is Some && !positive_finite(r.speed->0.bits) {
            Some(ManifestErrorView::SpeedNotPositive)
        } else {
            None
        },
    }
}

/// `name` is a key of the server registry.
pub open spec fn has_server(servers: Seq<(String, ServerDef)>, name: Seq<char>) -> bool {
    exists|k: int| 0 <= k < servers.len() && (#[trigger] servers[k]).0@ == name
}

/// Some scene before index `i` has the id `id`.
pub open spec fn id_seen_before(scenes: Seq<Scene>, i: int, id: Seq<char>) -> bool {
    exists|j: int| 0 <= j < i && (#[trigger] scenes[j]).id@ == id
}

/// The first check that scene `i` fails, in the order they are made.
pub open spec fn scene_error(
    servers: Seq<(String, ServerDef)>,
    scenes: Seq<Scene>,
    i: int,
) -> Option<ManifestErrorView> {
    let s = scenes[i];
    if s.id@.len() == 0 {
        Some(ManifestErrorView::EmptySceneId)
    } else if id_seen_before(scenes, i, s.id@) {
        Some(ManifestErrorView::DuplicateSceneId(s.id@))
    } else if scene_is_raw(s) && scene_is_declarative(s) {
        Some(ManifestErrorView::BothDeclarativeAndRaw(s.id@))
    } else if s.raw_tape is Some && s.raw_script is Some {
        Some(ManifestErrorView::BothRawHatches(s.id@))
    } else if !scene_is_raw(s) && s.right is None {
        Some(ManifestErrorView::MissingRightPane(s.id@))
    } else if s.server is Some && !has_server(servers, s.server->0@) {
        Some(ManifestErrorView::UnknownServer { scene: s.id@, server: s.server->0@ })
    } else {
        None
    }
}

/// The first failure among the first `n` scenes.
pub open spec fn scenes_error(
    servers: Seq<(String, ServerDef)>,
    scenes: Seq<Scene>,
    n: nat,
) -> Option<ManifestErrorView>
    decreases n,
{
    if n == 0 {
        None
    } else {
        match scenes_error(servers, scenes, (n - 1) as nat) {
            Some(e) => Some(e),
            None => scene_error(servers, scenes, n - 1),
        }
    }
}

/// `a` sorts before `b` as `String`s do: lexicographically by character
/// (code-point order, which is the order of their UTF-8 bytes).
pub open spec fn name_lt(a: Seq<char>, b: Seq<char>) -> bool
    decreases a.len(),
{
    if b.len() == 0 {
        false
    } else if a.len() == 0 {
        true
    } else if (a[0] as u32) < (b[0] as u32) {
        true
    } else if a[0] == b[0] {
        name_lt(a.skip(1), b.skip(1))
    } else {
        false
    }
}

/// The first of the first `n` registry entries whose name does not sort
/// strictly after the name before it.
pub open spec fn servers_error(servers: Seq<(String, ServerDef)>, n: nat) -> Option<ManifestErrorView>
    decreases n,
{
    if n <= 1 {
        None
    } else {
        match servers_error(servers, (n - 1) as nat) {
            Some(e) => Some(e),
            None => if name_lt(servers[n - 2].0@, servers[n - 1].0@) {
                None
            } else {
                Some(ManifestErrorView::ServerOutOfOrder(servers[n - 1].0@))
            },
        }
    }
}

/// The refusal of a manifest made of these parts, if any: render defaults
/// first, then the server registry, then the scenes in order.
pub open spec fn parts_error(
    defaults: Defaults,
    servers: Seq<(String, ServerDef)>,
    scenes: Seq<Scene>,
) -> Option<ManifestErrorView> {
    match render_error(defaults) {
        Some(e) => Some(e),
        None => match servers_error(servers, servers.len()) {
            Some(e) => Some(e),
            None => scenes_error(servers, scenes, scenes.len()),
        },
    }
}

/// Whether `a` sorts before `b` (see `name_lt`).
pub fn name_less(a: &str, b: &str) -> (r: bool)
    ensures
        r == name_lt(a@, b@),
{
    let ca = chars_of(a);
    let cb = chars_of(b);
    let mut i: usize = 0;
    assert(ca@.skip(0) =~= ca@);
    assert(cb@.skip(0) =~= cb@);
    while i < ca.len() && i < cb.len()
        invariant
            ca@ == a@,
            cb@ == b@,
            i <= ca.len(),
            i <= cb.len(),
            name_lt(ca@, cb@) == name_lt(ca@.skip(i as int), cb@.skip(i as int)),
        decreases ca.len() - i,
    {
        let x = ca[i] as u32;
        let y = cb[i] as u32;
        proof {
            assert(ca@.skip(i as int)[0] == ca@[i as int]);
            assert(cb@.skip(i as int)[0] == cb@[i as int]);
            assert(ca@.skip(i as int).skip(1) =~= ca@.skip(i + 1));
            assert(cb@.skip(i as int).skip(1) =~= cb@.skip(i + 1));
        }
        if x < y {
            return true;
        }
        if ca[i] != cb[i] {
            return false;
        }
        proof {
            let sa = ca@.skip(i as int);
            let sb = cb@.skip(i as int);
            assert(sa[0] == sb[0]);
            assert(name_lt(sa, sb) == name_lt(sa.skip(1), sb.skip(1)));
        }
        i = i + 1;
    }
    assert(ca@.skip(i as int).len() == ca@.len() - i);
    assert(cb@.skip(i as int).len() == cb@.len() - i);
    i < cb.len()
}

proof fn lemma_name_lt_irreflexive(a: Seq<char>)
    ensures
        !name_lt(a, a),
    decreases a.len(),
{
    if a.len() > 0 {
        lemma_name_lt_irreflexive(a.skip(1));
    }
}

proof fn lemma_name_lt_transitive(a: Seq<char>, b: Seq<char>, c: Seq<char>)
    requires
        name_lt(a, b),
        name_lt(b, c),
    ensures
        name_lt(a, c),
    decreases a.len(),
{
    if a.len() > 0 && a[0] == b[0] && b[0] == c[0] {
        lemma_name_lt_transitive(a.skip(1), b.skip(1), c.skip(1));
    }
}

/// Registry names that sort strictly one after the next sort strictly
/// pairwise, so each name occurs once.
proof fn lemma_servers_sorted(servers: Seq<(String, ServerDef)>, n: nat)
    requires
        n <= servers.len(),
        servers_error(servers, n) is None,
    ensures
        forall|i: int, j: int| 0 <= i < j < n ==> name_lt(#[trigger] servers[i].0@, #[trigger] servers[j].0@),
    decreases n,
{
    if n > 1 {
        lemma_servers_sorted(servers, (n - 1) as nat);
        assert forall|i: int, j: int| 0 <= i < j < n implies name_lt(#[trigger] servers[i].0@, #[trigger] servers[j].0@) by {
            if j == n - 1 && i < n - 2 {
                lemma_name_lt_transitive(servers[i].0@, servers[n - 2].0@, servers[j].0@);
            }
        }
    }
}

proof fn lemma_sorted_servers_no_error(servers: Seq<(String, ServerDef)>, n: nat)
    requires
        n <= servers.len(),
        forall|i: int, j: int| 0 <= i < j < servers.len() ==> name_lt(#[trigger] servers[i].0@, #[trigger] servers[j].0@),
    ensures
        servers_error(servers, n) is None,
    decreases n,
{
    if n > 1 {
        lemma_sorted_servers_no_error(servers, (n - 1) as nat);
        assert(name_lt(servers[n - 2].0@, servers[n - 1].0@));
    }
}

proof fn lemma_servers_error_sticks(servers: Seq<(String, ServerDef)>, a: nat, b: nat)
    requires
        a <= b,
        servers_error(servers, a) is Some,
    ensures
        servers_error(servers, b) == servers_error(servers, a),
    decreases b - a,
{
    if a < b {
        lemma_servers_error_sticks(servers, a, (b - 1) as nat);
    }
}

/// The refusal of the manifest, if any.
pub open spec fn manifest_error(m: Manifest) -> Option<ManifestErrorView> {
    parts_error(m.defaults, m.servers@, m.scenes@)
}

/// A manifest that passes validation.
pub open spec fn manifest_valid(m: Manifest) -> bool {
    manifest_error(m) is None
}

fn has_server_named(servers: &Vec<(String, ServerDef)>, name: &String) -> (b: bool)
    ensures
        b == has_server(servers@, name@),
{
    let mut k: usize = 0;
    while k < servers.len()
        invariant
            k <= servers.len(),
            forall|j: int| 0 <= j < k ==> (#[trigger] servers@[j]).0@ != name@,
        decreases servers.len() - k,
    {
        if servers[k].0 == *name {
            assert(servers@[k as int].0@ == name@);
            return true;
        }
        k = k + 1;
    }
    false
}

fn id_seen(scenes: &Vec<Scene>, i: usize) -> (b: bool)
    requires
        i < scenes.len(),
    ensures
        b == id_seen_before(scenes@, i as int, scenes@[i as int].id@),
{
    let mut j: usize = 0;
    while j < i
        invariant
            i < scenes.len(),
            j <= i,
            forall|k: int| 0 <= k < j ==> (#[trigger] scenes@[k]).id@ != scenes@[i as int].id@,
        decreases i - j,
    {
        if scenes[j].id == scenes[i].id {
            assert(scenes@[j as int].id@ == scenes@[i as int].id@);
            return true;
        }
        j = j + 1;
    }
    false
}

impl Manifest {
    fn render_check(&self) -> (r: Result<(), ManifestError>)
        ensures
            match r {
                Ok(()) => render_error(self.defaults) is None,
                Err(e) => render_error(self.defaults) == Some(e@),
            },
    {
        match &self.defaults.render {
            None => Ok(()),
            Some(r) => {
                if r.fps_cap == Some(0u16) {
                    return Err(ManifestError::FpsCapZero);
                }
                if r.font_size == Some(0u16) {
                    return Err(ManifestError::FontSizeZero);
                }
                match &r.speed {
                    Some(s) => {
                        if !(0 < s.bits && s.bits < 0x7f80_0000) {
                            return Err(ManifestError::SpeedNotPositive);
                        }
                    },
                    None => {},
                }
                Ok(())
            },
        }
    }

    fn scene_check(&self, i: usize) -> (r: Result<(), ManifestError>)
        requires
            i < self.scenes.len(),
        ensures
            match r {
                Ok(()) => scene_error(self.servers@, self.scenes@, i as int) is None,
                Err(e) => scene_error(self.servers@, self.scenes@, i as int) == Some(e@),
            },
    {
        let s = &self.scenes[i];
        if s.id.as_str().is_empty() {
            return Err(ManifestError::EmptySceneId);
        }
        if id_seen(&self.scenes, i) {
            return Err(ManifestError::DuplicateSceneId(s.id.clone()));
        }
        let declarative = s.left.is_some() || s.right.is_some();
        if s.is_raw() && declarative {
            return Err(ManifestError::BothDeclarativeAndRaw(s.id.clone()));
        }
        if s.raw_tape.is_some() && s.raw_script.is_some() {
            return Err(ManifestError::BothRawHatches(s.id.clone()));
        }
        if !s.is_raw() && s.right.is_none() {
            return Err(ManifestError::MissingRightPane(s.id.clone()));
        }
        match &s.server {
            Some(srv) => {
                if !has_server_named(&self.servers, srv) {
                    return Err(
                        ManifestError::UnknownServer { scene: s.id.clone(), server: srv.clone() },
                    );
                }
            },
            None => {},
        }
        Ok(())
    }

    fn servers_check(&self) -> (r: Result<(), ManifestError>)
        ensures
            match r {
                Ok(()) => servers_error(self.servers@, self.servers@.len()) is None,
                Err(e) => servers_error(self.servers@, self.servers@.len()) == Some(e@),
            },
    {
        let mut k: usize = 1;
        while k < self.servers.len()
            invariant
                1 <= k,
                k <= self.servers.len() || self.servers.len() == 0,
                servers_error(self.servers@, k as nat) is None,
            decreases self.servers.len() - k,
        {
            if !name_less(self.servers[k - 1].0.as_str(), self.servers[k].0.as_str()) {
                proof {
                    lemma_servers_error_sticks(self.servers@, (k + 1) as nat, self.servers@.len());
                }
                return Err(ManifestError::ServerOutOfOrder(self.servers[k].0.clone()));
            }
            k = k + 1;
        }
        Ok(())
    }

    /// Check the manifest; the error is the first failing check.
    pub fn validate(&self) -> (r: Result<(), ManifestError>)
        ensures
            match r {
                Ok(()) => manifest_valid(*self),
                Err(e) => manifest_error(*self) == Some(e@),
            },
    {
        self.render_check()?;
        self.servers_check()?;
        let mut i: usize = 0;
        while i < self.scenes.len()
            invariant
                i <= self.scenes.len(),
                render_error(self.defaults) is None,
                servers_error(self.servers@, self.servers@.len()) is None,
                scenes_error(self.servers@, self.scenes@, i as nat) is None,
            decreases self.scenes.len() - i,
        {
            let r = self.scene_check(i);
            match r {
                Ok(()) => {},
                Err(e) => {
                    assert(scenes_error(self.servers@, self.scenes@, (i + 1) as nat) == Some(e@));
                    proof {
                        lemma_scenes_error_sticks(
                            self.servers@,
                            self.scenes@,
                            (i + 1) as nat,
                            self.scenes@.len(),
                        );
                    }
                    return Err(e);
                },
            }
            i = i + 1;
        }
        Ok(())
    }

    /// Desugar `wait_for` into `ready.log` on every pane, then validate.
    pub fn from_parsed(parsed: Manifest) -> (r: Result<Manifest, ManifestError>)
        ensures
            match r {
                Ok(m) => {
                    &&& m.scenes@ == desugared(parsed)
                    &&& m.project == parsed.project
                    &&& m.theme == parsed.theme
                    &&& m.defaults == parsed.defaults
                    &&& m.servers == parsed.servers
                    &&& manifest_valid(m)
                },
                Err(e) => parts_error(parsed.defaults, parsed.servers@, desugared(parsed)) == Some(
                    e@,
                ),
            },
    {
        let Manifest { project, theme, defaults, servers, scenes } = parsed;
        let ghost orig = scenes@;
        let mut rest = scenes;
        let mut out: Vec<Scene> = Vec::new();
        while rest.len() > 0
            invariant
                out@.len() + rest@.len() == orig.len(),
                rest@ == orig.subrange(out@.len() as int, orig.len() as int),
                out@ == orig.subrange(0, out@.len() as int).map_values(
                    |s: Scene| desugared_scene(s),
                ),
            decreases rest@.len(),
        {
            let s = rest.remove(0);
            let ghost k = out@.len();
            out.push(desugar_scene(s));
            assert(orig.subrange(0, (k + 1) as int).map_values(|s: Scene| desugared_scene(s))
                =~= orig.subrange(0, k as int).map_values(|s: Scene| desugared_scene(s)).push(
                desugared_scene(orig[k as int]),
            ));
            assert(rest@ =~= orig.subrange((k + 1) as int, orig.len() as int));
        }
        assert(orig.subrange(0, orig.len() as int) =~= orig);
        let m = Manifest { project, theme, defaults, servers, scenes: out };
        assert(m.scenes@ =~= desugared(parsed));
        m.validate()?;
        Ok(m)
    }
}

// ---------------------------------------------------------------------------
// Lookup

/// The index of the first scene at or after `i` whose id is `id`.
pub open spec fn scene_index_from(scenes: Seq<Scene>, id: Seq<char>, i: nat) -> Option<nat>
    decreases scenes.len() - i,
{
    if i >= scenes.len() {
        None
    } else if scenes[i as int].id@ == id {
        Some(i)
    } else {
        scene_index_from(scenes, id, i + 1)
    }
}

/// What `scene_index_from` finds is a scene with that id, at or after `i`.
pub proof fn lemma_scene_index_found(scenes: Seq<Scene>, id: Seq<char>, i: nat)
    ensures
        scene_index_from(scenes, id, i) matches Some(j) ==> i <= j < scenes.len() && scenes[j as int].id@ == id,
    decreases scenes.len() - i,
{
    if i < scenes.len() && scenes[i as int].id@ != id {
        lemma_scene_index_found(scenes, id, i + 1);
    }
}

/// The index of the first scene whose id is `id`.
pub open spec fn scene_index(scenes: Seq<Scene>, id: Seq<char>) -> Option<nat> {
    scene_index_from(scenes, id, 0)
}

/// Two strings hold the same characters.
pub fn str_equal(a: &str, b: &str) -> (r: bool)
    ensures
        r == (a@ == b@),
{
    String::from_str(a) == String::from_str(b)
}

impl Manifest {
    /// The first scene with this id.
    pub fn scene(&self, id: &str) -> (r: Option<&Scene>)
        ensures
            match scene_index(self.scenes@, id@) {
                Some(i) => r == Some(&self.scenes@[i as int]),
                None => r is None,
            },
    {
        let mut i: usize = 0;
        while i < self.scenes.len()
            invariant
                i <= self.scenes.len(),
                scene_index(self.scenes@, id@) == scene_index_from(self.scenes@, id@, i as nat),
            decreases self.scenes.len() - i,
        {
            if str_equal(self.scenes[i].id.as_str(), id) {
                return Some(&self.scenes[i]);
            }
            i = i + 1;
        }
        None
    }
}

/// A selection named a scene the manifest does not have.
#[derive(Debug)]
pub struct UnknownScene {
    pub id: String,
    /// The ids the manifest does have.
    pub valid: Vec<String>,
}

impl UnknownScene {
    pub fn message(&self) -> (r: String)
        ensures
            r@ == "unknown scene `"@ + self.id@ + "`; valid: "@ + join(views(self.valid@), ", "@),
    {
        String::from_str("unknown scene `").concat(self.id.as_str()).concat("`; valid: ").concat(
            join_strings(&self.valid, ", ").as_str(),
        )
    }
}

/// The ids of the scenes, in order.
pub open spec fn scene_ids_of(scenes: Seq<Scene>) -> Seq<Seq<char>> {
    scenes.map_values(|s: Scene| s.id@)
}

/// The first of `ids[..n]` that names no scene.
pub open spec fn first_unknown(scenes: Seq<Scene>, ids: Seq<String>, n: nat) -> Option<nat>
    decreases n,
{
    if n == 0 {
        None
    } else {
        match first_unknown(scenes, ids, (n - 1) as nat) {
            Some(i) => Some(i),
            None => if scene_index(scenes, ids[n - 1]@) is None {
                Some((n - 1) as nat)
            } else {
                None
            },
        }
    }
}

impl Manifest {
    /// The scene ids, in manifest order.
    pub fn scene_ids(&self) -> (r: Vec<String>)
        ensures
            views(r@) == scene_ids_of(self.scenes@),
    {
        let mut r: Vec<String> = Vec::new();
        let mut i: usize = 0;
        while i < self.scenes.len()
            invariant
                i <= self.scenes.len(),
                views(r@) == scene_ids_of(self.scenes@).subrange(0, i as int),
            decreases self.scenes.len() - i,
        {
            let ghost before = r@;
            let id = self.scenes[i].id.clone();
            r.push(id);
            assert(views(r@) =~= views(before).push(self.scenes@[i as int].id@));
            assert(views(r@) =~= scene_ids_of(self.scenes@).subrange(0, i + 1));
            i = i + 1;
        }
        assert(scene_ids_of(self.scenes@).subrange(0, self.scenes@.len() as int) =~= scene_ids_of(
            self.scenes@,
        ));
        r
    }

    /// The scene with this id, or the refusal naming the valid ids.
    pub fn require_scene(&self, id: &str) -> (r: Result<&Scene, UnknownScene>)
        ensures
            match r {
                Ok(s) => scene_index(self.scenes@, id@) matches Some(i) && *s == self.scenes@[i as int],
                Err(e) => scene_index(self.scenes@, id@) is None && e.id@ == id@ && views(e.valid@)
                    == scene_ids_of(self.scenes@),
            },
    {
        match self.scene(id) {
            Some(s) => Ok(s),
            None => Err(UnknownScene { id: String::from_str(id), valid: self.scene_ids() }),
        }
    }

    /// The scene ids to act on: all of them when none are named, else the
    /// named ones as given; refused at the first name without a scene.
    pub fn select_scenes(&self, ids: Option<Vec<String>>) -> (r: Result<Vec<String>, UnknownScene>)
        ensures
            match ids {
                None => r matches Ok(v) && views(v@) == scene_ids_of(self.scenes@),
                Some(v) => match first_unknown(self.scenes@, v@, v@.len()) {
                    None => r matches Ok(w) && w@ == v@,
                    Some(i) => r matches Err(e) && e.id@ == v@[i as int]@ && views(e.valid@)
                        == scene_ids_of(self.scenes@),
                },
            },
    {
        match ids {
            None => Ok(self.scene_ids()),
            Some(v) => {
                let mut i: usize = 0;
                while i < v.len()
                    invariant
                        i <= v.len(),
                        ids == Some(v),
                        first_unknown(self.scenes@, v@, i as nat) is None,
                    decreases v.len() - i,
                {
                    if self.scene(v[i].as_str()).is_none() {
                        proof {
                            lemma_first_unknown_sticks(self.scenes@, v@, (i + 1) as nat, v@.len());
                        }
                        return Err(UnknownScene { id: v[i].clone(), valid: self.scene_ids() });
                    }
                    i = i + 1;
                }
                Ok(v)
            },
        }
    }
}

proof fn lemma_first_unknown_sticks(scenes: Seq<Scene>, ids: Seq<String>, a: nat, b: nat)
    requires
        a <= b,
        first_unknown(scenes, ids, a) is Some,
    ensures
        first_unknown(scenes, ids, b) == first_unknown(scenes, ids, a),
    decreases b - a,
{
    if a < b {
        lemma_first_unknown_sticks(scenes, ids, a, (b - 1) as nat);
    }
}

/// The lowercase name of an engine.
pub fn engine_name(e: Engine) -> (r: &'static str)
    ensures
        e == Engine::Auto ==> r@ == "auto"@,
        e == Engine::Vhs ==> r@ == "vhs"@,
        e == Engine::Asciinema ==> r@ == "asciinema"@,
{
    match e {
        Engine::Auto => "auto",
        Engine::Vhs => "vhs",
        Engine::Asciinema => "asciinema",
    }
}

proof fn lemma_scenes_error_none_upto(
    servers: Seq<(String, ServerDef)>,
    scenes: Seq<Scene>,
    n: nat,
    i: int,
)
    requires
        0 <= i < n,
        scenes_error(servers, scenes, n) is None,
    ensures
        scene_error(servers, scenes, i) is None,
    decreases n,
{
    if i < n - 1 {
        lemma_scenes_error_none_upto(servers, scenes, (n - 1) as nat, i);
    }
}

/// The rules one scene of a manifest must meet: a non-empty id that no other
/// scene has; either panes or exactly one raw hatch (never both kinds, never
/// two hatches), and a right pane when it is not raw; only registry servers.
pub open spec fn scene_rules(m: Manifest, i: int) -> bool {
    let s = m.scenes@[i];
    &&& s.id@.len() > 0
    &&& forall|j: int| 0 <= j < m.scenes@.len() && j != i ==> (#[trigger] m.scenes@[j]).id@ != s.id@
    &&& !(s.raw_tape is Some && s.raw_script is Some)
    &&& if scene_is_raw(s) {
        !scene_is_declarative(s)
    } else {
        s.right is Some
    }
    &&& s.server is Some ==> has_server(m.servers@, s.server->0@)
}

/// The rules a whole manifest must meet: usable render defaults (a frame
/// cap and font size of at least 1, a positive finite speed), a server
/// registry whose names sort strictly (each name once, in name order), and
/// every scene meeting its rules.
pub open spec fn manifest_rules(m: Manifest) -> bool {
    &&& match m.defaults.render {
        None => true,
        Some(r) => {
            &&& r.fps_cap != Some(0u16)
            &&& r.font_size != Some(0u16)
            &&& r.speed matches Some(v) ==> positive_finite(v.bits)
        },
    }
    &&& forall|i: int, j: int|
        0 <= i < j < m.servers@.len() ==> name_lt(#[trigger] m.servers@[i].0@, #[trigger] m.servers@[j].0@)
    &&& forall|i: int| 0 <= i < m.scenes@.len() ==> #[trigger] scene_rules(m, i)
}

proof fn lemma_rules_no_scene_error(m: Manifest, n: nat)
    requires
        n <= m.scenes@.len(),
        forall|i: int| 0 <= i < m.scenes@.len() ==> #[trigger] scene_rules(m, i),
    ensures
        scenes_error(m.servers@, m.scenes@, n) is None,
    decreases n,
{
    if n > 0 {
        lemma_rules_no_scene_error(m, (n - 1) as nat);
        let i = n - 1;
        assert(scene_rules(m, i));
        if id_seen_before(m.scenes@, i, m.scenes@[i].id@) {
            let j = choose|j: int| 0 <= j < i && (#[trigger] m.scenes@[j]).id@ == m.scenes@[i].id@;
            assert(m.scenes@[j].id@ != m.scenes@[i].id@);
        }
    }
}

/// Validation accepts exactly the manifests that meet every rule: one that
/// passed has usable render defaults and only scenes with a non-empty id of
/// their own, panes or exactly one raw hatch, a right pane when not raw, and
/// registry servers; and one that meets all of that passes.
pub proof fn law_valid_manifest(m: Manifest)
    ensures
        manifest_valid(m) <==> manifest_rules(m),
        manifest_valid(m) ==> forall|i: int, j: int|
            0 <= i < j < m.servers@.len() ==> (#[trigger] m.servers@[i]).0@ != (#[trigger] m.servers@[j]).0@,
{
    if manifest_valid(m) {
        lemma_servers_sorted(m.servers@, m.servers@.len());
        assert forall|i: int, j: int|
            0 <= i < j < m.servers@.len() implies (#[trigger] m.servers@[i]).0@ != (#[trigger] m.servers@[j]).0@ by {
            lemma_name_lt_irreflexive(m.servers@[i].0@);
        }
        assert forall|i: int| 0 <= i < m.scenes@.len() implies #[trigger] scene_rules(m, i) by {
            lemma_scenes_error_none_upto(m.servers@, m.scenes@, m.scenes@.len(), i);
            assert forall|j: int| 0 <= j < m.scenes@.len() && j != i implies (#[trigger] m.scenes@[j]).id@
                != m.scenes@[i].id@ by {
                if j < i {
                    if m.scenes@[j].id@ == m.scenes@[i].id@ {
                        assert(id_seen_before(m.scenes@, i, m.scenes@[i].id@));
                    }
                } else {
                    lemma_scenes_error_none_upto(m.servers@, m.scenes@, m.scenes@.len(), j);
                    if m.scenes@[j].id@ == m.scenes@[i].id@ {
                        assert(id_seen_before(m.scenes@, j, m.scenes@[j].id@));
                    }
                }
            }
        }
    }
    if manifest_rules(m) {
        lemma_sorted_servers_no_error(m.servers@, m.servers@.len());
        lemma_rules_no_scene_error(m, m.scenes@.len());
    }
}

/// `wait_for` is sugar: after desugaring no pane has it, and a pane that had
/// `wait_for: w` gates on `ready.log == w` unless it already had a log pattern.
pub proof fn law_wait_for_is_ready_log(p: Pane)
    ensures
        desugared_pane(p).wait_for is None,
        desugared_pane(p).run == p.run,
        p.wait_for matches Some(w) ==> desugared_pane(p).ready matches Some(r) && r.log == Some(
            match p.ready {
                Some(r0) => match r0.log {
                    Some(l) => l,
                    None => w,
                },
                None => w,
            },
        ),
{
}

proof fn lemma_scenes_error_sticks(
    servers: Seq<(String, ServerDef)>,
    scenes: Seq<Scene>,
    a: nat,
    b: nat,
)
    requires
        a <= b,
        scenes_error(servers, scenes, a) is Some,
    ensures
        scenes_error(servers, scenes, b) == scenes_error(servers, scenes, a),
    decreases b - a,
{
    if a < b {
        lemma_scenes_error_sticks(servers, scenes, a, (b - 1) as nat);
    }
}

} // verus!
