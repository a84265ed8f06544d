//! The injected module's configuration and the byte patches it derives from it.

use vstd::prelude::*;

use crate::engine::native::layout::read_bytes;
use crate::memory::LuminousGame;
use crate::text::chars_equal;
use crate::text::chars_of;

verus! {

/// The value that a `bool` option defaults to.
pub fn default_bool<const V: bool>() -> (r: bool)
    ensures
        r == V,
{
    V
}

/// The default log level.
pub fn default_log_level() -> (r: String)
    ensures
        r@ == "debug"@,
{
    String::from_str("debug")
}

/// How the game's detection of wine, dxvk or the SteamDeck is patched.
#[derive(Debug, Clone, Copy, PartialEq, Eq, Structural)]
pub enum WinePatchMode {
    /// Decided from the `SteamOS` and `SteamDeck` environment variables.
    Auto,
    /// The detection is left alone.
    Disable,
    /// The detection is patched so that it fails.
    Enable,
    /// The detection is patched so that it succeeds.
    Force,
}

impl Default for WinePatchMode {
    fn default() -> (r: WinePatchMode)
        ensures
            r == WinePatchMode::Auto,
    {
        WinePatchMode::Auto
    }
}

/// `true` is `Enable`, `false` is `Disable`.
pub open spec fn spec_mode_from_bool(value: bool) -> WinePatchMode {
    if value {
        WinePatchMode::Enable
    } else {
        WinePatchMode::Disable
    }
}

impl From<bool> for WinePatchMode {
    fn from(value: bool) -> (r: WinePatchMode) {
        match value {
            true => WinePatchMode::Enable,
            false => WinePatchMode::Disable,
        }
    }
}

impl vstd::std_specs::convert::FromSpecImpl<bool> for WinePatchMode {
    open spec fn obeys_from_spec() -> bool {
        true
    }

    open spec fn from_spec(v: bool) -> WinePatchMode {
        spec_mode_from_bool(v)
    }
}

/// A mode made from a switch turns back into the same switch.
pub proof fn lemma_wine_patch_mode_round_trip(b: bool)
    ensures
        <bool as vstd::std_specs::convert::FromSpec<WinePatchMode>>::from_spec(
            <WinePatchMode as vstd::std_specs::convert::FromSpec<bool>>::from_spec(b),
        ) == b,
{
}

impl From<WinePatchMode> for bool {
    fn from(value: WinePatchMode) -> (r: bool) {
        !matches!(value, WinePatchMode::Disable)
    }
}

impl vstd::std_specs::convert::FromSpecImpl<WinePatchMode> for bool {
    open spec fn obeys_from_spec() -> bool {
        true
    }

    open spec fn from_spec(v: WinePatchMode) -> bool {
        v != WinePatchMode::Disable
    }
}

/// Which patches the injected module applies.
#[derive(Debug, Clone, Copy, PartialEq, Eq, Structural)]
pub struct Patches {
    pub dll_signature: bool,
    pub anti_debugger: bool,
    pub wine: WinePatchMode,
    pub dxvk: WinePatchMode,
    pub steamdeck: WinePatchMode,
    pub wine_enable_directstorage: bool,
    pub wine_reenable_terrain_shader: bool,
    pub wine_reenable_xess: bool,
    pub wine_reenable_raytracing: bool,
    pub wine_allow_more_threads: bool,
    pub disable_benchmark_results: bool,
}

/// Every patch on, every mode `Auto`.
pub open spec fn spec_default_patches() -> Patches {
    Patches {
        dll_signature: true,
        anti_debugger: true,
        wine: WinePatchMode::Auto,
        dxvk: WinePatchMode::Auto,
        steamdeck: WinePatchMode::Auto,
        wine_enable_directstorage: true,
        wine_reenable_terrain_shader: true,
        wine_reenable_xess: true,
        wine_reenable_raytracing: true,
        wine_allow_more_threads: true,
        disable_benchmark_results: true,
    }
}

impl Default for Patches {
    fn default() -> (r: Patches)
        ensures
            r == spec_default_patches(),
    {
        Patches {
            dll_signature: true,
            anti_debugger: true,
            dxvk: WinePatchMode::Auto,
            wine: WinePatchMode::Auto,
            steamdeck: WinePatchMode::Auto,
            wine_enable_directstorage: true,
            wine_reenable_terrain_shader: true,
            wine_reenable_xess: true,
            wine_reenable_raytracing: true,
            wine_allow_more_threads: true,
            disable_benchmark_results: true,
        }
    }
}

/// The injected module's configuration.
#[derive(Debug, Clone)]
pub struct Config {
    pub enable_hud: bool,
    pub log_level: String,
    pub patches: Patches,
}

impl Default for Config {
    fn default() -> (r: Config)
        ensures
            r.enable_hud,
            r.log_level@ == "debug"@,
            r.patches == spec_default_patches(),
    {
        Config { enable_hud: true, log_level: default_log_level(), patches: Patches::default() }
    }
}

/// The comment placed before the patch table of the configuration file.
pub fn patches_table_comment() -> (r: &'static str)
    ensures
        r@ == "# for wine, dxvk, and steamdeck options the options are:\n# auto = determine based on SteamOS and SteamDeck environment variables\n# disable, enable = disable or enable the patch\n# force = makes the game believe it to be true\n"@,
{
    "# for wine, dxvk, and steamdeck options the options are:\n# auto = determine based on SteamOS and SteamDeck environment variables\n# disable, enable = disable or enable the patch\n# force = makes the game believe it to be true\n"
}

/// The comment written before a key of the patch table, for the keys that have one.
pub open spec fn spec_patch_comment(key: Seq<char>) -> Option<Seq<char>> {
    if key == "dll_signature"@ {
        Some("# dll signature checking, allows for things like ReShade to load\n"@)
    } else if key == "anti_debugger"@ {
        Some("# breaks the anti-debugger loop allowing for debuggers to be attached\n"@)
    } else if key == "wine"@ {
        Some(
            "# controls how the game checks if running under wine\n# note, this crashes when the benchmark results screen\n"@,
        )
    } else if key == "dxvk"@ {
        Some("# controls how the game checks for dxvk 1.0 to disable 1 shader\n"@)
    } else if key == "steamdeck"@ {
        Some("# controls how the game checks if running on a SteamDeck\n"@)
    } else if key == "wine_enable_directstorage"@ {
        Some(
            "# enables the game to use directstorage on wine\n# may crash on wine/proton 8 and earlier versions\n"@,
        )
    } else if key == "wine_reenable_terrain_shader"@ {
        Some("# re-enables a terrain blending shader that is disabled on wine\n"@)
    } else if key == "wine_reenable_xess"@ {
        Some("# re-enables XeSS\n"@)
    } else if key == "wine_reenable_raytracing"@ {
        Some("# re-enables ray tracing (if supported)\n"@)
    } else if key == "wine_allow_more_threads"@ {
        Some("# allows the game to use more than 6 threads\n# this is a steamdeck optimization\n"@)
    } else if key == "disable_benchmark_results"@ {
        Some("# disables writing benchmark results\n# see wine_main_check\n"@)
    } else {
        None
    }
}

/// Whether `key` spells `name`.
fn key_is(key: &Vec<char>, name: &str) -> (r: bool)
    ensures
        r == (key@ == name@),
{
    let n = chars_of(name);
    chars_equal(key.as_slice(), n.as_slice())
}

/// The comment for a key of the patch table, if it has one.
pub fn patch_comment(key: &str) -> (r: Option<&'static str>)
    ensures
        match r {
            Some(c) => spec_patch_comment(key@) == Some(c@),
            None => spec_patch_comment(key@) is None,
        },
{
    let k = chars_of(key);
    if key_is(&k, "dll_signature") {
        Some("# dll signature checking, allows for things like ReShade to load\n")
    } else if key_is(&k, "anti_debugger") {
        Some("# breaks the anti-debugger loop allowing for debuggers to be attached\n")
    } else if key_is(&k, "wine") {
        Some(
            "# controls how the game checks if running under wine\n# note, this crashes when the benchmark results screen\n",
        )
    } else if key_is(&k, "dxvk") {
        Some("# controls how the game checks for dxvk 1.0 to disable 1 shader\n")
    } else if key_is(&k, "steamdeck") {
        Some("# controls how the game checks if running on a SteamDeck\n")
    } else if key_is(&k, "wine_enable_directstorage") {
        Some(
            "# enables the game to use directstorage on wine\n# may crash on wine/proton 8 and earlier versions\n",
        )
    } else if key_is(&k, "wine_reenable_terrain_shader") {
        Some("# re-enables a terrain blending shader that is disabled on wine\n")
    } else if key_is(&k, "wine_reenable_xess") {
        Some("# re-enables XeSS\n")
    } else if key_is(&k, "wine_reenable_raytracing") {
        Some("# re-enables ray tracing (if supported)\n")
    } else if key_is(&k, "wine_allow_more_threads") {
        Some("# allows the game to use more than 6 threads\n# this is a steamdeck optimization\n")
    } else if key_is(&k, "disable_benchmark_results") {
        Some("# disables writing benchmark results\n# see wine_main_check\n")
    } else {
        None
    }
}

/// One byte patch: write `bytes` at `offset` from the module base, after
/// checking that `check` is there when it is given with the same length.
#[derive(Debug, Clone)]
pub struct PatchOp {
    pub offset: u64,
    pub bytes: Vec<u8>,
    pub check: Option<Vec<u8>>,
}

/// A patch as the contracts see it.
pub type PatchView = (u64, Seq<u8>, Option<Seq<u8>>);

impl View for PatchOp {
    type V = PatchView;

    open spec fn view(&self) -> PatchView {
        (
            self.offset,
            self.bytes@,
            match &self.check {
                Some(c) => Some(c@),
                None => None,
            },
        )
    }
}

/// The views of a list of patches.
pub open spec fn patch_views(ops: Seq<PatchOp>) -> Seq<PatchView> {
    ops.map_values(|o: PatchOp| o@)
}

/// `ops` when `c` holds, nothing otherwise.
pub open spec fn when(c: bool, ops: Seq<PatchView>) -> Seq<PatchView> {
    if c {
        ops
    } else {
        seq![]
    }
}

/// The patches after `Auto` modes are decided: the SteamDeck mode from the
/// SteamDeck variable, the wine and dxvk modes from the SteamOS and SteamDeck
/// variables, each `Enable` when the variable is unset and `Disable` when set.
pub open spec fn spec_resolve_patches(p: Patches, is_steamos: bool, is_steamdeck: bool) -> Patches {
    let deck = spec_mode_from_bool(!is_steamdeck);
    let os = spec_mode_from_bool(!(is_steamos || is_steamdeck));
    Patches {
        steamdeck: if p.steamdeck == WinePatchMode::Auto {
            deck
        } else {
            p.steamdeck
        },
        dxvk: if p.dxvk == WinePatchMode::Auto {
            os
        } else {
            p.dxvk
        },
        wine: if p.wine == WinePatchMode::Auto {
            os
        } else {
            p.wine
        },
        ..p
    }
}

/// Forspoken: the patches for the SteamDeck check.
pub open spec fn spec_steamdeck_ops(mode: WinePatchMode) -> Seq<PatchView> {
    let check = seq![0xffu8, 0x90u8, 0x10u8, 0x01u8, 0x00u8, 0x00u8];
    match mode {
        WinePatchMode::Enable => seq![
            (0x3e29034u64, seq![0xb8u8, 0x00u8, 0x00u8, 0x00u8, 0x00u8, 0x90u8], Some(check)),
        ],
        WinePatchMode::Force => seq![
            (0x3e29034u64, seq![0xb8u8, 0x01u8, 0x00u8, 0x00u8, 0x00u8, 0x90u8], Some(check)),
        ],
        _ => seq![],
    }
}

/// Six `nop` bytes.
pub open spec fn nop6() -> Seq<u8> {
    seq![0x90u8, 0x90u8, 0x90u8, 0x90u8, 0x90u8, 0x90u8]
}

/// Forspoken: the patches for the wine check and, when it is left alone, the
/// features that the game turns off under wine.
pub open spec fn spec_wine_ops(p: Patches) -> Seq<PatchView> {
    match p.wine {
        WinePatchMode::Enable => seq![(0x6b9c8b0u64, seq![0x00u8], Some(seq![0x77u8]))],
        WinePatchMode::Force => seq![
            (
                0x3e29059u64,
                seq![0x48u8, 0xc7u8, 0xc0u8, 0x01u8, 0x00u8, 0x00u8, 0x00u8, 0x90u8, 0x90u8],
                Some(seq![0x48u8, 0x8bu8, 0xc8u8, 0xffu8, 0x15u8, 0x0eu8, 0x82u8, 0x28u8, 0x01u8]),
            ),
        ],
        _ => spec_directstorage_ops(p.wine_enable_directstorage) + spec_terrain_ops(
            p.wine_reenable_terrain_shader,
        ) + spec_xess_ops(p.wine_reenable_xess) + spec_raytracing_ops(p.wine_reenable_raytracing)
            + spec_threads_ops(p.wine_allow_more_threads),
    }
}

/// Forspoken: the patches for the dxvk check.
pub open spec fn spec_dxvk_ops(mode: WinePatchMode) -> Seq<PatchView> {
    match mode {
        WinePatchMode::Enable => seq![(0x6d502b0u64, seq![0x00u8], Some(seq![0x57u8]))],
        WinePatchMode::Force => seq![
            (0x6d502b0u64, seq![0xebu8, 0x12u8], Some(seq![0x74u8, 0x19u8])),
        ],
        _ => seq![],
    }
}

/// The patches applied to a game, in order, for the resolved patch settings.
pub open spec fn spec_plan_for(game: LuminousGame, p: Patches) -> Seq<PatchView> {
    match game {
        LuminousGame::FinalFantasyXV => when(
            p.dll_signature,
            seq![
                (0x2ddaaa0u64, seq![0xc3u8], None),
                (0xeeb46e0u64, seq![0xc3u8], None),
                (0xeeb5120u64, seq![0xc3u8], None),
            ],
        ),
        _ => when(p.dll_signature, seq![(0x3e2d9bbu64, seq![0xebu8], Some(seq![0x75u8]))]) + when(
            p.anti_debugger,
            seq![(0x0799bacu64, seq![0xebu8], Some(seq![0x74u8]))],
        ) + spec_steamdeck_ops(p.steamdeck) + spec_wine_ops(p) + spec_dxvk_ops(p.dxvk) + when(
            p.disable_benchmark_results,
            seq![(0x3185590u64, seq![0xc3u8], Some(seq![0x48u8]))],
        ),
    }
}

/// Whether every check among `ops` is as long as the bytes it guards.
pub open spec fn checks_fit(ops: Seq<PatchView>) -> bool {
    forall|i: int|
        0 <= i < ops.len() ==> ((#[trigger] ops[i]).2 matches Some(c) ==> c.len() == ops[i].1.len())
}

proof fn lemma_checks_fit_add(a: Seq<PatchView>, b: Seq<PatchView>)
    requires
        checks_fit(a),
        checks_fit(b),
    ensures
        checks_fit(a + b),
{
    assert forall|i: int| 0 <= i < (a + b).len() implies ((#[trigger] (a + b)[i]).2 matches Some(c)
        ==> c.len() == (a + b)[i].1.len()) by {
        if i < a.len() {
            assert((a + b)[i] == a[i]);
        } else {
            assert((a + b)[i] == b[i - a.len()]);
        }
    }
}

proof fn lemma_checks_fit_one(op: PatchView)
    requires
        op.2 matches Some(c) ==> c.len() == op.1.len(),
    ensures
        checks_fit(seq![op]),
{
    assert(seq![op][0] == op);
}

proof fn lemma_checks_fit_when(c: bool, op: PatchView)
    requires
        op.2 matches Some(k) ==> k.len() == op.1.len(),
    ensures
        checks_fit(when(c, seq![op])),
{
    lemma_checks_fit_one(op);
}

/// Every check that a patch plan gives is as long as the bytes it guards, so
/// each planned check is made before its write.
pub proof fn lemma_planned_checks_fit(game: LuminousGame, p: Patches)
    ensures
        checks_fit(spec_plan_for(game, p)),
{
    match game {
        LuminousGame::FinalFantasyXV => {
            let s = seq![
                (0x2ddaaa0u64, seq![0xc3u8], None::<Seq<u8>>),
                (0xeeb46e0u64, seq![0xc3u8], None::<Seq<u8>>),
                (0xeeb5120u64, seq![0xc3u8], None::<Seq<u8>>),
            ];
            assert(checks_fit(s)) by {
                assert forall|i: int| 0 <= i < s.len() implies ((#[trigger] s[i]).2 matches Some(c)
                    ==> c.len() == s[i].1.len()) by {
                    assert(s[i].2 is None);
                }
            }
        },
        _ => {
            lemma_checks_fit_when(p.dll_signature, (0x3e2d9bbu64, seq![0xebu8], Some(seq![0x75u8])));
            lemma_checks_fit_when(p.anti_debugger, (0x0799bacu64, seq![0xebu8], Some(seq![0x74u8])));
            lemma_checks_fit_when(
                p.disable_benchmark_results,
                (0x3185590u64, seq![0xc3u8], Some(seq![0x48u8])),
            );
            let check = seq![0xffu8, 0x90u8, 0x10u8, 0x01u8, 0x00u8, 0x00u8];
            lemma_checks_fit_one(
                (0x3e29034u64, seq![0xb8u8, 0x00u8, 0x00u8, 0x00u8, 0x00u8, 0x90u8], Some(check)),
            );
            lemma_checks_fit_one(
                (0x3e29034u64, seq![0xb8u8, 0x01u8, 0x00u8, 0x00u8, 0x00u8, 0x90u8], Some(check)),
            );
            assert(checks_fit(spec_steamdeck_ops(p.steamdeck)));
            lemma_wine_checks_fit(p);
            lemma_checks_fit_one((0x6d502b0u64, seq![0x00u8], Some(seq![0x57u8])));
            lemma_checks_fit_one((0x6d502b0u64, seq![0xebu8, 0x12u8], Some(seq![0x74u8, 0x19u8])));
            assert(checks_fit(spec_dxvk_ops(p.dxvk)));
            let a = when(p.dll_signature, seq![(0x3e2d9bbu64, seq![0xebu8], Some(seq![0x75u8]))]);
            let b = when(p.anti_debugger, seq![(0x0799bacu64, seq![0xebu8], Some(seq![0x74u8]))]);
            lemma_checks_fit_add(a, b);
            lemma_checks_fit_add(a + b, spec_steamdeck_ops(p.steamdeck));
            lemma_checks_fit_add(a + b + spec_steamdeck_ops(p.steamdeck), spec_wine_ops(p));
            lemma_checks_fit_add(
                a + b + spec_steamdeck_ops(p.steamdeck) + spec_wine_ops(p),
                spec_dxvk_ops(p.dxvk),
            );
            lemma_checks_fit_add(
                a + b + spec_steamdeck_ops(p.steamdeck) + spec_wine_ops(p) + spec_dxvk_ops(p.dxvk),
                when(p.disable_benchmark_results, seq![(0x3185590u64, seq![0xc3u8], Some(seq![0x48u8]))]),
            );
        },
    }
}

proof fn lemma_wine_checks_fit(p: Patches)
    ensures
        checks_fit(spec_wine_ops(p)),
{
    lemma_checks_fit_one((0x6b9c8b0u64, seq![0x00u8], Some(seq![0x77u8])));
    lemma_checks_fit_one(
        (
            0x3e29059u64,
            seq![0x48u8, 0xc7u8, 0xc0u8, 0x01u8, 0x00u8, 0x00u8, 0x00u8, 0x90u8, 0x90u8],
            Some(seq![0x48u8, 0x8bu8, 0xc8u8, 0xffu8, 0x15u8, 0x0eu8, 0x82u8, 0x28u8, 0x01u8]),
        ),
    );
    let ds = spec_directstorage_ops(p.wine_enable_directstorage);
    let tr = spec_terrain_ops(p.wine_reenable_terrain_shader);
    let xe = spec_xess_ops(p.wine_reenable_xess);
    let rt = spec_raytracing_ops(p.wine_reenable_raytracing);
    let th = spec_threads_ops(p.wine_allow_more_threads);
    assert(checks_fit(ds)) by {
        assert forall|i: int| 0 <= i < ds.len() implies ((#[trigger] ds[i]).2 matches Some(c) ==> c.len()
            == ds[i].1.len()) by {}
    }
    assert(checks_fit(tr)) by {
        assert forall|i: int| 0 <= i < tr.len() implies ((#[trigger] tr[i]).2 matches Some(c) ==> c.len()
            == tr[i].1.len()) by {}
    }
    assert(checks_fit(xe)) by {
        assert forall|i: int| 0 <= i < xe.len() implies ((#[trigger] xe[i]).2 matches Some(c) ==> c.len()
            == xe[i].1.len()) by {}
    }
    assert(checks_fit(rt)) by {
        assert forall|i: int| 0 <= i < rt.len() implies ((#[trigger] rt[i]).2 matches Some(c) ==> c.len()
            == rt[i].1.len()) by {}
    }
    assert(checks_fit(th)) by {
        assert forall|i: int| 0 <= i < th.len() implies ((#[trigger] th[i]).2 matches Some(c) ==> c.len()
            == th[i].1.len()) by {}
    }
    lemma_checks_fit_add(ds, tr);
    lemma_checks_fit_add(ds + tr, xe);
    lemma_checks_fit_add(ds + tr + xe, rt);
    lemma_checks_fit_add(ds + tr + xe + rt, th);
}

/// Appends one patch.
fn push_op(ops: &mut Vec<PatchOp>, offset: u64, bytes: &[u8], check: Option<&[u8]>)
    ensures
        patch_views(final(ops)@) == patch_views(old(ops)@).push(
            (
                offset,
                bytes@,
                match check {
                    Some(c) => Some(c@),
                    None => None,
                },
            ),
        ),
{
    let b = read_bytes(bytes, 0, bytes.len());
    assert(bytes@.subrange(0, bytes@.len() as int) =~= bytes@);
    let c = match check {
        Some(c) => {
            let v = read_bytes(c, 0, c.len());
            assert(c@.subrange(0, c@.len() as int) =~= c@);
            Some(v)
        },
        None => None,
    };
    ops.push(PatchOp { offset, bytes: b, check: c });
    assert(patch_views(ops@) =~= patch_views(old(ops)@).push(ops@.last()@));
}

/// Decides the `Auto` modes of `patches` from whether the `SteamOS` and
/// `SteamDeck` environment variables are set to `1`.
pub fn resolve_patches(patches: Patches, is_steamos: bool, is_steamdeck: bool) -> (r: Patches)
    ensures
        r == spec_resolve_patches(patches, is_steamos, is_steamdeck),
{
    let steamos_mode: WinePatchMode = WinePatchMode::from(!(is_steamos || is_steamdeck));
    let steamdeck_mode: WinePatchMode = WinePatchMode::from(!is_steamdeck);
    let mut p = patches;
    if p.steamdeck == WinePatchMode::Auto {
        p.steamdeck = steamdeck_mode;
    }
    if p.dxvk == WinePatchMode::Auto {
        p.dxvk = steamos_mode;
    }
    if p.wine == WinePatchMode::Auto {
        p.wine = steamos_mode;
    }
    p
}

/// Appends the patches for the SteamDeck check.
fn push_steamdeck_ops(ops: &mut Vec<PatchOp>, mode: WinePatchMode)
    ensures
        patch_views(final(ops)@) =~~= patch_views(old(ops)@) + spec_steamdeck_ops(mode),
{
    match mode {
        WinePatchMode::Enable => {
            push_op(
                ops,
                0x3e29034,
                &[0xb8, 0x00, 0x00, 0x00, 0x00, 0x90],
                Some(&[0xff, 0x90, 0x10, 0x01, 0x00, 0x00]),
            );
        },
        WinePatchMode::Force => {
            push_op(
                ops,
                0x3e29034,
                &[0xb8, 0x01, 0x00, 0x00, 0x00, 0x90],
                Some(&[0xff, 0x90, 0x10, 0x01, 0x00, 0x00]),
            );
        },
        _ => {},
    }
}

/// Wine feature patch: direct storage.
pub open spec fn spec_directstorage_ops(c: bool) -> Seq<PatchView> {
    when(c, seq![(0x4705a5bu64, seq![0x90u8, 0x90u8], Some(seq![0x75u8, 0x21u8]))])
}

/// Wine feature patch: terrain blending shader.
pub open spec fn spec_terrain_ops(c: bool) -> Seq<PatchView> {
    when(
        c,
        seq![(0x4299712u64, nop6(), Some(seq![0x0fu8, 0x85u8, 0xfdu8, 0x2du8, 0x00u8, 0x00u8]))],
    )
}

/// Wine feature patches: XeSS.
pub open spec fn spec_xess_ops(c: bool) -> Seq<PatchView> {
    when(
        c,
        seq![
            (0x43ff1a3u64, nop6(), Some(seq![0x0fu8, 0x84u8, 0x7eu8, 0x00u8, 0x00u8, 0x00u8])),
            (0x43ff6fdu64, nop6(), Some(seq![0x0fu8, 0x84u8, 0x9au8, 0x00u8, 0x00u8, 0x00u8])),
            (0x43ff940u64, seq![0xebu8], Some(seq![0x74u8])),
        ],
    )
}

/// Wine feature patches: ray tracing.
pub open spec fn spec_raytracing_ops(c: bool) -> Seq<PatchView> {
    when(
        c,
        seq![
            (0x429f9d9u64, seq![0xebu8], Some(seq![0x74u8])),
            (0x43e8860u64, nop6(), Some(seq![0x0fu8, 0x85u8, 0x42u8, 0x02u8, 0x00u8, 0x00u8])),
        ],
    )
}

/// Wine feature patch: thread count.
pub open spec fn spec_threads_ops(c: bool) -> Seq<PatchView> {
    when(c, seq![(0x3e32b2au64, seq![0xebu8], Some(seq![0x74u8]))])
}

fn push_directstorage_ops(ops: &mut Vec<PatchOp>, c: bool)
    ensures
        patch_views(final(ops)@) =~~= patch_views(old(ops)@) + spec_directstorage_ops(c),
{
    if c {
        push_op(ops, 0x4705a5b, &[0x90, 0x90], Some(&[0x75, 0x21]));
    }
}

fn push_terrain_ops(ops: &mut Vec<PatchOp>, c: bool)
    ensures
        patch_views(final(ops)@) =~~= patch_views(old(ops)@) + spec_terrain_ops(c),
{
    if c {
        push_op(
            ops,
            0x4299712,
            &[0x90, 0x90, 0x90, 0x90, 0x90, 0x90],
            Some(&[0x0f, 0x85, 0xfd, 0x2d, 0x00, 0x00]),
        );
    }
}

fn push_xess_ops(ops: &mut Vec<PatchOp>, c: bool)
    ensures
        patch_views(final(ops)@) =~~= patch_views(old(ops)@) + spec_xess_ops(c),
{
    if c {
        push_op(
            ops,
            0x43ff1a3,
            &[0x90, 0x90, 0x90, 0x90, 0x90, 0x90],
            Some(&[0x0f, 0x84, 0x7e, 0x00, 0x00, 0x00]),
        );
        push_op(
            ops,
            0x43ff6fd,
            &[0x90, 0x90, 0x90, 0x90, 0x90, 0x90],
            Some(&[0x0f, 0x84, 0x9a, 0x00, 0x00, 0x00]),
        );
        push_op(ops, 0x43ff940, &[0xeb], Some(&[0x74]));
    }
}

fn push_raytracing_ops(ops: &mut Vec<PatchOp>, c: bool)
    ensures
        patch_views(final(ops)@) =~~= patch_views(old(ops)@) + spec_raytracing_ops(c),
{
    if c {
        push_op(ops, 0x429f9d9, &[0xeb], Some(&[0x74]));
        push_op(
            ops,
            0x43e8860,
            &[0x90, 0x90, 0x90, 0x90, 0x90, 0x90],
            Some(&[0x0f, 0x85, 0x42, 0x02, 0x00, 0x00]),
        );
    }
}

fn push_threads_ops(ops: &mut Vec<PatchOp>, c: bool)
    ensures
        patch_views(final(ops)@) =~~= patch_views(old(ops)@) + spec_threads_ops(c),
{
    if c {
        push_op(ops, 0x3e32b2a, &[0xeb], Some(&[0x74]));
    }
}

/// Appends the patches for features that the game turns off under wine.
fn push_wine_feature_ops(ops: &mut Vec<PatchOp>, p: Patches)
    requires
        p.wine != WinePatchMode::Enable && p.wine != WinePatchMode::Force,
    ensures
        patch_views(final(ops)@) =~~= patch_views(old(ops)@) + spec_wine_ops(p),
{
    let ghost start = patch_views(ops@);
    push_directstorage_ops(ops, p.wine_enable_directstorage);
    push_terrain_ops(ops, p.wine_reenable_terrain_shader);
    push_xess_ops(ops, p.wine_reenable_xess);
    push_raytracing_ops(ops, p.wine_reenable_raytracing);
    push_threads_ops(ops, p.wine_allow_more_threads);
    assert(spec_wine_ops(p) =~~= spec_directstorage_ops(p.wine_enable_directstorage)
        + spec_terrain_ops(p.wine_reenable_terrain_shader) + spec_xess_ops(p.wine_reenable_xess)
        + spec_raytracing_ops(p.wine_reenable_raytracing) + spec_threads_ops(
        p.wine_allow_more_threads,
    ));
}

/// Appends the patches for the wine check.
fn push_wine_ops(ops: &mut Vec<PatchOp>, p: Patches)
    ensures
        patch_views(final(ops)@) =~~= patch_views(old(ops)@) + spec_wine_ops(p),
{
    match p.wine {
        WinePatchMode::Enable => {
            push_op(ops, 0x6b9c8b0, &[0x00], Some(&[0x77]));
        },
        WinePatchMode::Force => {
            push_op(
                ops,
                0x3e29059,
                &[0x48, 0xc7, 0xc0, 0x01, 0x00, 0x00, 0x00, 0x90, 0x90],
                Some(&[0x48, 0x8b, 0xc8, 0xff, 0x15, 0x0e, 0x82, 0x28, 0x01]),
            );
        },
        _ => {
            push_wine_feature_ops(ops, p);
        },
    }
}

/// Appends the patches for the dxvk check.
fn push_dxvk_ops(ops: &mut Vec<PatchOp>, mode: WinePatchMode)
    ensures
        patch_views(final(ops)@) =~~= patch_views(old(ops)@) + spec_dxvk_ops(mode),
{
    match mode {
        WinePatchMode::Enable => {
            push_op(ops, 0x6d502b0, &[0x00], Some(&[0x57]));
        },
        WinePatchMode::Force => {
            push_op(ops, 0x6d502b0, &[0xeb, 0x12], Some(&[0x74, 0x19]));
        },
        _ => {},
    }
}

/// The patches to apply to `game` under `patches`, whose `Auto` modes are
/// decided from the `SteamOS` and `SteamDeck` environment variables.
pub fn plan_patches(game: LuminousGame, patches: Patches, is_steamos: bool, is_steamdeck: bool) -> (r:
    Vec<PatchOp>)
    requires
        game != LuminousGame::LuminousEngine,
    ensures
        patch_views(r@) =~~= spec_plan_for(
            game,
            spec_resolve_patches(patches, is_steamos, is_steamdeck),
        ),
{
    let p = resolve_patches(patches, is_steamos, is_steamdeck);
    let mut ops: Vec<PatchOp> = Vec::new();
    let ghost empty: Seq<PatchView> = seq![];
    assert(patch_views(ops@) =~~= empty);
    match game {
        LuminousGame::FinalFantasyXV => {
            if p.dll_signature {
                push_op(&mut ops, 0x2ddaaa0, &[0xc3], None);
                push_op(&mut ops, 0xeeb46e0, &[0xc3], None);
                push_op(&mut ops, 0xeeb5120, &[0xc3], None);
            }
            assert(patch_views(ops@) =~~= spec_plan_for(game, p));
        },
        _ => {
            if p.dll_signature {
                push_op(&mut ops, 0x3e2d9bb, &[0xeb], Some(&[0x75]));
            }
            let ghost e1 = when(
                p.dll_signature,
                seq![(0x3e2d9bbu64, seq![0xebu8], Some(seq![0x75u8]))],
            );
            assert(patch_views(ops@) =~~= e1);
            if p.anti_debugger {
                push_op(&mut ops, 0x0799bac, &[0xeb], Some(&[0x74]));
            }
            let ghost e2 = e1 + when(
                p.anti_debugger,
                seq![(0x0799bacu64, seq![0xebu8], Some(seq![0x74u8]))],
            );
            assert(patch_views(ops@) =~~= e2);
            push_steamdeck_ops(&mut ops, p.steamdeck);
            push_wine_ops(&mut ops, p);
            push_dxvk_ops(&mut ops, p.dxvk);
            let ghost e3 = e2 + spec_steamdeck_ops(p.steamdeck) + spec_wine_ops(p) + spec_dxvk_ops(
                p.dxvk,
            );
            assert(patch_views(ops@) =~~= e3);
            if p.disable_benchmark_results {
                push_op(&mut ops, 0x3185590, &[0xc3], Some(&[0x48]));
            }
            let ghost e4 = e3 + when(
                p.disable_benchmark_results,
                seq![(0x3185590u64, seq![0xc3u8], Some(seq![0x48u8]))],
            );
            assert(patch_views(ops@) =~~= e4);
            assert(e4 =~~= spec_plan_for(game, p));
        },
    }
    ops
}

/// Whether `ops` hold a patch at `offset`.
pub open spec fn plans_at(ops: Seq<PatchView>, offset: u64) -> bool {
    exists|i: int| 0 <= i < ops.len() && ops[i].0 == offset
}

proof fn lemma_plans_at_add(a: Seq<PatchView>, b: Seq<PatchView>, o: u64)
    ensures
        plans_at(a + b, o) == (plans_at(a, o) || plans_at(b, o)),
{
    if plans_at(a + b, o) {
        let i = choose|i: int| 0 <= i < (a + b).len() && (a + b)[i].0 == o;
        if i < a.len() {
            assert(a[i] == (a + b)[i]);
        } else {
            assert(b[i - a.len()] == (a + b)[i]);
        }
    }
    if plans_at(a, o) {
        let i = choose|i: int| 0 <= i < a.len() && a[i].0 == o;
        assert((a + b)[i] == a[i]);
    }
    if plans_at(b, o) {
        let i = choose|i: int| 0 <= i < b.len() && b[i].0 == o;
        assert((a + b)[a.len() + i] == b[i]);
    }
}

proof fn lemma_plans_at_when(c: bool, ops: Seq<PatchView>, o: u64)
    ensures
        plans_at(when(c, ops), o) == (c && plans_at(ops, o)),
{
}

proof fn lemma_plans_at_one(x: PatchView, o: u64)
    ensures
        plans_at(seq![x], o) == (x.0 == o),
{
    if x.0 == o {
        assert(seq![x][0] == x);
    }
}

proof fn lemma_plans_at_two(x: PatchView, y: PatchView, o: u64)
    ensures
        plans_at(seq![x, y], o) == (x.0 == o || y.0 == o),
{
    assert(seq![x, y] =~= seq![x] + seq![y]);
    lemma_plans_at_add(seq![x], seq![y], o);
    lemma_plans_at_one(x, o);
    lemma_plans_at_one(y, o);
}

proof fn lemma_plans_at_three(x: PatchView, y: PatchView, z: PatchView, o: u64)
    ensures
        plans_at(seq![x, y, z], o) == (x.0 == o || y.0 == o || z.0 == o),
{
    assert(seq![x, y, z] =~= seq![x, y] + seq![z]);
    lemma_plans_at_add(seq![x, y], seq![z], o);
    lemma_plans_at_two(x, y, o);
    lemma_plans_at_one(z, o);
}

proof fn lemma_plans_at_empty(o: u64)
    ensures
        !plans_at(Seq::<PatchView>::empty(), o),
{
}

/// Where the wine feature patches of Forspoken lie, when its wine check is
/// left alone.
proof fn lemma_wine_features_at(p: Patches, o: u64)
    ensures
        plans_at(
            spec_directstorage_ops(p.wine_enable_directstorage) + spec_terrain_ops(p.wine_reenable_terrain_shader)
                + spec_xess_ops(p.wine_reenable_xess) + spec_raytracing_ops(p.wine_reenable_raytracing)
                + spec_threads_ops(p.wine_allow_more_threads),
            o,
        ) == ((p.wine_enable_directstorage && o == 0x4705a5b) || (p.wine_reenable_terrain_shader && o
            == 0x4299712) || (p.wine_reenable_xess && (o == 0x43ff1a3 || o == 0x43ff6fd || o == 0x43ff940))
            || (p.wine_reenable_raytracing && (o == 0x429f9d9 || o == 0x43e8860)) || (p.wine_allow_more_threads
            && o == 0x3e32b2a)),
{
    let d = spec_directstorage_ops(p.wine_enable_directstorage);
    let t = spec_terrain_ops(p.wine_reenable_terrain_shader);
    let x = spec_xess_ops(p.wine_reenable_xess);
    let r = spec_raytracing_ops(p.wine_reenable_raytracing);
    let h = spec_threads_ops(p.wine_allow_more_threads);
    lemma_plans_at_add(d + t + x + r, h, o);
    lemma_plans_at_add(d + t + x, r, o);
    lemma_plans_at_add(d + t, x, o);
    lemma_plans_at_add(d, t, o);
    lemma_plans_at_one((0x4705a5bu64, seq![0x90u8, 0x90u8], Some(seq![0x75u8, 0x21u8])), o);
    lemma_plans_at_one((0x4299712u64, nop6(), Some(seq![0x0fu8, 0x85u8, 0xfdu8, 0x2du8, 0x00u8, 0x00u8])), o);
    lemma_plans_at_three(
        (0x43ff1a3u64, nop6(), Some(seq![0x0fu8, 0x84u8, 0x7eu8, 0x00u8, 0x00u8, 0x00u8])),
        (0x43ff6fdu64, nop6(), Some(seq![0x0fu8, 0x84u8, 0x9au8, 0x00u8, 0x00u8, 0x00u8])),
        (0x43ff940u64, seq![0xebu8], Some(seq![0x74u8])),
        o,
    );
    lemma_plans_at_two(
        (0x429f9d9u64, seq![0xebu8], Some(seq![0x74u8])),
        (0x43e8860u64, nop6(), Some(seq![0x0fu8, 0x85u8, 0x42u8, 0x02u8, 0x00u8, 0x00u8])),
        o,
    );
    lemma_plans_at_one((0x3e32b2au64, seq![0xebu8], Some(seq![0x74u8])), o);
    lemma_plans_at_empty(o);
}

/// Where the patches of a plan lie: for Final Fantasy XV the signature
/// checks, for the other games the signature check, the debugger check, the
/// SteamDeck check, the wine check or (when it is left alone) the wine
/// features, the dxvk check and the benchmark upload, each where its switch
/// or mode asks for it.
proof fn lemma_plan_at(game: LuminousGame, p: Patches, o: u64)
    ensures
        plans_at(spec_plan_for(game, p), o) == if game == LuminousGame::FinalFantasyXV {
            p.dll_signature && (o == 0x2ddaaa0 || o == 0xeeb46e0 || o == 0xeeb5120)
        } else {
            ||| (p.dll_signature && o == 0x3e2d9bb)
            ||| (p.anti_debugger && o == 0x0799bac)
            ||| ((p.steamdeck == WinePatchMode::Enable || p.steamdeck == WinePatchMode::Force) && o
                == 0x3e29034)
            ||| (p.wine == WinePatchMode::Enable && o == 0x6b9c8b0)
            ||| (p.wine == WinePatchMode::Force && o == 0x3e29059)
            ||| ((p.wine == WinePatchMode::Auto || p.wine == WinePatchMode::Disable) && (
            (p.wine_enable_directstorage && o == 0x4705a5b) || (p.wine_reenable_terrain_shader && o
                == 0x4299712) || (p.wine_reenable_xess && (o == 0x43ff1a3 || o == 0x43ff6fd || o
                == 0x43ff940)) || (p.wine_reenable_raytracing && (o == 0x429f9d9 || o == 0x43e8860))
                || (p.wine_allow_more_threads && o == 0x3e32b2a)))
            ||| ((p.dxvk == WinePatchMode::Enable || p.dxvk == WinePatchMode::Force) && o == 0x6d502b0)
            ||| (p.disable_benchmark_results && o == 0x3185590)
        },
{
    lemma_plans_at_empty(o);
    if game == LuminousGame::FinalFantasyXV {
        lemma_plans_at_three(
            (0x2ddaaa0u64, seq![0xc3u8], None),
            (0xeeb46e0u64, seq![0xc3u8], None),
            (0xeeb5120u64, seq![0xc3u8], None),
            o,
        );
    } else {
        let a = when(p.dll_signature, seq![(0x3e2d9bbu64, seq![0xebu8], Some(seq![0x75u8]))]);
        let b = when(p.anti_debugger, seq![(0x0799bacu64, seq![0xebu8], Some(seq![0x74u8]))]);
        let c = spec_steamdeck_ops(p.steamdeck);
        let w = spec_wine_ops(p);
        let x = spec_dxvk_ops(p.dxvk);
        let f = when(p.disable_benchmark_results, seq![(0x3185590u64, seq![0xc3u8], Some(seq![0x48u8]))]);
        assert(spec_plan_for(game, p) == a + b + c + w + x + f);
        lemma_plans_at_add(a + b + c + w + x, f, o);
        lemma_plans_at_add(a + b + c + w, x, o);
        lemma_plans_at_add(a + b + c, w, o);
        lemma_plans_at_add(a + b, c, o);
        lemma_plans_at_add(a, b, o);
        lemma_plans_at_one((0x3e2d9bbu64, seq![0xebu8], Some(seq![0x75u8])), o);
        lemma_plans_at_one((0x0799bacu64, seq![0xebu8], Some(seq![0x74u8])), o);
        lemma_plans_at_one((0x3185590u64, seq![0xc3u8], Some(seq![0x48u8])), o);
        let check = seq![0xffu8, 0x90u8, 0x10u8, 0x01u8, 0x00u8, 0x00u8];
        lemma_plans_at_one((0x3e29034u64, seq![0xb8u8, 0x00u8, 0x00u8, 0x00u8, 0x00u8, 0x90u8], Some(check)), o);
        lemma_plans_at_one((0x3e29034u64, seq![0xb8u8, 0x01u8, 0x00u8, 0x00u8, 0x00u8, 0x90u8], Some(check)), o);
        lemma_plans_at_one((0x6b9c8b0u64, seq![0x00u8], Some(seq![0x77u8])), o);
        lemma_plans_at_one(
            (
                0x3e29059u64,
                seq![0x48u8, 0xc7u8, 0xc0u8, 0x01u8, 0x00u8, 0x00u8, 0x00u8, 0x90u8, 0x90u8],
                Some(seq![0x48u8, 0x8bu8, 0xc8u8, 0xffu8, 0x15u8, 0x0eu8, 0x82u8, 0x28u8, 0x01u8]),
            ),
            o,
        );
        lemma_plans_at_one((0x6d502b0u64, seq![0x00u8], Some(seq![0x57u8])), o);
        lemma_plans_at_one((0x6d502b0u64, seq![0xebu8, 0x12u8], Some(seq![0x74u8, 0x19u8])), o);
        lemma_wine_features_at(p, o);
    }
}

/// Each wine feature of Forspoken is patched exactly when its switch is on
/// and the wine check is left alone: a switch that is off plans none of its
/// patches in any game, and one that is on plans all of them in Forspoken
/// when the resolved wine mode is `Disable`.
pub proof fn lemma_wine_features_follow_switches(
    game: LuminousGame,
    patches: Patches,
    is_steamos: bool,
    is_steamdeck: bool,
)
    ensures
        ({
            let p = spec_resolve_patches(patches, is_steamos, is_steamdeck);
            let plan = spec_plan_for(game, p);
            let open = game == LuminousGame::FORSPOKEN && p.wine == WinePatchMode::Disable;
            &&& !patches.wine_reenable_xess ==> !plans_at(plan, 0x43ff1a3) && !plans_at(plan, 0x43ff6fd)
                && !plans_at(plan, 0x43ff940)
            &&& open && patches.wine_reenable_xess ==> plans_at(plan, 0x43ff1a3) && plans_at(plan, 0x43ff6fd)
                && plans_at(plan, 0x43ff940)
            &&& !patches.wine_enable_directstorage ==> !plans_at(plan, 0x4705a5b)
            &&& open && patches.wine_enable_directstorage ==> plans_at(plan, 0x4705a5b)
            &&& !patches.wine_reenable_terrain_shader ==> !plans_at(plan, 0x4299712)
            &&& open && patches.wine_reenable_terrain_shader ==> plans_at(plan, 0x4299712)
            &&& !patches.wine_reenable_raytracing ==> !plans_at(plan, 0x429f9d9) && !plans_at(plan, 0x43e8860)
            &&& open && patches.wine_reenable_raytracing ==> plans_at(plan, 0x429f9d9) && plans_at(
                plan,
                0x43e8860,
            )
            &&& !patches.wine_allow_more_threads ==> !plans_at(plan, 0x3e32b2a)
            &&& open && patches.wine_allow_more_threads ==> plans_at(plan, 0x3e32b2a)
        }),
{
    let p = spec_resolve_patches(patches, is_steamos, is_steamdeck);
    lemma_plan_at(game, p, 0x43ff1a3);
    lemma_plan_at(game, p, 0x43ff6fd);
    lemma_plan_at(game, p, 0x43ff940);
    lemma_plan_at(game, p, 0x4705a5b);
    lemma_plan_at(game, p, 0x4299712);
    lemma_plan_at(game, p, 0x429f9d9);
    lemma_plan_at(game, p, 0x43e8860);
    lemma_plan_at(game, p, 0x3e32b2a);
}

/// The signature check, debugger check and benchmark upload patches are
/// planned exactly when their switches are on: never when off, and in
/// Forspoken always when on.
pub proof fn lemma_plain_switches_follow_settings(
    game: LuminousGame,
    patches: Patches,
    is_steamos: bool,
    is_steamdeck: bool,
)
    ensures
        ({
            let p = spec_resolve_patches(patches, is_steamos, is_steamdeck);
            let plan = spec_plan_for(game, p);
            &&& !patches.dll_signature ==> !plans_at(plan, 0x3e2d9bb) && !plans_at(plan, 0x2ddaaa0)
                && !plans_at(plan, 0xeeb46e0) && !plans_at(plan, 0xeeb5120)
            &&& game == LuminousGame::FORSPOKEN && patches.dll_signature ==> plans_at(plan, 0x3e2d9bb)
            &&& game == LuminousGame::FinalFantasyXV && patches.dll_signature ==> plans_at(plan, 0x2ddaaa0)
                && plans_at(plan, 0xeeb46e0) && plans_at(plan, 0xeeb5120)
            &&& !patches.anti_debugger ==> !plans_at(plan, 0x0799bac)
            &&& game == LuminousGame::FORSPOKEN && patches.anti_debugger ==> plans_at(plan, 0x0799bac)
            &&& !patches.disable_benchmark_results ==> !plans_at(plan, 0x3185590)
            &&& game == LuminousGame::FORSPOKEN && patches.disable_benchmark_results ==> plans_at(
                plan,
                0x3185590,
            )
        }),
{
    let p = spec_resolve_patches(patches, is_steamos, is_steamdeck);
    lemma_plan_at(game, p, 0x3e2d9bb);
    lemma_plan_at(game, p, 0x2ddaaa0);
    lemma_plan_at(game, p, 0xeeb46e0);
    lemma_plan_at(game, p, 0xeeb5120);
    lemma_plan_at(game, p, 0x0799bac);
    lemma_plan_at(game, p, 0x3185590);
}

} // verus!
